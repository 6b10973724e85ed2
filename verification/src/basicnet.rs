pub mod dummylayer3;
pub mod nettraits;
pub mod packet;
pub mod simbase;
pub mod simplelayer2;
pub mod types;
