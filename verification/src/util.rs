pub mod random;
pub mod uid;
