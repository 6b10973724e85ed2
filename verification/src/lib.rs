pub mod basicnet;
pub mod channel;
pub mod channels;
pub mod component;
pub mod dummycomponent;
pub mod environment;
pub mod keys;
pub mod lcr;
pub mod scheduler;
pub mod sim;
pub mod simpledv;
pub mod simtime;
pub mod synch;
pub mod topo;
pub mod util;
