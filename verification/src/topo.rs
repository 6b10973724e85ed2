pub mod graph;
pub mod topo;
pub mod topobuilder;
pub mod topodecl;
pub mod sim;
pub mod topogen;
pub mod anchoredrandomgraph;
