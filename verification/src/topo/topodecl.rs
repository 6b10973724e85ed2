//! What the nodes and edges of a topology carry.

use crate::keys::{ChannelId, ComponentId};
use vstd::prelude::*;

verus! {

/// A node: what the caller attached to it, and the component that was
/// built for it, once there is one.
#[derive(Debug)]
pub struct TopoNode<NodeData> {
    pub component_id: Option<ComponentId>,
    pub data: NodeData,
}

/// An edge: what the caller attached to it, and the channel that was built
/// for it, once there is one.
#[derive(Debug)]
pub struct TopoEdge<EdgeData> {
    pub channle_id: Option<ChannelId>,
    pub data: EdgeData,
}

} // verus!
