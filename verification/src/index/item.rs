//! What the cursor over an index yields.
use crate::common::item::ItemView;
use crate::common::iter::UnwrappableDevTreeItem;
use crate::index::node::DevTreeIndexNode;
use crate::index::prop::DevTreeIndexProp;
use vstd::prelude::*;

verus! {

/// Either a node or a property of an indexed tree.
#[derive(Clone, Copy)]
pub enum DevTreeIndexItem<'a, 'i, 'dt> {
    Node(DevTreeIndexNode<'a, 'i, 'dt>),
    Prop(DevTreeIndexProp<'a, 'i, 'dt>),
}

impl<'a, 'i, 'dt> View for DevTreeIndexItem<'a, 'i, 'dt> {
    type V = ItemView;

    open spec fn view(&self) -> ItemView {
        match self {
            DevTreeIndexItem::Node(node) => node@,
            DevTreeIndexItem::Prop(prop) => prop@,
        }
    }
}

impl<'a, 'i, 'dt> DevTreeIndexItem<'a, 'i, 'dt> {
    /// The handle is valid.
    pub open spec fn wf(&self) -> bool {
        match self {
            DevTreeIndexItem::Node(node) => node.wf(),
            DevTreeIndexItem::Prop(prop) => prop.wf(),
        }
    }
}

impl<'a, 'i, 'dt> UnwrappableDevTreeItem for DevTreeIndexItem<'a, 'i, 'dt> {
    type TreeNode = DevTreeIndexNode<'a, 'i, 'dt>;

    type TreeProp = DevTreeIndexProp<'a, 'i, 'dt>;

    open spec fn spec_node(&self) -> Option<DevTreeIndexNode<'a, 'i, 'dt>> {
        match self {
            DevTreeIndexItem::Node(node) => Some(*node),
            DevTreeIndexItem::Prop(_) => None,
        }
    }

    open spec fn spec_prop(&self) -> Option<DevTreeIndexProp<'a, 'i, 'dt>> {
        match self {
            DevTreeIndexItem::Prop(prop) => Some(*prop),
            DevTreeIndexItem::Node(_) => None,
        }
    }

    fn consume(self) -> (r: (
        Option<DevTreeIndexNode<'a, 'i, 'dt>>,
        Option<DevTreeIndexProp<'a, 'i, 'dt>>,
    )) {
        match self {
            DevTreeIndexItem::Node(n) => (Some(n), None),
            DevTreeIndexItem::Prop(p) => (None, Some(p)),
        }
    }

    fn node(self) -> (r: Option<DevTreeIndexNode<'a, 'i, 'dt>>) {
        match self {
            DevTreeIndexItem::Node(node) => Some(node),
            _ => None,
        }
    }

    fn prop(self) -> (r: Option<DevTreeIndexProp<'a, 'i, 'dt>>) {
        match self {
            DevTreeIndexItem::Prop(prop) => Some(prop),
            _ => None,
        }
    }
}

} // verus!
