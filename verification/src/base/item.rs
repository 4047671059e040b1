//! What the cursor over a tree yields.
use crate::base::node::DevTreeNode;
use crate::base::prop::DevTreeProp;
use crate::common::item::ItemView;
use crate::common::iter::UnwrappableDevTreeItem;
use vstd::prelude::*;

verus! {

/// Either a node or a property of a tree.
#[derive(Clone, Copy)]
pub enum DevTreeItem<'a, 'dt> {
    Node(DevTreeNode<'a, 'dt>),
    Prop(DevTreeProp<'a, 'dt>),
}

impl<'a, 'dt> View for DevTreeItem<'a, 'dt> {
    type V = ItemView;

    open spec fn view(&self) -> ItemView {
        match self {
            DevTreeItem::Node(node) => node@,
            DevTreeItem::Prop(prop) => prop@,
        }
    }
}

impl<'a, 'dt> UnwrappableDevTreeItem for DevTreeItem<'a, 'dt> {
    type TreeNode = DevTreeNode<'a, 'dt>;

    type TreeProp = DevTreeProp<'a, 'dt>;

    open spec fn spec_node(&self) -> Option<DevTreeNode<'a, 'dt>> {
        match self {
            DevTreeItem::Node(node) => Some(*node),
            DevTreeItem::Prop(_) => None,
        }
    }

    open spec fn spec_prop(&self) -> Option<DevTreeProp<'a, 'dt>> {
        match self {
            DevTreeItem::Prop(prop) => Some(*prop),
            DevTreeItem::Node(_) => None,
        }
    }

    fn consume(self) -> (r: (Option<DevTreeNode<'a, 'dt>>, Option<DevTreeProp<'a, 'dt>>)) {
        match self {
            DevTreeItem::Node(n) => (Some(n), None),
            DevTreeItem::Prop(p) => (None, Some(p)),
        }
    }

    fn node(self) -> (r: Option<DevTreeNode<'a, 'dt>>) {
        match self {
            DevTreeItem::Node(node) => Some(node),
            _ => None,
        }
    }

    fn prop(self) -> (r: Option<DevTreeProp<'a, 'dt>>) {
        match self {
            DevTreeItem::Prop(prop) => Some(prop),
            _ => None,
        }
    }
}

} // verus!
