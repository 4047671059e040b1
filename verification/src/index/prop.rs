//! The handle to a property of an indexed tree.
use crate::base::tree::DevTree;
use crate::common::item::ItemView;
use crate::common::prop::{DevTreePropState, DevTreePropStateBase};
use crate::index::node::DevTreeIndexNode;
use crate::index::store::{spec_field, F_PROP_NAME, F_VALUE_LEN, F_VALUE_OFF};
use crate::index::tree::{spec_is_node, spec_rec_view, spec_succ, DevTreeIndex};
use vstd::prelude::*;

verus! {

/// A property of an indexed tree: the index, the number of the record of
/// the node that owns it, and the number of its own record.
#[derive(Clone, Copy)]
pub struct DevTreeIndexProp<'a, 'i, 'dt> {
    pub index: &'a DevTreeIndex<'i, 'dt>,
    pub node: usize,
    pub prop: usize,
}

impl<'a, 'i, 'dt> View for DevTreeIndexProp<'a, 'i, 'dt> {
    type V = ItemView;

    open spec fn view(&self) -> ItemView {
        spec_rec_view(self.index.buf@, self.index.fdt@, self.prop as int)
    }
}

impl<'a, 'i, 'dt> DevTreeIndexProp<'a, 'i, 'dt> {
    /// The index is valid, the owner is one of its nodes, and the record is
    /// among those of the owner's properties.
    pub open spec fn wf(&self) -> bool {
        &&& self.index.wf()
        &&& self.node < self.index.len
        &&& spec_is_node(self.index.buf@, self.node as int)
        &&& self.node < self.prop < spec_succ(self.index.buf@, self.node as int)
    }

    /// The bytes of the value.
    pub open spec fn spec_value(&self) -> Seq<u8> {
        self.index.fdt@.subrange(
            spec_field(self.index.buf@, self.prop as int, F_VALUE_OFF as int) as int,
            spec_field(self.index.buf@, self.prop as int, F_VALUE_OFF as int) + spec_field(
                self.index.buf@,
                self.prop as int,
                F_VALUE_LEN as int,
            ),
        )
    }

    /// A handle to record `prop` of `index`, a property of node `node`.
    pub fn new(index: &'a DevTreeIndex<'i, 'dt>, node: usize, prop: usize) -> (r: Self)
        ensures
            r.index == index,
            r.node == node,
            r.prop == prop,
    {
        Self { index, node, prop }
    }

    /// The node that the property belongs to.
    pub fn node(&self) -> (r: DevTreeIndexNode<'a, 'i, 'dt>)
        requires
            self.wf(),
        ensures
            r.wf(),
            r.index == self.index,
            r.node == self.node,
    {
        DevTreeIndexNode::new(self.index, self.node)
    }
}

impl<'a, 'i, 'dt> DevTreePropStateBase<'dt> for DevTreeIndexProp<'a, 'i, 'dt> {
    open spec fn spec_propbuf(&self) -> Seq<u8> {
        self.spec_value()
    }

    open spec fn spec_nameoff(&self) -> int {
        spec_field(self.index.buf@, self.prop as int, F_PROP_NAME as int) as int
    }

    open spec fn spec_tree(&self) -> Seq<u8> {
        self.index.fdt@
    }

    open spec fn spec_strings(&self) -> int {
        self.index.fdt.spec_off_dt_strings()
    }

    open spec fn spec_valid(&self) -> bool {
        self.wf()
    }

    fn propbuf(&self) -> (r: &'dt [u8]) {
        self.index.prop_rec(self.node, self.prop).propbuf
    }

    fn nameoff(&self) -> (r: usize) {
        self.index.prop_rec(self.node, self.prop).nameoff
    }

    fn fdt(&self) -> (r: &DevTree<'dt>) {
        &self.index.fdt
    }
}

impl<'a, 'i, 'dt> DevTreePropState<'dt> for DevTreeIndexProp<'a, 'i, 'dt> {

}

} // verus!
