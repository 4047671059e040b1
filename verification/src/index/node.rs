//! The handle to a node of an indexed tree.
use crate::base::node::bytes_as_str;
use crate::common::item::ItemView;
use crate::error::DevTreeError;
use crate::index::iters::{
    DevTreeIndexIter, DevTreeIndexNodePropIter, DevTreeIndexNodeSiblingIter,
};
use crate::index::store::{spec_field, F_NAME_LEN, F_NAME_OFF};
use crate::index::tree::{spec_first_child, spec_is_node, spec_rec_view, DevTreeIndex};
use vstd::prelude::*;
use vstd::slice::slice_subrange;
use vstd::string::StringSliceAdditionalSpecFns;
use vstd::utf8::valid_utf8;

verus! {

/// A node of an indexed tree: the index and the number of the node's record.
#[derive(Clone, Copy)]
pub struct DevTreeIndexNode<'a, 'i, 'dt> {
    pub index: &'a DevTreeIndex<'i, 'dt>,
    pub node: usize,
}

impl<'a, 'i, 'dt> View for DevTreeIndexNode<'a, 'i, 'dt> {
    type V = ItemView;

    open spec fn view(&self) -> ItemView {
        spec_rec_view(self.index.buf@, self.index.fdt@, self.node as int)
    }
}

impl<'a, 'i, 'dt> DevTreeIndexNode<'a, 'i, 'dt> {
    /// The index is valid and the record is one of its nodes.
    pub open spec fn wf(&self) -> bool {
        &&& self.index.wf()
        &&& self.node < self.index.len
        &&& spec_is_node(self.index.buf@, self.node as int)
    }

    /// The bytes of the node's name.
    pub open spec fn spec_name(&self) -> Seq<u8> {
        self.index.fdt@.subrange(
            spec_field(self.index.buf@, self.node as int, F_NAME_OFF as int) as int,
            spec_field(self.index.buf@, self.node as int, F_NAME_OFF as int) + spec_field(
                self.index.buf@,
                self.node as int,
                F_NAME_LEN as int,
            ),
        )
    }

    /// A handle to record `node` of `index`.
    pub fn new(index: &'a DevTreeIndex<'i, 'dt>, node: usize) -> (r: Self)
        ensures
            r.index == index,
            r.node == node,
    {
        Self { node, index }
    }

    /// The bytes of the node's name, unit address included.
    pub fn name_bytes(&self) -> (r: &'dt [u8])
        requires
            self.wf(),
        ensures
            r@ == self.spec_name(),
            self@ == (ItemView::Node { name: r@ }),
    {
        let rec = self.index.node_rec(self.node);
        slice_subrange(self.index.fdt.buf(), rec.name_off, rec.name_off + rec.name_len)
    }

    /// The name of the node as text, unit address included.
    pub fn name(&self) -> (r: Result<&'dt str, DevTreeError>)
        requires
            self.wf(),
        ensures
            r is Ok <==> valid_utf8(self.spec_name()),
            r matches Ok(s) ==> s.spec_bytes() == self.spec_name(),
            r matches Err(e) ==> e is StrError,
    {
        bytes_as_str(self.name_bytes())
    }

    /// A cursor that yields this node and then each sibling that follows it.
    pub fn siblings(&self) -> (r: DevTreeIndexNodeSiblingIter<'a, 'i, 'dt>)
        requires
            self.wf(),
        ensures
            r.0.wf(),
            r.0 == DevTreeIndexIter::spec_from_node(*self),
    {
        DevTreeIndexNodeSiblingIter(DevTreeIndexIter::from_node(*self))
    }

    /// A cursor over the children of this node, in their order.
    pub fn children(&self) -> (r: DevTreeIndexNodeSiblingIter<'a, 'i, 'dt>)
        requires
            self.wf(),
        ensures
            r.0.wf_at(),
            r.0.index == self.index,
            r.0.prop_idx == 0,
            r.0.initial_node_returned,
            crate::index::store::spec_opt(r.0.node) == spec_first_child(
                self.index.buf@,
                self.node as int,
            ),
    {
        let rec = self.index.node_rec(self.node);
        DevTreeIndexNodeSiblingIter(
            DevTreeIndexIter {
                index: self.index,
                node: rec.first_child,
                prop_idx: 0,
                initial_node_returned: true,
            },
        )
    }

    /// A cursor over the properties of this node.
    pub fn props(&self) -> (r: DevTreeIndexNodePropIter<'a, 'i, 'dt>)
        requires
            self.wf(),
        ensures
            r.0.wf(),
            r.0 == DevTreeIndexIter::spec_from_node(*self),
    {
        DevTreeIndexNodePropIter(DevTreeIndexIter::from_node(*self))
    }
}

} // verus!
