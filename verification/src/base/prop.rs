//! The handle to a property of a node.
use crate::base::iters::DevTreeIter;
use crate::base::node::DevTreeNode;
use crate::base::parse::{lemma_token_advances, next_devtree_token, spec_token, ParsedTok};
use crate::base::tree::DevTree;
use crate::common::item::ItemView;
use crate::common::prop::{DevTreePropState, DevTreePropStateBase};
use vstd::prelude::*;
use vstd::slice::slice_subrange;

verus! {

/// A property: its value, where its name stands in the strings block, and
/// the cursor as it stood at the token that opened the node it belongs to,
/// before that token was read.
#[derive(Clone, Copy)]
pub struct DevTreeProp<'a, 'dt> {
    pub parent_iter: DevTreeIter<'a, 'dt>,
    pub propbuf: &'dt [u8],
    pub nameoff: usize,
}

impl<'a, 'dt> View for DevTreeProp<'a, 'dt> {
    type V = ItemView;

    open spec fn view(&self) -> ItemView {
        ItemView::Prop { value: self.propbuf@, name_offset: self.nameoff as int }
    }
}

impl<'a, 'dt> DevTreeProp<'a, 'dt> {
    /// The owner's cursor is valid and stands at a `BeginNode` token, which
    /// it has not read yet.
    pub open spec fn wf(&self) -> bool {
        &&& self.parent_iter.wf()
        &&& self.parent_iter.current_prop_parent_off is None
        &&& spec_token(self.parent_iter.fdt@, self.parent_iter.offset as int) is BeginNode
    }

    /// A handle from its parts.
    pub(crate) fn new(parent_iter: DevTreeIter<'a, 'dt>, propbuf: &'dt [u8], nameoff: usize) -> (r:
        Self)
        ensures
            r.parent_iter == parent_iter,
            r.propbuf == propbuf,
            r.nameoff == nameoff,
    {
        Self { parent_iter, propbuf, nameoff }
    }

    /// The node that the property belongs to.
    pub fn node(&self) -> (r: DevTreeNode<'a, 'dt>)
        requires
            self.wf(),
        ensures
            r.wf(),
            r.parse_iter == self.parent_iter.spec_after(),
            r.parse_iter.current_prop_parent_off == Some(self.parent_iter.offset),
            r.parse_iter.depth == self.parent_iter.depth + 1,
            r.parse_iter.fdt == self.parent_iter.fdt,
    {
        proof {
            lemma_token_advances(self.parent_iter.fdt@, self.parent_iter.offset as int);
        }
        let buf: &'dt [u8] = self.parent_iter.fdt.buf();
        let at: usize = self.parent_iter.offset;
        let mut off: usize = at;
        let name: &'dt [u8] = match next_devtree_token(buf, &mut off) {
            Ok(Some(ParsedTok::BeginNode(node))) => node.name,
            _ => slice_subrange(buf, 0, 0),
        };
        DevTreeNode {
            name,
            parse_iter: DevTreeIter::at(
                self.parent_iter.fdt,
                off,
                Some(at),
                self.parent_iter.depth + 1,
            ),
        }
    }
}

impl<'a, 'dt> DevTreePropStateBase<'dt> for DevTreeProp<'a, 'dt> {
    open spec fn spec_propbuf(&self) -> Seq<u8> {
        self.propbuf@
    }

    open spec fn spec_nameoff(&self) -> int {
        self.nameoff as int
    }

    open spec fn spec_tree(&self) -> Seq<u8> {
        self.parent_iter.fdt@
    }

    open spec fn spec_strings(&self) -> int {
        self.parent_iter.fdt.spec_off_dt_strings()
    }

    open spec fn spec_valid(&self) -> bool {
        self.wf()
    }

    fn propbuf(&self) -> (r: &'dt [u8]) {
        self.propbuf
    }

    fn nameoff(&self) -> (r: usize) {
        self.nameoff
    }

    fn fdt(&self) -> (r: &DevTree<'dt>) {
        self.parent_iter.fdt
    }
}

impl<'a, 'dt> DevTreePropState<'dt> for DevTreeProp<'a, 'dt> {

}

} // verus!
