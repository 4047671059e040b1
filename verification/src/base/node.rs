//! The handle to a node of a tree.
use crate::base::iters::{DevTreeIter, DevTreeNodePropIter};
use crate::base::parse::{spec_token, TokenView};
use crate::common::item::ItemView;
use crate::common::iter::spec_compatible_search;
use crate::error::DevTreeError;
use vstd::prelude::*;
use vstd::string::StringSliceAdditionalSpecFns;
use vstd::utf8::valid_utf8;

verus! {

/// `core::str::from_utf8`: it accepts exactly the byte strings that are
/// valid UTF-8, and the text it returns has the bytes it was given.
pub assume_specification<'a>[ core::str::from_utf8 ](v: &'a [u8]) -> (r: Result<
    &'a str,
    core::str::Utf8Error,
>)
    ensures
        r is Ok <==> valid_utf8(v@),
        r matches Ok(s) ==> s.spec_bytes() == v@,
;

/// Decodes bytes as text.
pub fn bytes_as_str<'a>(bytes: &'a [u8]) -> (r: Result<&'a str, DevTreeError>)
    ensures
        r is Ok <==> valid_utf8(bytes@),
        r matches Ok(s) ==> s.spec_bytes() == bytes@,
        r matches Err(e) ==> e is StrError,
{
    match core::str::from_utf8(bytes) {
        Ok(s) => Ok(s),
        Err(e) => Err(DevTreeError::from_utf8_error(e)),
    }
}

/// A node of a tree: its name, and the cursor as it stood right after the
/// node was opened.
#[derive(Clone, Copy)]
pub struct DevTreeNode<'a, 'dt> {
    pub name: &'dt [u8],
    pub parse_iter: DevTreeIter<'a, 'dt>,
}

impl<'a, 'dt> View for DevTreeNode<'a, 'dt> {
    type V = ItemView;

    open spec fn view(&self) -> ItemView {
        ItemView::Node { name: self.name@ }
    }
}

impl<'a, 'dt> DevTreeNode<'a, 'dt> {
    /// The cursor stands right after the token that opened this node, which
    /// is its open node, and the name is the one that the token holds.
    pub open spec fn wf(&self) -> bool {
        &&& self.parse_iter.wf()
        &&& self.parse_iter.current_prop_parent_off matches Some(p) && (spec_token(
            self.parse_iter.fdt@,
            p as int,
        ) matches TokenView::BeginNode { name_start, name_end, next } && self.parse_iter.offset
            == next && self.name@ == self.parse_iter.fdt@.subrange(name_start, name_end))
    }

    /// The items that follow the node in the tree.
    pub open spec fn items(&self) -> Seq<ItemView> {
        self.parse_iter.items()
    }

    /// The bytes of the node's name, unit address included.
    pub fn name_bytes(&self) -> (r: &'dt [u8])
        ensures
            r@ == self.name@,
    {
        self.name
    }

    /// The name of the node as text, unit address included.
    pub fn name(&self) -> (r: Result<&'dt str, DevTreeError>)
        ensures
            r is Ok <==> valid_utf8(self.name@),
            r matches Ok(s) ==> s.spec_bytes() == self.name@,
            r matches Err(e) ==> e is StrError,
    {
        bytes_as_str(self.name)
    }

    /// A cursor over the properties of this node: it ends where the next
    /// item is no property.
    pub fn props(&self) -> (r: DevTreeNodePropIter<'a, 'dt>)
        ensures
            r.0 == self.parse_iter,
    {
        DevTreeNodePropIter(self.parse_iter)
    }

    /// The first node after this one, in the order of the tree, that has a
    /// property `compatible` whose first string is `string`.
    pub fn find_next_compatible_node(&self, string: &str) -> (r: Option<DevTreeNode<'a, 'dt>>)
        requires
            self.wf(),
        ensures
            r is None <==> spec_compatible_search(self.parse_iter, string.spec_bytes()).spec_done(),
            r matches Some(node) ==> spec_compatible_search(
                self.parse_iter,
                string.spec_bytes(),
            ).spec_owner(node),
    {
        let mut iter = self.parse_iter;
        iter.next_compatible_node(string)
    }
}

} // verus!
