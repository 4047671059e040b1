//! The index and the single pass over the tokens that builds it.
use crate::base::iters::DevTreeIter;
use crate::base::parse::{
    lemma_token_advances, lemma_token_layout, spec_token, DevTreeParseIter, ParsedTok, TokenView,
};
use crate::base::tree::DevTree;
use crate::common::item::{lemma_items_unfold, spec_items, ItemView};
use crate::common::iter::{
    spec_compatible_search, spec_found_item, spec_found_node, spec_found_prop, IterableDevTree,
    TreeIterator,
};
use crate::error::DevTreeError;
use crate::index::iters::{
    DevTreeIndexItemIter, DevTreeIndexIter, DevTreeIndexNodeIter, DevTreeIndexPropIter,
};
use crate::index::builder::DTIBuilder;
use crate::index::item::DevTreeIndexItem;
use crate::index::node::DevTreeIndexNode;
use crate::index::prop::DevTreeIndexProp;
use crate::index::kin::{
    lemma_kin_sound, lemma_kin_start, lemma_owners_unfold, spec_links, spec_links_ok,
    spec_owners, spec_top,
};
use crate::index::store::{
    load, load_link, spec_capacity, spec_field, spec_link, spec_opt, F_FIRST_CHILD, F_NAME_LEN,
    F_NAME_OFF, F_NEXT, F_NUM_PROPS, F_PARENT, F_PROP_NAME, F_TAG, F_VALUE_LEN, F_VALUE_OFF,
    REC_ALIGN, REC_SIZE, TAG_NODE, TAG_PROP,
};
use vstd::prelude::*;
use vstd::slice::slice_subrange;
use vstd::string::StringSliceAdditionalSpecFns;

verus! {

/// Whether record `i` holds a node.
pub open spec fn spec_is_node(ib: Seq<u8>, i: int) -> bool {
    spec_field(ib, i, F_TAG as int) == TAG_NODE
}

/// Whether record `i` holds a property.
pub open spec fn spec_is_prop(ib: Seq<u8>, i: int) -> bool {
    spec_field(ib, i, F_TAG as int) == TAG_PROP
}

/// The parent of node `i`.
pub open spec fn spec_parent(ib: Seq<u8>, i: int) -> Option<int> {
    spec_link(spec_field(ib, i, F_PARENT as int))
}

/// The first child of node `i`.
pub open spec fn spec_first_child(ib: Seq<u8>, i: int) -> Option<int> {
    spec_link(spec_field(ib, i, F_FIRST_CHILD as int))
}

/// The link `next` of node `i`.
pub open spec fn spec_next(ib: Seq<u8>, i: int) -> Option<int> {
    spec_link(spec_field(ib, i, F_NEXT as int))
}

/// The number of properties of node `i`.
pub open spec fn spec_num_props(ib: Seq<u8>, i: int) -> int {
    spec_field(ib, i, F_NUM_PROPS as int) as int
}

/// The record after node `i` and its properties.
pub open spec fn spec_succ(ib: Seq<u8>, i: int) -> int {
    i + 1 + spec_num_props(ib, i)
}

/// The node that follows node `i` in the order of the tree, as far as links
/// lead there: the record after its properties, if that is a node with a
/// parent.
pub open spec fn spec_follower(ib: Seq<u8>, n: int, i: int) -> Option<int> {
    let s = spec_succ(ib, i);
    if s < n && spec_parent(ib, s) is Some {
        Some(s)
    } else {
        None
    }
}

/// Where the links of node `i` lead once its properties are passed: to its
/// first child, else along `next`.
pub open spec fn spec_dfs_next(ib: Seq<u8>, i: int) -> Option<int> {
    if spec_first_child(ib, i) is Some {
        spec_first_child(ib, i)
    } else {
        spec_next(ib, i)
    }
}

/// Record `i` as an item: a node with its name, or a property with its value
/// and name offset, the bytes taken from the tree `src`.
pub open spec fn spec_rec_view(ib: Seq<u8>, src: Seq<u8>, i: int) -> ItemView {
    if spec_is_node(ib, i) {
        ItemView::Node {
            name: src.subrange(
                spec_field(ib, i, F_NAME_OFF as int) as int,
                spec_field(ib, i, F_NAME_OFF as int) + spec_field(ib, i, F_NAME_LEN as int),
            ),
        }
    } else {
        ItemView::Prop {
            value: src.subrange(
                spec_field(ib, i, F_VALUE_OFF as int) as int,
                spec_field(ib, i, F_VALUE_OFF as int) + spec_field(ib, i, F_VALUE_LEN as int),
            ),
            name_offset: spec_field(ib, i, F_PROP_NAME as int) as int,
        }
    }
}

/// The first `n` records as items, in the order they lie in the store.
pub open spec fn spec_arena(ib: Seq<u8>, src: Seq<u8>, n: int) -> Seq<ItemView> {
    Seq::new(n as nat, |i: int| spec_rec_view(ib, src, i))
}

/// What holds of a node record among `n` records over a tree of `src_len`
/// bytes.
///
/// Its parent lies before it. Its first child, if it has one, is the record
/// after its properties and has it as its parent. `next` leads forward to a node. Its name lies in the
/// tree. Where it has no child, `next` is its follower.
pub open spec fn spec_node_ok(ib: Seq<u8>, src_len: int, n: int, i: int) -> bool {
    &&& spec_parent(ib, i) matches Some(p) ==> 0 <= p < i && spec_is_node(ib, p)
    &&& spec_first_child(ib, i) matches Some(c) ==> c == spec_succ(ib, i) && c < n
        && spec_is_node(ib, c) && spec_parent(ib, c) == Some(i)
    &&& spec_next(ib, i) matches Some(x) ==> i < x < n && spec_is_node(ib, x)
    &&& spec_field(ib, i, F_NAME_OFF as int) + spec_field(ib, i, F_NAME_LEN as int) <= src_len
    &&& spec_succ(ib, i) <= n
    &&& spec_succ(ib, i) < n ==> spec_is_node(ib, spec_succ(ib, i))
    &&& spec_first_child(ib, i) is None ==> spec_next(ib, i) == spec_follower(ib, n, i)
}

/// What holds of a property record: its value lies in the tree, and so does
/// the offset of its name.
pub open spec fn spec_prop_ok(ib: Seq<u8>, src_len: int, i: int) -> bool {
    &&& spec_field(ib, i, F_VALUE_OFF as int) + spec_field(ib, i, F_VALUE_LEN as int) <= src_len
    &&& spec_field(ib, i, F_PROP_NAME as int) <= src_len
}

/// The first `n` records of the store are sound: each is a node or a
/// property and as such in order, and the records between a node and the
/// record after its properties are properties.
pub open spec fn spec_records_ok(ib: Seq<u8>, src_len: int, n: int) -> bool {
    &&& 0 <= n <= spec_capacity(ib.len() as int)
    &&& src_len <= usize::MAX
    &&& forall|i: int|
        0 <= i < n && spec_is_node(ib, i) ==> #[trigger] spec_node_ok(ib, src_len, n, i)
    &&& forall|i: int|
        0 <= i < n && !spec_is_node(ib, i) ==> #[trigger] spec_is_prop(ib, i) && spec_prop_ok(
            ib,
            src_len,
            i,
        )
    &&& forall|i: int, k: int|
        #![trigger spec_is_node(ib, i), spec_is_prop(ib, k)]
        0 <= i < n && spec_is_node(ib, i) && i < k < spec_succ(ib, i) ==> spec_is_prop(ib, k)
}

/// How the building of an index over the tokens from `off` on ends: with an
/// error, or with `None` where an index results.
///
/// `depth` nodes are open, `in_header` says whether a property may follow,
/// `started` whether a node has been seen at all, and `room` is the number of
/// records that the buffer can still take. Before the first node only `Nop`
/// may stand. A record that finds no room is `NotEnoughMemory`. A property
/// after the end of a node, and an end of a node that none opened, are
/// `ParseError`. The pass ends at the `End` token and at anything that is no
/// token.
pub open spec fn spec_build_error(
    src: Seq<u8>,
    off: int,
    depth: int,
    in_header: bool,
    started: bool,
    room: int,
) -> Option<DevTreeError>
    decreases src.len() + 4 - off,
{
    match spec_token(src, off) {
        TokenView::Nop { next } => {
            proof {
                lemma_token_advances(src, off);
            }
            spec_build_error(src, next, depth, in_header, started, room)
        },
        TokenView::BeginNode { next, .. } => {
            if room <= 0 {
                Some(DevTreeError::NotEnoughMemory)
            } else {
                proof {
                    lemma_token_advances(src, off);
                }
                spec_build_error(src, next, depth + 1, true, true, room - 1)
            }
        },
        TokenView::Prop { next, .. } => {
            if !started || !in_header {
                Some(DevTreeError::ParseError)
            } else if room <= 0 {
                Some(DevTreeError::NotEnoughMemory)
            } else {
                proof {
                    lemma_token_advances(src, off);
                }
                spec_build_error(src, next, depth, true, true, room - 1)
            }
        },
        TokenView::EndNode { next } => {
            if !started || depth <= 0 {
                Some(DevTreeError::ParseError)
            } else {
                proof {
                    lemma_token_advances(src, off);
                }
                spec_build_error(src, next, depth - 1, false, true, room)
            }
        },
        _ => if started {
            None
        } else {
            Some(DevTreeError::ParseError)
        },
    }
}

/// `spec_build_error`, one token unfolded.
pub proof fn lemma_build_step(
    src: Seq<u8>,
    off: int,
    depth: int,
    in_header: bool,
    started: bool,
    room: int,
)
    ensures
        spec_build_error(src, off, depth, in_header, started, room) == (match spec_token(src, off) {
            TokenView::Nop { next } => spec_build_error(
                src,
                next,
                depth,
                in_header,
                started,
                room,
            ),
            TokenView::BeginNode { next, .. } => if room <= 0 {
                Some(DevTreeError::NotEnoughMemory)
            } else {
                spec_build_error(src, next, depth + 1, true, true, room - 1)
            },
            TokenView::Prop { next, .. } => if !started || !in_header {
                Some(DevTreeError::ParseError)
            } else if room <= 0 {
                Some(DevTreeError::NotEnoughMemory)
            } else {
                spec_build_error(src, next, depth, true, true, room - 1)
            },
            TokenView::EndNode { next } => if !started || depth <= 0 {
                Some(DevTreeError::ParseError)
            } else {
                spec_build_error(src, next, depth - 1, false, true, room)
            },
            _ => if started {
                None
            } else {
                Some(DevTreeError::ParseError)
            },
        }),
{
}

/// The size and alignment of the buffer that an index needs.
#[derive(Debug, Clone, Copy, PartialEq, Eq, Structural)]
pub struct IndexLayout {
    pub size: usize,
    pub align: usize,
}

impl IndexLayout {
    /// The number of bytes.
    pub fn size(&self) -> (r: usize)
        ensures
            r == self.size,
    {
        self.size
    }

    /// The alignment in bytes.
    pub fn align(&self) -> (r: usize)
        ensures
            r == self.align,
    {
        self.align
    }
}

/// A node record as plain values.
#[derive(Clone, Copy)]
pub struct DTINode {
    pub parent: Option<usize>,
    pub first_child: Option<usize>,
    pub next: Option<usize>,
    pub name_off: usize,
    pub name_len: usize,
    pub num_props: usize,
}

/// A property record as plain values: the value and the offset of the name
/// in the strings block.
#[derive(Clone, Copy)]
pub struct DTIProp<'dt> {
    pub propbuf: &'dt [u8],
    pub nameoff: usize,
}

/// An index over a tree: one record for each node and each property, in the
/// order of the tree, in a buffer that the caller has lent.
#[derive(Debug)]
pub struct DevTreeIndex<'i, 'dt> {
    pub fdt: DevTree<'dt>,
    pub buf: &'i [u8],
    /// The number of records.
    pub len: usize,
}

impl<'i, 'dt> DevTreeIndex<'i, 'dt> {
    /// The records as items, in the order they lie in the buffer.
    pub open spec fn arena(&self) -> Seq<ItemView> {
        spec_arena(self.buf@, self.fdt@, self.len as int)
    }

    /// The tree is valid, the records are sound, the first of them is a
    /// node, and record by record they are the items of the tree; their
    /// links tell the shape of the tree, and each record names as its parent
    /// the node that was open where its token stands.
    pub open spec fn wf(&self) -> bool {
        &&& self.fdt.wf()
        &&& self.len >= 1
        &&& spec_is_node(self.buf@, 0)
        &&& spec_records_ok(self.buf@, self.fdt@.len() as int, self.len as int)
        &&& self.arena() == spec_items(self.fdt@, self.fdt.spec_off_dt_struct(), false, 0)
        &&& spec_links_ok(self.buf@, self.len as int)
        &&& spec_links(self.buf@, self.len as int) == spec_owners(
            self.fdt@,
            self.fdt.spec_off_dt_struct(),
            Seq::empty(),
            0,
            false,
        )
    }

    /// Whether the tree has one root: every node but the first has a parent.
    pub open spec fn spec_single_root(&self) -> bool {
        forall|i: int|
            0 < i < self.len && #[trigger] spec_is_node(self.buf@, i) ==> spec_parent(
                self.buf@,
                i,
            ) is Some
    }

    /// The tree that the index was built over.
    pub fn fdt(&self) -> (r: &DevTree<'dt>)
        ensures
            *r == self.fdt,
    {
        &self.fdt
    }

    /// A cursor over all nodes and properties, in the order of the tree.
    pub fn items<'a>(&'a self) -> (r: DevTreeIndexItemIter<'a, 'i, 'dt>)
        requires
            self.wf(),
        ensures
            r.0.wf(),
            r.0 == DevTreeIndexIter::spec_start(self),
    {
        DevTreeIndexItemIter::new(self)
    }

    /// A cursor over the nodes, in the order of the tree.
    pub fn nodes<'a>(&'a self) -> (r: DevTreeIndexNodeIter<'a, 'i, 'dt>)
        requires
            self.wf(),
        ensures
            r.0.wf(),
            r.0 == DevTreeIndexIter::spec_start(self),
    {
        DevTreeIndexNodeIter::new(self)
    }

    /// A cursor over the properties, whatever node they belong to.
    pub fn props<'a>(&'a self) -> (r: DevTreeIndexPropIter<'a, 'i, 'dt>)
        requires
            self.wf(),
        ensures
            r.0.wf(),
            r.0 == DevTreeIndexIter::spec_start(self),
    {
        DevTreeIndexPropIter::new(self)
    }

    /// The root: the node of the first record.
    pub fn root<'a>(&'a self) -> (r: DevTreeIndexNode<'a, 'i, 'dt>)
        requires
            self.wf(),
        ensures
            r.wf(),
            r.index == self,
            r.node == 0,
    {
        DevTreeIndexNode::new(self, 0)
    }

    /// The first node, in the order of the tree, that has a property
    /// `compatible` whose first string is `string`.
    pub fn find_first_compatible_node<'a>(&'a self, string: &str) -> (r: Option<
        DevTreeIndexNode<'a, 'i, 'dt>,
    >)
        requires
            self.wf(),
        ensures
            r is None <==> spec_compatible_search(
                DevTreeIndexIter::spec_start(self),
                string.spec_bytes(),
            ).spec_done(),
            r matches Some(node) ==> spec_compatible_search(
                DevTreeIndexIter::spec_start(self),
                string.spec_bytes(),
            ).spec_owner(node),
    {
        let mut iter = DevTreeIndexIter::new(self);
        iter.next_compatible_node(string)
    }

    /// The first item, in the order of the tree, that `predicate` says
    /// `Ok(true)` of, and the cursor after it.
    pub fn find_item<'a, F>(&'a self, predicate: F) -> (r: Option<
        (DevTreeIndexItem<'a, 'i, 'dt>, DevTreeIndexItemIter<'a, 'i, 'dt>),
    >) where F: Fn(&DevTreeIndexItem<'a, 'i, 'dt>) -> Result<bool, DevTreeError>
        requires
            self.wf(),
            forall|item: DevTreeIndexItem<'a, 'i, 'dt>| call_requires(predicate, (&item,)),
        ensures
            match r {
                Some((item, rest)) => rest.0.wf() && spec_found_item(
                    DevTreeIndexIter::spec_start(self),
                    predicate,
                    Some(item),
                    rest.0,
                ),
                None => exists|end: DevTreeIndexIter<'a, 'i, 'dt>| #[trigger]
                    spec_found_item(DevTreeIndexIter::spec_start(self), predicate, None, end),
            },
    {
        let mut iter = DevTreeIndexIter::new(self);
        match iter.find_item(predicate) {
            Some(item) => Some((item, DevTreeIndexItemIter(iter))),
            None => None,
        }
    }

    /// The first property, in the order of the tree, that `predicate` says
    /// `Ok(true)` of, and the cursor after it.
    pub fn find_prop<'a, F>(&'a self, predicate: F) -> (r: Option<
        (DevTreeIndexProp<'a, 'i, 'dt>, DevTreeIndexPropIter<'a, 'i, 'dt>),
    >) where F: Fn(&DevTreeIndexProp<'a, 'i, 'dt>) -> Result<bool, DevTreeError>
        requires
            self.wf(),
            forall|prop: DevTreeIndexProp<'a, 'i, 'dt>| call_requires(predicate, (&prop,)),
        ensures
            match r {
                Some((prop, rest)) => rest.0.wf() && spec_found_prop(
                    DevTreeIndexIter::spec_start(self),
                    predicate,
                    Some(prop),
                    rest.0,
                ),
                None => exists|end: DevTreeIndexIter<'a, 'i, 'dt>| #[trigger]
                    spec_found_prop(DevTreeIndexIter::spec_start(self), predicate, None, end),
            },
    {
        let mut iter = DevTreeIndexIter::new(self);
        match iter.find_prop(predicate) {
            Some(prop) => Some((prop, DevTreeIndexPropIter(iter))),
            None => None,
        }
    }

    /// The first node, in the order of the tree, that `predicate` says
    /// `Ok(true)` of, and the cursor after it.
    pub fn find_node<'a, F>(&'a self, predicate: F) -> (r: Option<
        (DevTreeIndexNode<'a, 'i, 'dt>, DevTreeIndexNodeIter<'a, 'i, 'dt>),
    >) where F: Fn(&DevTreeIndexNode<'a, 'i, 'dt>) -> Result<bool, DevTreeError>
        requires
            self.wf(),
            forall|node: DevTreeIndexNode<'a, 'i, 'dt>| call_requires(predicate, (&node,)),
        ensures
            match r {
                Some((node, rest)) => rest.0.wf() && spec_found_node(
                    DevTreeIndexIter::spec_start(self),
                    predicate,
                    Some(node),
                    rest.0,
                ),
                None => exists|end: DevTreeIndexIter<'a, 'i, 'dt>| #[trigger]
                    spec_found_node(DevTreeIndexIter::spec_start(self), predicate, None, end),
            },
    {
        let mut iter = DevTreeIndexIter::new(self);
        match iter.find_node(predicate) {
            Some(node) => Some((node, DevTreeIndexNodeIter(iter))),
            None => None,
        }
    }

    /// The record of node `i` as plain values.
    pub fn node_rec(&self, i: usize) -> (r: DTINode)
        requires
            self.wf(),
            i < self.len,
            spec_is_node(self.buf@, i as int),
        ensures
            spec_node_ok(self.buf@, self.fdt@.len() as int, self.len as int, i as int),
            spec_opt(r.parent) == spec_parent(self.buf@, i as int),
            spec_opt(r.first_child) == spec_first_child(self.buf@, i as int),
            spec_opt(r.next) == spec_next(self.buf@, i as int),
            r.name_off == spec_field(self.buf@, i as int, F_NAME_OFF as int),
            r.name_len == spec_field(self.buf@, i as int, F_NAME_LEN as int),
            r.num_props == spec_num_props(self.buf@, i as int),
    {
        assert(spec_node_ok(self.buf@, self.fdt@.len() as int, self.len as int, i as int));
        DTINode {
            parent: load_link(self.buf, i, F_PARENT),
            first_child: load_link(self.buf, i, F_FIRST_CHILD),
            next: load_link(self.buf, i, F_NEXT),
            name_off: load(self.buf, i, F_NAME_OFF) as usize,
            name_len: load(self.buf, i, F_NAME_LEN) as usize,
            num_props: load(self.buf, i, F_NUM_PROPS) as usize,
        }
    }

    /// The record `prop` of a property of node `node` as plain values.
    pub fn prop_rec(&self, node: usize, prop: usize) -> (r: DTIProp<'dt>)
        requires
            self.wf(),
            node < self.len,
            spec_is_node(self.buf@, node as int),
            node < prop < spec_succ(self.buf@, node as int),
        ensures
            prop < self.len,
            spec_is_prop(self.buf@, prop as int),
            !spec_is_node(self.buf@, prop as int),
            r.propbuf@ == self.fdt@.subrange(
                spec_field(self.buf@, prop as int, F_VALUE_OFF as int) as int,
                spec_field(self.buf@, prop as int, F_VALUE_OFF as int) + spec_field(
                    self.buf@,
                    prop as int,
                    F_VALUE_LEN as int,
                ),
            ),
            r.nameoff == spec_field(self.buf@, prop as int, F_PROP_NAME as int),
            spec_rec_view(self.buf@, self.fdt@, prop as int) == (ItemView::Prop {
                value: r.propbuf@,
                name_offset: r.nameoff as int,
            }),
    {
        assert(spec_node_ok(self.buf@, self.fdt@.len() as int, self.len as int, node as int));
        assert(spec_is_prop(self.buf@, prop as int));
        let start: usize = load(self.buf, prop, F_VALUE_OFF) as usize;
        let len: usize = load(self.buf, prop, F_VALUE_LEN) as usize;
        let nameoff: usize = load(self.buf, prop, F_PROP_NAME) as usize;
        DTIProp { propbuf: slice_subrange(self.fdt.buf(), start, start + len), nameoff }
    }

    /// The size and alignment of the buffer that an index of `fdt` needs:
    /// one record for each item of the tree. It fails where that size cannot
    /// be represented.
    pub fn get_layout(fdt: &DevTree<'dt>) -> (r: Result<IndexLayout, DevTreeError>)
        requires
            fdt.wf(),
        ensures
            match r {
                Ok(layout) => layout.size == spec_items(
                    fdt@,
                    fdt.spec_off_dt_struct(),
                    false,
                    0,
                ).len() * REC_SIZE && layout.align == REC_ALIGN,
                Err(e) => e is NotEnoughMemory && spec_items(
                    fdt@,
                    fdt.spec_off_dt_struct(),
                    false,
                    0,
                ).len() * REC_SIZE > usize::MAX,
            },
    {
        let mut iter = DevTreeIter::new(fdt);
        let ghost all = iter.items();
        let mut size: usize = 0;
        let ghost mut seen: int = 0;
        loop
            invariant
                iter.wf(),
                all == spec_items(fdt@, fdt.spec_off_dt_struct(), false, 0),
                0 <= seen <= all.len(),
                iter.items() == all.skip(seen),
                size == seen * REC_SIZE,
            decreases iter.items().len(),
        {
            match iter.next() {
                None => {
                    return Ok(IndexLayout { size, align: REC_ALIGN });
                },
                Some(_) => {
                    proof {
                        assert(all.skip(seen).skip(1) =~= all.skip(seen + 1));
                    }
                    size = match size.checked_add(REC_SIZE) {
                        Some(s) => s,
                        None => {
                            return Err(DevTreeError::NotEnoughMemory);
                        },
                    };
                    proof {
                        seen = seen + 1;
                    }
                },
            }
        }
    }

    /// Starts the pass: passes over `Nop` tokens up to the first node and
    /// writes its record. Anything else before the first node is an error.
    #[verifier::rlimit(40)]
    pub fn init_builder<'a>(
        fdt: DevTree<'dt>,
        buf: &mut [u8],
        iter: &mut DevTreeParseIter<'a, 'dt>,
    ) -> (r: Result<DTIBuilder<'dt>, DevTreeError>)
        requires
            fdt.wf(),
            *old(iter).fdt == fdt,
        ensures
            final(buf)@.len() == old(buf)@.len(),
            final(iter).fdt == old(iter).fdt,
            match r {
                Err(e) => spec_build_error(
                    fdt@,
                    old(iter).offset as int,
                    0,
                    false,
                    false,
                    spec_capacity(old(buf)@.len() as int),
                ) == Some(e),
                Ok(builder) => {
                    &&& builder.inv(final(buf)@)
                    &&& builder.kin(final(buf)@)
                    &&& builder.links(final(buf)@) + spec_owners(
                        fdt@,
                        final(iter).offset as int,
                        builder.open@,
                        1,
                        builder.in_node_header,
                    ) == spec_owners(fdt@, old(iter).offset as int, Seq::empty(), 0, false)
                    &&& builder.fdt == fdt
                    &&& builder.front_off == 1
                    &&& spec_is_node(final(buf)@, 0)
                    &&& spec_build_error(
                        fdt@,
                        final(iter).offset as int,
                        builder.open@.len() as int,
                        builder.in_node_header,
                        true,
                        spec_capacity(old(buf)@.len() as int) - 1,
                    ) == spec_build_error(
                        fdt@,
                        old(iter).offset as int,
                        0,
                        false,
                        false,
                        spec_capacity(old(buf)@.len() as int),
                    )
                    &&& spec_arena(final(buf)@, fdt@, 1) + spec_items(
                        fdt@,
                        final(iter).offset as int,
                        builder.in_node_header,
                        builder.open@.len() as int,
                    ) == spec_items(fdt@, old(iter).offset as int, false, 0)
                },
            },
    {
        let mut builder = DTIBuilder::new(fdt);
        proof {
            lemma_kin_start(buf@);
        }
        let ghost goal = spec_build_error(
            fdt@,
            iter.offset as int,
            0,
            false,
            false,
            spec_capacity(buf@.len() as int),
        );
        let ghost all = spec_items(fdt@, iter.offset as int, false, 0);
        loop
            invariant
                fdt.wf(),
                *iter.fdt == fdt,
                iter.fdt == old(iter).fdt,
                buf@ == old(buf)@,
                builder.inv(buf@),
                builder.kin(buf@),
                builder.fdt == fdt,
                builder.front_off == 0,
                builder.open@ == Seq::<int>::empty(),
                !builder.in_node_header,
                builder.cur_node is None,
                spec_owners(fdt@, iter.offset as int, Seq::empty(), 0, false) == spec_owners(
                    fdt@,
                    old(iter).offset as int,
                    Seq::empty(),
                    0,
                    false,
                ),
                goal == spec_build_error(
                    fdt@,
                    old(iter).offset as int,
                    0,
                    false,
                    false,
                    spec_capacity(old(buf)@.len() as int),
                ),
                all == spec_items(fdt@, old(iter).offset as int, false, 0),
                goal == spec_build_error(
                    fdt@,
                    iter.offset as int,
                    0,
                    false,
                    false,
                    spec_capacity(buf@.len() as int),
                ),
                all == spec_items(fdt@, iter.offset as int, false, 0),
            decreases fdt@.len() + 4 - iter.offset,
        {
            let at: usize = iter.offset;
            proof {
                if !(spec_token(fdt@, at as int) is Invalid) {
                    lemma_token_advances(fdt@, at as int);
                }
                lemma_token_layout(fdt@, at as int);
                lemma_build_step(
                    fdt@,
                    at as int,
                    0,
                    false,
                    false,
                    spec_capacity(buf@.len() as int),
                );
                lemma_items_unfold(fdt@, at as int, false, 0);
                lemma_owners_unfold(fdt@, at as int, Seq::empty(), 0, false);
            }
            match iter.next() {
                Some(ParsedTok::BeginNode(node)) => {
                    match builder.parsed_node(buf, at + 4, node.name.len()) {
                        Err(e) => {
                            return Err(e);
                        },
                        Ok(_) => {},
                    }
                    proof {
                        let first = ItemView::Node { name: node.name@ };
                        assert(spec_arena(old(buf)@, fdt@, 0).push(first) =~= seq![first]);
                        assert(spec_links(old(buf)@, 0).push(None::<int>) =~= seq![None::<int>]);
                        assert(Seq::<int>::empty().push(0int) =~= builder.open@);
                    }
                    return Ok(builder);
                },
                Some(ParsedTok::Nop) => {},
                _ => {
                    return Err(DevTreeError::ParseError);
                },
            }
        }
    }

    /// Builds an index of `fdt` in `buf`, in one pass over the tokens.
    ///
    /// Each `BeginNode` token and each `Prop` token takes one record. The
    /// pass ends at the `End` token and at anything that is no token.
    #[verifier::rlimit(40)]
    pub fn new(fdt: DevTree<'dt>, buf: &'i mut [u8]) -> (r: Result<Self, DevTreeError>)
        requires
            fdt.wf(),
        ensures
            match spec_build_error(
                fdt@,
                fdt.spec_off_dt_struct(),
                0,
                false,
                false,
                spec_capacity(old(buf)@.len() as int),
            ) {
                Some(e) => r matches Err(x) && x == e,
                None => r matches Ok(index) && index.wf() && index.fdt == fdt
                    && index.buf@.len() == old(buf)@.len(),
            },
    {
        let ghost cap = spec_capacity(buf@.len() as int);
        let ghost goal = spec_build_error(fdt@, fdt.spec_off_dt_struct(), 0, false, false, cap);
        let ghost all = spec_items(fdt@, fdt.spec_off_dt_struct(), false, 0);
        let ghost owners = spec_owners(fdt@, fdt.spec_off_dt_struct(), Seq::empty(), 0, false);
        let mut iter = DevTreeParseIter::new(&fdt);
        let mut builder = match Self::init_builder(fdt, buf, &mut iter) {
            Ok(b) => b,
            Err(e) => {
                return Err(e);
            },
        };
        loop
            invariant
                fdt.wf(),
                *iter.fdt == fdt,
                buf@.len() == old(buf)@.len(),
                cap == spec_capacity(buf@.len() as int),
                builder.inv(buf@),
                builder.kin(buf@),
                owners == builder.links(buf@) + spec_owners(
                    fdt@,
                    iter.offset as int,
                    builder.open@,
                    builder.front_off as int,
                    builder.in_node_header,
                ),
                owners == spec_owners(fdt@, fdt.spec_off_dt_struct(), Seq::empty(), 0, false),
                builder.fdt == fdt,
                builder.front_off >= 1,
                spec_is_node(buf@, 0),
                goal == spec_build_error(
                    fdt@,
                    iter.offset as int,
                    builder.open@.len() as int,
                    builder.in_node_header,
                    true,
                    cap - builder.front_off,
                ),
                all == spec_arena(buf@, fdt@, builder.front_off as int) + spec_items(
                    fdt@,
                    iter.offset as int,
                    builder.in_node_header,
                    builder.open@.len() as int,
                ),
                all == spec_items(fdt@, fdt.spec_off_dt_struct(), false, 0),
                goal == spec_build_error(fdt@, fdt.spec_off_dt_struct(), 0, false, false, cap),
            decreases fdt@.len() + 4 - iter.offset,
        {
            let at: usize = iter.offset;
            let ghost arena0 = spec_arena(buf@, fdt@, builder.front_off as int);
            let ghost links0 = builder.links(buf@);
            let ghost open0 = builder.open@;
            proof {
                builder.lemma_inv_sound(buf@);
                lemma_owners_unfold(
                    fdt@,
                    at as int,
                    builder.open@,
                    builder.front_off as int,
                    builder.in_node_header,
                );
                if !(spec_token(fdt@, at as int) is Invalid) {
                    lemma_token_advances(fdt@, at as int);
                }
                lemma_token_layout(fdt@, at as int);
                lemma_build_step(
                    fdt@,
                    at as int,
                    builder.open@.len() as int,
                    builder.in_node_header,
                    true,
                    cap - builder.front_off,
                );
                lemma_items_unfold(fdt@, at as int, builder.in_node_header, builder.open@.len() as int);
            }
            match iter.next() {
                Some(ParsedTok::BeginNode(node)) => {
                    match builder.parsed_node(buf, at + 4, node.name.len()) {
                        Err(e) => {
                            return Err(e);
                        },
                        Ok(_) => {},
                    }
                    proof {
                        let item = ItemView::Node { name: node.name@ };
                        assert(arena0.push(item) + spec_items(fdt@, iter.offset as int, true, builder.open@.len() as int)
                            =~= arena0 + (seq![item] + spec_items(fdt@, iter.offset as int, true, builder.open@.len() as int)));
                        let rest = spec_owners(
                            fdt@,
                            iter.offset as int,
                            builder.open@,
                            builder.front_off as int,
                            true,
                        );
                        assert(links0.push(spec_top(open0)) + rest =~= links0 + (seq![
                            spec_top(open0),
                        ] + rest));
                    }
                },
                Some(ParsedTok::Prop(prop)) => {
                    match builder.parsed_prop(buf, at + 12, prop.prop_buf.len(), prop.name_offset) {
                        Err(e) => {
                            return Err(e);
                        },
                        Ok(_) => {},
                    }
                    proof {
                        let item = ItemView::Prop {
                            value: prop.prop_buf@,
                            name_offset: prop.name_offset as int,
                        };
                        assert(arena0.push(item) + spec_items(fdt@, iter.offset as int, true, builder.open@.len() as int)
                            =~= arena0 + (seq![item] + spec_items(fdt@, iter.offset as int, true, builder.open@.len() as int)));
                        let rest = spec_owners(
                            fdt@,
                            iter.offset as int,
                            builder.open@,
                            builder.front_off as int,
                            true,
                        );
                        assert(links0.push(spec_top(open0)) + rest =~= links0 + (seq![
                            spec_top(open0),
                        ] + rest));
                    }
                },
                Some(ParsedTok::EndNode) => {
                    match builder.parsed_end_node(buf) {
                        Err(e) => {
                            return Err(e);
                        },
                        Ok(_) => {},
                    }
                },
                Some(ParsedTok::Nop) => {},
                None => {
                    proof {
                        assert(spec_items(fdt@, at as int, builder.in_node_header, builder.open@.len() as int) =~= Seq::empty());
                        assert(all =~= arena0);
                        assert(owners =~= links0);
                        lemma_kin_sound(buf@, builder.front_off as int, builder.open@);
                    }
                    let len: usize = builder.front_off;
                    let shared: &'i [u8] = buf;
                    return Ok(DevTreeIndex { fdt, buf: shared, len });
                },
            }
        }
    }
}

impl<'a, 'i: 'a, 'dt: 'a> IterableDevTree<'a, 'dt> for DevTreeIndex<'i, 'dt> {
    type TreeIter = DevTreeIndexIter<'a, 'i, 'dt>;

    open spec fn spec_walkable(&self) -> bool {
        self.wf()
    }

    open spec fn spec_tree_bytes(&self) -> Seq<u8> {
        self.fdt@
    }

    open spec fn spec_first(&'a self) -> DevTreeIndexIter<'a, 'i, 'dt> {
        DevTreeIndexIter::spec_start(self)
    }

    fn items(&'a self) -> (r: DevTreeIndexIter<'a, 'i, 'dt>) {
        DevTreeIndexIter::new(self)
    }

    fn buf(&'a self) -> (r: &'dt [u8]) {
        self.fdt.buf()
    }
}

} // verus!
