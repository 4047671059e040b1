//! The cursors over an indexed tree.
use crate::common::item::ItemView;
use crate::common::iter::{
    spec_compatible_search, spec_until_node, spec_until_prop, TreeCursor, TreeIterator,
};
use crate::common::prop::{spec_compatible, DevTreePropState, DevTreePropStateBase};
use crate::index::item::DevTreeIndexItem;
use crate::index::node::DevTreeIndexNode;
use crate::index::prop::DevTreeIndexProp;
use crate::index::store::spec_opt;
use crate::index::tree::{
    spec_dfs_next, spec_follower, spec_is_node, spec_is_prop, spec_next,
    spec_node_ok, spec_num_props, spec_parent, spec_records_ok, spec_succ, DevTreeIndex,
};
use vstd::prelude::*;
use vstd::string::StringSliceAdditionalSpecFns;

verus! {

/// The first record from `from` on that is a node without a parent, or `n`
/// where there is none: where a walk along the links of the tree ends.
pub open spec fn spec_reach(ib: Seq<u8>, n: int, from: int) -> int
    decreases n - from,
{
    if from >= n {
        n
    } else if spec_is_node(ib, from) && spec_parent(ib, from) is None {
        from
    } else {
        spec_reach(ib, n, from + 1)
    }
}

/// The sibling that follows node `i`: the node that `next` leads to, if it
/// has the parent that `i` has.
pub open spec fn spec_sibling(ib: Seq<u8>, i: int) -> Option<int> {
    match spec_next(ib, i) {
        Some(x) => if spec_parent(ib, x) == spec_parent(ib, i) {
            Some(x)
        } else {
            None
        },
        None => None,
    }
}

/// No walk ends before its start, nor after the last record.
pub proof fn lemma_reach_bounds(ib: Seq<u8>, n: int, from: int)
    requires
        from <= n,
    ensures
        from <= spec_reach(ib, n, from) <= n,
    decreases n - from,
{
    if from < n && !(spec_is_node(ib, from) && spec_parent(ib, from) is None) {
        lemma_reach_bounds(ib, n, from + 1);
    }
}

/// A walk passes over records that are no nodes.
pub proof fn lemma_reach_skips(ib: Seq<u8>, n: int, from: int, to: int)
    requires
        from <= to <= n,
        forall|k: int| from <= k < to ==> !spec_is_node(ib, k),
    ensures
        spec_reach(ib, n, from) == spec_reach(ib, n, to),
    decreases to - from,
{
    if from < to {
        lemma_reach_skips(ib, n, from + 1, to);
    }
}

/// Where the links of a node lead, and how far a walk from it goes: the
/// links lead to its follower; a walk from the node's properties on goes as
/// far as one from after its follower, and ends after the properties where
/// there is no follower.
pub proof fn lemma_node_links(ib: Seq<u8>, src_len: int, n: int, c: int)
    requires
        spec_records_ok(ib, src_len, n),
        0 <= c < n,
        spec_is_node(ib, c),
    ensures
        spec_dfs_next(ib, c) == spec_follower(ib, n, c),
        c < spec_succ(ib, c) <= spec_reach(ib, n, c + 1) <= n,
        spec_follower(ib, n, c) matches Some(s) ==> s == spec_succ(ib, c) && spec_is_node(ib, s)
            && s < spec_reach(ib, n, c + 1) && spec_reach(ib, n, c + 1) == spec_reach(
            ib,
            n,
            s + 1,
        ),
        spec_follower(ib, n, c) is None ==> spec_reach(ib, n, c + 1) == spec_succ(ib, c),
        forall|k: int| c < k < spec_succ(ib, c) ==> !spec_is_node(ib, k) && spec_is_prop(ib, k),
{
    assert(spec_node_ok(ib, src_len, n, c));
    let s = spec_succ(ib, c);
    assert forall|k: int| c < k < s implies !spec_is_node(ib, k) && spec_is_prop(ib, k) by {
        assert(spec_is_prop(ib, k));
    }
    lemma_reach_skips(ib, n, c + 1, s);
    lemma_reach_bounds(ib, n, s);
    if s < n {
        lemma_reach_bounds(ib, n, s + 1);
    }
}

/// A cursor over the items of an indexed tree, in the order of the tree.
///
/// It stands at a node; `prop_idx` counts the properties of that node that
/// it has yielded, and `initial_node_returned` says whether the node itself
/// has been yielded.
#[derive(Clone, Copy)]
pub struct DevTreeIndexIter<'a, 'i, 'dt> {
    pub index: &'a DevTreeIndex<'i, 'dt>,
    pub node: Option<usize>,
    pub prop_idx: usize,
    pub initial_node_returned: bool,
}

impl<'a, 'i, 'dt> DevTreeIndexIter<'a, 'i, 'dt> {
    /// The index is valid and the cursor stands at one of its nodes, or at
    /// none.
    pub open spec fn wf_at(&self) -> bool {
        &&& self.index.wf()
        &&& self.node matches Some(c) ==> c < self.index.len && spec_is_node(
            self.index.buf@,
            c as int,
        )
    }

    /// `wf_at`, and the count of properties yielded is at most the number of
    /// properties of the node, and zero as long as the node is not yielded.
    pub open spec fn wf(&self) -> bool {
        &&& self.wf_at()
        &&& self.node matches Some(c) ==> self.prop_idx <= spec_num_props(
            self.index.buf@,
            c as int,
        ) && (!self.initial_node_returned ==> self.prop_idx == 0)
    }

    /// The cursor that `from_node` makes: at the node, which counts as
    /// yielded, before its first property.
    pub open spec fn spec_from_node(node: DevTreeIndexNode<'a, 'i, 'dt>) -> Self {
        DevTreeIndexIter {
            index: node.index,
            node: Some(node.node),
            prop_idx: 0,
            initial_node_returned: true,
        }
    }

    /// The cursor at the root of `index`, which is still to be yielded.
    pub open spec fn spec_start(index: &'a DevTreeIndex<'i, 'dt>) -> Self {
        DevTreeIndexIter {
            index,
            node: Some(0usize),
            prop_idx: 0,
            initial_node_returned: false,
        }
    }

    /// The number of the record that comes next, for a cursor at a node.
    pub open spec fn spec_rank(&self) -> int {
        match self.node {
            None => self.index.len as int,
            Some(c) => if !self.initial_node_returned {
                c as int
            } else {
                c + 1 + self.prop_idx
            },
        }
    }

    /// The record that the next item is read from, if there is a next item:
    /// the node itself where it is still to be yielded, else the next of its
    /// properties, else the node that its links lead to.
    pub open spec fn spec_next_pos(&self) -> Option<int> {
        match self.node {
            None => None,
            Some(c) => if !self.initial_node_returned {
                Some(c as int)
            } else if self.prop_idx < spec_num_props(self.index.buf@, c as int) {
                Some(c + 1 + self.prop_idx)
            } else {
                spec_dfs_next(self.index.buf@, c as int)
            },
        }
    }

    /// The stream has ended.
    pub open spec fn spec_done(&self) -> bool {
        self.spec_next_pos() is None
    }

    /// The cursor after its next item. Where the stream has ended, the
    /// cursor stands at no node.
    pub open spec fn spec_after(&self) -> Self {
        match self.node {
            None => *self,
            Some(c) => if !self.initial_node_returned {
                DevTreeIndexIter { initial_node_returned: true, ..*self }
            } else if self.prop_idx < spec_num_props(self.index.buf@, c as int) {
                DevTreeIndexIter { prop_idx: (self.prop_idx + 1) as usize, ..*self }
            } else {
                DevTreeIndexIter {
                    index: self.index,
                    node: match spec_dfs_next(self.index.buf@, c as int) {
                        Some(x) => Some(x as usize),
                        None => None,
                    },
                    prop_idx: 0,
                    initial_node_returned: true,
                }
            },
        }
    }

    /// The next item.
    pub open spec fn spec_next_item(&self) -> Option<DevTreeIndexItem<'a, 'i, 'dt>> {
        match self.node {
            None => None,
            Some(c) => if !self.initial_node_returned {
                Some(DevTreeIndexItem::Node(DevTreeIndexNode { index: self.index, node: c }))
            } else if self.prop_idx < spec_num_props(self.index.buf@, c as int) {
                Some(
                    DevTreeIndexItem::Prop(
                        DevTreeIndexProp {
                            index: self.index,
                            node: c,
                            prop: (c + 1 + self.prop_idx) as usize,
                        },
                    ),
                )
            } else {
                match spec_dfs_next(self.index.buf@, c as int) {
                    Some(x) => Some(
                        DevTreeIndexItem::Node(
                            DevTreeIndexNode { index: self.index, node: x as usize },
                        ),
                    ),
                    None => None,
                }
            },
        }
    }

    /// The items still to come: the records from the next one on, as far as
    /// the links of the tree lead.
    pub open spec fn items(&self) -> Seq<ItemView> {
        match self.node {
            None => Seq::empty(),
            Some(c) => self.index.arena().subrange(
                self.spec_rank(),
                spec_reach(self.index.buf@, self.index.len as int, c + 1),
            ),
        }
    }

    /// Whether the next item is a node.
    pub open spec fn spec_at_node(&self) -> bool {
        self.spec_next_item() matches Some(DevTreeIndexItem::Node(_))
    }

    /// Whether the next item is a property.
    pub open spec fn spec_at_prop(&self) -> bool {
        self.spec_next_item() matches Some(DevTreeIndexItem::Prop(_))
    }

    /// Whether the next item is a property named `compatible` whose value
    /// starts with the string `target`.
    pub open spec fn spec_at_compatible(&self, target: Seq<u8>) -> bool {
        self.spec_next_item() matches Some(DevTreeIndexItem::Prop(prop)) && spec_compatible(
            prop.spec_tree(),
            prop.spec_strings(),
            prop.spec_nameoff(),
            prop.spec_propbuf(),
            target,
        )
    }

    /// How many steps the cursor can take at most.
    pub open spec fn spec_left(&self) -> int {
        self.index.len + 1 - self.spec_rank()
    }

    /// Whether `node` is the node that owns the property that comes next.
    pub open spec fn spec_owner(&self, node: DevTreeIndexNode<'a, 'i, 'dt>) -> bool {
        self.spec_next_item() matches Some(DevTreeIndexItem::Prop(prop)) && node.wf() && node
            == (DevTreeIndexNode { index: prop.index, node: prop.node })
    }

    /// What one step does: the cursor stays valid; a cursor whose stream has
    /// ended has no items, and none after the step; any other yields the
    /// record that comes next, which is the first item of its stream, and
    /// has the rest after the step.
    #[verifier::rlimit(40)]
    pub proof fn lemma_step(&self)
        requires
            self.wf(),
        ensures
            self.spec_after().wf(),
            self.spec_after().index == self.index,
            self.spec_done() <==> self.items().len() == 0,
            self.spec_done() ==> self.spec_after().spec_done() && self.spec_after().node is None,
            !self.spec_done() ==> {
                &&& self.spec_next_pos() == Some(self.spec_rank())
                &&& self.spec_rank() < self.index.len
                &&& self.spec_after().spec_rank() == self.spec_rank() + 1
                &&& self.spec_after().spec_left() < self.spec_left()
                &&& self.spec_after().node is Some
                &&& self.spec_next_item() matches Some(item) && item.wf() && item@
                    == self.items()[0]
                &&& self.spec_after().items() == self.items().skip(1)
            },
    {
        let ib = self.index.buf@;
        let n = self.index.len as int;
        let src_len = self.index.fdt@.len() as int;
        if let Some(cu) = self.node {
            let c = cu as int;
            lemma_node_links(ib, src_len, n, c);
            let end = spec_reach(ib, n, c + 1);
            if self.initial_node_returned && self.prop_idx >= spec_num_props(ib, c) {
                if let Some(x) = spec_follower(ib, n, c) {
                    lemma_node_links(ib, src_len, n, x);
                    assert(self.spec_after().items() =~= self.items().skip(1));
                }
            } else {
                assert(self.spec_after().items() =~= self.items().skip(1));
            }
        }
    }

    /// A cursor at the root of `index`, which is still to be yielded.
    pub fn new(index: &'a DevTreeIndex<'i, 'dt>) -> (r: Self)
        requires
            index.wf(),
        ensures
            r.wf(),
            r == Self::spec_start(index),
    {
        DevTreeIndexIter { index, node: Some(0), prop_idx: 0, initial_node_returned: false }
    }

    /// A cursor at `node`, which counts as yielded: the properties of the
    /// node come first, then the nodes that follow it.
    pub fn from_node(node: DevTreeIndexNode<'a, 'i, 'dt>) -> (r: Self)
        requires
            node.wf(),
        ensures
            r.wf(),
            r == Self::spec_from_node(node),
    {
        DevTreeIndexIter {
            index: node.index,
            initial_node_returned: true,
            node: Some(node.node),
            prop_idx: 0,
        }
    }

    /// The next item, or `None` where the stream has ended, now and ever
    /// after.
    ///
    /// A node is followed by its properties, in their order, then by the
    /// node that its links lead to: its first child, else its `next`.
    pub fn next(&mut self) -> (r: Option<DevTreeIndexItem<'a, 'i, 'dt>>)
        requires
            old(self).wf(),
        ensures
            final(self).wf(),
            *final(self) == old(self).spec_after(),
            r == old(self).spec_next_item(),
            r is None <==> old(self).spec_done(),
            r matches Some(item) ==> item.wf(),
            r is None <==> old(self).items().len() == 0,
            r matches Some(item) ==> item@ == old(self).items()[0] && final(self).items() == old(self).items().skip(1),
    {
        proof {
            self.lemma_step();
        }
        match self.node {
            None => None,
            Some(cur) => {
                if !self.initial_node_returned {
                    self.initial_node_returned = true;
                    return Some(DevTreeIndexItem::Node(DevTreeIndexNode::new(self.index, cur)));
                }
                let rec = self.index.node_rec(cur);
                if self.prop_idx < rec.num_props {
                    let prop: usize = cur + 1 + self.prop_idx;
                    self.prop_idx = self.prop_idx + 1;
                    return Some(
                        DevTreeIndexItem::Prop(DevTreeIndexProp::new(self.index, cur, prop)),
                    );
                }
                self.prop_idx = 0;
                self.node = match rec.first_child {
                    Some(child) => Some(child),
                    None => rec.next,
                };
                match self.node {
                    Some(n) => Some(DevTreeIndexItem::Node(DevTreeIndexNode::new(self.index, n))),
                    None => None,
                }
            },
        }
    }

    /// The next node, whatever properties stand before it.
    pub fn next_node(&mut self) -> (r: Option<DevTreeIndexNode<'a, 'i, 'dt>>)
        requires
            old(self).wf(),
        ensures
            final(self).wf(),
            *final(self) == spec_until_node(*old(self)).spec_after(),
            r is None <==> spec_until_node(*old(self)).spec_done(),
            r matches Some(node) ==> node.wf() && spec_until_node(*old(self)).spec_next_item()
                == Some(DevTreeIndexItem::Node(node)),
    {
        <Self as TreeIterator>::next_node(self)
    }

    /// The next property, whatever nodes stand before it.
    pub fn next_prop(&mut self) -> (r: Option<DevTreeIndexProp<'a, 'i, 'dt>>)
        requires
            old(self).wf(),
        ensures
            final(self).wf(),
            *final(self) == spec_until_prop(*old(self)).spec_after(),
            r is None <==> spec_until_prop(*old(self)).spec_done(),
            r matches Some(prop) ==> prop.wf() && spec_until_prop(*old(self)).spec_next_item()
                == Some(DevTreeIndexItem::Prop(prop)),
    {
        <Self as TreeIterator>::next_prop(self)
    }

    /// The next item if it is a property, which then belongs to the node
    /// that the cursor stands at. Otherwise nothing is yielded and the cursor
    /// stays as it is.
    pub fn next_node_prop(&mut self) -> (r: Option<DevTreeIndexProp<'a, 'i, 'dt>>)
        requires
            old(self).wf(),
        ensures
            final(self).wf(),
            r is Some <==> old(self).spec_at_prop(),
            r matches Some(prop) ==> prop.wf() && old(self).spec_next_item() == Some(
                DevTreeIndexItem::Prop(prop),
            ) && *final(self) == old(self).spec_after(),
            r is None ==> *final(self) == *old(self),
    {
        <Self as TreeIterator>::next_node_prop(self)
    }

    /// Yields the node that the cursor stands at and moves the cursor to the
    /// sibling that follows it: the node that `next` leads to, if it has the
    /// same parent.
    pub fn next_sibling(&mut self) -> (r: Option<DevTreeIndexNode<'a, 'i, 'dt>>)
        requires
            old(self).wf_at(),
        ensures
            final(self).wf_at(),
            final(self).index == old(self).index,
            final(self).prop_idx == old(self).prop_idx,
            final(self).initial_node_returned == old(self).initial_node_returned,
            match old(self).node {
                None => r is None && final(self).node is None,
                Some(c) => r == Some(DevTreeIndexNode { index: old(self).index, node: c })
                    && r->0.wf() && spec_opt(final(self).node) == spec_sibling(
                    old(self).index.buf@,
                    c as int,
                ),
            },
    {
        match self.node {
            None => None,
            Some(cur) => {
                let rec = self.index.node_rec(cur);
                self.node = match rec.next {
                    None => None,
                    Some(x) => {
                        let other = self.index.node_rec(x);
                        if same_link(other.parent, rec.parent) {
                            Some(x)
                        } else {
                            None
                        }
                    },
                };
                Some(DevTreeIndexNode::new(self.index, cur))
            },
        }
    }

    /// Passes one node, then looks at every property that follows, in any
    /// node, for one named `compatible` whose value starts with `string`, and
    /// yields the node that owns it. The cursor is left after that property,
    /// so that the next call finds the next such node.
    pub fn next_compatible_node(&mut self, string: &str) -> (r: Option<
        DevTreeIndexNode<'a, 'i, 'dt>,
    >)
        requires
            old(self).wf(),
        ensures
            final(self).wf(),
            *final(self) == spec_compatible_search(*old(self), string.spec_bytes()).spec_after(),
            r is None <==> spec_compatible_search(*old(self), string.spec_bytes()).spec_done(),
            r matches Some(node) ==> spec_compatible_search(
                *old(self),
                string.spec_bytes(),
            ).spec_owner(node),
    {
        <Self as TreeIterator>::next_compatible_node(self, string)
    }

    /// The node that a search for a compatible node from here finds; the
    /// cursor itself stays.
    pub fn find_next_compatible_node(&self, string: &str) -> (r: Option<
        DevTreeIndexNode<'a, 'i, 'dt>,
    >)
        requires
            self.wf(),
        ensures
            r is None <==> spec_compatible_search(*self, string.spec_bytes()).spec_done(),
            r matches Some(node) ==> spec_compatible_search(*self, string.spec_bytes()).spec_owner(
                node,
            ),
    {
        let mut iter = *self;
        iter.next_compatible_node(string)
    }
}

impl<'a, 'i, 'dt> TreeCursor for DevTreeIndexIter<'a, 'i, 'dt> {
    type Item = DevTreeIndexItem<'a, 'i, 'dt>;

    open spec fn spec_ok(&self) -> bool {
        self.wf()
    }

    open spec fn spec_ended(&self) -> bool {
        self.spec_done()
    }

    open spec fn spec_next_state(&self) -> Self {
        self.spec_after()
    }

    open spec fn spec_budget(&self) -> int {
        self.spec_left()
    }

    open spec fn spec_items(&self) -> Seq<ItemView> {
        self.items()
    }

    open spec fn spec_node_view(node: DevTreeIndexNode<'a, 'i, 'dt>) -> ItemView {
        node@
    }

    open spec fn spec_prop_view(prop: DevTreeIndexProp<'a, 'i, 'dt>) -> ItemView {
        prop@
    }

    open spec fn spec_at_node(&self) -> bool {
        DevTreeIndexIter::spec_at_node(self)
    }

    open spec fn spec_at_prop(&self) -> bool {
        DevTreeIndexIter::spec_at_prop(self)
    }

    open spec fn spec_at_compatible(&self, target: Seq<u8>) -> bool {
        DevTreeIndexIter::spec_at_compatible(self, target)
    }

    open spec fn spec_gives_node(&self, node: DevTreeIndexNode<'a, 'i, 'dt>) -> bool {
        node.wf() && self.spec_next_item() == Some(DevTreeIndexItem::Node(node))
    }

    open spec fn spec_gives_prop(&self, prop: DevTreeIndexProp<'a, 'i, 'dt>) -> bool {
        prop.wf() && self.spec_next_item() == Some(DevTreeIndexItem::Prop(prop))
    }

    open spec fn spec_gives_owner(&self, node: DevTreeIndexNode<'a, 'i, 'dt>) -> bool {
        self.spec_owner(node)
    }

    proof fn lemma_advance(&self) {
        self.lemma_step();
        if !self.spec_done() {
            let item = self.spec_next_item()->0;
            if let DevTreeIndexItem::Prop(prop) = item {
                crate::index::iters::lemma_node_links(
                    self.index.buf@,
                    self.index.fdt@.len() as int,
                    self.index.len as int,
                    prop.node as int,
                );
            }
        }
    }

    fn next_item(&mut self) -> (r: Option<DevTreeIndexItem<'a, 'i, 'dt>>) {
        self.next()
    }

    fn matches_compatible(&self, prop: &DevTreeIndexProp<'a, 'i, 'dt>, string: &str) -> (r:
        bool) {
        prop.is_compatible(string)
    }

    fn owner_of(&self, prop: &DevTreeIndexProp<'a, 'i, 'dt>) -> (r: DevTreeIndexNode<
        'a,
        'i,
        'dt,
    >) {
        prop.node()
    }
}

impl<'a, 'i, 'dt> TreeIterator for DevTreeIndexIter<'a, 'i, 'dt> {

}

/// Whether two links between records are the same.
pub fn same_link(a: Option<usize>, b: Option<usize>) -> (r: bool)
    ensures
        r == (spec_opt(a) == spec_opt(b)),
{
    match a {
        None => b.is_none(),
        Some(x) => match b {
            None => false,
            Some(y) => x == y,
        },
    }
}

/// A cursor over the items of an indexed tree.
#[derive(Clone, Copy)]
pub struct DevTreeIndexItemIter<'a, 'i, 'dt>(pub DevTreeIndexIter<'a, 'i, 'dt>);

impl<'a, 'i, 'dt> DevTreeIndexItemIter<'a, 'i, 'dt> {
    /// A cursor at the root of `index`.
    pub fn new(index: &'a DevTreeIndex<'i, 'dt>) -> (r: Self)
        requires
            index.wf(),
        ensures
            r.0.wf(),
            r.0 == DevTreeIndexIter::spec_start(index),
    {
        DevTreeIndexItemIter(DevTreeIndexIter::new(index))
    }

    /// The next item.
    pub fn next(&mut self) -> (r: Option<DevTreeIndexItem<'a, 'i, 'dt>>)
        requires
            old(self).0.wf(),
        ensures
            final(self).0.wf(),
            final(self).0 == old(self).0.spec_after(),
            r == old(self).0.spec_next_item(),
            r is None <==> old(self).0.items().len() == 0,
            r matches Some(item) ==> item.wf() && item@ == old(self).0.items()[0] && final(self).0.items() == old(self).0.items().skip(1),
    {
        self.0.next()
    }
}

/// A cursor over the nodes of an indexed tree.
#[derive(Clone, Copy)]
pub struct DevTreeIndexNodeIter<'a, 'i, 'dt>(pub DevTreeIndexIter<'a, 'i, 'dt>);

impl<'a, 'i, 'dt> DevTreeIndexNodeIter<'a, 'i, 'dt> {
    /// A cursor at the root of `index`.
    pub fn new(index: &'a DevTreeIndex<'i, 'dt>) -> (r: Self)
        requires
            index.wf(),
        ensures
            r.0.wf(),
            r.0 == DevTreeIndexIter::spec_start(index),
    {
        DevTreeIndexNodeIter(DevTreeIndexIter::new(index))
    }

    /// The next node.
    pub fn next(&mut self) -> (r: Option<DevTreeIndexNode<'a, 'i, 'dt>>)
        requires
            old(self).0.wf(),
        ensures
            final(self).0.wf(),
            final(self).0 == spec_until_node(old(self).0).spec_after(),
            r is None <==> spec_until_node(old(self).0).spec_done(),
            r matches Some(node) ==> node.wf() && spec_until_node(old(self).0).spec_next_item()
                == Some(DevTreeIndexItem::Node(node)),
    {
        self.0.next_node()
    }
}

/// A cursor over a node and the siblings that follow it.
#[derive(Clone, Copy)]
pub struct DevTreeIndexNodeSiblingIter<'a, 'i, 'dt>(pub DevTreeIndexIter<'a, 'i, 'dt>);

impl<'a, 'i, 'dt> DevTreeIndexNodeSiblingIter<'a, 'i, 'dt> {
    /// A cursor at `node`.
    pub fn from_node(node: DevTreeIndexNode<'a, 'i, 'dt>) -> (r: Self)
        requires
            node.wf(),
        ensures
            r.0.wf(),
            r.0 == DevTreeIndexIter::spec_from_node(node),
    {
        DevTreeIndexNodeSiblingIter(DevTreeIndexIter::from_node(node))
    }

    /// The node that the cursor stands at; the cursor moves to the sibling
    /// that follows it.
    pub fn next(&mut self) -> (r: Option<DevTreeIndexNode<'a, 'i, 'dt>>)
        requires
            old(self).0.wf_at(),
        ensures
            final(self).0.wf_at(),
            final(self).0.index == old(self).0.index,
            final(self).0.prop_idx == old(self).0.prop_idx,
            final(self).0.initial_node_returned == old(self).0.initial_node_returned,
            match old(self).0.node {
                None => r is None && final(self).0.node is None,
                Some(c) => r == Some(DevTreeIndexNode { index: old(self).0.index, node: c })
                    && r->0.wf() && spec_opt(final(self).0.node) == spec_sibling(
                    old(self).0.index.buf@,
                    c as int,
                ),
            },
    {
        self.0.next_sibling()
    }
}

/// A cursor over the properties of one node of an indexed tree.
#[derive(Clone, Copy)]
pub struct DevTreeIndexNodePropIter<'a, 'i, 'dt>(pub DevTreeIndexIter<'a, 'i, 'dt>);

impl<'a, 'i, 'dt> DevTreeIndexNodePropIter<'a, 'i, 'dt> {
    /// A cursor before the first property of `node`.
    pub fn from_node(node: DevTreeIndexNode<'a, 'i, 'dt>) -> (r: Self)
        requires
            node.wf(),
        ensures
            r.0.wf(),
            r.0 == DevTreeIndexIter::spec_from_node(node),
    {
        DevTreeIndexNodePropIter(DevTreeIndexIter::from_node(node))
    }

    /// The next property of the node, or `None` for good once the node has
    /// no more.
    pub fn next(&mut self) -> (r: Option<DevTreeIndexProp<'a, 'i, 'dt>>)
        requires
            old(self).0.wf(),
        ensures
            final(self).0.wf(),
            r is Some <==> old(self).0.spec_at_prop(),
            r matches Some(prop) ==> prop.wf() && old(self).0.spec_next_item() == Some(
                DevTreeIndexItem::Prop(prop),
            ) && final(self).0 == old(self).0.spec_after(),
            r is None ==> *final(self) == *old(self),
    {
        self.0.next_node_prop()
    }
}

/// A cursor over the properties of an indexed tree, whatever node they
/// belong to.
#[derive(Clone, Copy)]
pub struct DevTreeIndexPropIter<'a, 'i, 'dt>(pub DevTreeIndexIter<'a, 'i, 'dt>);

impl<'a, 'i, 'dt> DevTreeIndexPropIter<'a, 'i, 'dt> {
    /// A cursor at the root of `index`.
    pub fn new(index: &'a DevTreeIndex<'i, 'dt>) -> (r: Self)
        requires
            index.wf(),
        ensures
            r.0.wf(),
            r.0 == DevTreeIndexIter::spec_start(index),
    {
        DevTreeIndexPropIter(DevTreeIndexIter::new(index))
    }

    /// The next property.
    pub fn next(&mut self) -> (r: Option<DevTreeIndexProp<'a, 'i, 'dt>>)
        requires
            old(self).0.wf(),
        ensures
            final(self).0.wf(),
            final(self).0 == spec_until_prop(old(self).0).spec_after(),
            r is None <==> spec_until_prop(old(self).0).spec_done(),
            r matches Some(prop) ==> prop.wf() && spec_until_prop(old(self).0).spec_next_item()
                == Some(DevTreeIndexItem::Prop(prop)),
    {
        self.0.next_prop()
    }
}

} // verus!
