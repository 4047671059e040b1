//! The cursors over a tree that decode tokens as they go.
use crate::base::item::DevTreeItem;
use crate::base::node::DevTreeNode;
use crate::base::parse::{lemma_token_advances, next_devtree_token, spec_token, ParsedTok, TokenView};
use crate::base::prop::DevTreeProp;
use crate::base::tree::DevTree;
use crate::bytes::{read_be_u64, spec_be_u64};
use crate::common::iter::{
    spec_compatible_search, spec_until_node, spec_until_prop, TreeCursor, TreeIterator,
};
use crate::common::prop::{spec_compatible, DevTreePropState};
use crate::wire::{fdt_reserve_entry, FDT_RESERVE_ENTRY_SIZE};
use crate::common::item::{lemma_items_step, lemma_seek_items, spec_items, spec_seek, ItemView};
use vstd::prelude::*;
use vstd::string::StringSliceAdditionalSpecFns;

verus! {

/// An offset that may be absent, as a mathematical integer.
pub open spec fn spec_opt_int(p: Option<usize>) -> Option<int> {
    match p {
        Some(v) => Some(v as int),
        None => None,
    }
}

/// The entry of the memory-reservation block that the sixteen bytes from
/// `off` on spell.
pub open spec fn spec_reserve_entry(buf: Seq<u8>, off: int) -> fdt_reserve_entry {
    fdt_reserve_entry { address: spec_be_u64(buf, off), size: spec_be_u64(buf, off + 8) }
}

/// The entries of the memory-reservation block from `off` on: they end
/// before the first entry that is all zero, and where no whole entry is left
/// in the buffer.
pub open spec fn spec_reserved(buf: Seq<u8>, off: int) -> Seq<fdt_reserve_entry>
    decreases buf.len() - off,
{
    if off < 0 || off + FDT_RESERVE_ENTRY_SIZE > buf.len() {
        Seq::empty()
    } else if spec_reserve_entry(buf, off).address == 0 && spec_reserve_entry(buf, off).size == 0 {
        Seq::empty()
    } else {
        seq![spec_reserve_entry(buf, off)] + spec_reserved(buf, off + FDT_RESERVE_ENTRY_SIZE)
    }
}

/// A cursor over the entries of the memory-reservation block.
#[derive(Clone, Copy)]
pub struct DevTreeReserveEntryIter<'a, 'dt> {
    pub offset: usize,
    pub fdt: &'a DevTree<'dt>,
}

impl<'a, 'dt> DevTreeReserveEntryIter<'a, 'dt> {
    /// The entries still to come.
    pub open spec fn entries(&self) -> Seq<fdt_reserve_entry> {
        spec_reserved(self.fdt@, self.offset as int)
    }

    /// A cursor at the start of the memory-reservation block.
    pub fn new(fdt: &'a DevTree<'dt>) -> (r: Self)
        requires
            fdt.wf(),
        ensures
            r.fdt == fdt,
            r.offset == fdt.spec_off_mem_rsvmap(),
    {
        Self { offset: fdt.off_mem_rsvmap(), fdt }
    }

    /// The next entry. At the entry that is all zero, and where the buffer
    /// holds no whole entry any more, the cursor stays where it is and
    /// yields nothing, now and ever after.
    pub fn next(&mut self) -> (r: Option<fdt_reserve_entry>)
        ensures
            final(self).fdt == old(self).fdt,
            r is None <==> old(self).entries().len() == 0,
            r is None ==> *final(self) == *old(self),
            r matches Some(entry) ==> entry == old(self).entries()[0] && entry
                == spec_reserve_entry(old(self).fdt@, old(self).offset as int) && final(self).offset
                == old(self).offset + FDT_RESERVE_ENTRY_SIZE && final(self).entries() == old(self).entries().skip(1),
    {
        let buf: &'dt [u8] = self.fdt.buf();
        if buf.len() < FDT_RESERVE_ENTRY_SIZE || self.offset > buf.len() - FDT_RESERVE_ENTRY_SIZE {
            return None;
        }
        let address: u64 = match read_be_u64(buf, self.offset) {
            Ok(v) => v,
            Err(_) => {
                return None;
            },
        };
        let size: u64 = match read_be_u64(buf, self.offset + 8) {
            Ok(v) => v,
            Err(_) => {
                return None;
            },
        };
        if address == 0 && size == 0 {
            return None;
        }
        assert(old(self).entries().skip(1) =~= spec_reserved(
            buf@,
            self.offset + FDT_RESERVE_ENTRY_SIZE,
        ));
        self.offset = self.offset + FDT_RESERVE_ENTRY_SIZE;
        Some(fdt_reserve_entry { address, size })
    }
}

/// A cursor over all items of a tree, in the order of the structure block.
///
/// It holds the offset of the next token, the offset of the `BeginNode`
/// token of the node that is open, if one is, and the number of nodes that
/// have been opened and not closed. A property belongs to the open node, and
/// none may follow once that node is closed. An `EndNode` token that finds
/// no node open ends the stream.
#[derive(Clone, Copy)]
pub struct DevTreeIter<'a, 'dt> {
    pub current_prop_parent_off: Option<usize>,
    pub offset: usize,
    /// The number of nodes that are open.
    pub depth: usize,
    pub fdt: &'a DevTree<'dt>,
}

impl<'a, 'dt> DevTreeIter<'a, 'dt> {
    /// The tree is valid. No more nodes are open than there are bytes before
    /// the cursor. Where a node is open for properties, a `BeginNode` token
    /// stands at its offset, and it counts among the open nodes.
    pub open spec fn wf(&self) -> bool {
        &&& self.fdt.wf()
        &&& self.depth <= self.offset
        &&& self.current_prop_parent_off matches Some(p) ==> spec_token(self.fdt@, p as int)
            is BeginNode && 1 <= self.depth <= p + 1
    }

    /// The items still to come.
    pub open spec fn items(&self) -> Seq<ItemView> {
        spec_items(
            self.fdt@,
            self.offset as int,
            self.current_prop_parent_off is Some,
            self.depth as int,
        )
    }

    /// Where the next item is looked for: the offset after every `Nop` and
    /// every `EndNode` from here on that closes a node, the node that is open
    /// there, and the number of nodes that are open there.
    pub open spec fn spec_found(&self) -> (int, Option<int>, int) {
        spec_seek(
            self.fdt@,
            self.offset as int,
            spec_opt_int(self.current_prop_parent_off),
            self.depth as int,
        )
    }

    /// The stream has ended: what is found is neither a node nor a property
    /// of an open node. That is so at the `End` token, at anything that is
    /// no token, at a property that follows no open node, and at an `EndNode`
    /// token that finds no node open.
    pub open spec fn spec_done(&self) -> bool {
        let (at, parent, deep) = self.spec_found();
        match spec_token(self.fdt@, at) {
            TokenView::BeginNode { .. } => false,
            TokenView::Prop { .. } => parent is None,
            _ => true,
        }
    }

    /// The cursor after its next item: past the token that yields it, with
    /// the node that the token opens or belongs to as the open node, and one
    /// node more open after a node. A cursor whose stream has ended stays as
    /// it is.
    pub open spec fn spec_after(&self) -> Self {
        let (at, parent, deep) = self.spec_found();
        match spec_token(self.fdt@, at) {
            TokenView::BeginNode { next, .. } => DevTreeIter {
                current_prop_parent_off: Some(at as usize),
                offset: next as usize,
                depth: (deep + 1) as usize,
                fdt: self.fdt,
            },
            TokenView::Prop { next, .. } => if parent is Some {
                DevTreeIter {
                    current_prop_parent_off: self.current_prop_parent_off,
                    offset: next as usize,
                    depth: self.depth,
                    fdt: self.fdt,
                }
            } else {
                *self
            },
            _ => *self,
        }
    }

    /// The cursor as it stood at the token that opened the open node `owner`,
    /// before that token was read: one step of it yields that node.
    pub open spec fn spec_before_node(&self, owner: usize) -> Self {
        DevTreeIter {
            current_prop_parent_off: None,
            offset: owner,
            depth: (self.depth - 1) as usize,
            fdt: self.fdt,
        }
    }

    /// Whether `item` is the next item of this cursor: the node that the
    /// token found opens, with the cursor as it is after it, or the property
    /// that the token holds, with the cursor as it stood at the token of the
    /// node that is open.
    pub open spec fn spec_yields(&self, item: DevTreeItem<'a, 'dt>) -> bool {
        let (at, parent, deep) = self.spec_found();
        match item {
            DevTreeItem::Node(node) => {
                &&& spec_token(self.fdt@, at) is BeginNode
                &&& node.wf()
                &&& node.parse_iter == self.spec_after()
            },
            DevTreeItem::Prop(prop) => {
                &&& spec_token(self.fdt@, at) matches TokenView::Prop {
                    value_start,
                    value_end,
                    name_offset,
                    next,
                }
                &&& self.current_prop_parent_off matches Some(owner)
                &&& parent is Some
                &&& prop.wf()
                &&& prop.propbuf@ == self.fdt@.subrange(value_start, value_end)
                &&& prop.nameoff == name_offset
                &&& prop.parent_iter == self.spec_before_node(owner)
            },
        }
    }

    /// Whether the next item is a property.
    pub open spec fn spec_at_prop(&self) -> bool {
        !self.spec_done() && spec_token(self.fdt@, self.spec_found().0) is Prop
    }

    /// Whether the next item is a node.
    pub open spec fn spec_at_node(&self) -> bool {
        spec_token(self.fdt@, self.spec_found().0) is BeginNode
    }

    /// Whether the next item is a property named `compatible` whose value
    /// starts with the string `target`.
    pub open spec fn spec_at_compatible(&self, target: Seq<u8>) -> bool {
        &&& self.spec_at_prop()
        &&& spec_token(self.fdt@, self.spec_found().0) matches TokenView::Prop {
            value_start,
            value_end,
            name_offset,
            next,
        }
        &&& spec_compatible(
            self.fdt@,
            self.fdt.spec_off_dt_strings(),
            name_offset,
            self.fdt@.subrange(value_start, value_end),
            target,
        )
    }

    /// Whether `node` is the node that owns the property that comes next:
    /// the node that is open, with the cursor as it stood right after that
    /// node was opened.
    pub open spec fn spec_owner(&self, node: DevTreeNode<'a, 'dt>) -> bool {
        &&& self.spec_at_prop()
        &&& node.wf()
        &&& node.parse_iter.fdt == self.fdt
        &&& node.parse_iter.current_prop_parent_off == self.current_prop_parent_off
        &&& node.parse_iter.depth == self.depth
    }

    /// A cursor whose stream has not ended moves forward with its next item.
    pub proof fn lemma_after_advances(&self)
        requires
            !self.spec_done(),
        ensures
            self.offset < self.spec_after().offset < self.fdt@.len() + 4,
            self.spec_after().fdt == self.fdt,
    {
        lemma_seek_items(
            self.fdt@,
            self.offset as int,
            spec_opt_int(self.current_prop_parent_off),
            self.depth as int,
        );
        lemma_token_advances(self.fdt@, self.spec_found().0);
    }

    /// What one step does to the stream: a cursor whose stream has ended has
    /// no items and stays as it is; any other has the view of what it yields
    /// as its first item, and the cursor after it has the rest.
    pub proof fn lemma_step(&self)
        requires
            self.wf(),
        ensures
            self.spec_after().wf(),
            self.spec_after().fdt == self.fdt,
            self.spec_done() <==> self.items().len() == 0,
            self.spec_done() ==> self.spec_after() == *self,
            !self.spec_done() ==> self.spec_after().items() == self.items().skip(1),
            self.spec_at_node() <==> self.items().len() > 0 && self.items()[0] is Node,
            self.spec_at_prop() <==> self.items().len() > 0 && self.items()[0] is Prop,
    {
        lemma_items_step(
            self.fdt@,
            self.offset as int,
            spec_opt_int(self.current_prop_parent_off),
            self.depth as int,
        );
        lemma_seek_items(
            self.fdt@,
            self.offset as int,
            spec_opt_int(self.current_prop_parent_off),
            self.depth as int,
        );
        if !self.spec_done() {
            lemma_token_advances(self.fdt@, self.spec_found().0);
        }
    }

    /// What a cursor yields is the first item of its stream.
    pub proof fn lemma_yields_first(&self, item: DevTreeItem<'a, 'dt>)
        requires
            self.wf(),
            self.spec_yields(item),
        ensures
            self.items().len() > 0,
            item@ == self.items()[0],
    {
        lemma_items_step(
            self.fdt@,
            self.offset as int,
            spec_opt_int(self.current_prop_parent_off),
            self.depth as int,
        );
        lemma_seek_items(
            self.fdt@,
            self.offset as int,
            spec_opt_int(self.current_prop_parent_off),
            self.depth as int,
        );
        lemma_token_advances(self.fdt@, self.spec_found().0);
    }

    /// A cursor at the start of the structure block, with no node open.
    pub fn new(fdt: &'a DevTree<'dt>) -> (r: Self)
        requires
            fdt.wf(),
        ensures
            r.wf(),
            r.fdt == fdt,
            r.offset == fdt.spec_off_dt_struct(),
            r.current_prop_parent_off is None,
            r.depth == 0,
    {
        Self { offset: fdt.off_dt_struct(), current_prop_parent_off: None, depth: 0, fdt }
    }

    /// A cursor at a given place of a tree.
    pub(crate) fn at(
        fdt: &'a DevTree<'dt>,
        offset: usize,
        parent: Option<usize>,
        depth: usize,
    ) -> (r: Self)
        ensures
            r == (DevTreeIter { current_prop_parent_off: parent, offset, depth, fdt }),
    {
        Self { offset, current_prop_parent_off: parent, depth, fdt }
    }

    /// The cursor as it stood at the token that opened the open node, before
    /// that token was read, if a node is open: one step of it yields that
    /// node.
    pub(crate) fn current_node_itr(&self) -> (r: Option<DevTreeIter<'a, 'dt>>)
        requires
            self.current_prop_parent_off is Some ==> self.depth >= 1,
        ensures
            match self.current_prop_parent_off {
                Some(p) => r == Some(self.spec_before_node(p)),
                None => r is None,
            },
    {
        match self.current_prop_parent_off {
            Some(offset) => Some(
                DevTreeIter {
                    fdt: self.fdt,
                    current_prop_parent_off: None,
                    offset,
                    depth: self.depth - 1,
                },
            ),
            None => None,
        }
    }

    /// One step of the cursor, stated over tokens alone.
    #[verifier::rlimit(40)]
    fn step(&mut self) -> (r: Option<DevTreeItem<'a, 'dt>>)
        requires
            old(self).wf(),
        ensures
            *final(self) == old(self).spec_after(),
            r is None <==> old(self).spec_done(),
            r matches Some(item) ==> old(self).spec_yields(item),
    {
        let buf: &'dt [u8] = self.fdt.buf();
        let mut off: usize = self.offset;
        let mut parent: Option<usize> = self.current_prop_parent_off;
        let mut depth: usize = self.depth;
        loop
            invariant
                buf@ == self.fdt@,
                *self == *old(self),
                self.wf(),
                parent == self.current_prop_parent_off || parent is None,
                parent is Some ==> depth == self.depth,
                depth <= off,
                spec_seek(buf@, off as int, spec_opt_int(parent), depth as int) == old(
                    self,
                ).spec_found(),
            decreases buf@.len() + 4 - off,
        {
            let at: usize = off;
            let tok = next_devtree_token(buf, &mut off);
            proof {
                if !(spec_token(buf@, at as int) is Invalid) {
                    lemma_token_advances(buf@, at as int);
                }
            }
            match tok {
                Ok(Some(ParsedTok::BeginNode(node))) => {
                    self.offset = off;
                    self.current_prop_parent_off = Some(at);
                    self.depth = depth + 1;
                    return Some(DevTreeItem::Node(DevTreeNode { name: node.name, parse_iter: *self }));
                },
                Ok(Some(ParsedTok::Prop(prop))) => {
                    // A property belongs to the node that is open.
                    let here = DevTreeIter {
                        current_prop_parent_off: parent,
                        offset: off,
                        depth,
                        fdt: self.fdt,
                    };
                    match here.current_node_itr() {
                        Some(owner) => {
                            self.offset = off;
                            return Some(
                                DevTreeItem::Prop(
                                    DevTreeProp::new(owner, prop.prop_buf, prop.name_offset),
                                ),
                            );
                        },
                        None => {
                            return None;
                        },
                    }
                },
                Ok(Some(ParsedTok::EndNode)) => {
                    // An end that no node awaits ends the stream.
                    if depth == 0 {
                        return None;
                    }
                    depth = depth - 1;
                    parent = None;
                },
                Ok(Some(ParsedTok::Nop)) => {},
                _ => {
                    return None;
                },
            }
        }
    }

    /// The next item, or `None` where the stream has ended.
    ///
    /// A `BeginNode` token yields a node and makes it the open node. A `Prop`
    /// token yields a property of the open node. `EndNode` closes the open
    /// node, `Nop` is passed over. The stream ends at the `End` token, at
    /// anything that is no token, at a property that follows no open node,
    /// and at an `EndNode` token that finds no node open; there the cursor
    /// stays as it was, so that it ends for good.
    pub fn next(&mut self) -> (r: Option<DevTreeItem<'a, 'dt>>)
        requires
            old(self).wf(),
        ensures
            final(self).wf(),
            *final(self) == old(self).spec_after(),
            r is None <==> old(self).spec_done(),
            r matches Some(item) ==> old(self).spec_yields(item),
            r is None <==> old(self).items().len() == 0,
            r matches Some(item) ==> item@ == old(self).items()[0] && final(self).items() == old(self).items().skip(1),
    {
        let r = self.step();
        proof {
            old(self).lemma_step();
            if let Some(item) = r {
                old(self).lemma_yields_first(item);
            }
        }
        r
    }

    /// The next node, whatever properties stand before it.
    pub fn next_node(&mut self) -> (r: Option<DevTreeNode<'a, 'dt>>)
        requires
            old(self).wf(),
        ensures
            final(self).wf(),
            *final(self) == spec_until_node(*old(self)).spec_after(),
            r is None <==> spec_until_node(*old(self)).spec_done(),
            r matches Some(node) ==> node.wf() && spec_until_node(*old(self)).spec_yields(
                DevTreeItem::Node(node),
            ),
    {
        <Self as TreeIterator>::next_node(self)
    }

    /// The next property, whatever nodes open before it.
    pub fn next_prop(&mut self) -> (r: Option<DevTreeProp<'a, 'dt>>)
        requires
            old(self).wf(),
        ensures
            final(self).wf(),
            *final(self) == spec_until_prop(*old(self)).spec_after(),
            r is None <==> spec_until_prop(*old(self)).spec_done(),
            r matches Some(prop) ==> prop.wf() && spec_until_prop(*old(self)).spec_yields(
                DevTreeItem::Prop(prop),
            ),
    {
        <Self as TreeIterator>::next_prop(self)
    }

    /// The next item if it is a property, which then belongs to the node
    /// that is open. Otherwise nothing is yielded and the cursor stays as it
    /// is.
    pub fn next_node_prop(&mut self) -> (r: Option<DevTreeProp<'a, 'dt>>)
        requires
            old(self).wf(),
        ensures
            final(self).wf(),
            r is Some <==> old(self).spec_at_prop(),
            r matches Some(prop) ==> prop.wf() && old(self).spec_yields(DevTreeItem::Prop(prop))
                && *final(self) == old(self).spec_after(),
            r is None ==> *final(self) == *old(self),
    {
        <Self as TreeIterator>::next_node_prop(self)
    }

    /// Passes one node, then looks at every property that follows, in any
    /// node, for one named `compatible` whose value starts with `string`, and
    /// yields the node that owns it. The cursor is left after that property,
    /// so that the next call finds the next such node.
    pub fn next_compatible_node(&mut self, string: &str) -> (r: Option<DevTreeNode<'a, 'dt>>)
        requires
            old(self).wf(),
        ensures
            final(self).wf(),
            *final(self) == spec_compatible_search(*old(self), string.spec_bytes()).spec_after(),
            r is None <==> spec_compatible_search(*old(self), string.spec_bytes()).spec_done(),
            r matches Some(node) ==> spec_compatible_search(
                *old(self),
                string.spec_bytes(),
            ).spec_owner(node),
    {
        <Self as TreeIterator>::next_compatible_node(self, string)
    }
}

impl<'a, 'dt> TreeCursor for DevTreeIter<'a, 'dt> {
    type Item = DevTreeItem<'a, 'dt>;

    open spec fn spec_ok(&self) -> bool {
        self.wf()
    }

    open spec fn spec_ended(&self) -> bool {
        self.spec_done()
    }

    open spec fn spec_next_state(&self) -> Self {
        self.spec_after()
    }

    open spec fn spec_budget(&self) -> int {
        self.fdt@.len() + 4 - self.offset
    }

    open spec fn spec_items(&self) -> Seq<ItemView> {
        self.items()
    }

    open spec fn spec_node_view(node: DevTreeNode<'a, 'dt>) -> ItemView {
        node@
    }

    open spec fn spec_prop_view(prop: DevTreeProp<'a, 'dt>) -> ItemView {
        prop@
    }

    open spec fn spec_at_node(&self) -> bool {
        DevTreeIter::spec_at_node(self)
    }

    open spec fn spec_at_prop(&self) -> bool {
        DevTreeIter::spec_at_prop(self)
    }

    open spec fn spec_at_compatible(&self, target: Seq<u8>) -> bool {
        DevTreeIter::spec_at_compatible(self, target)
    }

    open spec fn spec_gives_node(&self, node: DevTreeNode<'a, 'dt>) -> bool {
        node.wf() && self.spec_yields(DevTreeItem::Node(node))
    }

    open spec fn spec_gives_prop(&self, prop: DevTreeProp<'a, 'dt>) -> bool {
        prop.wf() && self.spec_yields(DevTreeItem::Prop(prop))
    }

    open spec fn spec_gives_owner(&self, node: DevTreeNode<'a, 'dt>) -> bool {
        self.spec_owner(node)
    }

    proof fn lemma_advance(&self) {
        self.lemma_step();
        if !self.spec_done() {
            self.lemma_after_advances();
        }
        assert forall|node: DevTreeNode<'a, 'dt>| #[trigger]
            self.spec_gives_node(node) implies node@ is Node && self.items().len() > 0 && node@
            == self.items()[0] by {
            self.lemma_yields_first(DevTreeItem::Node(node));
        }
        assert forall|prop: DevTreeProp<'a, 'dt>| #[trigger]
            self.spec_gives_prop(prop) implies prop@ is Prop && self.items().len() > 0 && prop@
            == self.items()[0] by {
            self.lemma_yields_first(DevTreeItem::Prop(prop));
        }
    }

    fn next_item(&mut self) -> (r: Option<DevTreeItem<'a, 'dt>>) {
        self.next()
    }

    fn matches_compatible(&self, prop: &DevTreeProp<'a, 'dt>, string: &str) -> (r: bool) {
        prop.is_compatible(string)
    }

    fn owner_of(&self, prop: &DevTreeProp<'a, 'dt>) -> (r: DevTreeNode<'a, 'dt>) {
        prop.node()
    }
}

impl<'a, 'dt> TreeIterator for DevTreeIter<'a, 'dt> {

}

/// A cursor over the nodes of a tree.
#[derive(Clone, Copy)]
pub struct DevTreeNodeIter<'a, 'dt>(pub DevTreeIter<'a, 'dt>);

impl<'a, 'dt> DevTreeNodeIter<'a, 'dt> {
    /// The next node.
    pub fn next(&mut self) -> (r: Option<DevTreeNode<'a, 'dt>>)
        requires
            old(self).0.wf(),
        ensures
            final(self).0.wf(),
            final(self).0 == spec_until_node(old(self).0).spec_after(),
            r is None <==> spec_until_node(old(self).0).spec_done(),
            r matches Some(node) ==> node.wf() && spec_until_node(old(self).0).spec_yields(
                DevTreeItem::Node(node),
            ),
    {
        self.0.next_node()
    }
}

/// A cursor over the properties of a tree, whatever node they belong to.
#[derive(Clone, Copy)]
pub struct DevTreePropIter<'a, 'dt>(pub DevTreeIter<'a, 'dt>);

impl<'a, 'dt> DevTreePropIter<'a, 'dt> {
    /// The next property.
    pub fn next(&mut self) -> (r: Option<DevTreeProp<'a, 'dt>>)
        requires
            old(self).0.wf(),
        ensures
            final(self).0.wf(),
            final(self).0 == spec_until_prop(old(self).0).spec_after(),
            r is None <==> spec_until_prop(old(self).0).spec_done(),
            r matches Some(prop) ==> prop.wf() && spec_until_prop(old(self).0).spec_yields(
                DevTreeItem::Prop(prop),
            ),
    {
        self.0.next_prop()
    }
}

/// A cursor over the properties of one node.
#[derive(Clone, Copy)]
pub struct DevTreeNodePropIter<'a, 'dt>(pub DevTreeIter<'a, 'dt>);

impl<'a, 'dt> DevTreeNodePropIter<'a, 'dt> {
    /// The next property of the node, or `None` for good once an item that
    /// is no property comes next.
    pub fn next(&mut self) -> (r: Option<DevTreeProp<'a, 'dt>>)
        requires
            old(self).0.wf(),
        ensures
            final(self).0.wf(),
            r is Some <==> old(self).0.spec_at_prop(),
            r matches Some(prop) ==> prop.wf() && old(self).0.spec_yields(DevTreeItem::Prop(prop))
                && final(self).0 == old(self).0.spec_after(),
            r is None ==> *final(self) == *old(self),
    {
        self.0.next_node_prop()
    }
}

/// A cursor over the nodes that are compatible with a given string.
#[derive(Clone, Copy)]
pub struct DevTreeCompatibleNodeIter<'s, 'a, 'dt> {
    pub iter: DevTreeIter<'a, 'dt>,
    pub string: &'s str,
}

impl<'s, 'a, 'dt> DevTreeCompatibleNodeIter<'s, 'a, 'dt> {
    /// The next compatible node.
    pub fn next(&mut self) -> (r: Option<DevTreeNode<'a, 'dt>>)
        requires
            old(self).iter.wf(),
        ensures
            final(self).iter.wf(),
            final(self).string == old(self).string,
            final(self).iter == spec_compatible_search(
                old(self).iter,
                old(self).string.spec_bytes(),
            ).spec_after(),
            r is None <==> spec_compatible_search(
                old(self).iter,
                old(self).string.spec_bytes(),
            ).spec_done(),
            r matches Some(node) ==> spec_compatible_search(
                old(self).iter,
                old(self).string.spec_bytes(),
            ).spec_owner(node),
    {
        self.iter.next_compatible_node(self.string)
    }
}

} // verus!
