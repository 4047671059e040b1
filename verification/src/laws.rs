//! What holds of the library as a whole, stated over the models of its
//! types and proved from their definitions.
use crate::base::iters::{spec_reserve_entry, spec_reserved, DevTreeIter};
use crate::bytes::{lemma_nul_pos, spec_nul_pos};
use crate::common::item::{
    lemma_items_unfold, lemma_seek_items, spec_items, spec_node_names, ItemView,
};
use crate::common::iter::{lemma_nodes_in_order, spec_until_node};
use crate::common::prop::{spec_fill, spec_str_end, spec_str_list, StrListEnd};
use crate::index::iters::{spec_reach, spec_sibling, DevTreeIndexIter};
use crate::index::kin::{spec_child, spec_kin};
use crate::base::parse::{lemma_token_advances, spec_token, TokenView};
use crate::base::tree::DevTree;
use crate::error::DevTreeError;
use crate::index::store::{
    spec_capacity, spec_field, F_PROP_NAME, F_VALUE_LEN, F_VALUE_OFF, REC_SIZE,
};
use crate::index::tree::{
    lemma_build_step, spec_build_error, spec_first_child, spec_is_node,
    spec_is_prop, spec_next, spec_node_ok, spec_num_props, spec_parent, spec_rec_view,
    spec_succ, DevTreeIndex,
};
use crate::wire::FDT_RESERVE_ENTRY_SIZE;
use vstd::prelude::*;
use vstd::utf8::valid_utf8;

verus! {

/// In an index whose tree has one root, a walk along the links passes every
/// record.
pub proof fn lemma_reach_all(index: &DevTreeIndex, from: int)
    requires
        index.wf(),
        index.spec_single_root(),
        1 <= from <= index.len,
    ensures
        spec_reach(index.buf@, index.len as int, from) == index.len,
    decreases index.len - from,
{
    if from < index.len {
        lemma_reach_all(index, from + 1);
    }
}

/// An index agrees with its tree: walked from its root, an index of a tree
/// with one root yields item for item what the tree itself yields from its
/// start, each node with the same name and each property with the same value
/// and name offset.
pub proof fn lemma_index_items_are_tree_items(index: &DevTreeIndex)
    requires
        index.wf(),
        index.spec_single_root(),
    ensures
        DevTreeIndexIter::spec_start(index).items() == index.fdt.spec_start().items(),
{
    lemma_reach_all(index, 1);
    assert(index.arena().subrange(0, index.len as int) =~= index.arena());
}

/// An index and its tree yield the same node names in the same order.
pub proof fn lemma_index_node_names_are_tree_node_names(index: &DevTreeIndex)
    requires
        index.wf(),
        index.spec_single_root(),
    ensures
        spec_node_names(DevTreeIndexIter::spec_start(index).items()) == spec_node_names(
            index.fdt.spec_start().items(),
        ),
{
    lemma_index_items_are_tree_items(index);
}

/// The properties of a node are the same in both engines: the item of the
/// tree at the place of a node's record is that node, and the items after it,
/// as many as the node has properties, are properties with the value and the
/// name offset that the index holds for them.
pub proof fn lemma_index_props_are_tree_props(index: &DevTreeIndex, node: int, k: int)
    requires
        index.wf(),
        0 <= node < index.len,
        spec_is_node(index.buf@, node),
        0 <= k < spec_num_props(index.buf@, node),
    ensures
        node + 1 + k < index.fdt.spec_start().items().len(),
        index.fdt.spec_start().items()[node] is Node,
        index.fdt.spec_start().items()[node] == spec_rec_view(index.buf@, index.fdt@, node),
        index.fdt.spec_start().items()[node + 1 + k] == (ItemView::Prop {
            value: index.fdt@.subrange(
                spec_field(index.buf@, node + 1 + k, F_VALUE_OFF as int) as int,
                spec_field(index.buf@, node + 1 + k, F_VALUE_OFF as int) + spec_field(
                    index.buf@,
                    node + 1 + k,
                    F_VALUE_LEN as int,
                ),
            ),
            name_offset: spec_field(index.buf@, node + 1 + k, F_PROP_NAME as int) as int,
        }),
{
    assert(spec_node_ok(index.buf@, index.fdt@.len() as int, index.len as int, node));
    assert(spec_is_prop(index.buf@, node + 1 + k));
    assert(index.arena()[node] == spec_rec_view(index.buf@, index.fdt@, node));
    assert(index.arena()[node + 1 + k] == spec_rec_view(index.buf@, index.fdt@, node + 1 + k));
}

/// Walking the siblings of an index walks the children of one parent in
/// their order: the step from a node leads to a sibling that follows it,
/// to the first of them, and it leads to one wherever there is one.
pub proof fn lemma_next_sibling_is_first(index: &DevTreeIndex, i: int, j: int)
    requires
        index.wf(),
        0 <= i < index.len,
        spec_is_node(index.buf@, i),
    ensures
        spec_sibling(index.buf@, i) matches Some(x) ==> spec_kin(index.buf@, i, x) && x
            < index.len && (spec_kin(index.buf@, i, j) && j < index.len ==> x <= j),
        spec_kin(index.buf@, i, j) && j < index.len ==> spec_sibling(index.buf@, i) is Some,
{
    let ib = index.buf@;
    assert(spec_node_ok(ib, index.fdt@.len() as int, index.len as int, i));
    if spec_next(ib, i) is Some {
        assert(spec_parent(ib, spec_next(ib, i)->0) is Some);
    }
}

/// The first child of a node of an index is a child of it, the first of
/// them in the order of the tree, and a node that has a child has a first
/// child.
pub proof fn lemma_first_child_is_first(index: &DevTreeIndex, i: int, j: int)
    requires
        index.wf(),
        0 <= i < index.len,
        spec_is_node(index.buf@, i),
    ensures
        spec_first_child(index.buf@, i) matches Some(c) ==> spec_child(index.buf@, i, c) && c
            < index.len && (spec_child(index.buf@, i, j) && j < index.len ==> c <= j),
        spec_child(index.buf@, i, j) && j < index.len ==> spec_first_child(index.buf@, i)
            is Some,
{
    let ib = index.buf@;
    assert(spec_node_ok(ib, index.fdt@.len() as int, index.len as int, i));
    if spec_child(ib, i, j) && j < index.len {
        assert(spec_node_ok(ib, index.fdt@.len() as int, index.len as int, j));
        if i < j < spec_succ(ib, i) {
            assert(spec_is_prop(ib, j));
        }
    }
}

/// A buffer with room for one record for each item of the tree is large
/// enough: with `room` records free for the items from `off` on, the pass
/// that builds an index does not fail for want of memory.
pub proof fn lemma_room_for_each_item_suffices(
    src: Seq<u8>,
    off: int,
    depth: int,
    in_header: bool,
    started: bool,
    room: int,
)
    requires
        room >= spec_items(src, off, in_header, depth).len(),
    ensures
        spec_build_error(src, off, depth, in_header, started, room) != Some(
            DevTreeError::NotEnoughMemory,
        ),
    decreases src.len() + 4 - off,
{
    lemma_build_step(src, off, depth, in_header, started, room);
    lemma_items_unfold(src, off, in_header, depth);
    match spec_token(src, off) {
        TokenView::Nop { next } => {
            lemma_token_advances(src, off);
            lemma_room_for_each_item_suffices(src, next, depth, in_header, started, room);
        },
        TokenView::BeginNode { next, .. } => {
            lemma_token_advances(src, off);
            lemma_room_for_each_item_suffices(src, next, depth + 1, true, true, room - 1);
        },
        TokenView::Prop { next, .. } => {
            if started && in_header {
                lemma_token_advances(src, off);
                lemma_room_for_each_item_suffices(src, next, depth, true, true, room - 1);
            }
        },
        TokenView::EndNode { next } => {
            if started && depth > 0 {
                lemma_token_advances(src, off);
                lemma_room_for_each_item_suffices(src, next, depth - 1, false, true, room);
            }
        },
        _ => {},
    }
}

/// The layout that `get_layout` asks for is enough for `new`: in a buffer
/// with room for one record for each item of a tree, the index of that tree
/// is not refused for want of memory.
pub proof fn lemma_layout_suffices(fdt: &DevTree, len: int)
    requires
        fdt.wf(),
        len >= fdt.spec_start().items().len() * REC_SIZE,
    ensures
        spec_build_error(
            fdt@,
            fdt.spec_off_dt_struct(),
            0,
            false,
            false,
            spec_capacity(len),
        ) != Some(DevTreeError::NotEnoughMemory),
{
    lemma_room_for_each_item_suffices(
        fdt@,
        fdt.spec_off_dt_struct(),
        0,
        false,
        false,
        spec_capacity(len),
    );
}

/// Each memory-reservation entry of the stream is the one at its place in
/// the block, lies in the buffer, and is not all zero.
pub proof fn lemma_reserved_entry(buf: Seq<u8>, off: int, i: int)
    requires
        0 <= off,
        0 <= i < spec_reserved(buf, off).len(),
    ensures
        off + (i + 1) * FDT_RESERVE_ENTRY_SIZE <= buf.len(),
        spec_reserved(buf, off)[i] == spec_reserve_entry(buf, off + i * FDT_RESERVE_ENTRY_SIZE),
        !(spec_reserved(buf, off)[i].address == 0 && spec_reserved(buf, off)[i].size == 0),
    decreases i,
{
    if i > 0 {
        lemma_reserved_entry(buf, off + FDT_RESERVE_ENTRY_SIZE, i - 1);
        assert(spec_reserved(buf, off)[i] == spec_reserved(buf, off + FDT_RESERVE_ENTRY_SIZE)[i
            - 1]);
    }
}

/// The memory-reservation entries end at the first entry that is all zero:
/// right after the last entry of the stream stands an entry that is all
/// zero, or no whole entry.
pub proof fn lemma_reserved_ends_at_zero(buf: Seq<u8>, off: int)
    requires
        0 <= off,
    ensures
        ({
            let end = off + spec_reserved(buf, off).len() * FDT_RESERVE_ENTRY_SIZE;
            end + FDT_RESERVE_ENTRY_SIZE > buf.len() || (spec_reserve_entry(buf, end).address == 0
                && spec_reserve_entry(buf, end).size == 0)
        }),
    decreases buf.len() - off,
{
    let here = spec_reserve_entry(buf, off);
    if off + FDT_RESERVE_ENTRY_SIZE <= buf.len() && !(here.address == 0 && here.size == 0) {
        lemma_reserved_ends_at_zero(buf, off + FDT_RESERVE_ENTRY_SIZE);
    }
}

/// The bytes of a list of strings: each string followed by a zero byte.
pub open spec fn spec_join(strings: Seq<Seq<u8>>) -> Seq<u8>
    decreases strings.len(),
{
    if strings.len() == 0 {
        Seq::empty()
    } else {
        strings[0] + seq![0u8] + spec_join(strings.skip(1))
    }
}

/// Whether no string of the list holds a zero byte.
pub open spec fn spec_no_zero(strings: Seq<Seq<u8>>) -> bool {
    forall|i: int, j: int|
        0 <= i < strings.len() && 0 <= j < strings[i].len() ==> #[trigger] strings[i][j] != 0
}

/// A search for a zero byte in `v` finds, behind a prefix, what it finds
/// without the prefix.
pub proof fn lemma_nul_pos_shift(pre: Seq<u8>, v: Seq<u8>, from: int, to: int)
    requires
        0 <= from,
        to <= v.len(),
    ensures
        spec_nul_pos(pre + v, pre.len() + from, pre.len() + to) == pre.len() + spec_nul_pos(
            v,
            from,
            to,
        ),
    decreases to - from,
{
    if from < to {
        assert((pre + v)[pre.len() + from] == v[from]);
        if v[from] != 0 {
            lemma_nul_pos_shift(pre, v, from + 1, to);
        }
    }
}

/// The strings of `v` are found behind a prefix as they are without it.
pub proof fn lemma_str_list_shift(pre: Seq<u8>, v: Seq<u8>, from: int)
    requires
        0 <= from,
    ensures
        spec_str_list(pre + v, pre.len() + from) == spec_str_list(v, from),
    decreases v.len() - from,
{
    if from < v.len() {
        lemma_nul_pos_shift(pre, v, from, v.len() as int);
        lemma_nul_pos(v, from, v.len() as int);
        let end = spec_nul_pos(v, from, v.len() as int);
        if end < v.len() {
            lemma_str_list_shift(pre, v, end + 1);
            assert((pre + v).subrange(pre.len() + from, pre.len() + end) =~= v.subrange(from, end));
        }
    }
}

/// The filling of a list finds the strings of `v` behind a prefix as it does
/// without it.
pub proof fn lemma_fill_shift(pre: Seq<u8>, v: Seq<u8>, from: int, room: int)
    requires
        0 <= from,
    ensures
        spec_fill(pre + v, pre.len() + from, room) == spec_fill(v, from, room),
    decreases v.len() - from,
{
    if from < v.len() {
        lemma_nul_pos_shift(pre, v, from, v.len() as int);
        lemma_nul_pos(v, from, v.len() as int);
        let end = spec_nul_pos(v, from, v.len() as int);
        if end < v.len() {
            assert((pre + v).subrange(pre.len() + from, pre.len() + end) =~= v.subrange(from, end));
            if valid_utf8(v.subrange(from, end)) && room > 0 {
                lemma_fill_shift(pre, v, end + 1, room - 1);
            }
        }
    }
}

/// The first string of a joined list ends where its zero byte was put.
pub proof fn lemma_join_first(strings: Seq<Seq<u8>>)
    requires
        strings.len() > 0,
        spec_no_zero(strings),
    ensures
        spec_join(strings).len() > strings[0].len(),
        spec_nul_pos(spec_join(strings), 0, spec_join(strings).len() as int) == strings[0].len(),
        spec_join(strings).subrange(0, strings[0].len() as int) == strings[0],
        spec_no_zero(strings.skip(1)),
{
    let v = spec_join(strings);
    let first = strings[0];
    lemma_nul_pos(v, 0, v.len() as int);
    let end = spec_nul_pos(v, 0, v.len() as int);
    assert(v[first.len() as int] == 0);
    assert forall|j: int| 0 <= j < first.len() implies v[j] != 0 by {
        assert(v[j] == strings[0][j]);
    }
    if end < first.len() {
        assert(v[end] != 0);
    }
    assert(v.subrange(0, first.len() as int) =~= first);
    assert forall|i: int, j: int|
        0 <= i < strings.skip(1).len() && 0 <= j < strings.skip(1)[i].len() implies #[trigger] strings.skip(
        1,
    )[i][j] != 0 by {
        assert(strings.skip(1)[i][j] == strings[i + 1][j]);
    }
}

/// Round trip of a string list: a value that is a sequence of strings, each
/// followed by a zero byte, has exactly those strings, and their count.
pub proof fn lemma_str_list_round_trip(strings: Seq<Seq<u8>>)
    requires
        spec_no_zero(strings),
    ensures
        spec_str_list(spec_join(strings), 0) == Some(strings),
    decreases strings.len(),
{
    let v = spec_join(strings);
    if strings.len() > 0 {
        lemma_join_first(strings);
        let first = strings[0];
        let pre = first + seq![0u8];
        let rest = spec_join(strings.skip(1));
        lemma_str_list_round_trip(strings.skip(1));
        assert(v =~= pre + rest);
        lemma_str_list_shift(pre, rest, 0);
        assert(spec_str_end(v, 0) == Some(first.len() as int));
        assert(seq![first] + strings.skip(1) =~= strings);
    }
}

/// Round trip of the filling of a list: from a value that is a sequence of
/// strings of valid UTF-8, each followed by a zero byte, a list with room for
/// them all is filled with exactly those strings.
pub proof fn lemma_fill_round_trip(strings: Seq<Seq<u8>>, room: int)
    requires
        spec_no_zero(strings),
        forall|i: int| 0 <= i < strings.len() ==> valid_utf8(#[trigger] strings[i]),
        strings.len() <= room,
    ensures
        spec_fill(spec_join(strings), 0, room) == (strings, StrListEnd::Complete),
    decreases strings.len(),
{
    let v = spec_join(strings);
    if strings.len() > 0 {
        lemma_join_first(strings);
        let first = strings[0];
        let pre = first + seq![0u8];
        let rest = spec_join(strings.skip(1));
        assert forall|i: int| 0 <= i < strings.skip(1).len() implies valid_utf8(
            #[trigger] strings.skip(1)[i],
        ) by {
            assert(strings.skip(1)[i] == strings[i + 1]);
        }
        lemma_fill_round_trip(strings.skip(1), room - 1);
        assert(v =~= pre + rest);
        lemma_fill_shift(pre, rest, 0, room - 1);
        assert(spec_str_end(v, 0) == Some(first.len() as int));
        assert(seq![first] + strings.skip(1) =~= strings);
    }
}

/// An end of a node that no node awaits ends the stream: a cursor with no
/// node open that stands at an `EndNode` token has ended. It yields nothing,
/// stays where it is, and no item that lies after that token is yielded.
pub proof fn lemma_stray_end_ends_stream(c: DevTreeIter)
    requires
        c.wf(),
        c.depth == 0,
        spec_token(c.fdt@, c.offset as int) is EndNode,
    ensures
        c.spec_done(),
        c.spec_after() == c,
        c.items().len() == 0,
{
    c.lemma_step();
}

/// The stream ends where more nodes are closed than were opened: a cursor
/// that finds an `EndNode` token next has no node open there, and has ended.
pub proof fn lemma_end_is_found_only_unmatched(c: DevTreeIter)
    requires
        c.wf(),
        spec_token(c.fdt@, c.spec_found().0) is EndNode,
    ensures
        c.spec_found().2 == 0,
        c.spec_done(),
        c.items().len() == 0,
{
    c.lemma_step();
    lemma_seek_items(
        c.fdt@,
        c.offset as int,
        crate::base::iters::spec_opt_int(c.current_prop_parent_off),
        c.depth as int,
    );
}

/// A copy of a cursor yields what the cursor yields: two cursors in the same
/// state have the same stream and take the same step.
pub proof fn lemma_copy_yields_the_same(a: DevTreeIter, b: DevTreeIter)
    requires
        a == b,
    ensures
        a.items() == b.items(),
        a.spec_done() == b.spec_done(),
        a.spec_after() == b.spec_after(),
{
}

/// A copy of a cursor over an index yields what the cursor yields.
pub proof fn lemma_index_copy_yields_the_same(a: DevTreeIndexIter, b: DevTreeIndexIter)
    requires
        a == b,
    ensures
        a.items() == b.items(),
        a.spec_next_item() == b.spec_next_item(),
        a.spec_after() == b.spec_after(),
{
}

/// The nodes that the cursor over an index finds one after the other have
/// the names of the nodes that the cursor over its tree finds, in the same
/// order: at each place of the search, the names still to come are the same
/// for both.
pub proof fn lemma_same_node_names_found(index: &DevTreeIndex)
    requires
        index.wf(),
        index.spec_single_root(),
    ensures
        spec_node_names(spec_until_node(DevTreeIndexIter::spec_start(index)).items())
            == spec_node_names(spec_until_node(index.fdt.spec_start()).items()),
{
    lemma_index_items_are_tree_items(index);
    lemma_nodes_in_order(DevTreeIndexIter::spec_start(index));
    lemma_nodes_in_order(index.fdt.spec_start());
}

} // verus!
