//! The pass that builds an index: its state, its steps, and why each step
//! leaves the records sound.
use crate::base::tree::DevTree;
use crate::common::item::ItemView;
use crate::error::DevTreeError;
use crate::index::kin::{
    lemma_kin_begin, lemma_kin_end, lemma_kin_prop, lemma_rising, spec_begin_setting, spec_build_kin,
    spec_links, spec_prop_step, spec_top,
};
use crate::index::store::{
    load, load_link, spec_capacity, spec_field, spec_opt, store, store_link, F_FIRST_CHILD,
    F_NAME_LEN, F_NAME_OFF, F_NEXT, F_NUM_PROPS, F_OWNER, F_PARENT, F_PROP_NAME, F_TAG,
    F_VALUE_LEN, F_VALUE_OFF, REC_FIELDS, REC_SIZE, TAG_NODE, TAG_PROP,
};
use crate::index::tree::{
    spec_arena, spec_first_child, spec_follower, spec_is_node, spec_is_prop, spec_next,
    spec_node_ok, spec_num_props, spec_parent, spec_prop_ok, spec_rec_view, spec_records_ok,
    spec_succ,
};
use vstd::prelude::*;

verus! {

/// The state of the pass that builds an index.
pub struct DTIBuilder<'dt> {
    pub fdt: DevTree<'dt>,
    /// The node that is open.
    pub cur_node: Option<usize>,
    /// The node written last.
    pub prev_new_node: Option<usize>,
    /// The number of records written.
    pub front_off: usize,
    /// Whether a property may follow: a node has been opened and none closed
    /// since.
    pub in_node_header: bool,
    /// The nodes that are open, outermost first.
    pub open: Ghost<Seq<int>>,
}

impl<'dt> DTIBuilder<'dt> {
    /// What holds between the steps of the pass, of the builder and the
    /// store `ib`.
    #[verifier::opaque]
    pub open spec fn inv(&self, ib: Seq<u8>) -> bool {
        let n = self.front_off as int;
        let open = self.open@;
        &&& self.fdt.wf()
        &&& spec_records_ok(ib, self.fdt@.len() as int, n)
        &&& forall|k: int| 0 <= k < open.len() ==> 0 <= #[trigger] open[k] < n && spec_is_node(
            ib,
            open[k],
        )
        &&& forall|k: int| 1 <= k < open.len() ==> open[k - 1] < #[trigger] open[k]
        &&& spec_opt(self.cur_node) == (if open.len() > 0 {
            Some(open.last())
        } else {
            None
        })
        &&& open.len() > 0 ==> spec_parent(ib, open[0]) is None
        &&& forall|k: int|
            1 <= k < open.len() ==> spec_parent(ib, #[trigger] open[k]) == Some(open[k - 1])
                && spec_next(ib, open[k - 1]) == Some(open[k]) && spec_first_child(
                ib,
                open[k - 1],
            ) is Some
        &&& n == 0 <==> self.prev_new_node is None
        &&& self.prev_new_node matches Some(last) ==> {
            &&& last < n
            &&& spec_is_node(ib, last as int)
            &&& spec_succ(ib, last as int) == n
            &&& forall|i: int|
                0 <= i < n && #[trigger] spec_is_node(ib, i) && i != last ==> spec_succ(ib, i)
                    <= last
            &&& self.in_node_header ==> self.cur_node == Some(last)
            &&& self.cur_node matches Some(cur) ==> cur <= last && (cur != last ==> {
                &&& spec_first_child(ib, cur as int) is Some
                &&& spec_next(ib, cur as int) matches Some(s) && (spec_first_child(ib, s) is Some
                    || s == last)
            })
        }
        &&& n == 0 ==> !self.in_node_header && self.cur_node is None
    }

    /// What holds of the links between the steps of the pass.
    pub open spec fn kin(&self, ib: Seq<u8>) -> bool {
        spec_build_kin(ib, self.front_off as int, self.open@)
    }

    /// The parent links of the records written so far.
    pub open spec fn links(&self, ib: Seq<u8>) -> Seq<Option<int>> {
        spec_links(ib, self.front_off as int)
    }

    /// What the invariant says of the records written so far.
    pub proof fn lemma_inv_sound(&self, ib: Seq<u8>)
        requires
            self.inv(ib),
        ensures
            self.fdt.wf(),
            spec_records_ok(ib, self.fdt@.len() as int, self.front_off as int),
            spec_opt(self.cur_node) == spec_top(self.open@),
    {
        reveal(DTIBuilder::inv);
    }

    /// A builder that has written nothing.
    pub fn new(fdt: DevTree<'dt>) -> (r: Self)
        requires
            fdt.wf(),
        ensures
            r.fdt == fdt,
            r.front_off == 0,
            r.cur_node is None,
            r.prev_new_node is None,
            !r.in_node_header,
            r.open@ == Seq::<int>::empty(),
            forall|ib: Seq<u8>| #[trigger] r.inv(ib),
    {
        reveal(DTIBuilder::inv);
        DTIBuilder {
            fdt,
            cur_node: None,
            prev_new_node: None,
            front_off: 0,
            in_node_header: false,
            open: Ghost(Seq::empty()),
        }
    }

    /// Takes the next free record, or fails where the buffer has none left.
    fn allocate(&mut self, buf: &[u8]) -> (r: Result<usize, DevTreeError>)
        requires
            old(self).front_off <= spec_capacity(buf@.len() as int),
        ensures
            match r {
                Ok(rec) => rec == old(self).front_off && rec < spec_capacity(buf@.len() as int)
                    && final(self).front_off == rec + 1,
                Err(e) => e is NotEnoughMemory && old(self).front_off == spec_capacity(
                    buf@.len() as int,
                ) && final(self).front_off == old(self).front_off,
            },
            final(self).fdt == old(self).fdt,
            final(self).cur_node == old(self).cur_node,
            final(self).prev_new_node == old(self).prev_new_node,
            final(self).in_node_header == old(self).in_node_header,
            final(self).open == old(self).open,
    {
        let rec: usize = self.front_off;
        if rec >= buf.len() / REC_SIZE {
            return Err(DevTreeError::NotEnoughMemory);
        }
        self.front_off = rec + 1;
        Ok(rec)
    }

    /// Writes the record of a node whose name is `name_len` bytes at
    /// `name_off` of the tree, as a child of the open node, and makes it the
    /// open node.
    ///
    /// The node written last gets the new node as its `next`. So does the
    /// child that the open node had last, which the open node's own `next`
    /// leads to; that link then moves on to the new node. A first child is
    /// also entered as such.
    #[verifier::rlimit(40)]
    pub fn parsed_node(&mut self, buf: &mut [u8], name_off: usize, name_len: usize) -> (r: Result<
        (),
        DevTreeError,
    >)
        requires
            old(self).inv(old(buf)@),
            old(self).kin(old(buf)@),
            name_off + name_len <= old(self).fdt@.len(),
        ensures
            final(buf)@.len() == old(buf)@.len(),
            final(self).fdt == old(self).fdt,
            match r {
                Err(e) => e is NotEnoughMemory && old(self).front_off == spec_capacity(
                    old(buf)@.len() as int,
                ) && *final(self) == *old(self) && final(buf)@ == old(buf)@,
                Ok(_) => {
                    &&& final(self).inv(final(buf)@)
                    &&& final(self).kin(final(buf)@)
                    &&& final(self).links(final(buf)@) == old(self).links(old(buf)@).push(
                        spec_opt(old(self).cur_node),
                    )
                    &&& old(self).front_off < spec_capacity(old(buf)@.len() as int)
                    &&& final(self).front_off == old(self).front_off + 1
                    &&& final(self).in_node_header
                    &&& spec_is_node(final(buf)@, old(self).front_off as int)
                    &&& spec_parent(final(buf)@, old(self).front_off as int) == spec_opt(
                        old(self).cur_node,
                    )
                    &&& spec_first_child(final(buf)@, old(self).front_off as int) is None
                    &&& spec_next(final(buf)@, old(self).front_off as int) is None
                    &&& spec_num_props(final(buf)@, old(self).front_off as int) == 0
                    &&& spec_begun(
                        old(buf)@,
                        final(buf)@,
                        old(self).front_off as int,
                        spec_opt(old(self).cur_node),
                        match old(self).prev_new_node {
                            Some(l) => l as int,
                            None => 0,
                        },
                    )
                    &&& final(self).cur_node == Some(old(self).front_off)
                    &&& final(self).prev_new_node == Some(old(self).front_off)
                    &&& old(self).front_off > 0 ==> spec_is_node(final(buf)@, 0) == spec_is_node(
                        old(buf)@,
                        0,
                    )
                    &&& final(self).open@ == old(self).open@.push(old(self).front_off as int)
                    &&& spec_arena(final(buf)@, old(self).fdt@, final(self).front_off as int)
                        == spec_arena(old(buf)@, old(self).fdt@, old(self).front_off as int).push(
                        ItemView::Node {
                            name: old(self).fdt@.subrange(
                                name_off as int,
                                name_off + name_len,
                            ),
                        },
                    )
                },
            },
    {
        proof {
            reveal(DTIBuilder::inv);
        }
        let ghost ib0 = buf@;
        let ghost before = *self;
        let parent: Option<usize> = self.cur_node;
        let rec: usize = match self.allocate(buf) {
            Ok(rec) => rec,
            Err(e) => {
                return Err(e);
            },
        };
        write_node(buf, rec, parent, name_off, name_len);
        let ghost ib1 = buf@;
        match parent {
            None => {},
            Some(p) => {
                let last: usize = match self.prev_new_node {
                    Some(l) => l,
                    None => p,
                };
                proof {
                    assert(spec_is_node(ib0, p as int));
                    assert(spec_node_ok(ib0, before.fdt@.len() as int, rec as int, p as int));
                    assert(spec_field(ib1, p as int, F_NEXT as int) == spec_field(
                        ib0,
                        p as int,
                        F_NEXT as int,
                    ));
                    assert(spec_field(ib1, p as int, F_FIRST_CHILD as int) == spec_field(
                        ib0,
                        p as int,
                        F_FIRST_CHILD as int,
                    ));
                }
                link_node(buf, p, last, rec);
            },
        }
        self.cur_node = Some(rec);
        self.prev_new_node = Some(rec);
        self.in_node_header = true;
        proof {
            self.open@ = self.open@.push(rec as int);
            lemma_written_and_linked(
                ib0,
                ib1,
                buf@,
                rec as int,
                spec_opt(before.cur_node),
                match before.prev_new_node {
                    Some(l) => l as int,
                    None => 0,
                },
            );
            lemma_begin(before, *self, ib0, buf@, name_off as int, name_len as int);
            lemma_begin_kin(before, ib0, buf@);
        }
        Ok(())
    }

    /// Writes the record of a property of the open node, whose value is
    /// `value_len` bytes at `value_off` of the tree, and counts it.
    #[verifier::rlimit(40)]
    pub fn parsed_prop(
        &mut self,
        buf: &mut [u8],
        value_off: usize,
        value_len: usize,
        nameoff: usize,
    ) -> (r: Result<(), DevTreeError>)
        requires
            old(self).inv(old(buf)@),
            old(self).kin(old(buf)@),
            value_off + value_len <= old(self).fdt@.len(),
            nameoff <= old(self).fdt@.len(),
        ensures
            final(buf)@.len() == old(buf)@.len(),
            final(self).fdt == old(self).fdt,
            match r {
                Err(e) => *final(self) == *old(self) && final(buf)@ == old(buf)@ && if !old(self).in_node_header {
                    e is ParseError
                } else {
                    e is NotEnoughMemory && old(self).front_off == spec_capacity(
                        old(buf)@.len() as int,
                    )
                },
                Ok(_) => {
                    &&& old(self).in_node_header
                    &&& final(self).inv(final(buf)@)
                    &&& final(self).kin(final(buf)@)
                    &&& final(self).links(final(buf)@) == old(self).links(old(buf)@).push(
                        spec_opt(old(self).cur_node),
                    )
                    &&& spec_parent(final(buf)@, old(self).front_off as int) == spec_opt(
                        old(self).cur_node,
                    )
                    &&& old(self).front_off < spec_capacity(old(buf)@.len() as int)
                    &&& final(self).front_off == old(self).front_off + 1
                    &&& final(self).in_node_header
                    &&& final(self).cur_node == old(self).cur_node
                    &&& final(self).prev_new_node == old(self).prev_new_node
                    &&& spec_is_prop(final(buf)@, old(self).front_off as int)
                    &&& spec_field(final(buf)@, old(self).front_off as int, F_VALUE_OFF as int)
                        == value_off
                    &&& spec_field(final(buf)@, old(self).front_off as int, F_VALUE_LEN as int)
                        == value_len
                    &&& spec_field(final(buf)@, old(self).front_off as int, F_PROP_NAME as int)
                        == nameoff
                    &&& old(self).cur_node matches Some(owner) && spec_num_props(
                        final(buf)@,
                        owner as int,
                    ) == spec_num_props(old(buf)@, owner as int) + 1
                    &&& forall|r: int, f: int|
                        0 <= r < old(self).front_off && 0 <= f < REC_FIELDS && !(Some(r)
                            == spec_opt(old(self).cur_node) && f == F_NUM_PROPS)
                            ==> #[trigger] spec_field(final(buf)@, r, f) == spec_field(
                            old(buf)@,
                            r,
                            f,
                        )
                    &&& spec_is_node(final(buf)@, 0) == spec_is_node(old(buf)@, 0)
                    &&& final(self).open@ == old(self).open@
                    &&& spec_arena(final(buf)@, old(self).fdt@, final(self).front_off as int)
                        == spec_arena(old(buf)@, old(self).fdt@, old(self).front_off as int).push(
                        ItemView::Prop {
                            value: old(self).fdt@.subrange(
                                value_off as int,
                                value_off + value_len,
                            ),
                            name_offset: nameoff as int,
                        },
                    )
                },
            },
    {
        proof {
            reveal(DTIBuilder::inv);
        }
        if !self.in_node_header {
            return Err(DevTreeError::ParseError);
        }
        let owner: usize = match self.cur_node {
            Some(c) => c,
            None => {
                return Err(DevTreeError::ParseError);
            },
        };
        let ghost ib0 = buf@;
        let ghost before = *self;
        let rec: usize = match self.allocate(buf) {
            Ok(rec) => rec,
            Err(e) => {
                return Err(e);
            },
        };
        write_prop(buf, rec, owner, value_off, value_len, nameoff);
        let ghost ib1 = buf@;
        let count: u64 = load(buf, owner, F_NUM_PROPS);
        store(buf, owner, F_NUM_PROPS, count + 1);
        proof {
            assert forall|r: int, f: int|
                0 <= r < rec && 0 <= f < REC_FIELDS && !(r == owner
                    && f == F_NUM_PROPS) implies #[trigger] spec_field(buf@, r, f) == spec_field(
                ib0,
                r,
                f,
            ) by {
                assert(spec_field(ib1, r, f) == spec_field(ib0, r, f));
            }
            assert(spec_field(ib1, owner as int, F_NUM_PROPS as int) == spec_field(
                ib0,
                owner as int,
                F_NUM_PROPS as int,
            ));
            lemma_prop(
                before,
                *self,
                ib0,
                ib1,
                buf@,
                value_off as int,
                value_len as int,
                nameoff as int,
            );
            lemma_prop_kin(before, ib0, buf@);
        }
        Ok(())
    }

    /// Closes the open node: its parent is the open node again, and no
    /// property may follow.
    #[verifier::rlimit(40)]
    pub fn parsed_end_node(&mut self, buf: &[u8]) -> (r: Result<(), DevTreeError>)
        requires
            old(self).inv(buf@),
            old(self).kin(buf@),
        ensures
            final(self).fdt == old(self).fdt,
            match r {
                Err(e) => e is ParseError && old(self).cur_node is None && old(self).open@.len()
                    == 0 && *final(self) == *old(self),
                Ok(_) => {
                    &&& old(self).cur_node is Some
                    &&& old(self).open@.len() > 0
                    &&& final(self).inv(buf@)
                    &&& final(self).kin(buf@)
                    &&& final(self).front_off == old(self).front_off
                    &&& !final(self).in_node_header
                    &&& final(self).open@ == old(self).open@.drop_last()
                },
            },
    {
        proof {
            reveal(DTIBuilder::inv);
        }
        let cur: usize = match self.cur_node {
            Some(c) => c,
            None => {
                return Err(DevTreeError::ParseError);
            },
        };
        assert(spec_is_node(buf@, cur as int));
        self.cur_node = load_link(buf, cur, F_PARENT);
        self.in_node_header = false;
        proof {
            let open = self.open@;
            assert(open.len() > 0);
            lemma_kin_end(buf@, self.front_off as int, open);
            self.open@ = open.drop_last();
            if open.len() >= 2 {
                assert(spec_parent(buf@, open[open.len() - 1]) == Some(open[open.len() - 2]));
            }
        }
        Ok(())
    }
}

/// Writes the fields of a node record that has no child and no `next` yet.
fn write_node(buf: &mut [u8], rec: usize, parent: Option<usize>, name_off: usize, name_len: usize)
    requires
        rec < spec_capacity(old(buf)@.len() as int),
        parent matches Some(p) ==> p < spec_capacity(old(buf)@.len() as int),
    ensures
        final(buf)@.len() == old(buf)@.len(),
        spec_is_node(final(buf)@, rec as int),
        spec_parent(final(buf)@, rec as int) == spec_opt(parent),
        spec_first_child(final(buf)@, rec as int) is None,
        spec_next(final(buf)@, rec as int) is None,
        spec_field(final(buf)@, rec as int, F_NAME_OFF as int) == name_off,
        spec_field(final(buf)@, rec as int, F_NAME_LEN as int) == name_len,
        spec_num_props(final(buf)@, rec as int) == 0,
        forall|r: int, f: int|
            0 <= r < spec_capacity(old(buf)@.len() as int) && 0 <= f < REC_FIELDS && r != rec
                ==> #[trigger] spec_field(final(buf)@, r, f) == spec_field(old(buf)@, r, f),
{
    store(buf, rec, F_TAG, TAG_NODE);
    store_link(buf, rec, F_PARENT, parent);
    store_link(buf, rec, F_FIRST_CHILD, None);
    store_link(buf, rec, F_NEXT, None);
    store(buf, rec, F_NAME_OFF, name_off as u64);
    store(buf, rec, F_NAME_LEN, name_len as u64);
    store(buf, rec, F_NUM_PROPS, 0);
}

/// Writes the fields of a property record.
fn write_prop(
    buf: &mut [u8],
    rec: usize,
    owner: usize,
    value_off: usize,
    value_len: usize,
    nameoff: usize,
)
    requires
        rec < spec_capacity(old(buf)@.len() as int),
        owner < spec_capacity(old(buf)@.len() as int),
    ensures
        final(buf)@.len() == old(buf)@.len(),
        spec_is_prop(final(buf)@, rec as int),
        spec_parent(final(buf)@, rec as int) == Some(owner as int),
        spec_field(final(buf)@, rec as int, F_VALUE_OFF as int) == value_off,
        spec_field(final(buf)@, rec as int, F_VALUE_LEN as int) == value_len,
        spec_field(final(buf)@, rec as int, F_PROP_NAME as int) == nameoff,
        forall|r: int, f: int|
            0 <= r < spec_capacity(old(buf)@.len() as int) && 0 <= f < REC_FIELDS && r != rec
                ==> #[trigger] spec_field(final(buf)@, r, f) == spec_field(old(buf)@, r, f),
{
    store(buf, rec, F_TAG, TAG_PROP);
    store_link(buf, rec, F_OWNER, Some(owner));
    store(buf, rec, F_VALUE_OFF, value_off as u64);
    store(buf, rec, F_VALUE_LEN, value_len as u64);
    store(buf, rec, F_PROP_NAME, nameoff as u64);
}

/// A field of the store after the new node `rec` has been linked to its
/// parent `p`, where `last` is the node written before it.
pub open spec fn spec_linked(ib: Seq<u8>, p: int, last: int, rec: int, r: int, f: int) -> u64 {
    if f == F_NEXT && (r == last || r == p || spec_next(ib, p) == Some(r)) {
        (rec + 1) as u64
    } else if f == F_FIRST_CHILD && r == p && spec_first_child(ib, p) is None {
        (rec + 1) as u64
    } else {
        spec_field(ib, r, f)
    }
}

/// Links the new node `rec` to its parent `p`, to the node `last` that was
/// written before it, and to the child that `p` had last.
fn link_node(buf: &mut [u8], p: usize, last: usize, rec: usize)
    requires
        p < spec_capacity(old(buf)@.len() as int),
        last < spec_capacity(old(buf)@.len() as int),
        rec < spec_capacity(old(buf)@.len() as int),
        spec_next(old(buf)@, p as int) matches Some(s) ==> 0 <= s < spec_capacity(
            old(buf)@.len() as int,
        ),
        spec_first_child(old(buf)@, p as int) matches Some(c) ==> 0 <= c < spec_capacity(
            old(buf)@.len() as int,
        ),
    ensures
        final(buf)@.len() == old(buf)@.len(),
        forall|r: int, f: int|
            0 <= r < spec_capacity(old(buf)@.len() as int) && 0 <= f < REC_FIELDS
                ==> #[trigger] spec_field(final(buf)@, r, f) == spec_linked(
                old(buf)@,
                p as int,
                last as int,
                rec as int,
                r,
                f,
            ),
{
    let len: usize = buf.len();
    let last_child: Option<usize> = load_link(buf, p, F_NEXT);
    let first_child: Option<usize> = load_link(buf, p, F_FIRST_CHILD);
    store_link(buf, last, F_NEXT, Some(rec));
    match last_child {
        Some(s) => {
            store_link(buf, s, F_NEXT, Some(rec));
        },
        None => {},
    }
    store_link(buf, p, F_NEXT, Some(rec));
    if first_child.is_none() {
        store_link(buf, p, F_FIRST_CHILD, Some(rec));
    }
}

/// How the records before `n` of the store `ib2` relate to those of `ib0`
/// once node `n` has been written as a child of `parent`, where `last` is
/// the node written before it: only links have changed, and of those only
/// `next` of `last`, of the parent and of the child that the parent had
/// last, and `first_child` of a parent that had none.
pub open spec fn spec_begun(ib0: Seq<u8>, ib2: Seq<u8>, n: int, parent: Option<int>, last: int) -> bool {
    &&& forall|i: int|
        0 <= i < n ==> #[trigger] spec_field(ib2, i, F_TAG as int) == spec_field(
            ib0,
            i,
            F_TAG as int,
        ) && spec_field(ib2, i, F_PARENT as int) == spec_field(ib0, i, F_PARENT as int)
            && spec_field(ib2, i, F_NAME_OFF as int) == spec_field(ib0, i, F_NAME_OFF as int)
            && spec_field(ib2, i, F_NAME_LEN as int) == spec_field(ib0, i, F_NAME_LEN as int)
            && spec_field(ib2, i, F_NUM_PROPS as int) == spec_field(ib0, i, F_NUM_PROPS as int)
    &&& forall|i: int|
        0 <= i < n ==> #[trigger] spec_next(ib2, i) == (if parent matches Some(p) && (i == last
            || i == p || spec_next(ib0, p) == Some(i)) {
            Some(n)
        } else {
            spec_next(ib0, i)
        })
    &&& forall|i: int|
        0 <= i < n ==> #[trigger] spec_first_child(ib2, i) == (if parent matches Some(p) && i == p
            && spec_first_child(ib0, p) is None {
            Some(n)
        } else {
            spec_first_child(ib0, i)
        })
}

/// What writing the record of node `n` and linking it to its parent leaves
/// of the store: the record as written, and of the records before it all but
/// the links that `spec_begun` names.
#[verifier::rlimit(40)]
proof fn lemma_written_and_linked(
    ib0: Seq<u8>,
    ib1: Seq<u8>,
    ib2: Seq<u8>,
    n: int,
    parent: Option<int>,
    last: int,
)
    requires
        ib1.len() == ib0.len(),
        ib2.len() == ib0.len(),
        0 <= n < spec_capacity(ib0.len() as int),
        n < usize::MAX,
        forall|r: int, f: int|
            0 <= r < spec_capacity(ib0.len() as int) && 0 <= f < REC_FIELDS && r != n
                ==> #[trigger] spec_field(ib1, r, f) == spec_field(ib0, r, f),
        parent is None ==> ib2 == ib1,
        parent matches Some(p) ==> 0 <= p < n && 0 <= last < n && (spec_next(ib0, p) matches Some(
            s,
        ) ==> 0 <= s < n) && (forall|r: int, f: int|
            0 <= r < spec_capacity(ib0.len() as int) && 0 <= f < REC_FIELDS
                ==> #[trigger] spec_field(ib2, r, f) == spec_linked(ib1, p, last, n, r, f)),
    ensures
        spec_begun(ib0, ib2, n, parent, last),
        forall|f: int| 0 <= f < REC_FIELDS ==> #[trigger] spec_field(ib2, n, f) == spec_field(
            ib1,
            n,
            f,
        ),
{
    if parent is Some {
        let p = parent->0;
        assert(spec_field(ib1, p, F_NEXT as int) == spec_field(ib0, p, F_NEXT as int));
        assert(spec_field(ib1, p, F_FIRST_CHILD as int) == spec_field(
            ib0,
            p,
            F_FIRST_CHILD as int,
        ));
    }
    assert forall|i: int| 0 <= i < n implies #[trigger] spec_field(ib2, i, F_TAG as int)
        == spec_field(ib0, i, F_TAG as int) && spec_field(ib2, i, F_PARENT as int) == spec_field(
        ib0,
        i,
        F_PARENT as int,
    ) && spec_field(ib2, i, F_NAME_OFF as int) == spec_field(ib0, i, F_NAME_OFF as int)
        && spec_field(ib2, i, F_NAME_LEN as int) == spec_field(ib0, i, F_NAME_LEN as int)
        && spec_field(ib2, i, F_NUM_PROPS as int) == spec_field(ib0, i, F_NUM_PROPS as int) by {
        assert(spec_field(ib1, i, F_TAG as int) == spec_field(ib0, i, F_TAG as int));
        assert(spec_field(ib1, i, F_PARENT as int) == spec_field(ib0, i, F_PARENT as int));
        assert(spec_field(ib1, i, F_NAME_OFF as int) == spec_field(ib0, i, F_NAME_OFF as int));
        assert(spec_field(ib1, i, F_NAME_LEN as int) == spec_field(ib0, i, F_NAME_LEN as int));
        assert(spec_field(ib1, i, F_NUM_PROPS as int) == spec_field(ib0, i, F_NUM_PROPS as int));
    }
    assert forall|i: int| 0 <= i < n implies #[trigger] spec_next(ib2, i) == (if parent matches Some(
        p,
    ) && (i == last || i == p || spec_next(ib0, p) == Some(i)) {
        Some(n)
    } else {
        spec_next(ib0, i)
    }) by {
        assert(spec_field(ib1, i, F_NEXT as int) == spec_field(ib0, i, F_NEXT as int));
    }
    assert forall|i: int| 0 <= i < n implies #[trigger] spec_first_child(ib2, i) == (
    if parent matches Some(p) && i == p && spec_first_child(ib0, p) is None {
        Some(n)
    } else {
        spec_first_child(ib0, i)
    }) by {
        assert(spec_field(ib1, i, F_FIRST_CHILD as int) == spec_field(
            ib0,
            i,
            F_FIRST_CHILD as int,
        ));
    }
}

/// The step for a `BeginNode` token keeps the records sound.
#[verifier::rlimit(40)]
proof fn lemma_begin_records(
    ib0: Seq<u8>,
    ib2: Seq<u8>,
    src_len: int,
    n: int,
    parent: Option<int>,
    last: int,
)
    requires
        spec_records_ok(ib0, src_len, n),
        n < spec_capacity(ib0.len() as int),
        ib2.len() == ib0.len(),
        spec_begun(ib0, ib2, n, parent, last),
        spec_is_node(ib2, n),
        spec_parent(ib2, n) == parent,
        spec_first_child(ib2, n) is None,
        spec_next(ib2, n) is None,
        spec_field(ib2, n, F_NAME_OFF as int) + spec_field(ib2, n, F_NAME_LEN as int) <= src_len,
        spec_num_props(ib2, n) == 0,
        parent matches Some(p) ==> 0 <= p <= last && spec_is_node(ib0, p) && (p != last ==> {
            &&& spec_first_child(ib0, p) is Some
            &&& spec_next(ib0, p) matches Some(s) && (spec_first_child(ib0, s) is Some || s == last)
        }),
        n > 0 ==> 0 <= last < n && spec_is_node(ib0, last) && spec_succ(ib0, last) == n,
        n == 0 ==> parent is None,
        forall|i: int|
            0 <= i < n && #[trigger] spec_is_node(ib0, i) && i != last ==> spec_succ(ib0, i)
                <= last,
    ensures
        spec_records_ok(ib2, src_len, n + 1),
        forall|i: int|
            0 <= i < n + 1 && #[trigger] spec_is_node(ib2, i) && i != n ==> spec_succ(ib2, i) <= n,
{
    assert forall|i: int| 0 <= i < n implies spec_is_node(ib2, i) == spec_is_node(ib0, i)
        && spec_is_prop(ib2, i) == spec_is_prop(ib0, i) && spec_parent(ib2, i) == spec_parent(
        ib0,
        i,
    ) && spec_num_props(ib2, i) == spec_num_props(ib0, i) && spec_succ(ib2, i) == spec_succ(
        ib0,
        i,
    ) by {
        assert(spec_field(ib2, i, F_TAG as int) == spec_field(ib0, i, F_TAG as int));
    }
    if parent is Some {
        let p = parent->0;
        assert(spec_node_ok(ib0, src_len, n, p));
        assert(spec_node_ok(ib0, src_len, n, last));
        if p == last {
            assert(spec_first_child(ib0, p) is None);
            assert(spec_next(ib0, p) is None);
        }
    }
    assert forall|i: int| 0 <= i < n + 1 && spec_is_node(ib2, i) implies #[trigger] spec_node_ok(
        ib2,
        src_len,
        n + 1,
        i,
    ) by {
        if i < n {
            assert(spec_field(ib2, i, F_TAG as int) == spec_field(ib0, i, F_TAG as int));
            assert(spec_is_node(ib0, i));
            assert(spec_node_ok(ib0, src_len, n, i));
            let s = spec_succ(ib0, i);
            if i != last {
                assert(s <= last);
            }
            if s < n {
                assert(spec_field(ib2, s, F_TAG as int) == spec_field(ib0, s, F_TAG as int));
                assert(spec_parent(ib2, s) == spec_parent(ib0, s));
            }
            if spec_parent(ib0, i) is Some {
                let q = spec_parent(ib0, i)->0;
                assert(spec_field(ib2, q, F_TAG as int) == spec_field(ib0, q, F_TAG as int));
            }
            if spec_first_child(ib0, i) is Some {
                let c = spec_first_child(ib0, i)->0;
                assert(spec_field(ib2, c, F_TAG as int) == spec_field(ib0, c, F_TAG as int));
            }
            if spec_next(ib0, i) is Some {
                let x = spec_next(ib0, i)->0;
                assert(spec_field(ib2, x, F_TAG as int) == spec_field(ib0, x, F_TAG as int));
            }
            assert(spec_next(ib2, i) == (if parent matches Some(p) && (i == last || i == p
                || spec_next(ib0, p) == Some(i)) {
                Some(n)
            } else {
                spec_next(ib0, i)
            }));
            assert(spec_first_child(ib2, i) == (if parent matches Some(p) && i == p
                && spec_first_child(ib0, p) is None {
                Some(n)
            } else {
                spec_first_child(ib0, i)
            }));
            if spec_first_child(ib2, i) is None {
                assert(spec_first_child(ib0, i) is None);
                if i == last {
                } else {
                    assert(spec_follower(ib2, n + 1, i) == spec_follower(ib0, n, i));
                }
            }
        }
    }
    assert forall|i: int| 0 <= i < n + 1 && !spec_is_node(ib2, i) implies #[trigger] spec_is_prop(
        ib2,
        i,
    ) && spec_prop_ok(ib2, src_len, i) by {
        assert(spec_field(ib2, i, F_TAG as int) == spec_field(ib0, i, F_TAG as int));
        assert(!spec_is_node(ib0, i));
        assert(spec_is_prop(ib0, i));
    }
    assert forall|i: int, k: int|
        0 <= i < n + 1 && spec_is_node(ib2, i) && i < k < spec_succ(ib2, i) implies spec_is_prop(
        ib2,
        k,
    ) by {
        assert(i < n);
        assert(spec_field(ib2, i, F_TAG as int) == spec_field(ib0, i, F_TAG as int));
        assert(spec_is_node(ib0, i));
        assert(spec_node_ok(ib0, src_len, n, i));
        assert(spec_field(ib2, k, F_TAG as int) == spec_field(ib0, k, F_TAG as int));
        assert(spec_is_prop(ib0, k));
    }
    assert forall|i: int| 0 <= i < n + 1 && #[trigger] spec_is_node(ib2, i) && i != n implies spec_succ(
        ib2,
        i,
    ) <= n by {
        assert(spec_field(ib2, i, F_TAG as int) == spec_field(ib0, i, F_TAG as int));
        assert(spec_is_node(ib0, i));
        assert(spec_node_ok(ib0, src_len, n, i));
    }
}

/// The step for a `BeginNode` token keeps the invariant of the links and adds
/// the open node to the parent links.
#[verifier::rlimit(40)]
proof fn lemma_begin_kin(b0: DTIBuilder, ib0: Seq<u8>, ib2: Seq<u8>)
    requires
        b0.inv(ib0),
        b0.kin(ib0),
        spec_begun(
            ib0,
            ib2,
            b0.front_off as int,
            spec_opt(b0.cur_node),
            match b0.prev_new_node {
                Some(l) => l as int,
                None => 0,
            },
        ),
        spec_is_node(ib2, b0.front_off as int),
        spec_parent(ib2, b0.front_off as int) == spec_opt(b0.cur_node),
        spec_first_child(ib2, b0.front_off as int) is None,
        spec_next(ib2, b0.front_off as int) is None,
    ensures
        spec_build_kin(ib2, b0.front_off + 1, b0.open@.push(b0.front_off as int)),
        spec_links(ib2, b0.front_off + 1) == spec_links(ib0, b0.front_off as int).push(
            spec_opt(b0.cur_node),
        ),
{
    reveal(DTIBuilder::inv);
    let n = b0.front_off as int;
    let src_len = b0.fdt@.len() as int;
    let last = match b0.prev_new_node {
        Some(l) => l as int,
        None => 0,
    };
    if b0.prev_new_node is Some {
        assert(spec_node_ok(ib0, src_len, n, last));
    }
    assert forall|i: int| 0 <= i < n && #[trigger] spec_is_node(ib0, i) && i != last implies i
        < last by {
        assert(spec_succ(ib0, i) <= last);
    }
    if b0.open@.len() > 0 {
        assert(spec_opt(b0.cur_node) == Some(b0.open@.last()));
        assert(spec_node_ok(ib0, src_len, n, b0.open@.last()));
    }
    assert(spec_begin_setting(ib0, ib2, src_len, n, b0.open@, last));
    lemma_kin_begin(ib0, ib2, src_len, n, b0.open@, last);
}

/// The step for a `Prop` token keeps the invariant of the links and adds the
/// open node to the parent links.
#[verifier::rlimit(40)]
proof fn lemma_prop_kin(b0: DTIBuilder, ib0: Seq<u8>, ib2: Seq<u8>)
    requires
        b0.inv(ib0),
        b0.kin(ib0),
        b0.cur_node is Some,
        spec_prop_step(ib0, ib2, b0.front_off as int, b0.cur_node->0 as int),
    ensures
        spec_build_kin(ib2, b0.front_off + 1, b0.open@),
        spec_links(ib2, b0.front_off + 1) == spec_links(ib0, b0.front_off as int).push(
            spec_opt(b0.cur_node),
        ),
{
    reveal(DTIBuilder::inv);
    lemma_kin_prop(ib0, ib2, b0.fdt@.len() as int, b0.front_off as int, b0.open@);
}

/// The step for a `BeginNode` token keeps the builder's invariant and adds
/// one node to the arena.
#[verifier::rlimit(40)]
proof fn lemma_begin(
    b0: DTIBuilder,
    b2: DTIBuilder,
    ib0: Seq<u8>,
    ib2: Seq<u8>,
    name_off: int,
    name_len: int,
)
    requires
        b0.inv(ib0),
        0 <= name_off,
        0 <= name_len,
        name_off + name_len <= b0.fdt@.len(),
        b0.front_off < spec_capacity(ib0.len() as int),
        ib2.len() == ib0.len(),
        spec_begun(
            ib0,
            ib2,
            b0.front_off as int,
            spec_opt(b0.cur_node),
            match b0.prev_new_node {
                Some(l) => l as int,
                None => 0,
            },
        ),
        spec_is_node(ib2, b0.front_off as int),
        spec_parent(ib2, b0.front_off as int) == spec_opt(b0.cur_node),
        spec_first_child(ib2, b0.front_off as int) is None,
        spec_next(ib2, b0.front_off as int) is None,
        spec_field(ib2, b0.front_off as int, F_NAME_OFF as int) == name_off,
        spec_field(ib2, b0.front_off as int, F_NAME_LEN as int) == name_len,
        spec_num_props(ib2, b0.front_off as int) == 0,
        b2.fdt == b0.fdt,
        b2.front_off == b0.front_off + 1,
        b2.cur_node == Some(b0.front_off),
        b2.prev_new_node == Some(b0.front_off),
        b2.in_node_header,
        b2.open@ == b0.open@.push(b0.front_off as int),
    ensures
        b2.inv(ib2),
        spec_arena(ib2, b0.fdt@, b2.front_off as int) == spec_arena(
            ib0,
            b0.fdt@,
            b0.front_off as int,
        ).push(ItemView::Node { name: b0.fdt@.subrange(name_off, name_off + name_len) }),
        b0.front_off > 0 ==> spec_is_node(ib2, 0) == spec_is_node(ib0, 0),
{
    reveal(DTIBuilder::inv);
    if b0.front_off > 0 {
        assert(spec_field(ib2, 0, F_TAG as int) == spec_field(ib0, 0, F_TAG as int));
    }
    let n = b0.front_off as int;
    let src = b0.fdt@;
    let src_len = src.len() as int;
    let open0 = b0.open@;
    let open2 = b2.open@;
    let parent = spec_opt(b0.cur_node);
    let last = match b0.prev_new_node {
        Some(l) => l as int,
        None => 0,
    };
    lemma_begin_records(ib0, ib2, src_len, n, parent, last);
    assert forall|i: int| 0 <= i < n implies spec_rec_view(ib2, src, i) == spec_rec_view(
        ib0,
        src,
        i,
    ) by {
        assert(spec_field(ib2, i, F_TAG as int) == spec_field(ib0, i, F_TAG as int));
    }
    assert(spec_arena(ib2, src, n + 1) =~= spec_arena(ib0, src, n).push(
        ItemView::Node { name: src.subrange(name_off, name_off + name_len) },
    ));
    assert forall|k: int| 0 <= k < open2.len() implies 0 <= #[trigger] open2[k] < n + 1
        && spec_is_node(ib2, open2[k]) by {
        if k < open0.len() {
            assert(spec_field(ib2, open0[k], F_TAG as int) == spec_field(
                ib0,
                open0[k],
                F_TAG as int,
            ));
        }
    }
    if open0.len() > 0 {
        assert(0 <= open0[0] < n);
        assert(spec_field(ib2, open0[0], F_TAG as int) == spec_field(ib0, open0[0], F_TAG as int));
        assert(spec_field(ib2, open0[0], F_PARENT as int) == spec_field(
            ib0,
            open0[0],
            F_PARENT as int,
        ));
        let p = open0.last();
        assert(spec_node_ok(ib0, src_len, n, p));
    }
    assert forall|k: int| 1 <= k < open2.len() implies spec_parent(ib2, #[trigger] open2[k])
        == Some(open2[k - 1]) && spec_next(ib2, open2[k - 1]) == Some(open2[k])
        && spec_first_child(ib2, open2[k - 1]) is Some by {
        let p = open0.last();
        if k < open0.len() {
            let a = open0[k - 1];
            assert(a < open0[k]);
            assert(open0[k] <= p) by {
                if k < open0.len() - 1 {
                    lemma_rising(open0, k, open0.len() - 1);
                }
            }
            assert(0 <= open0[k] < n);
            assert(0 <= a < n);
            assert(spec_field(ib2, open0[k], F_TAG as int) == spec_field(
                ib0,
                open0[k],
                F_TAG as int,
            ));
            assert(spec_field(ib2, open0[k], F_PARENT as int) == spec_field(
                ib0,
                open0[k],
                F_PARENT as int,
            ));
            assert(spec_next(ib2, a) == (if parent matches Some(p) && (a == last || a == p
                || spec_next(ib0, p) == Some(a)) {
                Some(n)
            } else {
                spec_next(ib0, a)
            }));
            assert(spec_first_child(ib2, a) == (if parent matches Some(p) && a == p
                && spec_first_child(ib0, p) is None {
                Some(n)
            } else {
                spec_first_child(ib0, a)
            }));
        } else {
            assert(spec_next(ib2, p) == Some(n));
            assert(spec_first_child(ib2, p) is Some);
        }
    }
    assert(b2.inv(ib2));
}

/// The step for a `Prop` token keeps the builder's invariant and adds one
/// property to the arena.
#[verifier::rlimit(40)]
proof fn lemma_prop(
    b0: DTIBuilder,
    b2: DTIBuilder,
    ib0: Seq<u8>,
    ib1: Seq<u8>,
    ib2: Seq<u8>,
    value_off: int,
    value_len: int,
    nameoff: int,
)
    requires
        b0.inv(ib0),
        b0.in_node_header,
        b0.cur_node is Some,
        0 <= value_off,
        0 <= value_len,
        0 <= nameoff <= b0.fdt@.len(),
        value_off + value_len <= b0.fdt@.len(),
        b0.front_off < spec_capacity(ib0.len() as int),
        ib1.len() == ib0.len(),
        ib2.len() == ib0.len(),
        spec_is_prop(ib1, b0.front_off as int),
        spec_field(ib1, b0.front_off as int, F_VALUE_OFF as int) == value_off,
        spec_field(ib1, b0.front_off as int, F_VALUE_LEN as int) == value_len,
        spec_field(ib1, b0.front_off as int, F_PROP_NAME as int) == nameoff,
        forall|r: int, f: int|
            0 <= r < spec_capacity(ib0.len() as int) && 0 <= f < REC_FIELDS && r != b0.front_off
                ==> #[trigger] spec_field(ib1, r, f) == spec_field(ib0, r, f),
        spec_field(ib2, b0.cur_node->0 as int, F_NUM_PROPS as int) == spec_field(
            ib0,
            b0.cur_node->0 as int,
            F_NUM_PROPS as int,
        ) + 1,
        forall|r: int, f: int|
            0 <= r < spec_capacity(ib0.len() as int) && 0 <= f < REC_FIELDS && !(r
                == b0.cur_node->0 && f == F_NUM_PROPS) ==> #[trigger] spec_field(ib2, r, f)
                == spec_field(ib1, r, f),
        b2.fdt == b0.fdt,
        b2.front_off == b0.front_off + 1,
        b2.cur_node == b0.cur_node,
        b2.prev_new_node == b0.prev_new_node,
        b2.in_node_header,
        b2.open@ == b0.open@,
    ensures
        b2.inv(ib2),
        spec_arena(ib2, b0.fdt@, b2.front_off as int) == spec_arena(
            ib0,
            b0.fdt@,
            b0.front_off as int,
        ).push(
            ItemView::Prop { value: b0.fdt@.subrange(value_off, value_off + value_len), name_offset: nameoff },
        ),
        spec_is_node(ib2, 0) == spec_is_node(ib0, 0),
{
    reveal(DTIBuilder::inv);
    let n = b0.front_off as int;
    let src = b0.fdt@;
    let src_len = src.len() as int;
    let c = b0.cur_node->0 as int;
    let open = b0.open@;
    assert(b0.prev_new_node == Some(c as usize));
    assert(spec_node_ok(ib0, src_len, n, c));
    assert forall|r: int, f: int|
        0 <= r < n && 0 <= f < REC_FIELDS && !(r == c && f == F_NUM_PROPS) implies spec_field(
        ib2,
        r,
        f,
    ) == spec_field(ib0, r, f) by {
        assert(spec_field(ib1, r, f) == spec_field(ib0, r, f));
    }
    assert forall|f: int| 0 <= f < REC_FIELDS implies spec_field(ib2, n, f) == spec_field(
        ib1,
        n,
        f,
    ) by {}
    assert(!spec_is_node(ib2, n));
    assert forall|i: int| 0 <= i < n implies spec_is_node(ib2, i) == spec_is_node(ib0, i)
        && spec_is_prop(ib2, i) == spec_is_prop(ib0, i) && spec_parent(ib2, i) == spec_parent(
        ib0,
        i,
    ) && spec_next(ib2, i) == spec_next(ib0, i) && spec_first_child(ib2, i) == spec_first_child(
        ib0,
        i,
    ) && (i != c ==> spec_succ(ib2, i) == spec_succ(ib0, i)) && spec_rec_view(ib2, src, i)
        == spec_rec_view(ib0, src, i) by {}
    assert(spec_succ(ib2, c) == n + 1);
    assert(spec_arena(ib2, src, n + 1) =~= spec_arena(ib0, src, n).push(
        ItemView::Prop { value: src.subrange(value_off, value_off + value_len), name_offset: nameoff },
    ));
    assert forall|i: int| 0 <= i < n + 1 && spec_is_node(ib2, i) implies spec_node_ok(
        ib2,
        src_len,
        n + 1,
        i,
    ) by {
        assert(i < n);
        assert(spec_node_ok(ib0, src_len, n, i));
        if i != c {
            assert(spec_succ(ib0, i) <= c);
            assert(spec_parent(ib2, spec_succ(ib0, i)) == spec_parent(ib0, spec_succ(ib0, i)));
            assert(spec_follower(ib2, n + 1, i) == spec_follower(ib0, n, i));
        }
    }
    assert forall|i: int, k: int|
        0 <= i < n + 1 && spec_is_node(ib2, i) && i < k < spec_succ(ib2, i) implies spec_is_prop(
        ib2,
        k,
    ) by {
        if k < n {
            if i != c {
                assert(spec_succ(ib0, i) <= c);
            }
            assert(spec_is_node(ib0, i));
            assert(spec_is_prop(ib0, k));
        }
    }
    assert(spec_records_ok(ib2, src_len, n + 1));
    assert(b2.inv(ib2));
}

} // verus!
