//! How the links of an index tell the shape of its tree: which node is the
//! parent of which, which its first child, and which the sibling that
//! follows it.
use crate::base::parse::{lemma_token_advances, spec_token, TokenView};
use crate::index::store::{spec_field, F_FIRST_CHILD, F_NEXT, F_PARENT, F_TAG};
use crate::index::builder::spec_begun;
use crate::index::tree::{
    spec_first_child, spec_is_node, spec_next, spec_node_ok, spec_parent, spec_records_ok,
};
use vstd::prelude::*;

verus! {

/// Whether `j` is a sibling that follows `i`: both are nodes, and they have
/// one and the same parent.
pub open spec fn spec_kin(ib: Seq<u8>, i: int, j: int) -> bool {
    &&& 0 <= i < j
    &&& spec_is_node(ib, i)
    &&& spec_is_node(ib, j)
    &&& spec_parent(ib, i) is Some
    &&& spec_parent(ib, j) == spec_parent(ib, i)
}

/// Whether `j` is a child of `i`.
pub open spec fn spec_child(ib: Seq<u8>, i: int, j: int) -> bool {
    &&& 0 <= i
    &&& 0 <= j
    &&& spec_is_node(ib, i)
    &&& spec_is_node(ib, j)
    &&& spec_parent(ib, j) == Some(i)
}

/// The links among the first `n` records tell the shape of the tree.
///
/// A node that has a sibling after it has `next` lead to the first such
/// sibling. A node that has a child has a first child. `next` never leads to
/// a node without a parent.
pub open spec fn spec_links_ok(ib: Seq<u8>, n: int) -> bool {
    &&& forall|i: int, j: int|
        j < n && #[trigger] spec_kin(ib, i, j) ==> (spec_next(ib, i) matches Some(x)
            && spec_parent(ib, x) == spec_parent(ib, i) && x <= j)
    &&& forall|i: int, j: int|
        j < n && #[trigger] spec_child(ib, i, j) ==> spec_first_child(ib, i) is Some
    &&& forall|i: int|
        0 <= i < n && spec_is_node(ib, i) ==> (#[trigger] spec_next(ib, i) matches Some(x)
            ==> spec_parent(ib, x) is Some)
}

/// The last entry of a stack of open nodes, if it has one.
pub open spec fn spec_top(open: Seq<int>) -> Option<int> {
    if open.len() > 0 {
        Some(open.last())
    } else {
        None
    }
}

/// The node that is open when each record is written, for the records that
/// the tokens from `off` on give rise to: the parent of a node, the owner of
/// a property. `open` holds the nodes that are open at `off`, outermost
/// first, `n` is the number of the next record, and `in_header` says whether
/// a property may follow.
pub open spec fn spec_owners(
    src: Seq<u8>,
    off: int,
    open: Seq<int>,
    n: int,
    in_header: bool,
) -> Seq<Option<int>>
    decreases src.len() + 4 - off,
{
    match spec_token(src, off) {
        TokenView::BeginNode { next, .. } => {
            proof {
                lemma_token_advances(src, off);
            }
            seq![spec_top(open)] + spec_owners(src, next, open.push(n), n + 1, true)
        },
        TokenView::Prop { next, .. } => {
            if in_header {
                proof {
                    lemma_token_advances(src, off);
                }
                seq![spec_top(open)] + spec_owners(src, next, open, n + 1, true)
            } else {
                Seq::empty()
            }
        },
        TokenView::EndNode { next } => {
            proof {
                lemma_token_advances(src, off);
            }
            spec_owners(
                src,
                next,
                if open.len() > 0 {
                    open.drop_last()
                } else {
                    open
                },
                n,
                false,
            )
        },
        TokenView::Nop { next } => {
            proof {
                lemma_token_advances(src, off);
            }
            spec_owners(src, next, open, n, in_header)
        },
        _ => Seq::empty(),
    }
}

/// `spec_owners`, one token unfolded.
pub proof fn lemma_owners_unfold(src: Seq<u8>, off: int, open: Seq<int>, n: int, in_header: bool)
    ensures
        spec_owners(src, off, open, n, in_header) == (match spec_token(src, off) {
            TokenView::BeginNode { next, .. } => seq![spec_top(open)] + spec_owners(
                src,
                next,
                open.push(n),
                n + 1,
                true,
            ),
            TokenView::Prop { next, .. } => if in_header {
                seq![spec_top(open)] + spec_owners(src, next, open, n + 1, true)
            } else {
                Seq::empty()
            },
            TokenView::EndNode { next } => spec_owners(
                src,
                next,
                if open.len() > 0 {
                    open.drop_last()
                } else {
                    open
                },
                n,
                false,
            ),
            TokenView::Nop { next } => spec_owners(src, next, open, n, in_header),
            _ => Seq::empty(),
        }),
{
}

/// The parent links of the first `n` records, in their order.
pub open spec fn spec_links(ib: Seq<u8>, n: int) -> Seq<Option<int>> {
    Seq::new(n as nat, |i: int| spec_parent(ib, i))
}

/// What holds of the links between the steps of the pass that builds an
/// index, where `open` holds the nodes that are open, outermost first.
///
/// The links so far tell the shape of the tree so far. Every record after an
/// open node lies under it. The link `next` of an open node that has a child
/// leads to the last of its children.
#[verifier::opaque]
pub open spec fn spec_build_kin(ib: Seq<u8>, n: int, open: Seq<int>) -> bool {
    &&& spec_links_ok(ib, n)
    &&& forall|k: int, j: int|
        #![trigger open[k], spec_parent(ib, j)]
        0 <= k < open.len() && open[k] < j < n ==> (spec_parent(ib, j) matches Some(q) && q
            >= open[k])
    &&& forall|k: int, j: int|
        #![trigger open[k], spec_is_node(ib, j)]
        0 <= k < open.len() && 0 <= j < n && spec_is_node(ib, j) && (spec_next(
            ib,
            open[k],
        ) matches Some(s) && s < j) ==> spec_parent(ib, j) != Some(open[k])
    &&& forall|k: int|
        0 <= k < open.len() && spec_first_child(ib, #[trigger] open[k]) is Some ==> (spec_next(
            ib,
            open[k],
        ) matches Some(s) && spec_parent(ib, s) == Some(open[k]))
}

/// Before the first record nothing is asked of the links.
pub proof fn lemma_kin_start(ib: Seq<u8>)
    ensures
        spec_build_kin(ib, 0, Seq::empty()),
{
    reveal(spec_build_kin);
}

/// What the invariant says of the links once the pass has ended.
pub proof fn lemma_kin_sound(ib: Seq<u8>, n: int, open: Seq<int>)
    requires
        spec_build_kin(ib, n, open),
    ensures
        spec_links_ok(ib, n),
{
    reveal(spec_build_kin);
}

/// Closing the open node keeps the invariant of the links.
pub proof fn lemma_kin_end(ib: Seq<u8>, n: int, open: Seq<int>)
    requires
        spec_build_kin(ib, n, open),
        open.len() > 0,
    ensures
        spec_build_kin(ib, n, open.drop_last()),
{
    reveal(spec_build_kin);
    let rest = open.drop_last();
    assert forall|k: int, j: int|
        #![trigger rest[k], spec_parent(ib, j)]
        0 <= k < rest.len() && rest[k] < j < n implies (spec_parent(ib, j) matches Some(q) && q
        >= rest[k]) by {
        assert(rest[k] == open[k]);
    }
    assert forall|k: int, j: int|
        #![trigger rest[k], spec_is_node(ib, j)]
        0 <= k < rest.len() && 0 <= j < n && spec_is_node(ib, j) && (spec_next(
            ib,
            rest[k],
        ) matches Some(s) && s < j) implies spec_parent(ib, j) != Some(rest[k]) by {
        assert(rest[k] == open[k]);
    }
    assert forall|k: int|
        0 <= k < rest.len() && spec_first_child(ib, #[trigger] rest[k]) is Some implies (spec_next(
        ib,
        rest[k],
    ) matches Some(s) && spec_parent(ib, s) == Some(rest[k])) by {
        assert(rest[k] == open[k]);
    }
}

/// What the step for a `Prop` token needs of the store: the new record is no
/// node and has the open node as its owner, and the tags and links of the
/// records before it are as they were.
pub open spec fn spec_prop_step(ib0: Seq<u8>, ib2: Seq<u8>, n: int, owner: int) -> bool {
    &&& !spec_is_node(ib2, n)
    &&& spec_parent(ib2, n) == Some(owner)
    &&& forall|i: int|
        0 <= i < n ==> #[trigger] spec_field(ib2, i, F_TAG as int) == spec_field(
            ib0,
            i,
            F_TAG as int,
        ) && spec_field(ib2, i, F_PARENT as int) == spec_field(ib0, i, F_PARENT as int)
            && spec_field(ib2, i, F_NEXT as int) == spec_field(ib0, i, F_NEXT as int)
            && spec_field(ib2, i, F_FIRST_CHILD as int) == spec_field(
            ib0,
            i,
            F_FIRST_CHILD as int,
        )
}

/// The step for a `Prop` token keeps the invariant of the links.
#[verifier::rlimit(40)]
pub proof fn lemma_kin_prop(ib0: Seq<u8>, ib2: Seq<u8>, src_len: int, n: int, open: Seq<int>)
    requires
        spec_build_kin(ib0, n, open),
        spec_records_ok(ib0, src_len, n),
        open.len() > 0,
        forall|k: int| 0 <= k < open.len() ==> 0 <= #[trigger] open[k] < n && spec_is_node(
            ib0,
            open[k],
        ),
        forall|k: int| 1 <= k < open.len() ==> open[k - 1] < #[trigger] open[k],
        spec_prop_step(ib0, ib2, n, open.last()),
    ensures
        spec_build_kin(ib2, n + 1, open),
        spec_links(ib2, n + 1) == spec_links(ib0, n).push(Some(open.last())),
{
    reveal(spec_build_kin);
    assert forall|i: int| 0 <= i < n implies spec_is_node(ib2, i) == spec_is_node(ib0, i)
        && spec_parent(ib2, i) == spec_parent(ib0, i) && spec_next(ib2, i) == spec_next(ib0, i)
        && spec_first_child(ib2, i) == spec_first_child(ib0, i) by {
        assert(spec_field(ib2, i, F_TAG as int) == spec_field(ib0, i, F_TAG as int));
    }
    assert(spec_links(ib2, n + 1) =~= spec_links(ib0, n).push(Some(open.last())));
    assert forall|i: int, j: int| j < n + 1 && #[trigger] spec_kin(ib2, i, j) implies (spec_next(
        ib2,
        i,
    ) matches Some(x) && spec_parent(ib2, x) == spec_parent(ib2, i) && x <= j) by {
        assert(j < n);
        assert(spec_kin(ib0, i, j));
        assert(spec_node_ok(ib0, src_len, n, i));
    }
    assert forall|i: int, j: int| j < n + 1 && #[trigger] spec_child(ib2, i, j) implies spec_first_child(
        ib2,
        i,
    ) is Some by {
        assert(j < n);
        assert(spec_node_ok(ib0, src_len, n, j));
        assert(spec_child(ib0, i, j));
    }
    assert forall|i: int| 0 <= i < n + 1 && spec_is_node(ib2, i) implies (#[trigger] spec_next(
        ib2,
        i,
    ) matches Some(x) ==> spec_parent(ib2, x) is Some) by {
        assert(i < n);
        assert(spec_node_ok(ib0, src_len, n, i));
        assert(spec_next(ib0, i) matches Some(x) ==> spec_parent(ib0, x) is Some);
    }
    assert forall|k: int, j: int|
        #![trigger open[k], spec_parent(ib2, j)]
        0 <= k < open.len() && open[k] < j < n + 1 implies (spec_parent(ib2, j) matches Some(q)
        && q >= open[k]) by {
        if j < n {
            assert(spec_parent(ib0, j) matches Some(q) && q >= open[k]);
        } else if k < open.len() - 1 {
            lemma_rising(open, k, open.len() - 1);
        }
    }
    assert forall|k: int, j: int|
        #![trigger open[k], spec_is_node(ib2, j)]
        0 <= k < open.len() && 0 <= j < n + 1 && spec_is_node(ib2, j) && (spec_next(
            ib2,
            open[k],
        ) matches Some(s) && s < j) implies spec_parent(ib2, j) != Some(open[k]) by {
        assert(j < n);
        assert(spec_is_node(ib0, j));
    }
    assert forall|k: int|
        0 <= k < open.len() && spec_first_child(ib2, #[trigger] open[k]) is Some implies (spec_next(
        ib2,
        open[k],
    ) matches Some(s) && spec_parent(ib2, s) == Some(open[k])) by {
        assert(spec_first_child(ib0, open[k]) is Some);
        assert(spec_node_ok(ib0, src_len, n, open[k]));
    }
}

/// The setting of the step for a `BeginNode` token: the store `ib0` before
/// it and `ib2` after it, the nodes `open` that are open, and the node `last`
/// that was written last. Where the open node is not the node written last,
/// it has a child already.
pub open spec fn spec_begin_setting(
    ib0: Seq<u8>,
    ib2: Seq<u8>,
    src_len: int,
    n: int,
    open: Seq<int>,
    last: int,
) -> bool {
    &&& spec_build_kin(ib0, n, open)
    &&& spec_records_ok(ib0, src_len, n)
    &&& forall|k: int|
        0 <= k < open.len() ==> 0 <= #[trigger] open[k] < n && spec_is_node(ib0, open[k])
    &&& forall|k: int| 1 <= k < open.len() ==> open[k - 1] < #[trigger] open[k]
    &&& open.len() > 0 ==> 0 <= last < n && spec_is_node(ib0, last) && open.last() <= last
    &&& forall|i: int| 0 <= i < n && #[trigger] spec_is_node(ib0, i) && i != last ==> i < last
    &&& open.len() > 0 && open.last() != last ==> spec_first_child(ib0, open.last()) is Some
    &&& open.len() > 0 && open.last() == last ==> spec_first_child(ib0, last) is None
        && spec_next(ib0, last) is None
    &&& spec_begun(ib0, ib2, n, spec_top(open), last)
    &&& spec_is_node(ib2, n)
    &&& spec_parent(ib2, n) == spec_top(open)
    &&& spec_first_child(ib2, n) is None
    &&& spec_next(ib2, n) is None
}

/// In the setting of a `BeginNode` step, the records before the new one
/// keep their tags and parents, and the open node, where it has a child, has
/// `next` lead to a child of it.
proof fn lemma_begin_basics(
    ib0: Seq<u8>,
    ib2: Seq<u8>,
    src_len: int,
    n: int,
    open: Seq<int>,
    last: int,
)
    requires
        spec_begin_setting(ib0, ib2, src_len, n, open, last),
    ensures
        forall|i: int|
            0 <= i < n ==> #[trigger] spec_is_node(ib2, i) == spec_is_node(ib0, i),
        forall|i: int| 0 <= i < n ==> #[trigger] spec_parent(ib2, i) == spec_parent(ib0, i),
        open.len() > 0 ==> spec_node_ok(ib0, src_len, n, open.last()),
        open.len() > 0 && spec_first_child(ib0, open.last()) is Some ==> (spec_next(
            ib0,
            open.last(),
        ) matches Some(s) && spec_parent(ib0, s) == Some(open.last()) && open.last() < s < n
            && spec_is_node(ib0, s)),
        open.len() > 0 ==> open.last() != last || spec_next(ib0, open.last()) is None,
{
    reveal(spec_build_kin);
    assert forall|i: int| 0 <= i < n implies #[trigger] spec_is_node(ib2, i) == spec_is_node(
        ib0,
        i,
    ) by {
        assert(spec_field(ib2, i, F_TAG as int) == spec_field(ib0, i, F_TAG as int));
    }
    assert forall|i: int| 0 <= i < n implies #[trigger] spec_parent(ib2, i) == spec_parent(
        ib0,
        i,
    ) by {
        assert(spec_field(ib2, i, F_TAG as int) == spec_field(ib0, i, F_TAG as int));
    }
    if open.len() > 0 {
        let p = open.last();
        assert(open[open.len() - 1] == p);
        assert(spec_node_ok(ib0, src_len, n, p));
    }
}

/// In the setting of a `BeginNode` step, a node that had a sibling after it
/// before the step keeps its `next`.
#[verifier::rlimit(40)]
proof fn lemma_begin_keeps_next(
    ib0: Seq<u8>,
    ib2: Seq<u8>,
    src_len: int,
    n: int,
    open: Seq<int>,
    last: int,
    i: int,
    j: int,
)
    requires
        spec_begin_setting(ib0, ib2, src_len, n, open, last),
        j < n,
        spec_kin(ib0, i, j),
    ensures
        spec_next(ib2, i) == spec_next(ib0, i),
{
    reveal(spec_build_kin);
    lemma_begin_basics(ib0, ib2, src_len, n, open, last);
    let top = open.len() - 1;
    if open.len() > 0 {
        let p = open.last();
        assert(open[top] == p);
        if i == last {
            assert(spec_is_node(ib0, j));
        } else if i == p {
            assert(spec_parent(ib0, j) matches Some(q) && q >= open[top]);
        } else if spec_next(ib0, p) == Some(i) {
            assert(spec_is_node(ib0, j));
            assert(spec_parent(ib0, j) != Some(open[top]));
        }
    }
}

/// In the setting of a `BeginNode` step, a child of the open node has `next`
/// lead to a child of the open node after the step: to the new node, if it
/// was the last child, else where it led before.
#[verifier::rlimit(40)]
proof fn lemma_begin_new_sibling(
    ib0: Seq<u8>,
    ib2: Seq<u8>,
    src_len: int,
    n: int,
    open: Seq<int>,
    last: int,
    i: int,
)
    requires
        spec_begin_setting(ib0, ib2, src_len, n, open, last),
        spec_kin(ib2, i, n),
    ensures
        spec_next(ib2, i) matches Some(x) && spec_parent(ib2, x) == spec_parent(ib2, i) && x <= n,
{
    reveal(spec_build_kin);
    lemma_begin_basics(ib0, ib2, src_len, n, open, last);
    let top = open.len() - 1;
    let p = open.last();
    assert(open[top] == p);
    assert(spec_is_node(ib0, i));
    assert(spec_node_ok(ib0, src_len, n, i));
    assert(spec_child(ib0, p, i));
    let s = spec_next(ib0, p)->0;
    if i != s {
        if s < i {
            assert(spec_parent(ib0, i) != Some(open[top]));
        }
        assert(spec_kin(ib0, i, s));
        let x = spec_next(ib0, i)->0;
        assert(spec_parent(ib2, x) == spec_parent(ib0, x));
    }
}

/// The step for a `BeginNode` token keeps the links telling the shape of the
/// tree.
#[verifier::rlimit(40)]
proof fn lemma_begin_links_ok(
    ib0: Seq<u8>,
    ib2: Seq<u8>,
    src_len: int,
    n: int,
    open: Seq<int>,
    last: int,
)
    requires
        spec_begin_setting(ib0, ib2, src_len, n, open, last),
    ensures
        spec_links_ok(ib2, n + 1),
{
    lemma_begin_basics(ib0, ib2, src_len, n, open, last);
    assert(spec_links_ok(ib0, n)) by {
        reveal(spec_build_kin);
    }
    assert forall|i: int, j: int| j < n + 1 && #[trigger] spec_kin(ib2, i, j) implies (spec_next(
        ib2,
        i,
    ) matches Some(x) && spec_parent(ib2, x) == spec_parent(ib2, i) && x <= j) by {
        if j < n {
            assert(spec_kin(ib0, i, j));
            lemma_begin_keeps_next(ib0, ib2, src_len, n, open, last, i, j);
            assert(spec_node_ok(ib0, src_len, n, i));
            let x = spec_next(ib0, i)->0;
            assert(spec_parent(ib2, x) == spec_parent(ib0, x));
        } else {
            lemma_begin_new_sibling(ib0, ib2, src_len, n, open, last, i);
        }
    }
    assert forall|i: int, j: int| j < n + 1 && #[trigger] spec_child(ib2, i, j) implies spec_first_child(
        ib2,
        i,
    ) is Some by {
        if j < n {
            assert(spec_is_node(ib0, j));
            assert(spec_node_ok(ib0, src_len, n, j));
            assert(spec_child(ib0, i, j));
        }
    }
    assert forall|i: int| 0 <= i < n + 1 && spec_is_node(ib2, i) implies (#[trigger] spec_next(
        ib2,
        i,
    ) matches Some(x) ==> spec_parent(ib2, x) is Some) by {
        if i < n {
            assert(spec_node_ok(ib0, src_len, n, i));
            assert(spec_next(ib0, i) matches Some(x) ==> spec_parent(ib0, x) is Some);
            if spec_next(ib0, i) is Some {
                let x = spec_next(ib0, i)->0;
                assert(spec_parent(ib2, x) == spec_parent(ib0, x));
            }
        }
    }
}

/// In the setting of a `BeginNode` step, an open node other than the
/// innermost keeps its links.
proof fn lemma_begin_keeps_open(
    ib0: Seq<u8>,
    ib2: Seq<u8>,
    src_len: int,
    n: int,
    open: Seq<int>,
    last: int,
    k: int,
)
    requires
        spec_begin_setting(ib0, ib2, src_len, n, open, last),
        0 <= k < open.len() - 1,
    ensures
        spec_next(ib2, open[k]) == spec_next(ib0, open[k]),
        spec_first_child(ib2, open[k]) == spec_first_child(ib0, open[k]),
        open[k] < open.last(),
{
    lemma_begin_basics(ib0, ib2, src_len, n, open, last);
    lemma_rising(open, k, open.len() - 1);
    let p = open.last();
    assert(spec_node_ok(ib0, src_len, n, p));
}

/// The step for a `BeginNode` token keeps the invariant of the links.
#[verifier::rlimit(40)]
pub proof fn lemma_kin_begin(
    ib0: Seq<u8>,
    ib2: Seq<u8>,
    src_len: int,
    n: int,
    open: Seq<int>,
    last: int,
)
    requires
        spec_begin_setting(ib0, ib2, src_len, n, open, last),
    ensures
        spec_build_kin(ib2, n + 1, open.push(n)),
        spec_links(ib2, n + 1) == spec_links(ib0, n).push(spec_top(open)),
{
    lemma_begin_basics(ib0, ib2, src_len, n, open, last);
    lemma_begin_links_ok(ib0, ib2, src_len, n, open, last);
    let open2 = open.push(n);
    let top = open.len() - 1;
    assert(spec_links(ib2, n + 1) =~= spec_links(ib0, n).push(spec_top(open)));
    assert forall|k: int, j: int|
        #![trigger open2[k], spec_parent(ib2, j)]
        0 <= k < open2.len() && open2[k] < j < n + 1 implies (spec_parent(ib2, j) matches Some(q)
        && q >= open2[k]) by {
        assert(open2[k] == open[k]);
        if j < n {
            assert(spec_parent(ib0, j) matches Some(q) && q >= open[k]) by {
                reveal(spec_build_kin);
            }
        } else if k < top {
            lemma_rising(open, k, top);
        }
    }
    assert forall|k: int, j: int|
        #![trigger open2[k], spec_is_node(ib2, j)]
        0 <= k < open2.len() && 0 <= j < n + 1 && spec_is_node(ib2, j) && (spec_next(
            ib2,
            open2[k],
        ) matches Some(s) && s < j) implies spec_parent(ib2, j) != Some(open2[k]) by {
        if k < top {
            assert(open2[k] == open[k]);
            lemma_begin_keeps_open(ib0, ib2, src_len, n, open, last, k);
            if j < n {
                assert(spec_is_node(ib0, j));
                assert(spec_parent(ib0, j) != Some(open[k])) by {
                    reveal(spec_build_kin);
                }
            }
        } else if k == top {
            assert(open2[k] == open[k]);
        }
    }
    assert forall|k: int|
        0 <= k < open2.len() && spec_first_child(ib2, #[trigger] open2[k]) is Some implies (
    spec_next(ib2, open2[k]) matches Some(s) && spec_parent(ib2, s) == Some(open2[k])) by {
        if k < top {
            assert(open2[k] == open[k]);
            lemma_begin_keeps_open(ib0, ib2, src_len, n, open, last, k);
            assert(spec_node_ok(ib0, src_len, n, open[k]));
            assert(spec_next(ib0, open[k]) matches Some(s) && spec_parent(ib0, s) == Some(
                open[k],
            )) by {
                reveal(spec_build_kin);
            }
        } else if k == top {
            assert(open2[k] == open[k]);
        }
    }
    assert(spec_build_kin(ib2, n + 1, open2)) by {
        reveal(spec_build_kin);
    }
}

/// In a sequence that rises from each entry to the next, a later entry is
/// the greater.
pub proof fn lemma_rising(s: Seq<int>, i: int, j: int)
    requires
        forall|k: int| 1 <= k < s.len() ==> s[k - 1] < #[trigger] s[k],
        0 <= i < j < s.len(),
    ensures
        s[i] < s[j],
    decreases j - i,
{
    if i + 1 < j {
        lemma_rising(s, i, j - 1);
    }
}

} // verus!
