//! The mathematical model of what a traversal yields.
use crate::base::parse::{lemma_token_advances, spec_token, TokenView};
use vstd::prelude::*;

verus! {

/// An item of a tree as a plain value: what both engines must agree on.
pub enum ItemView {
    /// A node with the bytes of its name.
    Node { name: Seq<u8> },
    /// A property with the bytes of its value and the offset of its name in
    /// the strings block.
    Prop { value: Seq<u8>, name_offset: int },
}

/// The names of the nodes among `items`, in their order.
pub open spec fn spec_node_names(items: Seq<ItemView>) -> Seq<Seq<u8>>
    decreases items.len(),
{
    if items.len() == 0 {
        Seq::empty()
    } else {
        match items[0] {
            ItemView::Node { name } => seq![name] + spec_node_names(items.skip(1)),
            ItemView::Prop { .. } => spec_node_names(items.skip(1)),
        }
    }
}

/// Where a cursor at `off` finds its next item: the offset reached, the node
/// that is open there, and the number of nodes that are open there, after
/// every `Nop` and every `EndNode` on the way that closes a node. `depth` is
/// the number of nodes that are open at `off`. An `EndNode` closes the open
/// node; one that finds no node open is not passed.
pub open spec fn spec_seek(buf: Seq<u8>, off: int, parent: Option<int>, depth: int) -> (
    int,
    Option<int>,
    int,
)
    decreases buf.len() + 4 - off,
{
    match spec_token(buf, off) {
        TokenView::EndNode { next } => {
            if depth <= 0 {
                (off, parent, depth)
            } else {
                proof {
                    lemma_token_advances(buf, off);
                }
                spec_seek(buf, next, None, depth - 1)
            }
        },
        TokenView::Nop { next } => {
            proof {
                lemma_token_advances(buf, off);
            }
            spec_seek(buf, next, parent, depth)
        },
        _ => (off, parent, depth),
    }
}

/// The items that a traversal yields from offset `off` on, in order. `open`
/// says whether a node has been opened and not closed since, so that a
/// property may follow, and `depth` is the number of nodes that are open.
/// The stream ends at the `End` token, at anything that is no token, at a
/// property that follows no open node, and at an `EndNode` that finds no
/// node open.
pub open spec fn spec_items(buf: Seq<u8>, off: int, open: bool, depth: int) -> Seq<ItemView>
    decreases buf.len() + 4 - off,
{
    match spec_token(buf, off) {
        TokenView::BeginNode { name_start, name_end, next } => {
            proof {
                lemma_token_advances(buf, off);
            }
            seq![ItemView::Node { name: buf.subrange(name_start, name_end) }] + spec_items(
                buf,
                next,
                true,
                depth + 1,
            )
        },
        TokenView::Prop { value_start, value_end, name_offset, next } => {
            if open {
                proof {
                    lemma_token_advances(buf, off);
                }
                seq![
                    ItemView::Prop { value: buf.subrange(value_start, value_end), name_offset },
                ] + spec_items(buf, next, true, depth)
            } else {
                Seq::empty()
            }
        },
        TokenView::EndNode { next } => {
            if depth <= 0 {
                Seq::empty()
            } else {
                proof {
                    lemma_token_advances(buf, off);
                }
                spec_items(buf, next, false, depth - 1)
            }
        },
        TokenView::Nop { next } => {
            proof {
                lemma_token_advances(buf, off);
            }
            spec_items(buf, next, open, depth)
        },
        _ => Seq::empty(),
    }
}

/// `spec_items`, one token unfolded.
pub proof fn lemma_items_unfold(src: Seq<u8>, off: int, open: bool, depth: int)
    ensures
        spec_items(src, off, open, depth) == (match spec_token(src, off) {
            TokenView::BeginNode { name_start, name_end, next } => seq![
                ItemView::Node { name: src.subrange(name_start, name_end) },
            ] + spec_items(src, next, true, depth + 1),
            TokenView::Prop { value_start, value_end, name_offset, next } => if open {
                seq![ItemView::Prop { value: src.subrange(value_start, value_end), name_offset }]
                    + spec_items(src, next, true, depth)
            } else {
                Seq::empty()
            },
            TokenView::EndNode { next } => if depth <= 0 {
                Seq::empty()
            } else {
                spec_items(src, next, false, depth - 1)
            },
            TokenView::Nop { next } => spec_items(src, next, open, depth),
            _ => Seq::empty(),
        }),
{
}

/// Seeking skips no item: the stream from where a cursor stands is the stream
/// from where it finds its next item. What is found is no `Nop`, and an
/// `EndNode` only where no node is open. Seeking opens no node.
pub proof fn lemma_seek_items(buf: Seq<u8>, off: int, parent: Option<int>, depth: int)
    ensures
        spec_items(buf, off, parent is Some, depth) == spec_items(
            buf,
            spec_seek(buf, off, parent, depth).0,
            spec_seek(buf, off, parent, depth).1 is Some,
            spec_seek(buf, off, parent, depth).2,
        ),
        spec_token(buf, spec_seek(buf, off, parent, depth).0) is EndNode ==> spec_seek(
            buf,
            off,
            parent,
            depth,
        ).2 <= 0,
        !(spec_token(buf, spec_seek(buf, off, parent, depth).0) is Nop),
        spec_seek(buf, off, parent, depth).1 == parent || spec_seek(buf, off, parent, depth).1
            is None,
        spec_seek(buf, off, parent, depth).1 is Some ==> spec_seek(buf, off, parent, depth).2
            == depth,
        spec_seek(buf, off, parent, depth).0 >= off,
        spec_seek(buf, off, parent, depth).2 <= depth,
        depth >= 0 ==> spec_seek(buf, off, parent, depth).2 >= 0,
    decreases buf.len() + 4 - off,
{
    match spec_token(buf, off) {
        TokenView::EndNode { next } => {
            if depth > 0 {
                lemma_token_advances(buf, off);
                lemma_seek_items(buf, next, None, depth - 1);
            }
        },
        TokenView::Nop { next } => {
            lemma_token_advances(buf, off);
            lemma_seek_items(buf, next, parent, depth);
        },
        _ => {},
    }
}

/// The stream in terms of the next item: it starts with the item that the
/// token found by seeking yields, and goes on after that token with the node
/// open; it is empty where that token yields none.
pub proof fn lemma_items_step(buf: Seq<u8>, off: int, parent: Option<int>, depth: int)
    ensures
        ({
            let (at, open, deep) = spec_seek(buf, off, parent, depth);
            let items = spec_items(buf, off, parent is Some, depth);
            match spec_token(buf, at) {
                TokenView::BeginNode { name_start, name_end, next } => {
                    &&& items.len() > 0
                    &&& items[0] == ItemView::Node { name: buf.subrange(name_start, name_end) }
                    &&& items.skip(1) == spec_items(buf, next, true, deep + 1)
                },
                TokenView::Prop { value_start, value_end, name_offset, next } => {
                    if open is Some {
                        &&& items.len() > 0
                        &&& items[0] == ItemView::Prop {
                            value: buf.subrange(value_start, value_end),
                            name_offset,
                        }
                        &&& items.skip(1) == spec_items(buf, next, true, deep)
                    } else {
                        items.len() == 0
                    }
                },
                _ => items.len() == 0,
            }
        }),
{
    lemma_seek_items(buf, off, parent, depth);
    let (at, open, deep) = spec_seek(buf, off, parent, depth);
    let items = spec_items(buf, at, open is Some, deep);
    match spec_token(buf, at) {
        TokenView::BeginNode { name_start, name_end, next } => {
            assert(items.skip(1) =~= spec_items(buf, next, true, deep + 1));
        },
        TokenView::Prop { value_start, value_end, name_offset, next } => {
            if open is Some {
                assert(items.skip(1) =~= spec_items(buf, next, true, deep));
            }
        },
        _ => {},
    }
}

} // verus!
