//! The token parser: one token of the structure block per call.
use crate::base::tree::DevTree;
use crate::bytes::{nread_bstring0, read_be_u32, spec_be_u32, spec_nul_pos, spec_search_end};
use crate::error::DevTreeError;
use crate::wire::{spec_tok_of, FdtTok, FDT_PROP_HEADER_SIZE, MAX_NODE_NAME_LEN};
use vstd::prelude::*;
use vstd::slice::slice_subrange;

verus! {

/// The name that follows a `BeginNode` token, without its zero byte.
pub struct ParsedBeginNode<'a> {
    pub name: &'a [u8],
}

/// The value that follows a `Prop` token, and where its name stands in the
/// strings block.
pub struct ParsedProp<'a> {
    pub prop_buf: &'a [u8],
    pub name_offset: usize,
}

/// A token other than the one that ends the stream.
pub enum ParsedTok<'a> {
    BeginNode(ParsedBeginNode<'a>),
    EndNode,
    Prop(ParsedProp<'a>),
    Nop,
}

/// What stands at an offset of a buffer, read as a token. `next` is the
/// offset of the token that follows.
pub enum TokenView {
    /// A node opens; its name is `[name_start, name_end)` of the buffer.
    BeginNode { name_start: int, name_end: int, next: int },
    /// A node closes.
    EndNode { next: int },
    /// A property; its value is `[value_start, value_end)` of the buffer.
    Prop { value_start: int, value_end: int, name_offset: int, next: int },
    /// Filler.
    Nop { next: int },
    /// The stream ends.
    End { next: int },
    /// No token can be read here.
    Invalid,
}

/// `x` rounded up to a multiple of four.
pub open spec fn spec_align4(x: int) -> int {
    ((x + 3) / 4) * 4
}

/// The token at `off`.
///
/// Nothing is read at an offset that is not a multiple of four or has fewer
/// than four bytes after it. A node name must end within
/// `MAX_NODE_NAME_LEN + 1` bytes. A property's header and value must lie
/// in the buffer, and its name offset must not exceed the buffer's length.
/// The offset that follows a name or a value is rounded up to a multiple of
/// four and must be representable.
#[verifier::opaque]
pub open spec fn spec_token(buf: Seq<u8>, off: int) -> TokenView {
    if off < 0 || off % 4 != 0 || off + 4 > buf.len() {
        TokenView::Invalid
    } else {
        match spec_tok_of(spec_be_u32(buf, off)) {
            None => TokenView::Invalid,
            Some(FdtTok::EndNode) => TokenView::EndNode { next: off + 4 },
            Some(FdtTok::Nop) => TokenView::Nop { next: off + 4 },
            Some(FdtTok::End) => TokenView::End { next: off + 4 },
            Some(FdtTok::BeginNode) => {
                let limit = spec_search_end(buf.len() as int, off + 4, MAX_NODE_NAME_LEN + 1);
                let end = spec_nul_pos(buf, off + 4, limit);
                if end < limit && spec_align4(end + 1) <= usize::MAX {
                    TokenView::BeginNode {
                        name_start: off + 4,
                        name_end: end,
                        next: spec_align4(end + 1),
                    }
                } else {
                    TokenView::Invalid
                }
            },
            Some(FdtTok::Prop) => {
                let start = off + 4 + FDT_PROP_HEADER_SIZE;
                if start > buf.len() {
                    TokenView::Invalid
                } else {
                    let end = start + spec_be_u32(buf, off + 4);
                    let name_offset = spec_be_u32(buf, off + 8) as int;
                    if end <= buf.len() && name_offset <= buf.len() && spec_align4(end)
                        <= usize::MAX {
                        TokenView::Prop {
                            value_start: start,
                            value_end: end,
                            name_offset,
                            next: spec_align4(end),
                        }
                    } else {
                        TokenView::Invalid
                    }
                }
            },
        }
    }
}

impl TokenView {
    /// The offset after the token; for `Invalid`, nothing is meant by it.
    pub open spec fn next(self) -> int {
        match self {
            TokenView::BeginNode { next, .. } => next,
            TokenView::EndNode { next } => next,
            TokenView::Prop { next, .. } => next,
            TokenView::Nop { next } => next,
            TokenView::End { next } => next,
            TokenView::Invalid => 0,
        }
    }
}

/// A token ends after the offset it starts at, at a multiple of four that
/// is less than four bytes past the end of the buffer.
pub proof fn lemma_token_advances(buf: Seq<u8>, off: int)
    requires
        !(spec_token(buf, off) is Invalid),
    ensures
        0 <= off,
        off + 4 <= spec_token(buf, off).next() < buf.len() + 4,
        spec_token(buf, off).next() % 4 == 0,
        spec_token(buf, off) is BeginNode || spec_token(buf, off) is Prop ==> spec_token(
            buf,
            off,
        ).next() <= usize::MAX,
{
    reveal(spec_token);
    if spec_token(buf, off) is BeginNode {
        let limit = spec_search_end(buf.len() as int, off + 4, MAX_NODE_NAME_LEN + 1);
        crate::bytes::lemma_nul_pos(buf, off + 4, limit);
    }
}

/// Where the name of a node and the value of a property lie: right after the
/// token and, for a value, its header of eight bytes, and within the buffer.
pub proof fn lemma_token_layout(buf: Seq<u8>, off: int)
    ensures
        spec_token(buf, off) matches TokenView::BeginNode { name_start, name_end, next }
            ==> name_start == off + 4 && name_start <= name_end < buf.len(),
        spec_token(buf, off) matches TokenView::Prop { value_start, value_end, name_offset, next }
            ==> value_start == off + 12 && value_start <= value_end <= buf.len() && 0
            <= name_offset <= buf.len(),
{
    reveal(spec_token);
    if spec_token(buf, off) is BeginNode {
        let limit = spec_search_end(buf.len() as int, off + 4, MAX_NODE_NAME_LEN + 1);
        crate::bytes::lemma_nul_pos(buf, off + 4, limit);
    }
}

/// `x` rounded up to a multiple of four, where that can be represented.
fn align4(x: usize) -> (r: Option<usize>)
    ensures
        r is Some <==> spec_align4(x as int) <= usize::MAX,
        r matches Some(v) ==> v == spec_align4(x as int),
{
    let rem: usize = x % 4;
    if rem == 0 {
        Some(x)
    } else if x > usize::MAX - 3 {
        None
    } else {
        Some(x + (4 - rem))
    }
}

/// Reads the token at `*off` and moves `*off` past it.
///
/// On an error `*off` stays where it was. The token that ends the stream is
/// reported as `Ok(None)`, with `*off` moved past it.
#[verifier::rlimit(40)]
pub fn next_devtree_token<'a>(buf: &'a [u8], off: &mut usize) -> (r: Result<
    Option<ParsedTok<'a>>,
    DevTreeError,
>)
    ensures
        match spec_token(buf@, *old(off) as int) {
            TokenView::Invalid => r matches Err(e) && e is ParseError && *final(off) == *old(off),
            TokenView::End { next } => r matches Ok(None) && *final(off) == next,
            TokenView::EndNode { next } => r matches Ok(Some(ParsedTok::EndNode)) && *final(off)
                == next,
            TokenView::Nop { next } => r matches Ok(Some(ParsedTok::Nop)) && *final(off) == next,
            TokenView::BeginNode { name_start, name_end, next } => r matches Ok(
                Some(ParsedTok::BeginNode(node)),
            ) && node.name@ == buf@.subrange(name_start, name_end) && *final(off) == next,
            TokenView::Prop { value_start, value_end, name_offset, next } => r matches Ok(
                Some(ParsedTok::Prop(prop)),
            ) && prop.prop_buf@ == buf@.subrange(value_start, value_end) && prop.name_offset
                == name_offset && *final(off) == next,
        },
{
    proof {
        reveal(spec_token);
    }
    let start: usize = *off;
    let len: usize = buf.len();
    if start % 4 != 0 || len < 4 || start > len - 4 {
        return Err(DevTreeError::ParseError);
    }
    let word: u32 = match read_be_u32(buf, start) {
        Ok(w) => w,
        Err(e) => {
            return Err(DevTreeError::from_read_error(e));
        },
    };
    let body: usize = start + 4;
    match FdtTok::from_u32(word) {
        None => Err(DevTreeError::ParseError),
        Some(FdtTok::EndNode) => {
            *off = body;
            Ok(Some(ParsedTok::EndNode))
        },
        Some(FdtTok::Nop) => {
            *off = body;
            Ok(Some(ParsedTok::Nop))
        },
        Some(FdtTok::End) => {
            *off = body;
            Ok(None)
        },
        Some(FdtTok::BeginNode) => {
            let name: &'a [u8] = match nread_bstring0(buf, body, MAX_NODE_NAME_LEN + 1) {
                Ok(n) => n,
                Err(e) => {
                    return Err(DevTreeError::from_read_error(e));
                },
            };
            proof {
                crate::bytes::lemma_nul_pos(
                    buf@,
                    body as int,
                    spec_search_end(len as int, body as int, MAX_NODE_NAME_LEN + 1),
                );
            }
            let after: usize = body + name.len() + 1;
            match align4(after) {
                None => Err(DevTreeError::ParseError),
                Some(next) => {
                    *off = next;
                    Ok(Some(ParsedTok::BeginNode(ParsedBeginNode { name })))
                },
            }
        },
        Some(FdtTok::Prop) => {
            if len - body < FDT_PROP_HEADER_SIZE {
                return Err(DevTreeError::ParseError);
            }
            let prop_len: usize = match read_be_u32(buf, body) {
                Ok(w) => w as usize,
                Err(e) => {
                    return Err(DevTreeError::from_read_error(e));
                },
            };
            let name_offset: usize = match read_be_u32(buf, body + 4) {
                Ok(w) => w as usize,
                Err(e) => {
                    return Err(DevTreeError::from_read_error(e));
                },
            };
            let value: usize = body + FDT_PROP_HEADER_SIZE;
            if prop_len > len - value || name_offset > len {
                return Err(DevTreeError::ParseError);
            }
            let end: usize = value + prop_len;
            match align4(end) {
                None => Err(DevTreeError::ParseError),
                Some(next) => {
                    *off = next;
                    let prop_buf: &'a [u8] = slice_subrange(buf, value, end);
                    Ok(Some(ParsedTok::Prop(ParsedProp { prop_buf, name_offset })))
                },
            }
        },
    }
}

/// A cursor over the raw tokens of a tree's structure block.
pub struct DevTreeParseIter<'r, 'dt> {
    pub offset: usize,
    pub fdt: &'r DevTree<'dt>,
}

impl<'r, 'dt> DevTreeParseIter<'r, 'dt> {
    /// A cursor at the start of the structure block.
    pub fn new(fdt: &'r DevTree<'dt>) -> (r: Self)
        requires
            fdt.wf(),
        ensures
            r.offset == fdt.spec_off_dt_struct(),
            r.fdt == fdt,
    {
        Self { offset: fdt.off_dt_struct(), fdt }
    }

    /// The next token. At the end of the stream and at anything that is no
    /// token the cursor stays where it is, and so does every later call.
    pub fn next(&mut self) -> (r: Option<ParsedTok<'dt>>)
        ensures
            final(self).fdt == old(self).fdt,
            match spec_token(old(self).fdt@, old(self).offset as int) {
                TokenView::Invalid => r is None && final(self).offset == old(self).offset,
                TokenView::End { next } => r is None && final(self).offset == old(self).offset,
                TokenView::EndNode { next } => r matches Some(ParsedTok::EndNode) && final(self).offset == next,
                TokenView::Nop { next } => r matches Some(ParsedTok::Nop) && final(self).offset
                    == next,
                TokenView::BeginNode { name_start, name_end, next } => r matches Some(
                    ParsedTok::BeginNode(node),
                ) && node.name@ == old(self).fdt@.subrange(name_start, name_end) && final(self).offset == next,
                TokenView::Prop { value_start, value_end, name_offset, next } => r matches Some(
                    ParsedTok::Prop(prop),
                ) && prop.prop_buf@ == old(self).fdt@.subrange(value_start, value_end)
                    && prop.name_offset == name_offset && final(self).offset == next,
            },
    {
        let mut off: usize = self.offset;
        match next_devtree_token(self.fdt.buf(), &mut off) {
            Ok(Some(tok)) => {
                self.offset = off;
                Some(tok)
            },
            _ => None,
        }
    }
}

} // verus!
