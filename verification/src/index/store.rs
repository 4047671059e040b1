//! The record store of the index: a byte buffer read and written as records
//! of seven 64-bit fields each.
use crate::bytes::{read_be_u64, spec_be_u64, write_be_u64};
use vstd::prelude::*;

verus! {

/// The number of fields of a record.
pub const REC_FIELDS: usize = 7;

/// The size of a record in bytes, for a node and for a property alike.
pub const REC_SIZE: usize = 56;

/// The alignment that the layout of an index asks for.
pub const REC_ALIGN: usize = 8;

/// Field 0 of every record: what the record holds.
pub const F_TAG: usize = 0;

/// Field 1 of a node: its parent.
pub const F_PARENT: usize = 1;

/// Field 2 of a node: its first child.
pub const F_FIRST_CHILD: usize = 2;

/// Field 3 of a node: its next sibling, or the node that follows it.
pub const F_NEXT: usize = 3;

/// Field 4 of a node: where its name starts in the tree.
pub const F_NAME_OFF: usize = 4;

/// Field 5 of a node: the length of its name.
pub const F_NAME_LEN: usize = 5;

/// Field 6 of a node: the number of its properties, whose records follow it.
pub const F_NUM_PROPS: usize = 6;

/// Field 1 of a property: the node that owns it.
pub const F_OWNER: usize = 1;

/// Field 4 of a property: where its value starts in the tree.
pub const F_VALUE_OFF: usize = 4;

/// Field 5 of a property: the length of its value.
pub const F_VALUE_LEN: usize = 5;

/// Field 6 of a property: the offset of its name in the strings block.
pub const F_PROP_NAME: usize = 6;

/// The tag of a node record.
pub const TAG_NODE: u64 = 1;

/// The tag of a property record.
pub const TAG_PROP: u64 = 2;

/// Field `field` of record `rec` of the store `ib`.
#[verifier::opaque]
pub open spec fn spec_field(ib: Seq<u8>, rec: int, field: int) -> u64 {
    spec_be_u64(ib, rec * REC_SIZE + field * 8)
}

/// The number of whole records that a store of `len` bytes has room for.
pub open spec fn spec_capacity(len: int) -> int {
    len / (REC_SIZE as int)
}

/// A link between records as a field holds it: zero for none, else the
/// number of the record plus one.
pub open spec fn spec_link(word: u64) -> Option<int> {
    if word == 0 {
        None
    } else {
        Some(word - 1)
    }
}

/// Reads a field of a record.
pub fn load(buf: &[u8], rec: usize, field: usize) -> (r: u64)
    requires
        field < REC_FIELDS,
        rec < spec_capacity(buf@.len() as int),
    ensures
        r == spec_field(buf@, rec as int, field as int),
{
    proof {
        reveal(spec_field);
    }
    let len: usize = buf.len();
    match read_be_u64(buf, rec * REC_SIZE + field * 8) {
        Ok(v) => v,
        Err(_) => 0,
    }
}

/// Writes a field of a record and leaves every other field of the store as
/// it is.
pub fn store(buf: &mut [u8], rec: usize, field: usize, v: u64)
    requires
        field < REC_FIELDS,
        rec < spec_capacity(old(buf)@.len() as int),
    ensures
        final(buf)@.len() == old(buf)@.len(),
        spec_field(final(buf)@, rec as int, field as int) == v,
        forall|r: int, f: int|
            0 <= r < spec_capacity(old(buf)@.len() as int) && 0 <= f < REC_FIELDS && !(r == rec
                && f == field) ==> #[trigger] spec_field(final(buf)@, r, f) == spec_field(
                old(buf)@,
                r,
                f,
            ),
{
    proof {
        reveal(spec_field);
    }
    let len: usize = buf.len();
    write_be_u64(buf, rec * REC_SIZE + field * 8, v);
}

/// Reads a link between records.
pub fn load_link(buf: &[u8], rec: usize, field: usize) -> (r: Option<usize>)
    requires
        field < REC_FIELDS,
        rec < spec_capacity(buf@.len() as int),
        spec_field(buf@, rec as int, field as int) <= usize::MAX,
    ensures
        spec_opt(r) == spec_link(spec_field(buf@, rec as int, field as int)),
{
    let word: u64 = load(buf, rec, field);
    if word == 0 {
        None
    } else {
        Some((word - 1) as usize)
    }
}

/// Writes a link between records.
pub fn store_link(buf: &mut [u8], rec: usize, field: usize, to: Option<usize>)
    requires
        field < REC_FIELDS,
        rec < spec_capacity(old(buf)@.len() as int),
        to matches Some(t) ==> t < spec_capacity(old(buf)@.len() as int),
    ensures
        final(buf)@.len() == old(buf)@.len(),
        spec_link(spec_field(final(buf)@, rec as int, field as int)) == spec_opt(to),
        forall|r: int, f: int|
            0 <= r < spec_capacity(old(buf)@.len() as int) && 0 <= f < REC_FIELDS && !(r == rec
                && f == field) ==> #[trigger] spec_field(final(buf)@, r, f) == spec_field(
                old(buf)@,
                r,
                f,
            ),
{
    let len: usize = buf.len();
    let word: u64 = match to {
        None => 0,
        Some(t) => (t as u64) + 1,
    };
    store(buf, rec, field, word);
}

/// A record number that may be absent, as a mathematical integer.
pub open spec fn spec_opt(p: Option<usize>) -> Option<int> {
    match p {
        Some(v) => Some(v as int),
        None => None,
    }
}

} // verus!
