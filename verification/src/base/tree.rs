//! The header reader and the handle to a validated tree.
use crate::base::iters::{
    DevTreeCompatibleNodeIter, DevTreeIter, DevTreeNodeIter, DevTreePropIter,
    DevTreeReserveEntryIter,
};
use crate::base::node::DevTreeNode;
use crate::bytes::{read_be_u32, spec_be_u32};
use crate::common::iter::{spec_compatible_search, spec_until_node, IterableDevTree};
use vstd::string::StringSliceAdditionalSpecFns;
use crate::error::DevTreeError;
use crate::wire::{
    FDT_HEADER_SIZE, FDT_MAGIC, HDR_MAGIC, HDR_OFF_DT_STRINGS, HDR_OFF_DT_STRUCT,
    HDR_OFF_MEM_RSVMAP, HDR_TOTALSIZE,
};
use vstd::prelude::*;

verus! {

/// Whether `offset` is a multiple of four.
pub open spec fn spec_is_aligned(offset: int) -> bool {
    offset % 4 == 0
}

/// Whether `offset` is a multiple of four, the alignment of every token.
pub fn is_aligned(offset: usize) -> (r: bool)
    ensures
        r == spec_is_aligned(offset as int),
{
    offset % 4 == 0
}

/// `offset` itself where it is a multiple of four, a parse error otherwise.
pub fn verify_offset_aligned(offset: usize) -> (r: Result<usize, DevTreeError>)
    ensures
        spec_is_aligned(offset as int) ==> (r matches Ok(v) && v == offset),
        !spec_is_aligned(offset as int) ==> (r matches Err(e) && e is ParseError),
{
    if is_aligned(offset) {
        Ok(offset)
    } else {
        Err(DevTreeError::ParseError)
    }
}

/// Why a buffer is not accepted as a tree, or `None` where it is accepted:
/// it holds a whole header, starts with the magic number, is exactly as long
/// as its header says, and its reservation and structure blocks start at
/// multiples of four.
pub open spec fn spec_open_error(buf: Seq<u8>) -> Option<DevTreeError> {
    if buf.len() < FDT_HEADER_SIZE {
        Some(DevTreeError::ParseError)
    } else if spec_be_u32(buf, HDR_MAGIC as int) != FDT_MAGIC {
        Some(DevTreeError::InvalidMagicNumber)
    } else if spec_be_u32(buf, HDR_TOTALSIZE as int) != buf.len() {
        Some(DevTreeError::ParseError)
    } else if !spec_is_aligned(spec_be_u32(buf, HDR_OFF_MEM_RSVMAP as int) as int)
        || !spec_is_aligned(spec_be_u32(buf, HDR_OFF_DT_STRUCT as int) as int) {
        Some(DevTreeError::ParseError)
    } else {
        None
    }
}

/// A flattened device tree whose header has been checked.
#[derive(Copy, Clone, Debug)]
pub struct DevTree<'dt> {
    buf: &'dt [u8],
}

impl<'dt> View for DevTree<'dt> {
    type V = Seq<u8>;

    /// The bytes of the tree.
    closed spec fn view(&self) -> Seq<u8> {
        self.buf@
    }
}

impl<'dt> DevTree<'dt> {
    /// The least number of bytes that `read_totalsize` needs.
    pub const MIN_HEADER_SIZE: usize = 40;

    /// The header is valid: what `new` checks.
    pub open spec fn wf(&self) -> bool {
        spec_open_error(self@) is None
    }

    /// The header field `totalsize`.
    pub open spec fn spec_totalsize(&self) -> int {
        spec_be_u32(self@, HDR_TOTALSIZE as int) as int
    }

    /// The header field `off_mem_rsvmap`.
    pub open spec fn spec_off_mem_rsvmap(&self) -> int {
        spec_be_u32(self@, HDR_OFF_MEM_RSVMAP as int) as int
    }

    /// The header field `off_dt_struct`.
    pub open spec fn spec_off_dt_struct(&self) -> int {
        spec_be_u32(self@, HDR_OFF_DT_STRUCT as int) as int
    }

    /// The header field `off_dt_strings`.
    pub open spec fn spec_off_dt_strings(&self) -> int {
        spec_be_u32(self@, HDR_OFF_DT_STRINGS as int) as int
    }

    /// Checks that `buf` starts with the magic number.
    pub fn verify_magic(buf: &[u8]) -> (r: Result<(), DevTreeError>)
        ensures
            match r {
                Ok(_) => buf@.len() >= 4 && spec_be_u32(buf@, HDR_MAGIC as int) == FDT_MAGIC,
                Err(e) => if buf@.len() < 4 {
                    e is ParseError
                } else {
                    e is InvalidMagicNumber && spec_be_u32(buf@, HDR_MAGIC as int) != FDT_MAGIC
                },
            },
    {
        match read_be_u32(buf, HDR_MAGIC) {
            Err(e) => Err(DevTreeError::from_read_error(e)),
            Ok(magic) => {
                if magic != FDT_MAGIC {
                    Err(DevTreeError::InvalidMagicNumber)
                } else {
                    Ok(())
                }
            },
        }
    }

    /// The size that the header claims for the whole tree, so that a caller
    /// can cut the buffer to it before `new`.
    ///
    /// A buffer that holds no whole header is a parse error, whatever it
    /// starts with.
    pub fn read_totalsize(buf: &[u8]) -> (r: Result<usize, DevTreeError>)
        ensures
            match r {
                Ok(size) => buf@.len() >= FDT_HEADER_SIZE && spec_be_u32(buf@, HDR_MAGIC as int)
                    == FDT_MAGIC && size == spec_be_u32(buf@, HDR_TOTALSIZE as int),
                Err(e) => if buf@.len() < FDT_HEADER_SIZE {
                    e is ParseError
                } else {
                    e is InvalidMagicNumber && spec_be_u32(buf@, HDR_MAGIC as int) != FDT_MAGIC
                },
            },
    {
        if buf.len() < FDT_HEADER_SIZE {
            return Err(DevTreeError::ParseError);
        }
        match Self::verify_magic(buf) {
            Err(e) => Err(e),
            Ok(_) => match read_be_u32(buf, HDR_TOTALSIZE) {
                Err(e) => Err(DevTreeError::from_read_error(e)),
                Ok(size) => Ok(size as usize),
            },
        }
    }

    /// Accepts `buf` as a tree, or says why not.
    pub fn new(buf: &'dt [u8]) -> (r: Result<Self, DevTreeError>)
        ensures
            match r {
                Ok(tree) => spec_open_error(buf@) is None && tree@ == buf@ && tree.wf()
                    && tree.spec_totalsize() <= buf@.len() && tree.spec_off_mem_rsvmap() % 4 == 0
                    && tree.spec_off_dt_struct() % 4 == 0,
                Err(e) => spec_open_error(buf@) == Some(e),
            },
    {
        let size: usize = match Self::read_totalsize(buf) {
            Err(e) => {
                return Err(e);
            },
            Ok(s) => s,
        };
        if size != buf.len() {
            return Err(DevTreeError::ParseError);
        }
        let ret = Self { buf };
        // Both blocks must start where a token or an entry can be read.
        match verify_offset_aligned(ret.header_word(HDR_OFF_MEM_RSVMAP)) {
            Err(e) => {
                return Err(e);
            },
            Ok(_) => {},
        }
        match verify_offset_aligned(ret.header_word(HDR_OFF_DT_STRUCT)) {
            Err(e) => {
                return Err(e);
            },
            Ok(_) => {},
        }
        Ok(ret)
    }

    /// The bytes of the tree.
    pub fn buf(&self) -> (r: &'dt [u8])
        ensures
            r@ == self@,
    {
        self.buf
    }

    /// A word of the header of a buffer that holds a whole header.
    fn header_word(&self, at: usize) -> (r: usize)
        requires
            self@.len() >= FDT_HEADER_SIZE,
            at + 4 <= FDT_HEADER_SIZE,
        ensures
            r == spec_be_u32(self@, at as int),
    {
        match read_be_u32(self.buf, at) {
            Ok(v) => v as usize,
            Err(_) => 0,
        }
    }

    /// The size of the tree in bytes, which is the length of its buffer.
    pub fn totalsize(&self) -> (r: usize)
        requires
            self.wf(),
        ensures
            r == self.spec_totalsize(),
            r == self@.len(),
    {
        self.header_word(HDR_TOTALSIZE)
    }

    /// Where the memory-reservation block starts: a multiple of four.
    pub fn off_mem_rsvmap(&self) -> (r: usize)
        requires
            self.wf(),
        ensures
            r == self.spec_off_mem_rsvmap(),
            r % 4 == 0,
    {
        self.header_word(HDR_OFF_MEM_RSVMAP)
    }

    /// Where the structure block starts: a multiple of four.
    pub fn off_dt_struct(&self) -> (r: usize)
        requires
            self.wf(),
        ensures
            r == self.spec_off_dt_struct(),
            r % 4 == 0,
    {
        self.header_word(HDR_OFF_DT_STRUCT)
    }

    /// Where the strings block starts.
    pub fn off_dt_strings(&self) -> (r: usize)
        requires
            self.wf(),
        ensures
            r == self.spec_off_dt_strings(),
    {
        self.header_word(HDR_OFF_DT_STRINGS)
    }

    /// The cursor at the start of the structure block, with no node open.
    pub open spec fn spec_start<'a>(&'a self) -> DevTreeIter<'a, 'dt> {
        DevTreeIter {
            current_prop_parent_off: None,
            offset: self.spec_off_dt_struct() as usize,
            depth: 0,
            fdt: self,
        }
    }

    /// A cursor over the entries of the memory-reservation block.
    pub fn reserved_entries<'a>(&'a self) -> (r: DevTreeReserveEntryIter<'a, 'dt>)
        requires
            self.wf(),
        ensures
            r.fdt == self,
            r.offset == self.spec_off_mem_rsvmap(),
    {
        DevTreeReserveEntryIter::new(self)
    }

    /// A cursor over all nodes and properties of the tree, in its order.
    pub fn items<'a>(&'a self) -> (r: DevTreeIter<'a, 'dt>)
        requires
            self.wf(),
        ensures
            r.wf(),
            r == self.spec_start(),
    {
        DevTreeIter::new(self)
    }

    /// A cursor over the nodes of the tree.
    pub fn nodes<'a>(&'a self) -> (r: DevTreeNodeIter<'a, 'dt>)
        requires
            self.wf(),
        ensures
            r.0.wf(),
            r.0 == self.spec_start(),
    {
        DevTreeNodeIter(DevTreeIter::new(self))
    }

    /// A cursor over the properties of the tree, whatever node they belong
    /// to.
    pub fn props<'a>(&'a self) -> (r: DevTreePropIter<'a, 'dt>)
        requires
            self.wf(),
        ensures
            r.0.wf(),
            r.0 == self.spec_start(),
    {
        DevTreePropIter(DevTreeIter::new(self))
    }

    /// A cursor over the nodes that have a property `compatible` whose first
    /// string is `string`.
    pub fn compatible_nodes<'s, 'a>(&'a self, string: &'s str) -> (r: DevTreeCompatibleNodeIter<
        's,
        'a,
        'dt,
    >)
        requires
            self.wf(),
        ensures
            r.iter.wf(),
            r.iter == self.spec_start(),
            r.string == string,
    {
        DevTreeCompatibleNodeIter { iter: DevTreeIter::new(self), string }
    }

    /// The root: the first node of the tree, if it has one.
    pub fn root<'a>(&'a self) -> (r: Option<DevTreeNode<'a, 'dt>>)
        requires
            self.wf(),
        ensures
            r is None <==> spec_until_node(self.spec_start()).spec_done(),
            r matches Some(node) ==> node.wf() && spec_until_node(self.spec_start()).spec_yields(
                crate::base::item::DevTreeItem::Node(node),
            ),
    {
        let mut iter = DevTreeIter::new(self);
        iter.next_node()
    }

    /// The first node of the tree that has a property `compatible` whose
    /// first string is `string`.
    pub fn find_first_compatible_node<'a>(&'a self, string: &str) -> (r: Option<
        DevTreeNode<'a, 'dt>,
    >)
        requires
            self.wf(),
        ensures
            r is None <==> spec_compatible_search(
                self.spec_start(),
                string.spec_bytes(),
            ).spec_done(),
            r matches Some(node) ==> spec_compatible_search(
                self.spec_start(),
                string.spec_bytes(),
            ).spec_owner(node),
    {
        let mut iter = DevTreeIter::new(self);
        iter.next_compatible_node(string)
    }
}

impl<'a, 'dt: 'a> IterableDevTree<'a, 'dt> for DevTree<'dt> {
    type TreeIter = DevTreeIter<'a, 'dt>;

    open spec fn spec_walkable(&self) -> bool {
        self.wf()
    }

    open spec fn spec_tree_bytes(&self) -> Seq<u8> {
        self@
    }

    open spec fn spec_first(&'a self) -> DevTreeIter<'a, 'dt> {
        self.spec_start()
    }

    fn items(&'a self) -> (r: DevTreeIter<'a, 'dt>) {
        DevTreeIter::new(self)
    }

    fn buf(&'a self) -> (r: &'dt [u8]) {
        self.buf
    }
}

} // verus!
