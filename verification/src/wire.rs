//! Constants of the binary format, as the Devicetree document v0.3 fixes them.
use vstd::prelude::*;

verus! {

/// The first word of every flattened device tree.
pub const FDT_MAGIC: u32 = 0xd00dfeed;

/// The longest node name, without its terminating zero byte.
pub const MAX_NODE_NAME_LEN: usize = 31;

/// Size in bytes of the header: ten big-endian words.
pub const FDT_HEADER_SIZE: usize = 40;

/// Byte offset of the header field `magic`.
pub const HDR_MAGIC: usize = 0;

/// Byte offset of the header field `totalsize`.
pub const HDR_TOTALSIZE: usize = 4;

/// Byte offset of the header field `off_dt_struct`.
pub const HDR_OFF_DT_STRUCT: usize = 8;

/// Byte offset of the header field `off_dt_strings`.
pub const HDR_OFF_DT_STRINGS: usize = 12;

/// Byte offset of the header field `off_mem_rsvmap`.
pub const HDR_OFF_MEM_RSVMAP: usize = 16;

/// Byte offset of the header field `version`.
pub const HDR_VERSION: usize = 20;

/// Byte offset of the header field `last_comp_version`.
pub const HDR_LAST_COMP_VERSION: usize = 24;

/// Byte offset of the header field `boot_cpuid_phys`.
pub const HDR_BOOT_CPUID_PHYS: usize = 28;

/// Byte offset of the header field `size_dt_strings`.
pub const HDR_SIZE_DT_STRINGS: usize = 32;

/// Byte offset of the header field `size_dt_struct`.
pub const HDR_SIZE_DT_STRUCT: usize = 36;

/// Size in bytes of what follows a property token: `len` and `nameoff`.
pub const FDT_PROP_HEADER_SIZE: usize = 8;

/// Size in bytes of one memory-reservation entry: address and size.
pub const FDT_RESERVE_ENTRY_SIZE: usize = 16;

/// One entry of the memory-reservation block: a range of physical memory
/// that is not to be used.
#[allow(non_camel_case_types)]
#[derive(Debug, Clone, Copy, PartialEq, Eq, Structural)]
pub struct fdt_reserve_entry {
    pub address: u64,
    pub size: u64,
}

/// A phandle is a plain 32-bit number.
pub type Phandle = u32;

/// The tokens of the structure block.
#[derive(Debug, Clone, Copy, PartialEq, Eq, Structural)]
pub enum FdtTok {
    /// Opens a node; its name follows.
    BeginNode,
    /// Closes the node opened last.
    EndNode,
    /// A property; its header and value follow.
    Prop,
    /// Filler.
    Nop,
    /// Ends the structure block.
    End,
}

/// The token that a word of the structure block stands for, if any.
pub open spec fn spec_tok_of(word: u32) -> Option<FdtTok> {
    if word == 1 {
        Some(FdtTok::BeginNode)
    } else if word == 2 {
        Some(FdtTok::EndNode)
    } else if word == 3 {
        Some(FdtTok::Prop)
    } else if word == 4 {
        Some(FdtTok::Nop)
    } else if word == 9 {
        Some(FdtTok::End)
    } else {
        None
    }
}

impl FdtTok {
    /// Decodes a word of the structure block.
    pub fn from_u32(word: u32) -> (r: Option<FdtTok>)
        ensures
            r == spec_tok_of(word),
    {
        if word == 1 {
            Some(FdtTok::BeginNode)
        } else if word == 2 {
            Some(FdtTok::EndNode)
        } else if word == 3 {
            Some(FdtTok::Prop)
        } else if word == 4 {
            Some(FdtTok::Nop)
        } else if word == 9 {
            Some(FdtTok::End)
        } else {
            None
        }
    }
}

} // verus!
