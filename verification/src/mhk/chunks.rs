//! The fixed-layout records of the container format, each with a verified
//! reader from its big-endian wire form. Type tags and signatures are
//! carried as the big-endian packing of their four ASCII bytes.

use vstd::prelude::*;

use crate::bytes::{be16, be32, read_be16, read_be32};

verus! {

/// The packed form of the leading "MHWK" signature.
pub const MHWK_MAGIC: u32 = 0x4D48574B;

/// The packed form of the "RSRC" signature of the second header.
pub const RSRC_MAGIC: u32 = 0x52535243;

/// The first container header: a four-byte signature and the file size.
#[derive(Debug, Clone, Copy, PartialEq, Eq, Structural)]
pub struct MHWK {
    pub signature: u32,
    pub file_size: u32,
}

impl MHWK {
    /// Reads the eight-byte header at `off`.
    pub fn parse(s: &[u8], off: usize) -> (r: MHWK)
        requires
            off + 8 <= s.len(),
        ensures
            r.signature == be32(s@, off as int),
            r.file_size == be32(s@, off + 4),
    {
        MHWK { signature: read_be32(s, off), file_size: read_be32(s, off + 4) }
    }
}

/// The second container header, which locates the resource directory and
/// the file table.
#[derive(Debug, Clone, Copy, PartialEq, Eq, Structural)]
pub struct RSRC {
    pub signature: u32,
    pub version: u16,
    pub compaction: u16,
    pub file_size: u32,
    pub resource_dir_offset: u32,
    pub file_table_offset: u16,
    pub file_table_size: u16,
}

impl RSRC {
    /// Reads the twenty-byte header at `off`.
    pub fn parse(s: &[u8], off: usize) -> (r: RSRC)
        requires
            off + 20 <= s.len(),
        ensures
            r.signature == be32(s@, off as int),
            r.version == be16(s@, off + 4),
            r.compaction == be16(s@, off + 6),
            r.file_size == be32(s@, off + 8),
            r.resource_dir_offset == be32(s@, off + 12),
            r.file_table_offset == be16(s@, off + 16),
            r.file_table_size == be16(s@, off + 18),
    {
        RSRC {
            signature: read_be32(s, off),
            version: read_be16(s, off + 4),
            compaction: read_be16(s, off + 6),
            file_size: read_be32(s, off + 8),
            resource_dir_offset: read_be32(s, off + 12),
            file_table_offset: read_be16(s, off + 16),
            file_table_size: read_be16(s, off + 18),
        }
    }
}

/// One entry of the type table: a resource type tag and the offsets of its
/// resource and name tables within the resource directory.
#[derive(Debug, Clone, Copy, PartialEq, Eq, Structural)]
pub struct TypeTableEntry {
    pub resource_type: u32,
    pub resource_table_offset: u16,
    pub name_table_offset: u16,
}

impl TypeTableEntry {
    /// Reads the eight-byte entry at `off`.
    pub fn parse(s: &[u8], off: usize) -> (r: TypeTableEntry)
        requires
            off + 8 <= s.len(),
        ensures
            r.resource_type == be32(s@, off as int),
            r.resource_table_offset == be16(s@, off + 4),
            r.name_table_offset == be16(s@, off + 6),
    {
        TypeTableEntry {
            resource_type: read_be32(s, off),
            resource_table_offset: read_be16(s, off + 4),
            name_table_offset: read_be16(s, off + 6),
        }
    }
}

/// One entry of a name table. Resource names are not modeled further; the
/// record is read and carried only for completeness.
#[derive(Debug, Clone, Copy, PartialEq, Eq, Structural)]
pub struct NameTableEntry {
    pub name_offset: u16,
    pub file_table_index: u16,
}

impl NameTableEntry {
    /// Reads the four-byte entry at `off`.
    pub fn parse(s: &[u8], off: usize) -> (r: NameTableEntry)
        requires
            off + 4 <= s.len(),
        ensures
            r.name_offset == be16(s@, off as int),
            r.file_table_index == be16(s@, off + 2),
    {
        NameTableEntry { name_offset: read_be16(s, off), file_table_index: read_be16(s, off + 2) }
    }
}

/// One entry of a per-type resource table: a resource id and its one-based
/// index into the file table.
#[derive(Debug, Clone, Copy, PartialEq, Eq, Structural)]
pub struct ResourceTableEntry {
    pub resource_id: u16,
    pub file_table_index: u16,
}

impl ResourceTableEntry {
    /// Reads the four-byte entry at `off`.
    pub fn parse(s: &[u8], off: usize) -> (r: ResourceTableEntry)
        requires
            off + 4 <= s.len(),
        ensures
            r.resource_id == be16(s@, off as int),
            r.file_table_index == be16(s@, off + 2),
    {
        ResourceTableEntry {
            resource_id: read_be16(s, off),
            file_table_index: read_be16(s, off + 2),
        }
    }
}

/// One entry of the file table: a byte offset and a size split into
/// separate low and high fields on the wire.
#[derive(Debug, Clone, Copy, PartialEq, Eq, Structural)]
pub struct FileTableEntry {
    pub offset: u32,
    pub size_low: u16,
    pub size_high: u8,
    pub flags: u8,
    pub unknown0: u16,
}

impl FileTableEntry {
    /// Reads the ten-byte entry at `off`.
    pub fn parse(s: &[u8], off: usize) -> (r: FileTableEntry)
        requires
            off + 10 <= s.len(),
        ensures
            r.offset == be32(s@, off as int),
            r.size_low == be16(s@, off + 4),
            r.size_high == s@[off + 6],
            r.flags == s@[off + 7],
            r.unknown0 == be16(s@, off + 8),
    {
        FileTableEntry {
            offset: read_be32(s, off),
            size_low: read_be16(s, off + 4),
            size_high: s[off + 6],
            flags: s[off + 7],
            unknown0: read_be16(s, off + 8),
        }
    }

    /// The full size of the entry, reconstructed from its split fields:
    /// the high byte supplies bits 16 to 23.
    pub fn size(&self) -> (r: u64)
        ensures
            r == self.size_high as int * 0x10000 + self.size_low as int,
    {
        self.size_high as u64 * 0x10000 + self.size_low as u64
    }
}

} // verus!
