//! Container index behavior: a hand-built archive with two type tags of
//! two resources each must index and resolve every pair back to its
//! original byte range.

use moiety::error::MhkError;
use moiety::filesystem::MemSource;
use moiety::mhk::archive::MhkArchive;

fn tag(s: &str) -> u32 {
    let b = s.as_bytes();
    u32::from_be_bytes([b[0], b[1], b[2], b[3]])
}

/// Builds a container with two type tags, each holding two resources.
/// The four resources occupy four-byte ranges at the end of the file.
fn build_container() -> Vec<u8> {
    let rdo: u32 = 28;
    let mut v = Vec::new();
    // first header
    v.extend_from_slice(b"MHWK");
    v.extend_from_slice(&128u32.to_be_bytes());
    // second header
    v.extend_from_slice(b"RSRC");
    v.extend_from_slice(&1u16.to_be_bytes()); // version
    v.extend_from_slice(&0u16.to_be_bytes()); // compaction
    v.extend_from_slice(&128u32.to_be_bytes()); // file size
    v.extend_from_slice(&rdo.to_be_bytes()); // resource dir offset
    v.extend_from_slice(&40u16.to_be_bytes()); // file table offset (rel.)
    v.extend_from_slice(&44u16.to_be_bytes()); // file table size
    assert_eq!(v.len(), 28);
    // resource directory: unused name list offset, then the type table
    v.extend_from_slice(&0u16.to_be_bytes());
    v.extend_from_slice(&2u16.to_be_bytes()); // two types
    // type entries: tag, resource table offset (rel.), name table offset
    v.extend_from_slice(&tag("tBMP").to_be_bytes());
    v.extend_from_slice(&20u16.to_be_bytes());
    v.extend_from_slice(&0u16.to_be_bytes());
    v.extend_from_slice(&tag("CARD").to_be_bytes());
    v.extend_from_slice(&30u16.to_be_bytes());
    v.extend_from_slice(&0u16.to_be_bytes());
    assert_eq!(v.len(), 48);
    // resource table of tBMP at rdo + 20
    v.extend_from_slice(&2u16.to_be_bytes());
    v.extend_from_slice(&1u16.to_be_bytes()); // id 1
    v.extend_from_slice(&1u16.to_be_bytes()); // file index 1 (one-based)
    v.extend_from_slice(&2u16.to_be_bytes()); // id 2
    v.extend_from_slice(&2u16.to_be_bytes()); // file index 2
    // resource table of CARD at rdo + 30
    v.extend_from_slice(&2u16.to_be_bytes());
    v.extend_from_slice(&7u16.to_be_bytes()); // id 7
    v.extend_from_slice(&3u16.to_be_bytes()); // file index 3
    v.extend_from_slice(&9u16.to_be_bytes()); // id 9
    v.extend_from_slice(&4u16.to_be_bytes()); // file index 4
    assert_eq!(v.len(), 68);
    // file table at rdo + 40: four entries of four bytes each at 112..128
    v.extend_from_slice(&4u32.to_be_bytes());
    for i in 0..4u32 {
        v.extend_from_slice(&(112 + 4 * i).to_be_bytes()); // offset
        v.extend_from_slice(&4u16.to_be_bytes()); // size low
        v.push(0); // size high
        v.push(0); // flags
        v.extend_from_slice(&0u16.to_be_bytes()); // reserved
    }
    assert_eq!(v.len(), 112);
    // resource payloads
    v.extend_from_slice(&[0xA0, 0xA1, 0xA2, 0xA3]);
    v.extend_from_slice(&[0xB0, 0xB1, 0xB2, 0xB3]);
    v.extend_from_slice(&[0xC0, 0xC1, 0xC2, 0xC3]);
    v.extend_from_slice(&[0xD0, 0xD1, 0xD2, 0xD3]);
    assert_eq!(v.len(), 128);
    v
}

#[test]
fn roundtrip_all_entries_resolve() {
    let bytes = build_container();
    let mut arch = MhkArchive::new(MemSource::new(bytes)).unwrap();
    // two types of two ids each: all four pairs resolve to their ranges
    assert_eq!(arch.read_resource(tag("tBMP"), 1).unwrap(), vec![0xA0, 0xA1, 0xA2, 0xA3]);
    assert_eq!(arch.read_resource(tag("tBMP"), 2).unwrap(), vec![0xB0, 0xB1, 0xB2, 0xB3]);
    assert_eq!(arch.read_resource(tag("CARD"), 7).unwrap(), vec![0xC0, 0xC1, 0xC2, 0xC3]);
    assert_eq!(arch.read_resource(tag("CARD"), 9).unwrap(), vec![0xD0, 0xD1, 0xD2, 0xD3]);
}

#[test]
fn open_reports_range_and_missing_ids() {
    let bytes = build_container();
    let arch = MhkArchive::new(MemSource::new(bytes)).unwrap();
    let view = arch.open(tag("tBMP"), 2).unwrap();
    assert_eq!(view.offset, 116);
    assert_eq!(view.size, 4);
    // every resolved range lies wholly inside the container
    assert!(view.offset + view.size <= 128);
    let missing = arch.open(tag("tBMP"), 3);
    assert!(matches!(missing, Err(MhkError::ResourceNotFound(None, _, 3))));
    let missing_tag = arch.open(tag("NAME"), 1);
    assert!(matches!(missing_tag, Err(MhkError::ResourceNotFound(None, _, 1))));
}

#[test]
fn bad_first_signature_is_error() {
    let mut bytes = build_container();
    bytes[0] = b'X';
    let r = MhkArchive::new(MemSource::new(bytes));
    assert!(matches!(r, Err(MhkError::InvalidFormat(_))));
}

#[test]
fn bad_second_signature_is_error() {
    let mut bytes = build_container();
    bytes[8] = b'X';
    let r = MhkArchive::new(MemSource::new(bytes));
    assert!(matches!(r, Err(MhkError::InvalidFormat(_))));
}

#[test]
fn zero_file_index_is_error() {
    let mut bytes = build_container();
    // the tBMP table's first file index lives at rdo + 20 + 2 + 2
    bytes[52] = 0;
    bytes[53] = 0;
    let r = MhkArchive::new(MemSource::new(bytes));
    assert!(matches!(r, Err(MhkError::InvalidFormat(_))));
}

#[test]
fn out_of_range_file_index_is_error() {
    let mut bytes = build_container();
    bytes[52] = 0;
    bytes[53] = 9; // only four file entries exist
    let r = MhkArchive::new(MemSource::new(bytes));
    assert!(matches!(r, Err(MhkError::InvalidFormat(_))));
}

#[test]
fn range_outside_container_is_error() {
    let mut bytes = build_container();
    // first file entry's size low field: stretch past the container end
    bytes[76] = 0xFF;
    bytes[77] = 0xFF;
    let r = MhkArchive::new(MemSource::new(bytes));
    assert!(matches!(r, Err(MhkError::InvalidFormat(_))));
}

#[test]
fn truncated_container_is_error() {
    let bytes = build_container();
    let r = MhkArchive::new(MemSource::new(bytes[..10].to_vec()));
    assert!(r.is_err());
}
