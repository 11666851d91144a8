//! The wiring around the core: stack naming, the format trait, and the
//! configuration holders.

use moiety::direct::DirectMap;
use moiety::filesystem::{LocalFilesystem, LoggingFilesystem, MemFilesystem};
use moiety::format::{Format, Record};
use moiety::map::{ResourceMap, ResourceMapList};
use moiety::mhk::format::MhkFormat;
use moiety::mhk::map::MhkMap;
use moiety::resource_type::ResourceType;
use moiety::resources::Resources;
use moiety::riven::blst::TBlst;
use moiety::riven::{stack_files, Stack};
use moiety::stack::Stack as StackTrait;

#[test]
fn stack_ordinals_and_names() {
    let all = <Stack as StackTrait>::all();
    assert_eq!(all.len(), 10);
    for (i, s) in all.iter().enumerate() {
        assert_eq!(s.ordinal(), i);
    }
    assert_eq!(StackTrait::name(&Stack::A), "aspit");
    assert_eq!(StackTrait::name(&Stack::Exe), "exe");
}

#[test]
fn stack_files_cover_every_stack() {
    let files = stack_files();
    assert_eq!(files.len(), 10);
    assert_eq!(files[Stack::B.ordinal()].len(), 3);
    assert_eq!(files[Stack::Extras.ordinal()][0], vec!["Extras.MHK".to_owned()]);
}

#[test]
fn resource_type_names() {
    assert_eq!(TBlst.name(), "BLST");
    assert_eq!(moiety::riven::tbmp::TBmp.name(), "tBMP");
}

#[test]
fn format_trait_parses_records() {
    let bytes: Vec<u8> = vec![0, 1, 0, 2, 0, 0, 0, 9];
    let Record(recs) = MhkFormat.parse(&TBlst, &bytes).unwrap();
    assert_eq!(recs.len(), 1);
    assert_eq!(recs[0].hotspot_id, 9);
    assert_eq!(MhkFormat.extension(&TBlst), None);
}

#[test]
fn resource_map_trait_resolves() {
    // an empty stack configuration: resolution through the trait misses
    let mut map = MhkMap::new(MemFilesystem::new(), vec![vec![]]);
    let r = ResourceMap::read_raw(&mut map, &0usize, 0x42_42_42_42, 1);
    assert!(r.is_err());
    let ids = ResourceMapList::list(&mut map, &0usize, 0x42_42_42_42).unwrap();
    assert!(ids.is_empty());
}

#[test]
fn resources_composition_reads_and_parses() {
    // a container holding one BLST resource, read and parsed in one step
    // through the resolver and format layers
    let mut blst = Vec::new();
    blst.extend_from_slice(&1u16.to_be_bytes());
    blst.extend_from_slice(&1u16.to_be_bytes());
    blst.extend_from_slice(&0u16.to_be_bytes());
    blst.extend_from_slice(&9u16.to_be_bytes());
    let tag = u32::from_be_bytes(*b"BLST");
    let container = build_one_resource_container(tag, 7, &blst);
    let mut fs = MemFilesystem::new();
    fs.add(vec!["data.MHK".to_owned()], container);
    let map = MhkMap::new(fs, vec![vec![vec!["data.MHK".to_owned()]]]);
    let mut res = Resources::new(map);
    let Record(recs) = res.open(&MhkFormat, &0usize, &TBlst, 7).unwrap();
    assert_eq!(recs.len(), 1);
    assert_eq!(recs[0].hotspot_id, 9);
    // a miss surfaces as the typed not-found error
    let missing: Result<Record<Vec<moiety::riven::blst::ButtonMeta>>, _> =
        res.open(&MhkFormat, &0usize, &TBlst, 8);
    assert!(matches!(
        missing,
        Err(moiety::error::MhkError::ResourceNotFound(Some(0), _, 8))
    ));
}

/// Builds a container holding a single resource under one type tag.
fn build_one_resource_container(tag: u32, id: u16, payload: &[u8]) -> Vec<u8> {
    let rdo: usize = 28;
    let payload_base: usize = rdo + 4 + 8 + 2 + 4 + 4 + 10;
    let total = payload_base + payload.len();
    let mut v = Vec::new();
    v.extend_from_slice(b"MHWK");
    v.extend_from_slice(&(total as u32).to_be_bytes());
    v.extend_from_slice(b"RSRC");
    v.extend_from_slice(&1u16.to_be_bytes());
    v.extend_from_slice(&0u16.to_be_bytes());
    v.extend_from_slice(&(total as u32).to_be_bytes());
    v.extend_from_slice(&(rdo as u32).to_be_bytes());
    v.extend_from_slice(&18u16.to_be_bytes()); // file table offset (rel.)
    v.extend_from_slice(&14u16.to_be_bytes()); // file table size
    v.extend_from_slice(&0u16.to_be_bytes()); // name list offset
    v.extend_from_slice(&1u16.to_be_bytes()); // one type
    v.extend_from_slice(&tag.to_be_bytes());
    v.extend_from_slice(&12u16.to_be_bytes()); // resource table offset (rel.)
    v.extend_from_slice(&0u16.to_be_bytes());
    v.extend_from_slice(&1u16.to_be_bytes()); // one resource
    v.extend_from_slice(&id.to_be_bytes());
    v.extend_from_slice(&1u16.to_be_bytes()); // file index 1
    v.extend_from_slice(&1u32.to_be_bytes()); // one file entry
    v.extend_from_slice(&(payload_base as u32).to_be_bytes());
    v.extend_from_slice(&(payload.len() as u16).to_be_bytes());
    v.push(0);
    v.push(0);
    v.extend_from_slice(&0u16.to_be_bytes());
    v.extend_from_slice(payload);
    assert_eq!(v.len(), total);
    v
}

#[test]
fn configuration_holders_keep_their_fields() {
    let local = LocalFilesystem::new("data".to_owned());
    assert_eq!(local.root, "data");
    let logged = LoggingFilesystem::new("disc".to_owned(), MemFilesystem::new());
    assert_eq!(logged.name, "disc");
    let direct = DirectMap::new(MemFilesystem::new(), MhkFormat);
    assert_eq!(direct.format, MhkFormat);
    let res = Resources::new(direct);
    assert_eq!(res.map.format, MhkFormat);
}
