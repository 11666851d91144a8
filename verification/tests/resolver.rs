//! Stack resolution: containers are consulted in configured order, the
//! first hit wins, and listing unions ids across all containers.

use moiety::error::MhkError;
use moiety::filesystem::MemFilesystem;
use moiety::mhk::map::MhkMap;

fn tag(s: &str) -> u32 {
    let b = s.as_bytes();
    u32::from_be_bytes([b[0], b[1], b[2], b[3]])
}

/// Builds a minimal container holding the given resources under one type
/// tag; each resource's payload is supplied alongside its id.
fn build_container(type_tag: u32, entries: &[(u16, &[u8])]) -> Vec<u8> {
    let n = entries.len();
    let rdo: usize = 28;
    // layout: dir header 4, type entry 8, resource table 2 + 4n, file
    // table 4 + 10n, then payloads
    let rtable_rel: usize = 12;
    let ftable_rel: usize = rtable_rel + 2 + 4 * n;
    let payload_base: usize = rdo + ftable_rel + 4 + 10 * n;
    let total: usize = payload_base + entries.iter().map(|e| e.1.len()).sum::<usize>();
    let mut v = Vec::new();
    v.extend_from_slice(b"MHWK");
    v.extend_from_slice(&(total as u32).to_be_bytes());
    v.extend_from_slice(b"RSRC");
    v.extend_from_slice(&1u16.to_be_bytes());
    v.extend_from_slice(&0u16.to_be_bytes());
    v.extend_from_slice(&(total as u32).to_be_bytes());
    v.extend_from_slice(&(rdo as u32).to_be_bytes());
    v.extend_from_slice(&(ftable_rel as u16).to_be_bytes());
    v.extend_from_slice(&((4 + 10 * n) as u16).to_be_bytes());
    v.extend_from_slice(&0u16.to_be_bytes()); // name list offset
    v.extend_from_slice(&1u16.to_be_bytes()); // one type
    v.extend_from_slice(&type_tag.to_be_bytes());
    v.extend_from_slice(&(rtable_rel as u16).to_be_bytes());
    v.extend_from_slice(&0u16.to_be_bytes());
    v.extend_from_slice(&(n as u16).to_be_bytes());
    for (i, (id, _)) in entries.iter().enumerate() {
        v.extend_from_slice(&id.to_be_bytes());
        v.extend_from_slice(&((i + 1) as u16).to_be_bytes());
    }
    v.extend_from_slice(&(n as u32).to_be_bytes());
    let mut off = payload_base;
    for (_, payload) in entries {
        v.extend_from_slice(&(off as u32).to_be_bytes());
        v.extend_from_slice(&(payload.len() as u16).to_be_bytes());
        v.push(0);
        v.push(0);
        v.extend_from_slice(&0u16.to_be_bytes());
        off += payload.len();
    }
    for (_, payload) in entries {
        v.extend_from_slice(payload);
    }
    assert_eq!(v.len(), total);
    v
}

fn path(name: &str) -> Vec<String> {
    vec![name.to_owned()]
}

fn two_container_map() -> MhkMap<MemFilesystem> {
    let t = tag("tBMP");
    let a = build_container(t, &[(5, b"aaaa"), (6, b"both")]);
    let b = build_container(t, &[(5, b"bbbb"), (7, b"only")]);
    let mut fs = MemFilesystem::new();
    fs.add(path("a.MHK"), a);
    fs.add(path("b.MHK"), b);
    MhkMap::new(fs, vec![vec![path("a.MHK"), path("b.MHK")]])
}

#[test]
fn failover_finds_second_container() {
    // container A lacks id 7; container B has it: resolution succeeds
    // with B's bytes
    let mut map = two_container_map();
    let got = map.read_resource(0, tag("tBMP"), 7).unwrap();
    assert_eq!(got, b"only".to_vec());
}

#[test]
fn first_hit_wins_over_later_containers() {
    // both containers carry id 5; the first configured container's bytes
    // are returned and later containers play no part
    let mut map = two_container_map();
    let got = map.read_resource(0, tag("tBMP"), 5).unwrap();
    assert_eq!(got, b"aaaa".to_vec());
}

#[test]
fn miss_everywhere_is_resource_not_found() {
    let mut map = two_container_map();
    let r = map.read_resource(0, tag("tBMP"), 42);
    assert!(matches!(r, Err(MhkError::ResourceNotFound(Some(0), _, 42))));
}

#[test]
fn list_unions_sorted_and_deduplicated() {
    let mut map = two_container_map();
    let ids = map.list(0, tag("tBMP")).unwrap();
    assert_eq!(ids, vec![5, 6, 7]);
}

#[test]
fn list_of_absent_tag_is_empty() {
    let mut map = two_container_map();
    let ids = map.list(0, tag("NAME")).unwrap();
    assert_eq!(ids, Vec::<u16>::new());
}

#[test]
fn missing_container_file_aborts_stack() {
    let mut map = MhkMap::new(MemFilesystem::new(), vec![vec![path("gone.MHK")]]);
    let r = map.read_resource(0, tag("tBMP"), 1);
    assert!(r.is_err());
    assert!(!matches!(r, Err(MhkError::ResourceNotFound(_, _, _))));
}

#[test]
fn repeated_reference_keeps_stack_open() {
    let mut map = two_container_map();
    assert!(map.ensure_stack(0).is_ok());
    assert!(map.ensure_stack(0).is_ok());
    let got = map.read_resource(0, tag("tBMP"), 6).unwrap();
    assert_eq!(got, b"both".to_vec());
}
