//! Byte-source behavior: narrowing clamps reads to the window, buffering
//! never changes the bytes a read returns, and view seeks clamp.

use moiety::filesystem::{Buffered, Filesystem, MemFilesystem, MemSource, Narrow, ReadAt};
use moiety::mhk::narrow::{Narrow as View, SeekFrom, SharedStream};

fn source() -> MemSource {
    MemSource::new((0u8..32).collect())
}

#[test]
fn narrow_clamps_reads_to_window() {
    let mut n = Narrow::new(source(), 8, 4); // window [8, 12)
    assert_eq!(n.read_at(0, 16).unwrap(), vec![8, 9, 10, 11]);
    assert_eq!(n.read_at(2, 16).unwrap(), vec![10, 11]);
    assert_eq!(n.read_at(3, 1).unwrap(), vec![11]);
}

#[test]
fn narrow_read_at_end_returns_zero_bytes() {
    let mut n = Narrow::new(source(), 8, 4);
    // reading at exactly the window size, and past it, yields no bytes
    // and no error
    assert_eq!(n.read_at(4, 8).unwrap(), Vec::<u8>::new());
    assert_eq!(n.read_at(100, 8).unwrap(), Vec::<u8>::new());
}

#[test]
fn narrow_window_clipped_by_source_end() {
    let mut n = Narrow::new(source(), 30, 10); // only two bytes exist
    assert_eq!(n.len(), 2);
    assert_eq!(n.read_at(0, 10).unwrap(), vec![30, 31]);
}

#[test]
fn buffered_reads_match_direct_reads() {
    for bufsize in [1usize, 3, 8, 64] {
        let mut direct = source();
        let mut buffered = Buffered::new(source(), bufsize);
        for (pos, len) in [(0u64, 5usize), (3, 4), (10, 20), (31, 4), (32, 1), (7, 1)] {
            let mut want = Vec::new();
            let mut got = Vec::new();
            // loop both, since partial reads are allowed
            let mut p = pos;
            while want.len() < len {
                let chunk = direct.read_at(p, len - want.len()).unwrap();
                if chunk.is_empty() {
                    break;
                }
                p += chunk.len() as u64;
                want.extend_from_slice(&chunk);
            }
            let mut p = pos;
            while got.len() < len {
                let chunk = buffered.read_at(p, len - got.len()).unwrap();
                if chunk.is_empty() {
                    break;
                }
                p += chunk.len() as u64;
                got.extend_from_slice(&chunk);
            }
            assert_eq!(got, want, "bufsize {bufsize} pos {pos} len {len}");
        }
    }
}

#[test]
fn view_reads_through_shared_cursor() {
    let mut shared = SharedStream::new(MemSource::new((0u8..16).collect()));
    let mut a = View::new(2, 4); // window [2, 6)
    let mut b = View::new(10, 3); // window [10, 13)
    // interleaved reads: each view keeps its own position
    assert_eq!(a.read(&mut shared, 2).unwrap(), vec![2, 3]);
    assert_eq!(b.read(&mut shared, 2).unwrap(), vec![10, 11]);
    assert_eq!(a.read(&mut shared, 8).unwrap(), vec![4, 5]);
    assert_eq!(b.read(&mut shared, 8).unwrap(), vec![12]);
    assert_eq!(a.read(&mut shared, 8).unwrap(), Vec::<u8>::new());
}

#[test]
fn view_seek_clamps_into_window() {
    let mut shared = SharedStream::new(MemSource::new((0u8..16).collect()));
    let mut v = View::new(2, 4);
    assert_eq!(v.seek(SeekFrom::Start(100)), 4); // clamped to size
    assert_eq!(v.seek(SeekFrom::End(-1)), 3);
    assert_eq!(v.seek(SeekFrom::End(-100)), 0);
    assert_eq!(v.seek(SeekFrom::Current(2)), 2);
    assert_eq!(v.seek(SeekFrom::Current(-100)), 0);
    assert_eq!(v.seek(SeekFrom::Current(3)), 3);
    assert_eq!(v.read(&mut shared, 8).unwrap(), vec![5]);
}

#[test]
fn view_read_to_end_returns_rest_of_window() {
    let mut shared = SharedStream::new(MemSource::new((0u8..16).collect()));
    let mut v = View::new(4, 6);
    assert_eq!(v.read(&mut shared, 2).unwrap(), vec![4, 5]);
    assert_eq!(v.read_to_end(&mut shared).unwrap(), vec![6, 7, 8, 9]);
    assert_eq!(v.read_to_end(&mut shared).unwrap(), Vec::<u8>::new());
}

#[test]
fn mem_filesystem_first_entry_wins() {
    let mut fs = MemFilesystem::new();
    fs.add(vec!["x".to_owned()], vec![1, 2]);
    fs.add(vec!["x".to_owned()], vec![3, 4]); // added later, in front
    let h = fs.open(&vec!["x".to_owned()]).unwrap();
    assert_eq!(h.bytes, vec![3, 4]);
    assert!(fs.open(&vec!["y".to_owned()]).is_err());
}
