//! Bitmap codec behavior: raw row extraction, palette application, the
//! back-reference opcodes, and the codec's error cases.

use moiety::bitmap::Rgb;
use moiety::error::MhkError;
use moiety::riven::tbmp::{parse_tbmp, read_riven, read_uncompressed};

fn rgb(r: u8, g: u8, b: u8) -> Rgb {
    Rgb { r, g, b }
}

#[test]
fn raw_rows_discard_padding() {
    // width 4, height 2, bytes_per_row 6: each 6-byte row contributes its
    // first 4 bytes only; the 2-byte pad per row is skipped
    let data: Vec<u8> = vec![
        10, 11, 12, 13, 98, 99, // row 0: 4 pixels + pad
        20, 21, 22, 23, 98, 99, // row 1: 4 pixels + pad
    ];
    let out = read_uncompressed(4, 2, 6, 1, &data, 0).unwrap();
    assert_eq!(out, vec![10, 11, 12, 13, 20, 21, 22, 23]);
}

#[test]
fn raw_rows_short_input_is_error() {
    let data: Vec<u8> = vec![0; 9]; // the second row's pixels reach byte 10
    let r = read_uncompressed(4, 2, 6, 1, &data, 0);
    assert!(matches!(r, Err(MhkError::InvalidFormat(_))));
}

/// Header for a 2x2, 8-bit, palette-bearing bitmap followed by a 2-color
/// palette (black then white, stored blue-green-red).
fn palette_header(compression_flags: u16) -> Vec<u8> {
    let mut v = Vec::new();
    v.extend_from_slice(&2u16.to_be_bytes()); // width
    v.extend_from_slice(&2u16.to_be_bytes()); // height
    v.extend_from_slice(&2u16.to_be_bytes()); // bytes per row
    v.extend_from_slice(&compression_flags.to_be_bytes());
    v.extend_from_slice(&10u16.to_be_bytes()); // palette table size
    v.push(24); // bits per color
    v.push(2); // color count
    v.extend_from_slice(&[0, 0, 0]); // black, BGR
    v.extend_from_slice(&[255, 255, 255]); // white, BGR
    v
}

#[test]
fn palette_lookup_two_colors() {
    // raw 8bpp scheme: index bytes 1,0,1,0 against [black, white]
    let mut data = palette_header(0x0002);
    data.extend_from_slice(&[1, 0, 1, 0]);
    let bm = parse_tbmp(&data).unwrap();
    assert_eq!(bm.width, 2);
    assert_eq!(bm.height, 2);
    assert_eq!(
        bm.data,
        vec![rgb(255, 255, 255), rgb(0, 0, 0), rgb(255, 255, 255), rgb(0, 0, 0)]
    );
    let pb = bm.palette.as_ref().unwrap();
    assert_eq!(pb.palette, vec![rgb(0, 0, 0), rgb(255, 255, 255)]);
    assert_eq!(pb.image, vec![1, 0, 1, 0]);
}

#[test]
fn palette_index_out_of_range_is_error() {
    let mut data = palette_header(0x0002);
    data.extend_from_slice(&[1, 0, 2, 0]); // index 2 with a 2-color palette
    let r = parse_tbmp(&data);
    assert!(matches!(r, Err(MhkError::InvalidFormat(_))));
}

#[test]
fn compressed_decode_is_deterministic() {
    // primary scheme 4: four preamble bytes, one literal command with two
    // duplets, explicit end of stream
    let mut data = palette_header(0x0402);
    data.extend_from_slice(&[0, 0, 0, 0]); // reserved preamble
    data.extend_from_slice(&[0x02, 1, 0, 1, 0]); // two literal duplets
    data.push(0x00); // end of stream
    let a = parse_tbmp(&data).unwrap();
    let b = parse_tbmp(&data).unwrap();
    assert_eq!(a.width, b.width);
    assert_eq!(a.height, b.height);
    assert_eq!(a.data, b.data);
    assert_eq!(
        a.palette.as_ref().unwrap().image,
        b.palette.as_ref().unwrap().image
    );
    assert_eq!(
        a.data,
        vec![rgb(255, 255, 255), rgb(0, 0, 0), rgb(255, 255, 255), rgb(0, 0, 0)]
    );
}

#[test]
fn backref_distance_beyond_start_is_error() {
    // the first opcode after the preamble repeats the last two output
    // bytes, but nothing has been decoded yet
    let data: Vec<u8> = vec![0, 0, 0, 0, 0x41];
    let r = read_riven(2, 2, 2, &data, 0);
    assert!(matches!(r, Err(MhkError::InvalidFormat(_))));
}

#[test]
fn backref_repeat_last_duplet() {
    // one literal duplet, then repeat it once via the top-level class
    let data: Vec<u8> = vec![0, 0, 0, 0, 0x01, 0xAA, 0xBB, 0x41, 0x00];
    let out = read_riven(2, 2, 2, &data, 0).unwrap();
    assert_eq!(out, vec![0xAA, 0xBB, 0xAA, 0xBB]);
}

#[test]
fn backref_overlapping_copy_propagates() {
    // repeating the last four bytes with only two decoded is rejected,
    // while an overlapping two-byte repeat cycles the history
    let data: Vec<u8> = vec![0, 0, 0, 0, 0x01, 0x07, 0x09, 0x42, 0x00];
    let out = read_riven(2, 3, 2, &data, 0).unwrap();
    assert_eq!(out, vec![7, 9, 7, 9, 7, 9]);
}

#[test]
fn subcommand_repeat_relative_duplet() {
    // a sub-opcode run of one command: repeat the duplet one duplet back
    let data: Vec<u8> = vec![0, 0, 0, 0, 0x01, 0x12, 0x34, 0xC1, 0x01, 0x00];
    let out = read_riven(2, 2, 2, &data, 0).unwrap();
    assert_eq!(out, vec![0x12, 0x34, 0x12, 0x34]);
}

#[test]
fn subcommand_substitute_second_pixel() {
    // sub-opcode 0x10: repeat the last duplet with its second byte
    // replaced by a literal
    let data: Vec<u8> = vec![0, 0, 0, 0, 0x01, 0x12, 0x34, 0xC1, 0x10, 0x56, 0x00];
    let out = read_riven(2, 2, 2, &data, 0).unwrap();
    assert_eq!(out, vec![0x12, 0x34, 0x12, 0x56]);
}

#[test]
fn subcommand_runlength_packed_distance() {
    // sub-opcode 0xfc: repeat n+2 duplets from m bytes back; n=0, r=1,
    // m=2 packed as nrm=0x04, mlow=0x02
    let data: Vec<u8> = vec![0, 0, 0, 0, 0x01, 0x01, 0x02, 0xC1, 0xFC, 0x04, 0x02, 0x00];
    let out = read_riven(2, 3, 2, &data, 0).unwrap();
    assert_eq!(out, vec![1, 2, 1, 2, 1, 2]);
}

#[test]
fn unknown_subcommand_is_error() {
    // 0x58 is deliberately absent from the sub-opcode table
    let data: Vec<u8> = vec![0, 0, 0, 0, 0x01, 0x01, 0x02, 0xC1, 0x58, 0x00];
    let r = read_riven(2, 2, 2, &data, 0);
    assert!(matches!(r, Err(MhkError::InvalidFormat(_))));
}

#[test]
fn stride_correction_compacts_rows() {
    // bytes_per_row 4 but width 2: each decoded row of four bytes keeps
    // its first two bytes
    let mut data = vec![0, 0, 0, 0];
    data.extend_from_slice(&[0x04, 1, 2, 3, 4, 5, 6, 7, 8]); // 4 literal duplets
    data.push(0x00);
    let out = read_riven(2, 2, 4, &data, 0).unwrap();
    assert_eq!(out, vec![1, 2, 5, 6]);
}

#[test]
fn truncated_decode_zero_fills() {
    // the stream ends after one duplet; the remaining pixels are zero
    let data: Vec<u8> = vec![0, 0, 0, 0, 0x01, 9, 8];
    let out = read_riven(2, 2, 2, &data, 0).unwrap();
    assert_eq!(out, vec![9, 8, 0, 0]);
}

#[test]
fn bad_bpp_selector_is_error() {
    let data: Vec<u8> = vec![0, 2, 0, 2, 0, 2, 0, 7]; // selector 7 is undefined
    assert!(matches!(parse_tbmp(&data), Err(MhkError::InvalidFormat(_))));
}

#[test]
fn stride_below_width_is_error() {
    let data: Vec<u8> = vec![0, 4, 0, 2, 0, 2, 0, 2]; // bytes_per_row 2 < width 4
    assert!(matches!(parse_tbmp(&data), Err(MhkError::InvalidFormat(_))));
}

#[test]
fn secondary_compression_is_error() {
    let mut data = palette_header(0x0012); // secondary scheme 1
    data.extend_from_slice(&[0, 0, 0, 0]);
    assert!(matches!(parse_tbmp(&data), Err(MhkError::InvalidFormat(_))));
}

#[test]
fn unknown_primary_scheme_is_error() {
    let mut data = palette_header(0x0102); // primary scheme 1
    data.extend_from_slice(&[0, 0, 0, 0]);
    assert!(matches!(parse_tbmp(&data), Err(MhkError::InvalidFormat(_))));
}

#[test]
fn direct_color_24bpp() {
    // 24-bit direct color, stored blue-green-red per pixel
    let mut data = Vec::new();
    data.extend_from_slice(&1u16.to_be_bytes()); // width
    data.extend_from_slice(&2u16.to_be_bytes()); // height
    data.extend_from_slice(&3u16.to_be_bytes()); // bytes per row
    data.extend_from_slice(&0x0004u16.to_be_bytes()); // 24bpp, raw
    data.extend_from_slice(&[10, 20, 30]); // pixel 0, BGR
    data.extend_from_slice(&[40, 50, 60]); // pixel 1, BGR
    let bm = parse_tbmp(&data).unwrap();
    assert!(bm.palette.is_none());
    assert_eq!(bm.data, vec![rgb(30, 20, 10), rgb(60, 50, 40)]);
}
