//! Record decoders: the fixed-width tables, the card map, the sound list,
//! cards, hotspots, and the recursive script grammar.

use moiety::error::MhkError;
use moiety::riven::blst::parse_blst;
use moiety::riven::card::parse_card;
use moiety::riven::flst::parse_flst;
use moiety::riven::hspt::parse_hspt;
use moiety::riven::mlst::parse_mlst;
use moiety::riven::plst::parse_plst;
use moiety::riven::rmap::parse_rmap;
use moiety::riven::script::{deserialize_commands, deserialize_handlers, Command, Event, TransitionCode, TransitionDirection};
use moiety::riven::name::parse_name;
use moiety::riven::sfxe::{parse_sfxe, EffectCommand};
use moiety::riven::slst::parse_slst;
use moiety::riven::tcur::parse_tcur;

fn be16s(words: &[u16]) -> Vec<u8> {
    let mut v = Vec::new();
    for w in words {
        v.extend_from_slice(&w.to_be_bytes());
    }
    v
}

#[test]
fn blst_two_records() {
    let data = be16s(&[2, 1, 0, 9, 2, 1, 11]);
    let recs = parse_blst(&data).unwrap();
    assert_eq!(recs.len(), 2);
    assert_eq!((recs[0].index, recs[0].enabled, recs[0].hotspot_id), (1, 0, 9));
    assert_eq!((recs[1].index, recs[1].enabled, recs[1].hotspot_id), (2, 1, 11));
}

#[test]
fn blst_short_table_is_error() {
    let data = be16s(&[3, 1, 0, 9]); // claims three records, holds one
    assert!(matches!(parse_blst(&data), Err(MhkError::InvalidFormat(_))));
}

#[test]
fn flst_record_fields() {
    let data = be16s(&[1, 4, 17, 0]);
    let recs = parse_flst(&data).unwrap();
    assert_eq!((recs[0].index, recs[0].sfxe_id, recs[0].u0), (4, 17, 0));
}

#[test]
fn plst_record_fields() {
    let data = be16s(&[1, 1, 300, 0, 0, 608, 392]);
    let recs = parse_plst(&data).unwrap();
    assert_eq!(recs[0].index, 1);
    assert_eq!(recs[0].bitmap_id, 300);
    assert_eq!((recs[0].left, recs[0].top, recs[0].right, recs[0].bottom), (0, 0, 608, 392));
}

#[test]
fn mlst_record_fields() {
    let data = be16s(&[1, 1, 42, 3, 10, 20, 7, 8, 9, 1, 256, 0]);
    let recs = parse_mlst(&data).unwrap();
    assert_eq!(recs[0].movie_id, 42);
    assert_eq!(recs[0].code, 3);
    assert_eq!((recs[0].left, recs[0].top), (10, 20));
    assert_eq!((recs[0].u0_0, recs[0].u0_1, recs[0].u0_2), (7, 8, 9));
    assert_eq!((recs[0].looping, recs[0].volume, recs[0].u1), (1, 256, 0));
}

#[test]
fn rmap_codes() {
    let data: Vec<u8> = vec![0, 0, 0, 5, 0, 1, 0, 0];
    assert_eq!(parse_rmap(&data).unwrap(), vec![5, 0x0001_0000]);
}

#[test]
fn rmap_bad_size_is_error() {
    let data: Vec<u8> = vec![0, 0, 5];
    assert!(matches!(parse_rmap(&data), Err(MhkError::InvalidFormat(_))));
}

#[test]
fn slst_parallel_columns_zip() {
    // one record with two sounds; the volume, balance and extra columns
    // are stored separately and zipped per sound
    let data = be16s(&[
        1, // record count
        3, // record index
        2, 100, 200, // sound id table
        1, 0, 255, 7, 8, // fade, looping, global volume, u0, u1
        64, 65, // volumes
        0xFFFF, 1, // balances (-1, 1)
        5, 6, // extras
    ]);
    let recs = parse_slst(&data).unwrap();
    assert_eq!(recs.len(), 1);
    let r = &recs[0];
    assert_eq!(r.index, 3);
    assert_eq!((r.fade_flags, r.looping, r.global_volume, r.u0, r.u1), (1, 0, 255, 7, 8));
    assert_eq!(r.sounds.len(), 2);
    assert_eq!((r.sounds[0].id, r.sounds[0].volume, r.sounds[0].balance, r.sounds[0].u2), (100, 64, -1, 5));
    assert_eq!((r.sounds[1].id, r.sounds[1].volume, r.sounds[1].balance, r.sounds[1].u2), (200, 65, 1, 6));
}

#[test]
fn script_simple_commands() {
    // two commands: draw a bitmap, then go to a card
    let data = be16s(&[
        2, // command count
        1, 9, 300, 0, 0, 608, 392, 0, 0, 0, 0, // draw-bitmap, nine args
        2, 1, 77, // goto-card, one arg
    ]);
    let mut pos = 0usize;
    let cmds = deserialize_commands(&data, &mut pos).unwrap();
    assert_eq!(pos, data.len());
    assert_eq!(cmds.len(), 2);
    assert!(matches!(cmds[0], Command::DrawBmp { tbmp_id: 300, .. }));
    assert!(matches!(cmds[1], Command::GotoCard { id: 77 }));
}

#[test]
fn script_conditional_nests() {
    // a conditional on variable 4 with two branches, each holding one
    // nested command list
    let data = be16s(&[
        1, // command count
        8, 2, 4, 2, // conditional, two args: variable, branch count
        0, 1, 45, 0, // branch value 0: one zip-mode command
        1, 1, 19, 0, // branch value 1: one reload-card command
    ]);
    let mut pos = 0usize;
    let cmds = deserialize_commands(&data, &mut pos).unwrap();
    assert_eq!(cmds.len(), 1);
    match &cmds[0] {
        Command::Conditional { var, branches } => {
            assert_eq!(*var, 4);
            assert_eq!(branches.len(), 2);
            assert_eq!(branches[0].0, 0);
            assert!(matches!(branches[0].1[0], Command::ZipMode));
            assert_eq!(branches[1].0, 1);
            assert!(matches!(branches[1].1[0], Command::ReloadCard));
        },
        other => panic!("expected a conditional, got {:?}", other),
    }
}

#[test]
fn script_unknown_command_is_error() {
    let data = be16s(&[1, 999, 0]);
    let mut pos = 0usize;
    let r = deserialize_commands(&data, &mut pos);
    assert!(matches!(r, Err(MhkError::InvalidFormat(_))));
}

#[test]
fn script_bad_call_is_error() {
    // call command whose inline argument count exceeds the args present
    let data = be16s(&[1, 17, 2, 3, 9]);
    let mut pos = 0usize;
    let r = deserialize_commands(&data, &mut pos);
    assert!(matches!(r, Err(MhkError::InvalidFormat(_))));
}

#[test]
fn script_transition_decodes_direction() {
    let data = be16s(&[1, 18, 1, 6]); // direction 2 (top), new-move bit set
    let mut pos = 0usize;
    let cmds = deserialize_commands(&data, &mut pos).unwrap();
    match &cmds[0] {
        Command::Transition { code, rect } => {
            assert!(rect.is_none());
            assert_eq!(
                *code,
                TransitionCode::Direction {
                    direction: TransitionDirection::Top,
                    new_move: true,
                    old_move: false,
                }
            );
        },
        other => panic!("expected a transition, got {:?}", other),
    }
}

#[test]
fn handlers_map_event_selectors() {
    let data = be16s(&[
        2, // handler count
        0, 1, 45, 0, // mouse-down: zip mode
        10, 0, // display-update: empty command list
    ]);
    let mut pos = 0usize;
    let handlers = deserialize_handlers(&data, &mut pos).unwrap();
    assert_eq!(handlers.len(), 2);
    assert_eq!(handlers[0].0, Event::MouseDown);
    assert_eq!(handlers[1].0, Event::DisplayUpdate);
    assert!(handlers[1].1.is_empty());
}

#[test]
fn handlers_bad_event_is_error() {
    let data = be16s(&[1, 8, 0]); // event selector 8 is never used
    let mut pos = 0usize;
    let r = deserialize_handlers(&data, &mut pos);
    assert!(matches!(r, Err(MhkError::InvalidFormat(_))));
}

#[test]
fn card_fields_and_script() {
    let data = be16s(&[
        0xFFFF, // name record -1
        1, // zip mode place
        1, // one handler
        6, 1, 39, 1, 1, // load-card: activate picture record 1
    ]);
    let card = parse_card(&data).unwrap();
    assert_eq!(card.name_rec, -1);
    assert_eq!(card.zip_mode_place, 1);
    assert_eq!(card.script.len(), 1);
    assert_eq!(card.script[0].0, Event::LoadCard);
    assert!(matches!(card.script[0].1[0], Command::ActivatePlst { record: 1 }));
}

#[test]
fn hspt_record_with_script() {
    let data = be16s(&[
        1, // hotspot count
        9, // blst id
        0xFFFE, // name record -2
        0, 10, 100, 60, // rectangle
        0, 3, 1, 0xFFFF, 0, // u0, cursor, index, u1, zip mode
        1, // one handler
        2, 1, 13, 1, 5, // mouse-up: set cursor 5
    ]);
    let spots = parse_hspt(&data).unwrap();
    assert_eq!(spots.len(), 1);
    let h = &spots[0];
    assert_eq!(h.blst_id, 9);
    assert_eq!(h.name_rec, -2);
    assert_eq!((h.left, h.top, h.right, h.bottom), (0, 10, 100, 60));
    assert_eq!(h.mouse_cursor, 3);
    assert_eq!(h.u1, -1);
    assert_eq!(h.script[0].0, Event::MouseUp);
    assert!(matches!(h.script[0].1[0], Command::SetCursor { cursor: 5 }));
}

#[test]
fn sfxe_frames_and_rle() {
    // header: "SL", one frame, offset table right after the 52-byte
    // header, rectangle repeated, matching frame counts
    let mut v = Vec::new();
    v.extend_from_slice(b"SL");
    v.extend_from_slice(&1u16.to_be_bytes()); // frame count
    v.extend_from_slice(&52u32.to_be_bytes()); // offset table position
    v.extend_from_slice(&be16s(&[3, 5, 7, 9, 2, 0])); // rect, speed, u0
    v.extend_from_slice(&be16s(&[5, 3, 9, 7])); // rect again: top,left,bottom,right
    v.extend_from_slice(&be16s(&[0, 1])); // u1, frame count again
    for k in 0..5u32 {
        v.extend_from_slice(&k.to_be_bytes()); // u2..u6
    }
    assert_eq!(v.len(), 52);
    v.extend_from_slice(&56u32.to_be_bytes()); // frame 0 offset
    // frame: three row advances, one copy, end
    v.extend_from_slice(&be16s(&[1, 1, 1, 3, 4, 5, 6, 7, 4]));
    let e = parse_sfxe(&v).unwrap();
    assert_eq!((e.left, e.top, e.right, e.bottom), (3, 5, 7, 9));
    assert_eq!(e.effect_speed, 2);
    assert_eq!(e.u7, Vec::<u8>::new());
    assert_eq!(e.frames.len(), 1);
    assert_eq!(
        e.frames[0],
        vec![
            EffectCommand::IncrementRow { amount: 3 },
            EffectCommand::Copy { dst_left: 4, src_left: 5, src_top: 6, row_width: 7 },
        ]
    );
}

#[test]
fn sfxe_mismatched_rectangle_is_error() {
    let mut v = Vec::new();
    v.extend_from_slice(b"SL");
    v.extend_from_slice(&0u16.to_be_bytes());
    v.extend_from_slice(&52u32.to_be_bytes());
    v.extend_from_slice(&be16s(&[3, 5, 7, 9, 2, 0]));
    v.extend_from_slice(&be16s(&[5, 3, 9, 8])); // right disagrees
    v.extend_from_slice(&be16s(&[0, 0]));
    v.extend_from_slice(&[0u8; 20]);
    assert!(matches!(parse_sfxe(&v), Err(MhkError::InvalidFormat(_))));
}

#[test]
fn name_table_strings() {
    // two names: offsets into the pool, values, then the pool itself
    let mut v = Vec::new();
    v.extend_from_slice(&2u16.to_be_bytes()); // count
    v.extend_from_slice(&0u16.to_be_bytes()); // offset of "ossit"
    v.extend_from_slice(&6u16.to_be_bytes()); // offset of "gehn"
    v.extend_from_slice(&7u16.to_be_bytes()); // value 0
    v.extend_from_slice(&9u16.to_be_bytes()); // value 1
    v.extend_from_slice(b"ossit\0gehn\0");
    let names = parse_name(&v).unwrap();
    assert_eq!(names.len(), 2);
    assert_eq!(names[0].unknown, 7);
    assert_eq!(names[0].name, "ossit");
    assert_eq!(names[1].unknown, 9);
    assert_eq!(names[1].name, "gehn");
}

#[test]
fn name_without_terminator_runs_to_end() {
    let mut v = Vec::new();
    v.extend_from_slice(&1u16.to_be_bytes());
    v.extend_from_slice(&0u16.to_be_bytes());
    v.extend_from_slice(&4u16.to_be_bytes());
    v.extend_from_slice(b"atrus"); // no zero byte follows
    let names = parse_name(&v).unwrap();
    assert_eq!(names[0].name, "atrus");
}

#[test]
fn tcur_decodes_8bpp_with_mask() {
    // a 2x2, 8-bit cursor: little-endian header, two palette colors,
    // index map, and a mask marking one pixel transparent
    let mut v = Vec::new();
    v.extend_from_slice(&3u16.to_le_bytes()); // hotspot x
    v.extend_from_slice(&1u16.to_le_bytes()); // hotspot y
    v.extend_from_slice(&40u32.to_le_bytes()); // header size
    v.extend_from_slice(&2u32.to_le_bytes()); // width
    v.extend_from_slice(&4u32.to_le_bytes()); // height (doubled on the wire)
    v.extend_from_slice(&1u16.to_le_bytes()); // planes
    v.extend_from_slice(&8u16.to_le_bytes()); // bits per pixel
    v.extend_from_slice(&0u32.to_le_bytes()); // compression
    v.extend_from_slice(&0u32.to_le_bytes()); // size
    v.extend_from_slice(&0u32.to_le_bytes()); // xres
    v.extend_from_slice(&0u32.to_le_bytes()); // yres
    v.extend_from_slice(&2u32.to_le_bytes()); // colors
    v.extend_from_slice(&0u32.to_le_bytes()); // reserved
    v.extend_from_slice(&[10, 20, 30, 0]); // color 0, BGR + reserved
    v.extend_from_slice(&[40, 50, 60, 0]); // color 1
    v.extend_from_slice(&[0, 1, 1, 0]); // index map, stored bottom-up
    v.extend_from_slice(&[0b1000_0000, 0b0000_0000]); // mask rows
    let c = parse_tcur(&v).unwrap();
    assert_eq!((c.hotspot_x, c.hotspot_y), (3, 1));
    assert_eq!((c.width, c.height), (2, 2));
    assert_eq!(c.data.len(), 4);
    // the top output row comes from the second stored row
    assert_eq!((c.data[0].r, c.data[0].g, c.data[0].b), (60, 50, 40));
    assert_eq!((c.data[1].r, c.data[1].g, c.data[1].b), (30, 20, 10));
    // the mask byte is addressed by the flipped pixel index and the bit
    // by the column, so both left-column pixels read the same set bit
    assert_eq!(c.data[0].a, 0);
    assert_eq!(c.data[1].a, 255);
    assert_eq!((c.data[2].a, c.data[3].a), (0, 255));
}

#[test]
fn tcur_bad_palette_index_is_error() {
    let mut v = Vec::new();
    v.extend_from_slice(&0u16.to_le_bytes());
    v.extend_from_slice(&0u16.to_le_bytes());
    v.extend_from_slice(&40u32.to_le_bytes());
    v.extend_from_slice(&2u32.to_le_bytes());
    v.extend_from_slice(&4u32.to_le_bytes());
    v.extend_from_slice(&1u16.to_le_bytes());
    v.extend_from_slice(&8u16.to_le_bytes());
    v.extend_from_slice(&0u32.to_le_bytes());
    v.extend_from_slice(&[0u8; 12]); // size, xres, yres
    v.extend_from_slice(&1u32.to_le_bytes()); // one color
    v.extend_from_slice(&0u32.to_le_bytes());
    v.extend_from_slice(&[10, 20, 30, 0]);
    v.extend_from_slice(&[0, 1, 0, 0]); // index 1 is out of range
    v.extend_from_slice(&[0, 0]);
    assert!(matches!(parse_tcur(&v), Err(MhkError::InvalidFormat(_))));
}

#[test]
fn script_goto_card_exact_bytes() {
    // count 1, opcode 2, one argument 0x3039
    let data: Vec<u8> = vec![0x00, 0x01, 0x00, 0x02, 0x00, 0x01, 0x30, 0x39];
    let mut pos = 0usize;
    let cmds = deserialize_commands(&data, &mut pos).unwrap();
    assert_eq!(cmds, vec![Command::GotoCard { id: 12345 }]);
    assert_eq!(pos, data.len());
}

#[test]
fn handlers_keep_repeated_events_in_order() {
    // the same selector twice: both pairs stay, in stream order
    let data = be16s(&[
        2, // handler count
        0, 1, 45, 0, // mouse-down: zip mode
        0, 1, 19, 0, // mouse-down again: reload card
    ]);
    let mut pos = 0usize;
    let handlers = deserialize_handlers(&data, &mut pos).unwrap();
    assert_eq!(handlers.len(), 2);
    assert_eq!(handlers[0].0, Event::MouseDown);
    assert!(matches!(handlers[0].1[0], Command::ZipMode));
    assert_eq!(handlers[1].0, Event::MouseDown);
    assert!(matches!(handlers[1].1[0], Command::ReloadCard));
}

#[test]
fn script_wrong_arity_is_error() {
    // goto-card with two arguments instead of one
    let data = be16s(&[1, 2, 2, 7, 8]);
    let mut pos = 0usize;
    let r = deserialize_commands(&data, &mut pos);
    assert!(matches!(r, Err(MhkError::InvalidFormat(_))));
}
