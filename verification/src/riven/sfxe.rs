//! The water-effect resource: a fixed header, an unknown blob, and a
//! table of frames, each frame a stream of row commands.

use vstd::prelude::*;

use crate::bytes::{be16, be32, read_be16, read_be32};
use crate::error::MhkError;

verus! {

/// Marker for the water-effect resource type.
#[derive(Clone, Copy, Debug, PartialEq, Eq, Hash, Structural)]
pub struct TSfxe;

/// One frame command: advance the output row, or copy a span of pixels
/// from elsewhere in the source frame. Runs of single-row advances are
/// stored run-length encoded.
#[derive(Debug, PartialEq, Eq, Clone, Copy, Structural)]
pub enum EffectCommand {
    IncrementRow { amount: u16 },
    Copy { dst_left: u16, src_left: u16, src_top: u16, row_width: u16 },
}

/// One decoded water effect.
#[derive(Debug, PartialEq, Eq)]
pub struct Effect {
    pub left: u16,
    pub top: u16,
    pub right: u16,
    pub bottom: u16,
    pub effect_speed: u16,
    pub u0: u16,
    pub u1: u16,
    pub u2: u32,
    pub u3: u32,
    pub u4: u32,
    pub u5: u32,
    pub u6: u32,
    pub u7: Vec<u8>,
    pub frames: Vec<Vec<EffectCommand>>,
}

/// Decodes one water effect: the header's rectangle appears twice on the
/// wire and both copies must agree, as must the two frame counts. The
/// fifty-two-byte header is followed by an unknown blob up to the frame
/// offset table, and each table entry locates one frame's command stream.
pub fn parse_sfxe(s: &[u8]) -> (r: Result<Effect, MhkError>)
    ensures
        match r {
            Ok(e) => {
                &&& s@.len() >= 52
                &&& s@[0] == 0x53 && s@[1] == 0x4C
                &&& e.frames@.len() == be16(s@, 2)
                &&& e.left == be16(s@, 8) && e.top == be16(s@, 10)
                &&& e.right == be16(s@, 12) && e.bottom == be16(s@, 14)
                &&& e.effect_speed == be16(s@, 16)
                &&& e.u0 == be16(s@, 18)
                &&& e.u1 == be16(s@, 28)
                &&& e.u2 == be32(s@, 32) && e.u3 == be32(s@, 36) && e.u4 == be32(s@, 40)
                &&& e.u5 == be32(s@, 44) && e.u6 == be32(s@, 48)
                &&& be32(s@, 4) >= 52
                &&& e.u7@ == s@.subrange(52, be32(s@, 4) as int)
            },
            Err(e) => e matches MhkError::InvalidFormat(_),
        },
{
    if s.len() < 52 {
        return Err(MhkError::InvalidFormat("short SFXE record"));
    }
    if !(s[0] == 0x53 && s[1] == 0x4C) {
        // the stream must open with the "SL" signature
        return Err(MhkError::InvalidFormat("bad SFXE signature"));
    }
    let frame_count = read_be16(s, 2);
    let otp = read_be32(s, 4);
    let left = read_be16(s, 8);
    let top = read_be16(s, 10);
    let right = read_be16(s, 12);
    let bottom = read_be16(s, 14);
    let effect_speed = read_be16(s, 16);
    let u0 = read_be16(s, 18);
    // the rectangle is stored twice; both copies must agree
    let alt_top = read_be16(s, 20);
    let alt_left = read_be16(s, 22);
    let alt_bottom = read_be16(s, 24);
    let alt_right = read_be16(s, 26);
    if alt_top != top || alt_left != left || alt_bottom != bottom || alt_right != right {
        return Err(MhkError::InvalidFormat("bad SFXE resource"));
    }
    let u1 = read_be16(s, 28);
    let alt_frame_count = read_be16(s, 30);
    if alt_frame_count != frame_count {
        return Err(MhkError::InvalidFormat("bad SFXE resource"));
    }
    let u2 = read_be32(s, 32);
    let u3 = read_be32(s, 36);
    let u4 = read_be32(s, 40);
    let u5 = read_be32(s, 44);
    let u6 = read_be32(s, 48);
    // the header is exactly 52 bytes; what remains up to the offset table
    // is carried through unparsed
    if otp < 52 || otp as u64 > s.len() as u64 {
        return Err(MhkError::InvalidFormat("bad SFXE resource"));
    }
    let otp = otp as usize;
    let mut u7: Vec<u8> = Vec::new();
    let mut k: usize = 52;
    while k < otp
        invariant
            52 <= k <= otp,
            otp <= s@.len(),
            u7@ == s@.subrange(52, k as int),
        decreases otp - k,
    {
        let b = s[k];
        u7.push(b);
        proof {
            assert(s@.subrange(52, (k + 1) as int) =~= s@.subrange(52, k as int).push(b));
        }
        k = k + 1;
    }
    proof {
        assert(u7@ =~= s@.subrange(52, otp as int));
    }
    // the frame offset table
    if (s.len() - otp) / 4 < frame_count as usize {
        return Err(MhkError::InvalidFormat("short SFXE offset table"));
    }
    proof {
        vstd::arithmetic::div_mod::lemma_fundamental_div_mod((s@.len() - otp) as int, 4);
    }
    let mut frames: Vec<Vec<EffectCommand>> = Vec::new();
    let mut f: usize = 0;
    while f < frame_count as usize
        invariant
            f <= frame_count as usize,
            frame_count <= 0xffff,
            otp + 4 * frame_count as int <= s@.len(),
            s@.len() <= usize::MAX,
            frames@.len() == f,
        decreases frame_count as usize - f,
    {
        let off64 = read_be32(s, otp + 4 * f) as u64;
        if off64 > s.len() as u64 {
            return Err(MhkError::InvalidFormat("bad SFXE frame offset"));
        }
        let mut pos = off64 as usize;
        let mut frame: Vec<EffectCommand> = Vec::new();
        let mut done = false;
        while !done
            invariant
                pos <= s@.len(),
            decreases s@.len() - pos, (if done { 0int } else { 1int }),
        {
            if s.len() - pos < 2 {
                return Err(MhkError::InvalidFormat("short SFXE frame"));
            }
            let cmd = read_be16(s, pos);
            pos = pos + 2;
            if cmd == 1 {
                // advance one row; adjacent advances are merged
                let merged = if frame.len() > 0 {
                    match frame[frame.len() - 1] {
                        EffectCommand::IncrementRow { amount } => {
                            if amount < 0xffff {
                                let last = frame.len() - 1;
                                frame.set(last, EffectCommand::IncrementRow { amount: amount + 1 });
                                true
                            } else {
                                false
                            }
                        },
                        _ => false,
                    }
                } else {
                    false
                };
                if !merged {
                    frame.push(EffectCommand::IncrementRow { amount: 1 });
                }
            } else if cmd == 3 {
                if s.len() - pos < 8 {
                    return Err(MhkError::InvalidFormat("short SFXE frame"));
                }
                frame.push(
                    EffectCommand::Copy {
                        dst_left: read_be16(s, pos),
                        src_left: read_be16(s, pos + 2),
                        src_top: read_be16(s, pos + 4),
                        row_width: read_be16(s, pos + 6),
                    },
                );
                pos = pos + 8;
            } else if cmd == 4 {
                done = true;
            } else {
                return Err(MhkError::InvalidFormat("bad SFXE command"));
            }
        }
        frames.push(frame);
        f = f + 1;
    }
    Ok(Effect {
        left,
        top,
        right,
        bottom,
        effect_speed,
        u0,
        u1,
        u2,
        u3,
        u4,
        u5,
        u6,
        u7,
        frames,
    })
}

} // verus!
