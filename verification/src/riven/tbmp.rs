//! The bitmap resource decoder: an uncompressed row-padded scheme and the
//! game's proprietary back-reference codec, both defined here as spec-level
//! interpreters that the executable decoders are proved to implement.

use vstd::prelude::*;

use crate::bitmap::{Bitmap, PaletteBitmap, Rgb};
use crate::bytes::{be16, read_be16};
use crate::error::MhkError;

verus! {

/// Marker for the bitmap resource type.
#[derive(Clone, Copy, Debug, PartialEq, Eq, Hash, Structural)]
pub struct TBmp;

/// `s` extended by `n` bytes copied sequentially from `lb` bytes behind the
/// end, the way an overlapping backward copy propagates: byte `j` of the
/// extension repeats byte `j - lb` of the extended buffer.
pub open spec fn lookback_ext(s: Seq<u8>, lb: int, n: int) -> Seq<u8>
    recommends
        1 <= lb <= s.len(),
    decreases n,
{
    if n <= 0 {
        s
    } else {
        let t = lookback_ext(s, lb, n - 1);
        t.push(t[t.len() - lb])
    }
}

/// Where the codec's interpreter stands: reading top-level opcodes, or inside
/// a run of `n` remaining sub-opcodes.
pub enum RivenMode {
    Main,
    Subs(u8),
}

/// Orders the two modes so that leaving a finished sub-opcode run for the
/// top level is a descent.
pub open spec fn mode_rank(mode: RivenMode) -> int {
    match mode {
        RivenMode::Main => 0,
        RivenMode::Subs(_) => 1,
    }
}

/// The outcome of one sub-opcode: advance and emit, halt the whole stream,
/// or reject the stream.
pub enum SubStep {
    Emit { c2: int, out2: Seq<u8> },
    Halt,
    Bad,
}

/// The effect of the single sub-opcode starting at `cmds[c]` on the output
/// built so far. Sub-opcodes substitute literal bytes into the last duplet,
/// nudge its components, or copy earlier output by a byte distance.
pub open spec fn sub_effect(cmds: Seq<u8>, c: int, out: Seq<u8>) -> SubStep
    recommends
        0 <= c < cmds.len(),
{
    let b = cmds[c];
    let len = cmds.len() as int;
    let l = out.len() as int;
    if b == 0x00 {
        SubStep::Halt
    } else if b <= 0x0f {
        // repeat the duplet b duplets back
        let m = b as int;
        if l < 2 * m {
            SubStep::Bad
        } else {
            SubStep::Emit { c2: c + 1, out2: out.push(out[l - 2 * m]).push(out[l - 2 * m + 1]) }
        }
    } else if b == 0x10 {
        // last duplet with its second byte replaced by a literal
        if c + 2 > len || l < 2 {
            SubStep::Bad
        } else {
            SubStep::Emit { c2: c + 2, out2: out.push(out[l - 2]).push(cmds[c + 1]) }
        }
    } else if b <= 0x1f {
        // first byte of the last duplet, then the byte m back from the
        // second output position
        let m = (b & 0x0f) as int;
        if l < 2 || m > l + 1 {
            SubStep::Bad
        } else {
            let t = out.push(out[l - 2]);
            SubStep::Emit { c2: c + 1, out2: t.push(t[l + 1 - m]) }
        }
    } else if b <= 0x2f {
        // last duplet, second byte increased
        let x = b & 0x0f;
        if l < 2 {
            SubStep::Bad
        } else {
            SubStep::Emit { c2: c + 1, out2: out.push(out[l - 2]).push(out[l - 1].wrapping_add(x)) }
        }
    } else if b <= 0x3f {
        // last duplet, second byte decreased
        let x = b & 0x0f;
        if l < 2 {
            SubStep::Bad
        } else {
            SubStep::Emit { c2: c + 1, out2: out.push(out[l - 2]).push(out[l - 1].wrapping_sub(x)) }
        }
    } else if b == 0x40 {
        // last duplet with its first byte replaced by a literal
        if c + 2 > len || l < 1 {
            SubStep::Bad
        } else {
            SubStep::Emit { c2: c + 2, out2: out.push(cmds[c + 1]).push(out[l - 1]) }
        }
    } else if b <= 0x4f {
        // the byte m back, then the last byte again
        let m = (b & 0x0f) as int;
        if l < m {
            SubStep::Bad
        } else {
            SubStep::Emit { c2: c + 1, out2: out.push(out[l - m]).push(out[l - 1]) }
        }
    } else if b == 0x50 {
        // two literal bytes
        if c + 3 > len {
            SubStep::Bad
        } else {
            SubStep::Emit { c2: c + 3, out2: out.push(cmds[c + 1]).push(cmds[c + 2]) }
        }
    } else if b <= 0x57 {
        // the byte m back, then a literal
        let m = (b & 0x07) as int;
        if c + 2 > len || l < m {
            SubStep::Bad
        } else {
            SubStep::Emit { c2: c + 2, out2: out.push(out[l - m]).push(cmds[c + 1]) }
        }
    } else if 0x59 <= b && b <= 0x5f {
        // a literal, then the byte m back from the second output position
        let m = (b & 0x07) as int;
        if c + 2 > len || m > l + 1 {
            SubStep::Bad
        } else {
            let t = out.push(cmds[c + 1]);
            SubStep::Emit { c2: c + 2, out2: t.push(t[l + 1 - m]) }
        }
    } else if 0x60 <= b && b <= 0x6f {
        // a literal, then the last byte increased
        let x = b & 0x0f;
        if c + 2 > len || l < 1 {
            SubStep::Bad
        } else {
            SubStep::Emit { c2: c + 2, out2: out.push(cmds[c + 1]).push(out[l - 1].wrapping_add(x)) }
        }
    } else if 0x70 <= b && b <= 0x7f {
        // a literal, then the last byte decreased
        let x = b & 0x0f;
        if c + 2 > len || l < 1 {
            SubStep::Bad
        } else {
            SubStep::Emit { c2: c + 2, out2: out.push(cmds[c + 1]).push(out[l - 1].wrapping_sub(x)) }
        }
    } else if 0x80 <= b && b <= 0x8f {
        // last duplet, first byte increased
        let x = b & 0x0f;
        if l < 2 {
            SubStep::Bad
        } else {
            SubStep::Emit { c2: c + 1, out2: out.push(out[l - 2].wrapping_add(x)).push(out[l - 1]) }
        }
    } else if 0x90 <= b && b <= 0x9f {
        // first byte of the last duplet increased, then a literal
        let x = b & 0x0f;
        if c + 2 > len || l < 2 {
            SubStep::Bad
        } else {
            SubStep::Emit { c2: c + 2, out2: out.push(out[l - 2].wrapping_add(x)).push(cmds[c + 1]) }
        }
    } else if b == 0xa0 {
        // last duplet nudged (+x, +y), packed in one byte
        if c + 2 > len || l < 2 {
            SubStep::Bad
        } else {
            let x = (cmds[c + 1] & 0xf0) >> 4;
            let y = cmds[c + 1] & 0x0f;
            SubStep::Emit {
                c2: c + 2,
                out2: out.push(out[l - 2].wrapping_add(x)).push(out[l - 1].wrapping_add(y)),
            }
        }
    } else if b == 0xb0 {
        // last duplet nudged (+x, -y)
        if c + 2 > len || l < 2 {
            SubStep::Bad
        } else {
            let x = (cmds[c + 1] & 0xf0) >> 4;
            let y = cmds[c + 1] & 0x0f;
            SubStep::Emit {
                c2: c + 2,
                out2: out.push(out[l - 2].wrapping_add(x)).push(out[l - 1].wrapping_sub(y)),
            }
        }
    } else if 0xc0 <= b && b <= 0xcf {
        // last duplet, first byte decreased
        let x = b & 0x0f;
        if l < 2 {
            SubStep::Bad
        } else {
            SubStep::Emit { c2: c + 1, out2: out.push(out[l - 2].wrapping_sub(x)).push(out[l - 1]) }
        }
    } else if 0xd0 <= b && b <= 0xdf {
        // first byte of the last duplet decreased, then a literal
        let x = b & 0x0f;
        if c + 2 > len || l < 2 {
            SubStep::Bad
        } else {
            SubStep::Emit { c2: c + 2, out2: out.push(out[l - 2].wrapping_sub(x)).push(cmds[c + 1]) }
        }
    } else if b == 0xe0 {
        // last duplet nudged (-x, +y)
        if c + 2 > len || l < 2 {
            SubStep::Bad
        } else {
            let x = (cmds[c + 1] & 0xf0) >> 4;
            let y = cmds[c + 1] & 0x0f;
            SubStep::Emit {
                c2: c + 2,
                out2: out.push(out[l - 2].wrapping_sub(x)).push(out[l - 1].wrapping_add(y)),
            }
        }
    } else if b == 0xf0 || b == 0xff {
        // last duplet nudged (-x, -y)
        if c + 2 > len || l < 2 {
            SubStep::Bad
        } else {
            let x = (cmds[c + 1] & 0xf0) >> 4;
            let y = cmds[c + 1] & 0x0f;
            SubStep::Emit {
                c2: c + 2,
                out2: out.push(out[l - 2].wrapping_sub(x)).push(out[l - 1].wrapping_sub(y)),
            }
        }
    } else if b == 0xfc {
        // run-length back-reference: repeat n+2 duplets from m bytes back,
        // m packed as 10 bits across two bytes; when the r bit is clear a
        // trailing literal replaces the last copied byte
        if c + 3 > len {
            SubStep::Bad
        } else {
            let n = (cmds[c + 1] & 0xf8) >> 3;
            let r = (cmds[c + 1] & 0x04) >> 2;
            let m = cmds[c + 2] as int + (cmds[c + 1] & 0x03) as int * 256;
            if l < m || m == 0 {
                SubStep::Bad
            } else {
                let t = lookback_ext(out, m, 2 * (n as int + 2));
                if r == 0 {
                    if c + 4 > len {
                        SubStep::Bad
                    } else {
                        SubStep::Emit {
                            c2: c + 4,
                            out2: t.update(t.len() - 1, cmds[c + 3]),
                        }
                    }
                } else {
                    SubStep::Emit { c2: c + 3, out2: t }
                }
            }
        }
    } else if b & 0xa0 == 0xa0 && b & 0x0c != 0 {
        // the remaining densely packed back-references: the count and the
        // r bit are derived from the opcode byte itself, the 10-bit distance
        // spans the opcode's low bits and one following byte
        if c + 2 > len {
            SubStep::Bad
        } else {
            let x = ((b & 0x40) >> 3) | ((b & 0x1c) >> 2);
            let xskip = (x - ((x + 3) / 4)) as u8;
            let r = xskip & 0x01;
            let n = (xskip >> 1) + 2;
            let m = cmds[c + 1] as int + (b & 0x03) as int * 256;
            if l < m || m == 0 {
                SubStep::Bad
            } else {
                let t = lookback_ext(out, m, 2 * (n as int));
                if r == 0 {
                    if c + 3 > len {
                        SubStep::Bad
                    } else {
                        SubStep::Emit {
                            c2: c + 3,
                            out2: t.update(t.len() - 1, cmds[c + 2]),
                        }
                    }
                } else {
                    SubStep::Emit { c2: c + 2, out2: t }
                }
            }
        }
    } else {
        SubStep::Bad
    }
}

/// Runs the back-reference codec from position `c` in mode `mode` with the
/// output built so far, to completion: the decoded bytes, or `None` when the
/// stream is structurally invalid.
pub open spec fn riven_run(cmds: Seq<u8>, c: int, mode: RivenMode, out: Seq<u8>) -> Option<
    Seq<u8>,
>
    decreases cmds.len() - c, mode_rank(mode),
{
    if c < 0 || c >= cmds.len() {
        Some(out)
    } else {
        match mode {
            RivenMode::Main => {
                let b = cmds[c];
                if b == 0x00 {
                    // explicit end of stream
                    Some(out)
                } else if b <= 0x3f {
                    // b literal duplets straight from the stream
                    let n = b as int;
                    if c + 1 + 2 * n > cmds.len() {
                        None
                    } else {
                        riven_run(
                            cmds,
                            c + 1 + 2 * n,
                            RivenMode::Main,
                            out + cmds.subrange(c + 1, c + 1 + 2 * n),
                        )
                    }
                } else if b <= 0x7f {
                    // repeat the last two bytes n times
                    let n = (b & 0x3f) as int;
                    if out.len() < 2 {
                        None
                    } else {
                        riven_run(cmds, c + 1, RivenMode::Main, lookback_ext(out, 2, 2 * n))
                    }
                } else if b <= 0xbf {
                    // repeat the last four bytes n times
                    let n = (b & 0x3f) as int;
                    if out.len() < 4 {
                        None
                    } else {
                        riven_run(cmds, c + 1, RivenMode::Main, lookback_ext(out, 4, 4 * n))
                    }
                } else {
                    // a run of n sub-opcodes
                    riven_run(cmds, c + 1, RivenMode::Subs(b & 0x3f), out)
                }
            },
            RivenMode::Subs(n) => {
                if n == 0 {
                    riven_run(cmds, c, RivenMode::Main, out)
                } else {
                    match sub_effect(cmds, c, out) {
                        SubStep::Halt => Some(out),
                        SubStep::Bad => None,
                        SubStep::Emit { c2, out2 } => riven_run(
                            cmds,
                            c2,
                            RivenMode::Subs((n - 1) as u8),
                            out2,
                        ),
                    }
                }
            },
        }
    }
}

/// The decoded bytes of a compressed stream whose opcodes start at
/// `start + 4` (the first four stream bytes are a reserved preamble).
pub open spec fn riven_result(data: Seq<u8>, start: int) -> Option<Seq<u8>> {
    let c0 = if start + 4 <= data.len() {
        start + 4
    } else {
        data.len() as int
    };
    riven_run(data, c0, RivenMode::Main, Seq::empty())
}

/// Row `i / w` of the raw decode occupies `bpr` bytes but only its first `w`
/// bytes are pixel data: the compaction keeps those and zero-fills whatever
/// the stream never produced, yielding exactly `w * h` bytes.
pub open spec fn stride_fixed(o: Seq<u8>, w: int, h: int, bpr: int) -> Seq<u8> {
    Seq::new(
        (w * h) as nat,
        |i: int|
            {
                let y = i / w;
                let j = i % w;
                if y * bpr + j < o.len() {
                    o[y * bpr + j]
                } else {
                    0u8
                }
            },
    )
}

/// Appends `len` bytes copied sequentially from `lookback` bytes behind the
/// current end of `data`, the overlapping-copy repeat used by the codec's
/// back-reference opcodes. Rejects an empty or too-long lookback.
pub fn copy_lookback_repeat(data: &mut Vec<u8>, lookback: usize, len: usize) -> (ok: bool)
    ensures
        ok == (old(data)@.len() >= lookback && lookback > 0),
        ok ==> final(data)@ == lookback_ext(old(data)@, lookback as int, len as int),
        !ok ==> final(data)@ == old(data)@,
{
    if data.len() < lookback || lookback == 0 {
        return false;
    }
    let mut i: usize = 0;
    while i < len
        invariant
            data@ == lookback_ext(old(data)@, lookback as int, i as int),
            data@.len() == old(data)@.len() + i,
            lookback >= 1,
            old(data)@.len() >= lookback,
            i <= len,
        decreases len - i,
    {
        let b = data[data.len() - lookback];
        data.push(b);
        i = i + 1;
    }
    true
}

/// Decodes the proprietary back-reference stream whose bytes begin at
/// `start` in `data` (the stream's first four bytes are a reserved preamble)
/// and compacts each `bytes_per_row`-byte row to its first `width` pixel
/// bytes, yielding exactly `width * height` bytes.
pub fn read_riven(
    width: u16,
    height: u16,
    bytes_per_row: u16,
    data: &[u8],
    start: usize,
) -> (r: Result<Vec<u8>, MhkError>)
    requires
        start <= data@.len(),
        data@.len() < 0xffff_ff00,
    ensures
        match r {
            Ok(v) => riven_result(data@, start as int) matches Some(o) && v@ == stride_fixed(
                o,
                width as int,
                height as int,
                bytes_per_row as int,
            ),
            Err(e) => riven_result(data@, start as int) is None && e matches MhkError::InvalidFormat(_),
        },
{
    let len = data.len();
    let c0: usize = if start + 4 <= len {
        start + 4
    } else {
        len
    };
    let ghost target = riven_run(data@, c0 as int, RivenMode::Main, Seq::<u8>::empty());
    proof {
        assert(riven_result(data@, start as int) == target);
    }
    let mut out: Vec<u8> = Vec::new();
    let mut c: usize = c0;
    let mut done = false;
    while !done && c < len
        invariant
            c <= len,
            len == data@.len(),
            start <= data@.len(),
            data@.len() < 0xffff_ff00,
            target == riven_result(data@, start as int),
            done ==> target == Some(out@),
            !done ==> target == riven_run(data@, c as int, RivenMode::Main, out@),
        decreases len - c, (if done { 0int } else { 1int }),
    {
        let b = data[c];
        if b == 0x00 {
            done = true;
        } else if b <= 0x3f {
            // literal duplets straight from the stream
            let n = b as usize;
            if len - (c + 1) < 2 * n {
                proof {
                    assert(riven_run(data@, c as int, RivenMode::Main, out@) is None);
                }
                return Err(MhkError::InvalidFormat("bad tBMP riven command"));
            }
            let ghost out_snap = out@;
            let mut k: usize = 0;
            while k < 2 * n
                invariant
                    k <= 2 * n,
                    c + 1 + 2 * n <= len,
                    len == data@.len(),
                    out@ == out_snap + data@.subrange(c + 1, c + 1 + k as int),
                decreases 2 * n - k,
            {
                let byte = data[c + 1 + k];
                out.push(byte);
                proof {
                    assert(data@.subrange(c + 1, c + 1 + (k + 1) as int) =~= data@.subrange(
                        c + 1,
                        c + 1 + k as int,
                    ).push(byte));
                }
                k = k + 1;
            }
            proof {
                assert(out@ =~= out_snap + data@.subrange(c + 1, c + 1 + 2 * n as int));
            }
            c = c + 1 + 2 * n;
        } else if b <= 0x7f {
            // repeat the last two bytes n times
            let n = (b & 0x3f) as usize;
            let ok = copy_lookback_repeat(&mut out, 2, 2 * n);
            if !ok {
                proof {
                    assert(riven_run(data@, c as int, RivenMode::Main, out@) is None);
                }
                return Err(MhkError::InvalidFormat("bad tBMP riven command"));
            }
            c = c + 1;
        } else if b <= 0xbf {
            // repeat the last four bytes n times
            let n = (b & 0x3f) as usize;
            let ok = copy_lookback_repeat(&mut out, 4, 4 * n);
            if !ok {
                proof {
                    assert(riven_run(data@, c as int, RivenMode::Main, out@) is None);
                }
                return Err(MhkError::InvalidFormat("bad tBMP riven command"));
            }
            c = c + 1;
        } else {
            // a run of sub-opcodes
            let mut n: u8 = b & 0x3f;
            c = c + 1;
            let ghost c_enter = c as int;
            while !done && c < len && n > 0
                invariant
                    c_enter <= c as int,
                    c <= len,
                    len == data@.len(),
                    target == riven_result(data@, start as int),
                    done ==> target == Some(out@),
                    !done ==> target == riven_run(data@, c as int, RivenMode::Subs(n), out@),
                decreases len - c, (if done { 0int } else { 1int }),
            {
                let sb = data[c];
                let l = out.len();
                if sb == 0x00 {
                    done = true;
                } else if sb <= 0x0f {
                    let m = sb as usize;
                    if l < 2 * m {
                        proof {
                            assert(riven_run(data@, c as int, RivenMode::Subs(n), out@) is None);
                        }
                        return Err(MhkError::InvalidFormat("bad tBMP riven command"));
                    }
                    let a0 = out[l - 2 * m];
                    let a1 = out[l - 2 * m + 1];
                    out.push(a0);
                    out.push(a1);
                    c = c + 1;
                    n = n - 1;
                } else if sb == 0x10 {
                    if len - c < 2 || l < 2 {
                        proof {
                            assert(riven_run(data@, c as int, RivenMode::Subs(n), out@) is None);
                        }
                        return Err(MhkError::InvalidFormat("bad tBMP riven command"));
                    }
                    let a = out[l - 2];
                    let p = data[c + 1];
                    out.push(a);
                    out.push(p);
                    c = c + 2;
                    n = n - 1;
                } else if sb <= 0x1f {
                    assert(sb & 0x0f >= 1) by (bit_vector)
                        requires 0x11 <= sb && sb <= 0x1f;
                    let m = (sb & 0x0f) as usize;
                    if l < 2 || m - 1 > l {
                        proof {
                            assert(riven_run(data@, c as int, RivenMode::Subs(n), out@) is None);
                        }
                        return Err(MhkError::InvalidFormat("bad tBMP riven command"));
                    }
                    let a = out[l - 2];
                    out.push(a);
                    let b2 = out[out.len() - m];
                    out.push(b2);
                    c = c + 1;
                    n = n - 1;
                } else if sb <= 0x2f {
                    let x = sb & 0x0f;
                    if l < 2 {
                        proof {
                            assert(riven_run(data@, c as int, RivenMode::Subs(n), out@) is None);
                        }
                        return Err(MhkError::InvalidFormat("bad tBMP riven command"));
                    }
                    let a = out[l - 2];
                    let b2 = out[l - 1].wrapping_add(x);
                    out.push(a);
                    out.push(b2);
                    c = c + 1;
                    n = n - 1;
                } else if sb <= 0x3f {
                    let x = sb & 0x0f;
                    if l < 2 {
                        proof {
                            assert(riven_run(data@, c as int, RivenMode::Subs(n), out@) is None);
                        }
                        return Err(MhkError::InvalidFormat("bad tBMP riven command"));
                    }
                    let a = out[l - 2];
                    let b2 = out[l - 1].wrapping_sub(x);
                    out.push(a);
                    out.push(b2);
                    c = c + 1;
                    n = n - 1;
                } else if sb == 0x40 {
                    if len - c < 2 || l < 1 {
                        proof {
                            assert(riven_run(data@, c as int, RivenMode::Subs(n), out@) is None);
                        }
                        return Err(MhkError::InvalidFormat("bad tBMP riven command"));
                    }
                    let p = data[c + 1];
                    let b2 = out[l - 1];
                    out.push(p);
                    out.push(b2);
                    c = c + 2;
                    n = n - 1;
                } else if sb <= 0x4f {
                    assert(sb & 0x0f >= 1) by (bit_vector)
                        requires 0x41 <= sb && sb <= 0x4f;
                    let m = (sb & 0x0f) as usize;
                    if l < m {
                        proof {
                            assert(riven_run(data@, c as int, RivenMode::Subs(n), out@) is None);
                        }
                        return Err(MhkError::InvalidFormat("bad tBMP riven command"));
                    }
                    let a = out[l - m];
                    let b2 = out[l - 1];
                    out.push(a);
                    out.push(b2);
                    c = c + 1;
                    n = n - 1;
                } else if sb == 0x50 {
                    if len - c < 3 {
                        proof {
                            assert(riven_run(data@, c as int, RivenMode::Subs(n), out@) is None);
                        }
                        return Err(MhkError::InvalidFormat("bad tBMP riven command"));
                    }
                    let p1 = data[c + 1];
                    let p2 = data[c + 2];
                    out.push(p1);
                    out.push(p2);
                    c = c + 3;
                    n = n - 1;
                } else if sb <= 0x57 {
                    assert(sb & 0x07 >= 1) by (bit_vector)
                        requires 0x51 <= sb && sb <= 0x57;
                    let m = (sb & 0x07) as usize;
                    if len - c < 2 || l < m {
                        proof {
                            assert(riven_run(data@, c as int, RivenMode::Subs(n), out@) is None);
                        }
                        return Err(MhkError::InvalidFormat("bad tBMP riven command"));
                    }
                    let a = out[l - m];
                    let p = data[c + 1];
                    out.push(a);
                    out.push(p);
                    c = c + 2;
                    n = n - 1;
                } else if 0x59 <= sb && sb <= 0x5f {
                    assert(sb & 0x07 >= 1) by (bit_vector)
                        requires 0x59 <= sb && sb <= 0x5f;
                    let m = (sb & 0x07) as usize;
                    if len - c < 2 || m - 1 > l {
                        proof {
                            assert(riven_run(data@, c as int, RivenMode::Subs(n), out@) is None);
                        }
                        return Err(MhkError::InvalidFormat("bad tBMP riven command"));
                    }
                    let p = data[c + 1];
                    out.push(p);
                    let b2 = out[out.len() - m];
                    out.push(b2);
                    c = c + 2;
                    n = n - 1;
                } else if 0x60 <= sb && sb <= 0x6f {
                    let x = sb & 0x0f;
                    if len - c < 2 || l < 1 {
                        proof {
                            assert(riven_run(data@, c as int, RivenMode::Subs(n), out@) is None);
                        }
                        return Err(MhkError::InvalidFormat("bad tBMP riven command"));
                    }
                    let p = data[c + 1];
                    let b2 = out[l - 1].wrapping_add(x);
                    out.push(p);
                    out.push(b2);
                    c = c + 2;
                    n = n - 1;
                } else if 0x70 <= sb && sb <= 0x7f {
                    let x = sb & 0x0f;
                    if len - c < 2 || l < 1 {
                        proof {
                            assert(riven_run(data@, c as int, RivenMode::Subs(n), out@) is None);
                        }
                        return Err(MhkError::InvalidFormat("bad tBMP riven command"));
                    }
                    let p = data[c + 1];
                    let b2 = out[l - 1].wrapping_sub(x);
                    out.push(p);
                    out.push(b2);
                    c = c + 2;
                    n = n - 1;
                } else if 0x80 <= sb && sb <= 0x8f {
                    let x = sb & 0x0f;
                    if l < 2 {
                        proof {
                            assert(riven_run(data@, c as int, RivenMode::Subs(n), out@) is None);
                        }
                        return Err(MhkError::InvalidFormat("bad tBMP riven command"));
                    }
                    let a = out[l - 2].wrapping_add(x);
                    let b2 = out[l - 1];
                    out.push(a);
                    out.push(b2);
                    c = c + 1;
                    n = n - 1;
                } else if 0x90 <= sb && sb <= 0x9f {
                    let x = sb & 0x0f;
                    if len - c < 2 || l < 2 {
                        proof {
                            assert(riven_run(data@, c as int, RivenMode::Subs(n), out@) is None);
                        }
                        return Err(MhkError::InvalidFormat("bad tBMP riven command"));
                    }
                    let a = out[l - 2].wrapping_add(x);
                    let p = data[c + 1];
                    out.push(a);
                    out.push(p);
                    c = c + 2;
                    n = n - 1;
                } else if sb == 0xa0 {
                    if len - c < 2 || l < 2 {
                        proof {
                            assert(riven_run(data@, c as int, RivenMode::Subs(n), out@) is None);
                        }
                        return Err(MhkError::InvalidFormat("bad tBMP riven command"));
                    }
                    let x = (data[c + 1] & 0xf0) >> 4;
                    let y = data[c + 1] & 0x0f;
                    let a = out[l - 2].wrapping_add(x);
                    let b2 = out[l - 1].wrapping_add(y);
                    out.push(a);
                    out.push(b2);
                    c = c + 2;
                    n = n - 1;
                } else if sb == 0xb0 {
                    if len - c < 2 || l < 2 {
                        proof {
                            assert(riven_run(data@, c as int, RivenMode::Subs(n), out@) is None);
                        }
                        return Err(MhkError::InvalidFormat("bad tBMP riven command"));
                    }
                    let x = (data[c + 1] & 0xf0) >> 4;
                    let y = data[c + 1] & 0x0f;
                    let a = out[l - 2].wrapping_add(x);
                    let b2 = out[l - 1].wrapping_sub(y);
                    out.push(a);
                    out.push(b2);
                    c = c + 2;
                    n = n - 1;
                } else if 0xc0 <= sb && sb <= 0xcf {
                    let x = sb & 0x0f;
                    if l < 2 {
                        proof {
                            assert(riven_run(data@, c as int, RivenMode::Subs(n), out@) is None);
                        }
                        return Err(MhkError::InvalidFormat("bad tBMP riven command"));
                    }
                    let a = out[l - 2].wrapping_sub(x);
                    let b2 = out[l - 1];
                    out.push(a);
                    out.push(b2);
                    c = c + 1;
                    n = n - 1;
                } else if 0xd0 <= sb && sb <= 0xdf {
                    let x = sb & 0x0f;
                    if len - c < 2 || l < 2 {
                        proof {
                            assert(riven_run(data@, c as int, RivenMode::Subs(n), out@) is None);
                        }
                        return Err(MhkError::InvalidFormat("bad tBMP riven command"));
                    }
                    let a = out[l - 2].wrapping_sub(x);
                    let p = data[c + 1];
                    out.push(a);
                    out.push(p);
                    c = c + 2;
                    n = n - 1;
                } else if sb == 0xe0 {
                    if len - c < 2 || l < 2 {
                        proof {
                            assert(riven_run(data@, c as int, RivenMode::Subs(n), out@) is None);
                        }
                        return Err(MhkError::InvalidFormat("bad tBMP riven command"));
                    }
                    let x = (data[c + 1] & 0xf0) >> 4;
                    let y = data[c + 1] & 0x0f;
                    let a = out[l - 2].wrapping_sub(x);
                    let b2 = out[l - 1].wrapping_add(y);
                    out.push(a);
                    out.push(b2);
                    c = c + 2;
                    n = n - 1;
                } else if sb == 0xf0 || sb == 0xff {
                    if len - c < 2 || l < 2 {
                        proof {
                            assert(riven_run(data@, c as int, RivenMode::Subs(n), out@) is None);
                        }
                        return Err(MhkError::InvalidFormat("bad tBMP riven command"));
                    }
                    let x = (data[c + 1] & 0xf0) >> 4;
                    let y = data[c + 1] & 0x0f;
                    let a = out[l - 2].wrapping_sub(x);
                    let b2 = out[l - 1].wrapping_sub(y);
                    out.push(a);
                    out.push(b2);
                    c = c + 2;
                    n = n - 1;
                } else if sb == 0xfc {
                    if len - c < 3 {
                        proof {
                            assert(riven_run(data@, c as int, RivenMode::Subs(n), out@) is None);
                        }
                        return Err(MhkError::InvalidFormat("bad tBMP riven command"));
                    }
                    let n2 = (data[c + 1] & 0xf8) >> 3;
                    let rbit = (data[c + 1] & 0x04) >> 2;
                    let m = data[c + 2] as usize + (data[c + 1] & 0x03) as usize * 256;
                    let ok = copy_lookback_repeat(&mut out, m, 2 * (n2 as usize + 2));
                    if !ok {
                        proof {
                            assert(riven_run(data@, c as int, RivenMode::Subs(n), out@) is None);
                        }
                        return Err(MhkError::InvalidFormat("bad tBMP riven command"));
                    }
                    if rbit == 0 {
                        if len - c < 4 {
                            proof {
                                assert(riven_run(data@, c as int, RivenMode::Subs(n), out@) is None);
                            }
                            return Err(MhkError::InvalidFormat("bad tBMP riven command"));
                        }
                        let last = data[c + 3];
                        let lp = out.len() - 1;
                        out.set(lp, last);
                        c = c + 4;
                    } else {
                        c = c + 3;
                    }
                    n = n - 1;
                } else if sb & 0xa0 == 0xa0 && sb & 0x0c != 0 {
                    if len - c < 2 {
                        proof {
                            assert(riven_run(data@, c as int, RivenMode::Subs(n), out@) is None);
                        }
                        return Err(MhkError::InvalidFormat("bad tBMP riven command"));
                    }
                    let x = ((sb & 0x40) >> 3) | ((sb & 0x1c) >> 2);
                    assert(1 <= x && x <= 15 && (x + 3) / 4 <= x) by (bit_vector)
                        requires
                            x == ((sb & 0x40) >> 3) | ((sb & 0x1c) >> 2),
                            sb & 0x0c != 0,
                    ;
                    let xskip = x - ((x + 3) / 4);
                    let rbit = xskip & 0x01;
                    let n2: usize = (xskip >> 1) as usize + 2;
                    let m = data[c + 1] as usize + (sb & 0x03) as usize * 256;
                    let ok = copy_lookback_repeat(&mut out, m, 2 * n2);
                    if !ok {
                        proof {
                            assert(riven_run(data@, c as int, RivenMode::Subs(n), out@) is None);
                        }
                        return Err(MhkError::InvalidFormat("bad tBMP riven subcommand"));
                    }
                    if rbit == 0 {
                        if len - c < 3 {
                            proof {
                                assert(riven_run(data@, c as int, RivenMode::Subs(n), out@) is None);
                            }
                            return Err(MhkError::InvalidFormat("bad tBMP riven subcommand"));
                        }
                        let last = data[c + 2];
                        let lp = out.len() - 1;
                        out.set(lp, last);
                        c = c + 3;
                    } else {
                        c = c + 2;
                    }
                    n = n - 1;
                } else {
                    proof {
                        assert(riven_run(data@, c as int, RivenMode::Subs(n), out@) is None);
                    }
                    return Err(MhkError::InvalidFormat("unknown tBMP riven subcommand"));
                }
            }
            proof {
                if !done {
                    assert(riven_run(data@, c as int, RivenMode::Subs(n), out@) == riven_run(
                        data@,
                        c as int,
                        RivenMode::Main,
                        out@,
                    ));
                }
            }
        }
    }
    proof {
        assert(target == Some(out@));
    }
    Ok(compact_rows(width, height, bytes_per_row, &out))
}

/// Compacts each `bpr`-byte row of the raw decode down to its first `w`
/// pixel bytes, zero-filling what the stream never produced, so that the
/// result is exactly `w * h` bytes.
pub fn compact_rows(w: u16, h: u16, bpr: u16, o: &Vec<u8>) -> (v: Vec<u8>)
    ensures
        v@ == stride_fixed(o@, w as int, h as int, bpr as int),
{
    let ghost goal = stride_fixed(o@, w as int, h as int, bpr as int);
    proof {
        assert(goal.len() == w as int * h as int);
    }
    let mut v: Vec<u8> = Vec::new();
    let mut y: usize = 0;
    while y < h as usize
        invariant
            y <= h as usize,
            goal == stride_fixed(o@, w as int, h as int, bpr as int),
            v@.len() == y * w as int,
            forall|i: int| 0 <= i < v@.len() ==> v@[i] == goal[i],
        decreases h as usize - y,
    {
        let mut j: usize = 0;
        while j < w as usize
            invariant
                y < h as usize,
                j <= w as usize,
                goal == stride_fixed(o@, w as int, h as int, bpr as int),
                v@.len() == y * w as int + j,
                forall|i: int| 0 <= i < v@.len() ==> v@[i] == goal[i],
            decreases w as usize - j,
        {
            proof {
                assert(y * (bpr as int) + j < 0xffff_ffff && y * (bpr as int) >= 0) by (nonlinear_arith)
                    requires
                        0 <= y < 0x10000,
                        0 <= j < 0x10000,
                        0 <= bpr < 0x10000,
                ;
            }
            let pos = y * (bpr as usize) + j;
            let byte = if pos < o.len() {
                o[pos]
            } else {
                0u8
            };
            proof {
                let i0 = y * (w as int) + j;
                assert(v@.len() == i0);
                vstd::arithmetic::div_mod::lemma_fundamental_div_mod_converse(
                    i0,
                    w as int,
                    y as int,
                    j as int,
                );
                assert(i0 < w as int * h as int) by (nonlinear_arith)
                    requires
                        i0 == y * (w as int) + j,
                        y < h,
                        j < w,
                ;
                assert(goal[i0] == byte);
            }
            v.push(byte);
            j = j + 1;
        }
        y = y + 1;
        proof {
            assert(v@.len() == y * w as int) by (nonlinear_arith)
                requires v@.len() == (y - 1) * w as int + w as int;
        }
    }
    proof {
        assert(v@.len() == goal.len()) by (nonlinear_arith)
            requires
                v@.len() == y * w as int,
                y == h as usize,
                goal.len() == w as int * h as int,
        ;
        assert(v@ =~= goal);
    }
    v
}


/// The bit depth selected by the low three bits of the compression flags.
pub open spec fn bits_of(cf: u16) -> Option<u8> {
    if cf & 0x7 == 0 {
        Some(1u8)
    } else if cf & 0x7 == 1 {
        Some(4u8)
    } else if cf & 0x7 == 2 {
        Some(8u8)
    } else if cf & 0x7 == 3 {
        Some(16u8)
    } else if cf & 0x7 == 4 {
        Some(24u8)
    } else {
        None
    }
}

/// True when every row of the uncompressed scheme can be read whole:
/// row `y` starts at `pos + y * bpr` and needs `wb` bytes.
pub open spec fn raw_rows_ok(data: Seq<u8>, pos: int, h: int, bpr: int, wb: int) -> bool {
    forall|y: int| 0 <= y < h ==> pos + #[trigger] (y * bpr) + wb <= data.len()
}

/// The pixel bytes of the uncompressed scheme: the first `wb` bytes of each
/// of the `h` rows, rows laid out `bpr` bytes apart from `pos`.
pub open spec fn raw_rows(data: Seq<u8>, pos: int, h: int, bpr: int, wb: int) -> Seq<u8> {
    Seq::new(
        (h * wb) as nat,
        |i: int| data[pos + (i / wb) * bpr + (i % wb)],
    )
}

/// Reads the uncompressed row-padded scheme: each row holds `bpr` bytes in
/// the stream but only its first `width * bytes_per_pixel` bytes are pixel
/// data; the per-row remainder is alignment padding and is skipped.
pub fn read_uncompressed(
    width: u16,
    height: u16,
    bytes_per_row: u16,
    bytes_per_pixel: u8,
    data: &[u8],
    pos: usize,
) -> (r: Result<Vec<u8>, MhkError>)
    requires
        pos <= data@.len(),
        data@.len() < 0xffff_ff00,
        bytes_per_pixel <= 4,
    ensures
        match r {
            Ok(v) => raw_rows_ok(
                data@,
                pos as int,
                height as int,
                bytes_per_row as int,
                width as int * bytes_per_pixel as int,
            ) && v@ == raw_rows(
                data@,
                pos as int,
                height as int,
                bytes_per_row as int,
                width as int * bytes_per_pixel as int,
            ),
            Err(e) => !raw_rows_ok(
                data@,
                pos as int,
                height as int,
                bytes_per_row as int,
                width as int * bytes_per_pixel as int,
            ) && e matches MhkError::InvalidFormat(_),
        },
{
    proof {
        assert(width as int * bytes_per_pixel as int <= 0x3fffc) by (nonlinear_arith)
            requires
                width <= 0xffff,
                bytes_per_pixel <= 4,
        ;
    }
    let wb: usize = width as usize * bytes_per_pixel as usize;
    let ghost goal = raw_rows(
        data@,
        pos as int,
        height as int,
        bytes_per_row as int,
        wb as int,
    );
    proof {
        assert(goal.len() == height as int * wb as int);
    }
    let mut v: Vec<u8> = Vec::new();
    let mut y: usize = 0;
    while y < height as usize
        invariant
            y <= height as usize,
            wb == width as int * bytes_per_pixel as int,
            wb <= 0x40000,
            pos <= data@.len(),
            data@.len() < 0xffff_ff00,
            goal == raw_rows(data@, pos as int, height as int, bytes_per_row as int, wb as int),
            v@.len() == y * wb as int,
            forall|i: int| 0 <= i < v@.len() ==> i < goal.len() && v@[i] == goal[i],
            forall|yy: int|
                0 <= yy < y ==> pos + #[trigger] (yy * bytes_per_row as int) + wb <= data@.len(),
        decreases height as usize - y,
    {
        proof {
            assert(y * (bytes_per_row as int) < 0xffff_ffff && y * (bytes_per_row as int) >= 0)
                by (nonlinear_arith)
                requires
                    0 <= y < 0x10000,
                    0 <= bytes_per_row < 0x10000,
            ;
        }
        let row64: u64 = pos as u64 + (y as u64) * (bytes_per_row as u64);
        if row64 > data.len() as u64 || (data.len() as u64) - row64 < wb as u64 {
            proof {
                assert(!raw_rows_ok(
                    data@,
                    pos as int,
                    height as int,
                    bytes_per_row as int,
                    wb as int,
                ));
            }
            return Err(MhkError::InvalidFormat("short tBMP pixel data"));
        }
        let row_start = row64 as usize;
        proof {
            assert((y + 1) * wb as int <= height as int * wb as int && y * wb as int + wb
                == (y + 1) * wb as int) by (nonlinear_arith)
                requires
                    y < height,
                    wb >= 0,
            ;
        }
        let mut j: usize = 0;
        while j < wb
            invariant
                j <= wb,
                y < height as usize,
                wb == width as int * bytes_per_pixel as int,
                wb <= 0x40000,
                data@.len() < 0xffff_ff00,
                row_start == pos + y * bytes_per_row as int,
                row_start + wb <= data@.len(),
                v@.len() + (wb - j) <= goal.len(),
                goal == raw_rows(data@, pos as int, height as int, bytes_per_row as int, wb as int),
                v@.len() == y * wb as int + j,
                forall|i: int| 0 <= i < v@.len() ==> i < goal.len() && v@[i] == goal[i],
        decreases wb - j,
        {
            let byte = data[row_start + j];
            proof {
                let i0 = y * (wb as int) + j;
                assert(v@.len() == i0);
                vstd::arithmetic::div_mod::lemma_fundamental_div_mod_converse(
                    i0,
                    wb as int,
                    y as int,
                    j as int,
                );
                assert(i0 < height as int * wb as int) by (nonlinear_arith)
                    requires
                        i0 == y * (wb as int) + j,
                        y < height,
                        j < wb,
                ;
                assert(goal[i0] == byte);
            }
            v.push(byte);
            j = j + 1;
        }
        y = y + 1;
        proof {
            assert(v@.len() == y * wb as int) by (nonlinear_arith)
                requires v@.len() == (y - 1) * wb as int + wb as int;
            assert(v@.len() <= height as int * wb as int) by (nonlinear_arith)
                requires
                    v@.len() == y * wb as int,
                    y <= height,
                    wb >= 0,
            ;
        }
    }
    proof {
        assert(v@.len() == goal.len()) by (nonlinear_arith)
            requires
                v@.len() == y * wb as int,
                y == height as usize,
                goal.len() == height as int * wb as int,
        ;
        assert(v@ =~= goal);
    }
    Ok(v)
}


/// Whether the palette chunk at `off` is well-formed: its declared size
/// covers its own four-byte sub-header, its colors are present in the
/// stream, they are 24-bit, and the declared color count does not exceed
/// the colors actually stored.
pub open spec fn palette_ok(data: Seq<u8>, off: int) -> bool {
    &&& off + 4 <= data.len()
    &&& be16(data, off) >= 4
    &&& off + be16(data, off) <= data.len()
    &&& data[off + 2] == 24
    &&& data[off + 3] <= (be16(data, off) - 4) / 3
}

/// The colors of the palette chunk at `off`: each group of three bytes is
/// one blue-green-red triple, converted to red-green-blue; a trailing
/// partial group is dropped.
pub open spec fn palette_colors(data: Seq<u8>, off: int) -> Seq<Rgb> {
    Seq::new(
        ((be16(data, off) - 4) / 3) as nat,
        |i: int|
            Rgb {
                r: data[off + 4 + 3 * i + 2],
                g: data[off + 4 + 3 * i + 1],
                b: data[off + 4 + 3 * i],
            },
    )
}

/// Every byte of `raw` is a valid index below `limit`.
pub open spec fn palette_indices_ok(raw: Seq<u8>, limit: int) -> bool {
    forall|i: int| 0 <= i < raw.len() ==> ((#[trigger] raw[i]) as int) < limit
}

/// The meaning of one whole bitmap resource: its dimensions, the palette
/// and index image when one is present, and the final pixels; `None` when
/// the resource violates the format.
pub open spec fn tbmp_decode(data: Seq<u8>) -> Option<
    (u16, u16, Option<(Seq<Rgb>, Seq<u8>)>, Seq<Rgb>),
> {
    if data.len() < 8 {
        None
    } else {
        let w = be16(data, 0);
        let h = be16(data, 2);
        let bpr = be16(data, 4);
        let cf = be16(data, 6);
        match bits_of(cf) {
            None => None,
            Some(bits) => {
                let bypp = (bits + 7) / 8;
                if bpr < w {
                    None
                } else {
                    let pal = (cf & 8) != 0 || bits == 8;
                    if pal && !palette_ok(data, 8) {
                        None
                    } else {
                        let pos = if pal {
                            8 + be16(data, 8) as int
                        } else {
                            8
                        };
                        if (cf & 0xf0) >> 4 != 0 {
                            None
                        } else {
                            let primary = (cf & 0xf00) >> 8;
                            let rawopt: Option<Seq<u8>> = if primary == 0 {
                                if raw_rows_ok(data, pos, h as int, bpr as int, w as int * bypp) {
                                    Some(raw_rows(data, pos, h as int, bpr as int, w as int * bypp))
                                } else {
                                    None
                                }
                            } else if primary == 4 {
                                if bits != 8 {
                                    None
                                } else {
                                    match riven_result(data, pos) {
                                        Some(o) => Some(
                                            stride_fixed(o, w as int, h as int, bpr as int),
                                        ),
                                        None => None,
                                    }
                                }
                            } else {
                                None
                            };
                            match rawopt {
                                None => None,
                                Some(raw) => {
                                    if pal {
                                        let cols = palette_colors(data, 8);
                                        if !palette_indices_ok(raw, cols.len() as int) {
                                            None
                                        } else {
                                            Some(
                                                (
                                                    w,
                                                    h,
                                                    Some((cols, raw)),
                                                    Seq::new(
                                                        raw.len(),
                                                        |i: int| cols[raw[i] as int],
                                                    ),
                                                ),
                                            )
                                        }
                                    } else {
                                        if bits != 24 {
                                            None
                                        } else {
                                            Some(
                                                (
                                                    w,
                                                    h,
                                                    None,
                                                    Seq::new(
                                                        (raw.len() as int / 3) as nat,
                                                        |i: int|
                                                            Rgb {
                                                                r: raw[3 * i + 2],
                                                                g: raw[3 * i + 1],
                                                                b: raw[3 * i],
                                                            },
                                                    ),
                                                ),
                                            )
                                        }
                                    }
                                },
                            }
                        }
                    }
                }
            },
        }
    }
}

/// Every palette-indexed decode is internally consistent: the index image
/// is in range of the palette everywhere and the pixels are exactly the
/// palette entries it selects.
#[verifier::rlimit(100)]
pub proof fn lemma_palette_consistent(
    data: Seq<u8>,
    w: u16,
    h: u16,
    cols: Seq<Rgb>,
    img: Seq<u8>,
    px: Seq<Rgb>,
)
    requires
        tbmp_decode(data) == Some((w, h, Some((cols, img)), px)),
    ensures
        px.len() == img.len(),
        forall|i: int| 0 <= i < img.len() ==> (img[i] as int) < cols.len(),
        forall|i: int| 0 <= i < img.len() ==> px[i] == cols[img[i] as int],
{
    let t = tbmp_decode(data).unwrap();
    assert(t == (w, h, Some((cols, img)), px));
    assert(palette_indices_ok(img, cols.len() as int)) by {
        if !palette_indices_ok(img, cols.len() as int) {
            assert(tbmp_decode(data) is None);
        }
    }
}

/// The decoded bitmap `bm` is exactly what `tbmp_decode` assigns to
/// `data`: same dimensions, same palette and index image when one is
/// present, and the same pixels.
pub open spec fn bitmap_matches(data: Seq<u8>, bm: Bitmap) -> bool {
    &&& tbmp_decode(data) is Some
    &&& bm.width == tbmp_decode(data).unwrap().0
    &&& bm.height == tbmp_decode(data).unwrap().1
    &&& match bm.palette {
        Some(pb) => {
            &&& tbmp_decode(data).unwrap().2 matches Some(p2)
            &&& pb.palette@ == p2.0
            &&& pb.image@ == p2.1
        },
        None => tbmp_decode(data).unwrap().2 is None,
    }
    &&& bm.data@ == tbmp_decode(data).unwrap().3
}

/// Decoding is deterministic: the stream's bytes alone fix every part of
/// the decoded bitmap, so two decodes of the same bytes agree everywhere.
pub proof fn lemma_decode_deterministic(data: Seq<u8>, b1: Bitmap, b2: Bitmap)
    requires
        bitmap_matches(data, b1),
        bitmap_matches(data, b2),
    ensures
        b1.width == b2.width,
        b1.height == b2.height,
        b1.data@ == b2.data@,
        b1.palette is Some <==> b2.palette is Some,
        b1.palette matches Some(p1) ==> b2.palette matches Some(p2) && p1.palette@ == p2.palette@
            && p1.image@ == p2.image@,
{
}

/// A back-reference opcode whose distance reaches before the start of the
/// decoded output rejects the stream: the two top-level repeat classes
/// need two and four bytes of history respectively.
pub proof fn lemma_backref_bounds(cmds: Seq<u8>, c: int, out: Seq<u8>)
    requires
        0 <= c < cmds.len(),
        (0x40 <= cmds[c] <= 0x7f && out.len() < 2) || (0x80 <= cmds[c] <= 0xbf && out.len() < 4),
    ensures
        riven_run(cmds, c, RivenMode::Main, out) is None,
{
}


/// True exactly when every byte of `raw` is below `limit`.
fn indices_within(raw: &Vec<u8>, limit: usize) -> (ok: bool)
    ensures
        ok == palette_indices_ok(raw@, limit as int),
{
    let mut i: usize = 0;
    while i < raw.len()
        invariant
            i <= raw@.len(),
            forall|k: int| 0 <= k < i ==> ((#[trigger] raw@[k]) as int) < limit,
        decreases raw@.len() - i,
    {
        if raw[i] as usize >= limit {
            proof {
                assert(!palette_indices_ok(raw@, limit as int));
            }
            return false;
        }
        i = i + 1;
    }
    true
}

/// Decodes one whole bitmap resource: header, optional palette, pixel data
/// under the store-raw or back-reference scheme, and the final palette
/// lookup or direct color grouping. Returns `Ok` exactly when `tbmp_decode`
/// accepts the bytes, and then returns that decode.
#[verifier::rlimit(100)]
pub fn parse_tbmp(data: &[u8]) -> (r: Result<Bitmap, MhkError>)
    requires
        data@.len() < 0xffff_ff00,
    ensures
        match r {
            Ok(bm) => bitmap_matches(data@, bm),
            Err(e) => tbmp_decode(data@) is None && e matches MhkError::InvalidFormat(_),
        },
{
    if data.len() < 8 {
        return Err(MhkError::InvalidFormat("short tBMP header"));
    }
    let w = read_be16(data, 0);
    let h = read_be16(data, 2);
    let bpr = read_be16(data, 4);
    let cf = read_be16(data, 6);
    let sel = cf & 0x7;
    let bits: u8 = if sel == 0 {
        1
    } else if sel == 1 {
        4
    } else if sel == 2 {
        8
    } else if sel == 3 {
        16
    } else if sel == 4 {
        24
    } else {
        return Err(MhkError::InvalidFormat("bad bpp"));
    };
    let bypp: u8 = (bits + 7) / 8;
    if bpr < w {
        return Err(MhkError::InvalidFormat("bad tBMP stride"));
    }
    let pal_needed = (cf & 8) != 0 || bits == 8;
    let mut cols: Vec<Rgb> = Vec::new();
    let mut pos: usize = 8;
    if pal_needed {
        if data.len() < 12 {
            return Err(MhkError::InvalidFormat("short tBMP palette"));
        }
        let ts = read_be16(data, 8) as usize;
        if ts < 4 {
            return Err(MhkError::InvalidFormat("bad tBMP palette size"));
        }
        if data.len() - 8 < ts {
            return Err(MhkError::InvalidFormat("short tBMP palette"));
        }
        if data[10] != 24 {
            return Err(MhkError::InvalidFormat("unknown bits per color"));
        }
        let ncolors = (ts - 4) / 3;
        proof {
            vstd::arithmetic::div_mod::lemma_fundamental_div_mod((ts - 4) as int, 3);
        }
        if (data[11] as usize) > ncolors {
            return Err(MhkError::InvalidFormat("not enough colors in palette"));
        }
        let ghost cgoal = palette_colors(data@, 8);
        let mut i: usize = 0;
        while i < ncolors
            invariant
                i <= ncolors,
                ncolors == ((be16(data@, 8) - 4) / 3),
                3 * ncolors <= ts - 4,
                ts == be16(data@, 8),
                8 + ts <= data@.len(),
                data@.len() < 0xffff_ff00,
                cgoal == palette_colors(data@, 8),
                cols@.len() == i,
                forall|k: int| 0 <= k < i ==> cols@[k] == cgoal[k],
            decreases ncolors - i,
        {
            let base = 12 + 3 * i;
            let color = Rgb { r: data[base + 2], g: data[base + 1], b: data[base] };
            proof {
                assert(cgoal[i as int] == color);
            }
            cols.push(color);
            i = i + 1;
        }
        proof {
            assert(cols@ =~= cgoal);
            assert(palette_ok(data@, 8));
        }
        pos = 8 + ts;
    }
    if (cf & 0xf0) >> 4 != 0 {
        return Err(MhkError::InvalidFormat("unknown secondary tBMP compression"));
    }
    let primary = (cf & 0xf00) >> 8;
    let raw: Vec<u8> = if primary == 0 {
        match read_uncompressed(w, h, bpr, bypp, data, pos) {
            Ok(v) => v,
            Err(e) => {
                return Err(e);
            },
        }
    } else if primary == 4 {
        if bits != 8 {
            return Err(MhkError::InvalidFormat("bad bits per pixel in tBMP riven compression"));
        }
        match read_riven(w, h, bpr, data, pos) {
            Ok(v) => v,
            Err(e) => {
                return Err(e);
            },
        }
    } else {
        return Err(MhkError::InvalidFormat("unknown primary tBMP compression"));
    };
    if pal_needed {
        if !indices_within(&raw, cols.len()) {
            proof {
                assert(!palette_indices_ok(raw@, palette_colors(data@, 8).len() as int));
                assert(tbmp_decode(data@) is None);
            }
            return Err(MhkError::InvalidFormat("palette index out of range"));
        }
        let ghost pgoal = Seq::new(raw@.len(), |i: int| cols@[raw@[i] as int]);
        let mut px: Vec<Rgb> = Vec::new();
        let mut i: usize = 0;
        while i < raw.len()
            invariant
                i <= raw@.len(),
                cols@ == palette_colors(data@, 8),
                pgoal == Seq::new(raw@.len(), |k: int| cols@[raw@[k] as int]),
                px@.len() == i,
                palette_indices_ok(raw@, cols@.len() as int),
                forall|k: int| 0 <= k < i ==> px@[k] == pgoal[k],
            decreases raw@.len() - i,
        {
            let idx = raw[i] as usize;
            px.push(cols[idx]);
            i = i + 1;
        }
        proof {
            assert(px@ =~= pgoal);
        }
        Ok(Bitmap { width: w, height: h, palette: Some(PaletteBitmap { palette: cols, image: raw }), data: px })
    } else {
        if bits != 24 {
            return Err(MhkError::InvalidFormat("unknown bits per pixel"));
        }
        let npix = raw.len() / 3;
        proof {
            vstd::arithmetic::div_mod::lemma_fundamental_div_mod(raw@.len() as int, 3);
        }
        let ghost ggoal = Seq::new(
            (raw@.len() as int / 3) as nat,
            |i: int| Rgb { r: raw@[3 * i + 2], g: raw@[3 * i + 1], b: raw@[3 * i] },
        );
        let mut px: Vec<Rgb> = Vec::new();
        let mut i: usize = 0;
        while i < npix
            invariant
                i <= npix,
                npix == raw@.len() as int / 3,
                3 * npix <= raw@.len(),
                raw@.len() <= usize::MAX,
                ggoal == Seq::new(
                    (raw@.len() as int / 3) as nat,
                    |k: int| Rgb { r: raw@[3 * k + 2], g: raw@[3 * k + 1], b: raw@[3 * k] },
                ),
                px@.len() == i,
                forall|k: int| 0 <= k < i ==> px@[k] == ggoal[k],
            decreases npix - i,
        {
            let base = 3 * i;
            let color = Rgb { r: raw[base + 2], g: raw[base + 1], b: raw[base] };
            proof {
                assert(ggoal[i as int] == color);
            }
            px.push(color);
            i = i + 1;
        }
        proof {
            assert(px@ =~= ggoal);
        }
        Ok(Bitmap { width: w, height: h, palette: None, data: px })
    }
}

} // verus!
