//! The cursor resource: a Windows bitmap-style cursor image with a
//! little-endian header, a palette, a packed or direct index map, and a
//! transparency mask, assembled bottom-up into pixels.

use vstd::prelude::*;

use crate::bitmap::{Rgb, Rgba};
use crate::bytes::{le16, le32, read_le16, read_le32};
use crate::error::MhkError;

verus! {

/// Marker for the cursor resource type.
#[derive(Clone, Copy, Debug, PartialEq, Eq, Hash, Structural)]
pub struct TCur;

/// Decodes one cursor. The forty-byte info header must declare itself,
/// a single plane and no compression; the stored height covers the index
/// map and the mask together, so the real image height is half of it.
/// Index depths of one and eight bits are supported; rows are assembled
/// bottom-up and the mask bit clears a pixel's opacity.
pub fn parse_tcur(s: &[u8]) -> (r: Result<crate::bitmap::Cursor, MhkError>)
    ensures
        match r {
            Ok(c) => {
                &&& s@.len() >= 44
                &&& c.hotspot_x == le16(s@, 0)
                &&& c.hotspot_y == le16(s@, 2)
                &&& c.width == le32(s@, 8)
                &&& c.height == le32(s@, 12) / 2
                &&& c.data@.len() == c.width as int * c.height as int
            },
            Err(e) => e matches MhkError::InvalidFormat(_),
        },
{
    if s.len() < 44 {
        return Err(MhkError::InvalidFormat("short cursor resource"));
    }
    let hotspot_x = read_le16(s, 0);
    let hotspot_y = read_le16(s, 2);
    let headersize = read_le32(s, 4);
    let width32 = read_le32(s, 8);
    let height32 = read_le32(s, 12);
    let planes = read_le16(s, 16);
    let bpp = read_le16(s, 18);
    let compression = read_le32(s, 20);
    let colors32 = read_le32(s, 36);
    if headersize != 40 {
        return Err(MhkError::InvalidFormat("bad cursor header"));
    }
    if planes > 1 {
        return Err(MhkError::InvalidFormat("bad cursor header"));
    }
    if compression != 0 {
        return Err(MhkError::InvalidFormat("compressed cursor"));
    }
    // the stored height spans the index map and the mask
    let height32 = height32 / 2;
    if width32 > 256 || height32 > 256 {
        return Err(MhkError::InvalidFormat("oversized cursor"));
    }
    let w = width32 as usize;
    let h = height32 as usize;
    let colors: usize = if colors32 == 0 {
        if bpp == 1 {
            2
        } else if bpp == 8 {
            256
        } else {
            return Err(MhkError::InvalidFormat("unsupported cursor depth"));
        }
    } else {
        if colors32 > 256 {
            return Err(MhkError::InvalidFormat("oversized cursor palette"));
        }
        colors32 as usize
    };
    // the palette: one blue-green-red-reserved group per color
    if (s.len() - 44) / 4 < colors {
        return Err(MhkError::InvalidFormat("short cursor palette"));
    }
    proof {
        vstd::arithmetic::div_mod::lemma_fundamental_div_mod((s@.len() - 44) as int, 4);
    }
    let mut palette: Vec<Rgb> = Vec::new();
    let mut c: usize = 0;
    while c < colors
        invariant
            c <= colors,
            colors <= 256,
            44 + 4 * colors <= s@.len(),
            palette@.len() == c,
        decreases colors - c,
    {
        let base = 44 + 4 * c;
        palette.push(Rgb { r: s[base + 2], g: s[base + 1], b: s[base] });
        c = c + 1;
    }
    let xor_base = 44 + 4 * colors;
    // the index map: one byte per pixel, or one bit per pixel packed
    // most significant first
    proof {
        assert(w * h <= 0x10000) by (nonlinear_arith)
            requires
                w <= 256,
                h <= 256,
        ;
    }
    let npix = w * h;
    let mut xor: Vec<u8> = Vec::new();
    if bpp == 8 {
        if s.len() - xor_base < npix {
            return Err(MhkError::InvalidFormat("short cursor data"));
        }
        let mut i: usize = 0;
        while i < npix
            invariant
                i <= npix,
                npix <= 0x10000,
                xor_base + npix <= s@.len(),
                s@.len() <= usize::MAX,
                xor@.len() == i,
            decreases npix - i,
        {
            let b = s[xor_base + i];
            xor.push(b);
            i = i + 1;
        }
    } else if bpp == 1 {
        if w % 8 != 0 {
            return Err(MhkError::InvalidFormat("packed cursor pixels not aligned"));
        }
        let packed = npix / 8;
        if s.len() - xor_base < packed {
            return Err(MhkError::InvalidFormat("short cursor data"));
        }
        if 8 * packed != npix {
            return Err(MhkError::InvalidFormat("packed cursor pixels not aligned"));
        }
        proof {
            vstd::arithmetic::div_mod::lemma_fundamental_div_mod(npix as int, 8);
        }
        let mut j: usize = 0;
        while j < packed
            invariant
                j <= packed,
                packed <= 0x2000,
                8 * packed <= npix,
                xor_base + packed <= s@.len(),
                s@.len() <= usize::MAX,
                xor@.len() == 8 * j,
            decreases packed - j,
        {
            let byte = s[xor_base + j];
            let mut b: usize = 0;
            while b < 8
                invariant
                    b <= 8,
                    j < packed,
                    packed <= 0x2000,
                    xor@.len() == 8 * j + b,
                decreases 8 - b,
            {
                let bit = (byte >> ((7 - b) as u32)) & 1;
                xor.push(bit);
                b = b + 1;
            }
            j = j + 1;
        }
        proof {
            assert(xor@.len() == npix);
        }
    } else {
        return Err(MhkError::InvalidFormat("unsupported cursor depth"));
    }
    // the transparency mask: one bit per pixel, rows padded to bytes
    let width_packed = (w + 7) / 8;
    proof {
        assert(((w + 7) / 8) * h <= 0x10000) by (nonlinear_arith)
            requires
                w <= 256,
                h <= 256,
                (w + 7) / 8 <= 33,
        ;
        vstd::arithmetic::div_mod::lemma_fundamental_div_mod((w + 7) as int, 8);
    }
    let mask_len = width_packed * h;
    let and_base = xor_base + if bpp == 8 {
        npix
    } else {
        npix / 8
    };
    if s.len() < and_base || s.len() - and_base < mask_len {
        return Err(MhkError::InvalidFormat("short cursor mask"));
    }
    // assemble the image bottom-up
    let mut data: Vec<Rgba> = Vec::new();
    let mut y: usize = 0;
    while y < h
        invariant
            y <= h,
            w <= 256,
            h <= 256,
            npix == w * h,
            xor@.len() == npix,
            and_base + mask_len <= s@.len(),
            s@.len() <= usize::MAX,
            mask_len == ((w + 7) / 8) * h,
            palette@.len() == colors,
            data@.len() == y * w,
        decreases h - y,
    {
        let mut x: usize = 0;
        while x < w
            invariant
                x <= w,
                y < h,
                w <= 256,
                h <= 256,
                npix == w * h,
                xor@.len() == npix,
                and_base + mask_len <= s@.len(),
                s@.len() <= usize::MAX,
                mask_len == ((w + 7) / 8) * h,
                palette@.len() == colors,
                data@.len() == y * w + x,
            decreases w - x,
        {
            proof {
                assert((h - 1 - y) * w + x < h * w && h * w == w * h && (h - 1 - y) * w >= 0)
                    by (nonlinear_arith)
                    requires
                        0 <= y < h,
                        0 <= x < w,
                        h <= 256,
                        w <= 256,
                ;
            }
            let i = (h - 1 - y) * w + x;
            let idx = xor[i] as usize;
            if idx >= palette.len() {
                return Err(MhkError::InvalidFormat("bad cursor data"));
            }
            let color = palette[idx];
            proof {
                assert(i / 8 <= i && i < npix) by (nonlinear_arith)
                    requires
                        i == (h - 1 - y) * w + x,
                        0 <= i < w * h,
                        npix == w * h,
                        i / 8 <= i,
                ;
                vstd::arithmetic::div_mod::lemma_fundamental_div_mod(i as int, 8);
                assert(i / 8 < mask_len || mask_len * 8 <= i) by (nonlinear_arith)
                    requires
                        i < npix,
                        npix == w * h,
                        mask_len == ((w + 7) / 8) * h,
                        8 * (i / 8) <= i,
                        h <= 256,
                        w <= 256,
                ;
            }
            if i / 8 >= mask_len {
                return Err(MhkError::InvalidFormat("bad cursor data"));
            }
            let mask_byte = s[and_base + i / 8];
            let transparent = mask_byte & (1u8 << ((7 - (x % 8)) as u32)) != 0;
            let alpha: u8 = if transparent {
                0
            } else {
                255
            };
            data.push(Rgba { r: color.r, g: color.g, b: color.b, a: alpha });
            x = x + 1;
        }
        proof {
            assert(data@.len() == (y + 1) * w) by (nonlinear_arith)
                requires data@.len() == y * w + w;
        }
        y = y + 1;
    }
    proof {
        assert(data@.len() == width32 as int * height32 as int) by (nonlinear_arith)
            requires
                data@.len() == y * w,
                y == h,
                w == width32,
                h == height32,
        ;
    }
    Ok(crate::bitmap::Cursor {
        width: width32 as u16,
        height: height32 as u16,
        hotspot_x,
        hotspot_y,
        data,
    })
}

} // verus!
