//! Planet texture maps in binary PPM (`P6`) form.

use vstd::prelude::*;
use crate::numbers::{read_unsigned, unsigned_text};

verus! {

pub struct PlanetTexture {
    pub width: u32,
    pub height: u32,
    /// RGB triples, row by row.
    pub pixels: Vec<u8>,
}

/// The bytes that separate header fields.
pub open spec fn is_sep(b: u8) -> bool {
    b == 0x20 || b == 0x09 || b == 0x0d || b == 0x0a
}

/// The end of the comment line whose text starts at `p`: the next newline,
/// or the end of the data.
pub open spec fn comment_end(d: Seq<u8>, p: nat) -> nat
    decreases d.len() - p,
{
    if p >= d.len() || d[p as int] == 0x0a {
        p
    } else {
        comment_end(d, p + 1)
    }
}

pub proof fn lemma_comment_end(d: Seq<u8>, p: nat)
    ensures
        comment_end(d, p) >= p,
        p <= d.len() ==> comment_end(d, p) <= d.len(),
        forall|i: int| p <= i < comment_end(d, p) ==> d[i] != 0x0a,
        comment_end(d, p) < d.len() ==> d[comment_end(d, p) as int] == 0x0a,
    decreases d.len() - p,
{
    if p < d.len() && d[p as int] != 0x0a {
        lemma_comment_end(d, p + 1);
    }
}

/// Where the next header field starts at or after `p`: separators and `#`
/// comments running to the end of their line are skipped.
pub open spec fn skip_space(d: Seq<u8>, p: nat) -> nat
    decreases d.len() - p,
{
    if p >= d.len() {
        p
    } else if is_sep(d[p as int]) {
        skip_space(d, p + 1)
    } else if d[p as int] == 0x23 {
        proof {
            lemma_comment_end(d, p + 1);
        }
        if comment_end(d, p + 1) > p {
            skip_space(d, comment_end(d, p + 1))
        } else {
            p
        }
    } else {
        p
    }
}

/// The end of the field that starts at `p`.
pub open spec fn field_end(d: Seq<u8>, p: nat) -> nat
    decreases d.len() - p,
{
    if p >= d.len() || is_sep(d[p as int]) {
        p
    } else {
        field_end(d, p + 1)
    }
}

/// The next header field after `p`, and where it ends; `None` at the end of
/// the data.
pub open spec fn field_at(d: Seq<u8>, p: nat) -> Option<(Seq<u8>, nat)> {
    let s = skip_space(d, p);
    let e = field_end(d, s);
    if e == s || e > d.len() {
        None
    } else {
        Some((d.subrange(s as int, e as int), e))
    }
}

/// What a header field reads as a `u32`.
pub open spec fn field_u32(f: Seq<u8>) -> Option<nat> {
    unsigned_text(f.map_values(|b: u8| b as char), 10, u32::MAX as nat)
}

/// Width, height, largest channel value and where the pixel data starts,
/// when `d` starts with a well-formed `P6` header.
pub open spec fn ppm_header(d: Seq<u8>) -> Option<(nat, nat, nat, nat)> {
    if d.len() < 2 || d[0] != 0x50 || d[1] != 0x36 {
        None
    } else {
        match field_at(d, 2) {
            None => None,
            Some((wf, p1)) => match field_at(d, p1) {
                None => None,
                Some((hf, p2)) => match field_at(d, p2) {
                    None => None,
                    Some((mf, p3)) => match (field_u32(wf), field_u32(hf), field_u32(mf)) {
                        (Some(w), Some(h), Some(m)) => Some(
                            (
                                w,
                                h,
                                m,
                                if p3 < d.len() && is_sep(d[p3 as int]) {
                                    p3 + 1
                                } else {
                                    p3
                                },
                            ),
                        ),
                        _ => None,
                    },
                },
            },
        }
    }
}

/// The header's sizes are within what decoding can compute: the number of
/// channel bytes fits in `u32`, a largest value of 0 only with no pixels, and
/// the end of the pixel data fits in `usize`.
pub open spec fn ppm_fits(d: Seq<u8>) -> bool {
    match ppm_header(d) {
        None => true,
        Some((w, h, m, pos)) => {
            &&& w * h * 3 <= u32::MAX
            &&& pos + w * h * 3 <= usize::MAX
            &&& (m == 0 ==> w * h == 0 || pos + w * h * 3 > d.len())
        },
    }
}

/// The texture that `d` encodes: `None` without a well-formed header or with
/// too little pixel data. Channels are scaled to 255 unless the largest value
/// is 255 already (keeping the low 8 bits of the scaled value).
pub open spec fn ppm_texture(d: Seq<u8>) -> Option<(nat, nat, Seq<u8>)> {
    match ppm_header(d) {
        None => None,
        Some((w, h, m, pos)) => {
            let n = w * h * 3;
            if pos + n > d.len() {
                None
            } else {
                let raw = d.subrange(pos as int, (pos + n) as int);
                Some(
                    (
                        w,
                        h,
                        if m == 255 {
                            raw
                        } else {
                            raw.map_values(|b: u8| ((b as nat * 255) / m) as u8)
                        },
                    ),
                )
            }
        },
    }
}

fn sep(b: u8) -> (r: bool)
    ensures
        r == is_sep(b),
{
    b == 0x20 || b == 0x09 || b == 0x0d || b == 0x0a
}

fn skip_space_from(d: &[u8], p: usize) -> (r: usize)
    requires
        p <= d@.len(),
    ensures
        r as nat == skip_space(d@, p as nat),
        r <= d@.len(),
{
    let ghost p0 = p as nat;
    let mut c = p;
    loop
        invariant
            c <= d@.len(),
            p0 == p as nat,
            skip_space(d@, c as nat) == skip_space(d@, p0),
        decreases d@.len() - c,
    {
        if c < d.len() && sep(d[c]) {
            c += 1;
        } else if c < d.len() && d[c] == 0x23 {
            let ghost q = c;
            proof {
                lemma_comment_end(d@, (c + 1) as nat);
            }
            c += 1;
            while c < d.len() && d[c] != 0x0a
                invariant
                    q < c <= d@.len(),
                    comment_end(d@, c as nat) == comment_end(d@, (q + 1) as nat),
                decreases d@.len() - c,
            {
                c += 1;
            }
        } else {
            assert(skip_space(d@, c as nat) == c as nat);
            return c;
        }
    }
}

fn field_end_from(d: &[u8], p: usize) -> (r: usize)
    requires
        p <= d@.len(),
    ensures
        r as nat == field_end(d@, p as nat),
        p <= r <= d@.len(),
{
    let mut e = p;
    while e < d.len() && !sep(d[e])
        invariant
            p <= e <= d@.len(),
            field_end(d@, e as nat) == field_end(d@, p as nat),
        decreases d@.len() - e,
    {
        e += 1;
    }
    e
}

/// Reads the header field after `p` as a `u32`, with where the field ends.
fn read_field(d: &[u8], p: usize) -> (r: Option<(Option<u32>, usize)>)
    requires
        p <= d@.len(),
    ensures
        match (r, field_at(d@, p as nat)) {
            (None, None) => true,
            (Some((v, e)), Some((f, fe))) => e as nat == fe && e <= d@.len() && match v {
                Some(v) => field_u32(f) == Some(v as nat),
                None => field_u32(f) is None,
            },
            _ => false,
        },
{
    let s = skip_space_from(d, p);
    let e = field_end_from(d, s);
    if e == s {
        return None;
    }
    let mut cs: Vec<char> = Vec::new();
    let mut i = s;
    while i < e
        invariant
            s <= i <= e <= d@.len(),
            cs@ == d@.subrange(s as int, i as int).map_values(|b: u8| b as char),
        decreases e - i,
    {
        cs.push(d[i] as char);
        i += 1;
        assert(cs@ =~= d@.subrange(s as int, i as int).map_values(|b: u8| b as char));
    }
    let v = match read_unsigned(&cs, 10, u32::MAX as u64) {
        Some(v) => Some(v as u32),
        None => None,
    };
    Some((v, e))
}

/// The header of `d`: width, height, largest value and where pixels start.
fn read_header(d: &[u8]) -> (r: Option<(u32, u32, u32, usize)>)
    ensures
        match (r, ppm_header(d@)) {
            (None, None) => true,
            (Some((w, h, m, p)), Some((sw, sh, sm, sp))) => w as nat == sw && h as nat == sh && m
                as nat == sm && p as nat == sp && p <= d@.len(),
            _ => false,
        },
{
    if d.len() < 2 || d[0] != 0x50 || d[1] != 0x36 {
        return None;
    }
    let (wv, p1) = match read_field(d, 2) {
        Some(x) => x,
        None => return None,
    };
    let (hv, p2) = match read_field(d, p1) {
        Some(x) => x,
        None => return None,
    };
    let (mv, p3) = match read_field(d, p2) {
        Some(x) => x,
        None => return None,
    };
    let (w, h, m) = match (wv, hv, mv) {
        (Some(w), Some(h), Some(m)) => (w, h, m),
        _ => return None,
    };
    let pos = if p3 < d.len() && sep(d[p3]) {
        p3 + 1
    } else {
        p3
    };
    Some((w, h, m, pos))
}

/// Whether the sizes in `d`'s header are within what `from_ppm` computes.
pub fn ppm_within_limits(d: &[u8]) -> (b: bool)
    ensures
        b == ppm_fits(d@),
{
    match read_header(d) {
        None => true,
        Some((w, h, m, pos)) => {
            assert((w as u128) * (h as u128) <= 0x1_0000_0000_0000_0000) by (nonlinear_arith)
                requires
                    w <= u32::MAX,
                    h <= u32::MAX,
            ;
            let wh = (w as u128) * (h as u128);
            let n = wh * 3;
            assert(n == w * h * 3) by (nonlinear_arith)
                requires
                    n == wh * 3,
                    wh == (w as u128) * (h as u128),
            ;
            n <= u32::MAX as u128 && (pos as u128) + n <= usize::MAX as u128 && (m != 0 || wh == 0
                || (pos as u128) + n > d.len() as u128)
        },
    }
}

impl PlanetTexture {
    /// Decodes a binary PPM image; `None` when the data is not one.
    pub fn from_ppm(d: &[u8]) -> (t: Option<PlanetTexture>)
        requires
            ppm_fits(d@),
        ensures
            match (t, ppm_texture(d@)) {
                (None, None) => true,
                (Some(t), Some((w, h, px))) => t.width as nat == w && t.height as nat == h
                    && t.pixels@ == px,
                _ => false,
            },
    {
        let (w, h, m, pos) = match read_header(d) {
            Some(x) => x,
            None => return None,
        };
        proof {
            assert(w * h * 3 <= u32::MAX);
            assert(0 <= w * h) by (nonlinear_arith);
        }
        let n = (w * h * 3) as usize;
        if n > d.len() - pos {
            return None;
        }
        let mut px: Vec<u8> = Vec::new();
        let mut i: usize = 0;
        while i < n
            invariant
                i <= n,
                pos + n <= d@.len(),
                pos + n <= d.len(),
                m as nat == match ppm_header(d@) {
                    Some((_, _, sm, _)) => sm,
                    None => 0,
                },
                m == 0 ==> n == 0,
                px@ == d@.subrange(pos as int, (pos + i) as int).map_values(
                    |b: u8| if m == 255 {
                        b
                    } else {
                        ((b as nat * 255) / (m as nat)) as u8
                    },
                ),
            decreases n - i,
        {
            let b = d[pos + i];
            let v: u8 = if m == 255 {
                b
            } else {
                (((b as u32) * 255) / m) as u8
            };
            px.push(v);
            i += 1;
            assert(px@ =~= d@.subrange(pos as int, (pos + i) as int).map_values(
                |b: u8| if m == 255 {
                    b
                } else {
                    ((b as nat * 255) / (m as nat)) as u8
                },
            ));
        }
        proof {
            let raw = d@.subrange(pos as int, (pos + n) as int);
            if m == 255 {
                assert(px@ =~= raw);
            } else {
                assert(px@ =~= raw.map_values(|b: u8| ((b as nat * 255) / (m as nat)) as u8));
            }
        }
        Some(PlanetTexture { width: w, height: h, pixels: px })
    }
}

} // verus!
