//! Plain-text pixmap serialization of a rendered frame: a magic line, a
//! dimensions line, the maximum channel value, then one line per pixel
//! with its three channels as space-separated decimals in red, green,
//! blue order — the reverse of the packed in-memory byte order, so an
//! explicit unpack-and-reorder step is part of the format.

use vstd::prelude::*;
use vstd::arithmetic::div_mod::lemma_fundamental_div_mod;
use crate::palette::blue_byte;
use crate::palette::green_byte;
use crate::palette::red_byte;

verus! {

/// The decimal digits of `n`, most significant first, as ASCII bytes.
pub open spec fn dec_digits(n: int) -> Seq<u8>
    decreases n,
{
    if n < 10 {
        seq![(48 + n) as u8]
    } else {
        dec_digits(n / 10) + seq![(48 + n % 10) as u8]
    }
}

/// The numeric value of a run of ASCII digits, most significant first.
pub open spec fn dec_val(s: Seq<u8>) -> int
    decreases s.len(),
{
    if s.len() == 0 {
        0
    } else {
        10 * dec_val(s.drop_last()) + (s.last() - 48)
    }
}

pub open spec fn is_digit(b: u8) -> bool {
    48 <= b <= 57
}

pub open spec fn all_digits(s: Seq<u8>) -> bool {
    forall|k: int| 0 <= k < s.len() ==> is_digit(#[trigger] s[k])
}

/// One pixel's text line: red, green and blue as space-separated
/// decimals, closed by a line feed.
pub open spec fn pixel_line(px: u32) -> Seq<u8> {
    dec_digits(red_byte(px)) + seq![32u8] + dec_digits(green_byte(px)) + seq![32u8] + dec_digits(
        blue_byte(px),
    ) + seq![10u8]
}

/// The text lines of the first `k` pixels of the frame, concatenated.
pub open spec fn pixel_lines(frame: Seq<u32>, k: int) -> Seq<u8>
    decreases k,
{
    if k <= 0 {
        Seq::empty()
    } else {
        pixel_lines(frame, k - 1) + pixel_line(frame[k - 1])
    }
}

/// The file header: the format's magic line, the dimensions line, and
/// the maximum channel value line.
pub open spec fn ppm_header(w: int, h: int) -> Seq<u8> {
    seq![80u8, 51u8, 10u8] + dec_digits(w) + seq![32u8] + dec_digits(h) + seq![10u8] + seq![
        50u8,
        53u8,
        53u8,
        10u8,
    ]
}

/// The complete serialized file for one frame buffer.
pub open spec fn ppm_bytes_spec(frame: Seq<u32>, w: int, h: int) -> Seq<u8> {
    ppm_header(w, h) + pixel_lines(frame, frame.len() as int)
}

/// Append the decimal digits of `n` to `out`.
fn push_dec(out: &mut Vec<u8>, n: u64)
    ensures
        final(out)@ == old(out)@ + dec_digits(n as int),
    decreases n,
{
    if n < 10 {
        out.push(48 + n as u8);
        proof {
            assert(out@ =~= old(out)@ + dec_digits(n as int));
        }
    } else {
        push_dec(out, n / 10);
        out.push((48 + n % 10) as u8);
        proof {
            assert(out@ =~= old(out)@ + dec_digits(n as int));
        }
    }
}

/// Append one pixel's text line to `out`.
fn push_pixel_line(out: &mut Vec<u8>, px: u32)
    ensures
        final(out)@ == old(out)@ + pixel_line(px),
{
    push_dec(out, ((px / 65536) % 256) as u64);
    out.push(32);
    push_dec(out, ((px / 256) % 256) as u64);
    out.push(32);
    push_dec(out, (px % 256) as u64);
    out.push(10);
    proof {
        assert(out@ =~= old(out)@ + pixel_line(px));
    }
}

/// Serialize a frame buffer of the given logical dimensions to the bytes
/// of the plain-text pixmap file.
pub fn ppm_bytes(frame: &Vec<u32>, width: usize, height: usize) -> (out: Vec<u8>)
    ensures
        out@ == ppm_bytes_spec(frame@, width as int, height as int),
{
    let mut out: Vec<u8> = Vec::new();
    out.push(80);
    out.push(51);
    out.push(10);
    push_dec(&mut out, width as u64);
    out.push(32);
    push_dec(&mut out, height as u64);
    out.push(10);
    out.push(50);
    out.push(53);
    out.push(53);
    out.push(10);
    proof {
        assert(out@ =~= ppm_header(width as int, height as int));
    }
    let ghost header = out@;
    let mut k: usize = 0;
    while k < frame.len()
        invariant
            k <= frame@.len(),
            header == ppm_header(width as int, height as int),
            out@ == header + pixel_lines(frame@, k as int),
        decreases frame@.len() - k,
    {
        push_pixel_line(&mut out, frame[k]);
        proof {
            assert(out@ =~= header + pixel_lines(frame@, k as int + 1));
        }
        k = k + 1;
    }
    out
}

/// Law: decimal rendering round-trips — parsing the rendered digits of a
/// nonnegative number gives the number back, and every rendered byte is
/// a digit.
pub proof fn lemma_dec_round_trip(n: int)
    requires
        0 <= n,
    ensures
        dec_val(dec_digits(n)) == n,
        all_digits(dec_digits(n)),
        1 <= dec_digits(n).len(),
    decreases n,
{
    if n < 10 {
        let s = dec_digits(n);
        assert(s.drop_last() =~= Seq::<u8>::empty());
        assert(dec_val(Seq::<u8>::empty()) == 0);
        assert(s.last() == (48 + n) as u8);
    } else {
        lemma_dec_round_trip(n / 10);
        let s = dec_digits(n);
        assert(s.drop_last() =~= dec_digits(n / 10));
        assert(s.last() == (48 + n % 10) as u8);
        lemma_fundamental_div_mod(n, 10);
    }
}

/// Index of the first occurrence of `b` in `s`, or -1 when absent.
pub open spec fn find_byte(s: Seq<u8>, b: u8) -> int
    decreases s.len(),
{
    if s.len() == 0 {
        -1
    } else if s[0] == b {
        0
    } else {
        let r = find_byte(s.skip(1), b);
        if r < 0 {
            -1
        } else {
            1 + r
        }
    }
}

/// Parse one pixel line: two space-separated decimal fields and a third
/// closed by the line feed; `None` when the bytes are not of that shape.
pub open spec fn parse_pixel_line(s: Seq<u8>) -> Option<(int, int, int)> {
    let i = find_byte(s, 32);
    if i < 0 {
        None
    } else {
        let f1 = s.take(i);
        let rest = s.skip(i + 1);
        let j = find_byte(rest, 32);
        if j < 0 {
            None
        } else {
            let f2 = rest.take(j);
            let rest2 = rest.skip(j + 1);
            if rest2.len() == 0 || rest2.last() != 10 {
                None
            } else {
                let f3 = rest2.drop_last();
                if f1.len() > 0 && f2.len() > 0 && f3.len() > 0 && all_digits(f1) && all_digits(f2)
                    && all_digits(f3) {
                    Some((dec_val(f1), dec_val(f2), dec_val(f3)))
                } else {
                    None
                }
            }
        }
    }
}

/// Where a prefix holds no occurrence of `b` and the tail starts with
/// one, the first occurrence in the concatenation is right after the
/// prefix.
proof fn lemma_find_byte_concat(a: Seq<u8>, tail: Seq<u8>, b: u8)
    requires
        forall|k: int| 0 <= k < a.len() ==> (#[trigger] a[k]) != b,
        tail.len() > 0,
        tail[0] == b,
    ensures
        find_byte(a + tail, b) == a.len(),
    decreases a.len(),
{
    if a.len() == 0 {
        assert(a + tail =~= tail);
    } else {
        lemma_find_byte_concat(a.skip(1), tail, b);
        assert((a + tail).skip(1) =~= a.skip(1) + tail);
    }
}

/// Law: a pixel's text line parses back to exactly its three channels,
/// reordered from the packed blue, green, red layout to red, green,
/// blue text order.
pub proof fn lemma_pixel_line_round_trip(px: u32)
    ensures
        parse_pixel_line(pixel_line(px)) == Some(
            (red_byte(px), green_byte(px), blue_byte(px)),
        ),
{
    let r = red_byte(px);
    let g = green_byte(px);
    let b = blue_byte(px);
    lemma_dec_round_trip(r);
    lemma_dec_round_trip(g);
    lemma_dec_round_trip(b);
    let dr = dec_digits(r);
    let dg = dec_digits(g);
    let db = dec_digits(b);
    let s = pixel_line(px);
    let tail1 = seq![32u8] + dg + seq![32u8] + db + seq![10u8];
    assert(s =~= dr + tail1);
    lemma_find_byte_concat(dr, tail1, 32);
    assert(find_byte(s, 32) == dr.len());
    assert(s.take(dr.len() as int) =~= dr);
    let rest = s.skip(dr.len() as int + 1);
    let tail2 = seq![32u8] + db + seq![10u8];
    assert(rest =~= dg + tail2);
    lemma_find_byte_concat(dg, tail2, 32);
    assert(find_byte(rest, 32) == dg.len());
    assert(rest.take(dg.len() as int) =~= dg);
    let rest2 = rest.skip(dg.len() as int + 1);
    assert(rest2 =~= db + seq![10u8]);
    assert(rest2.last() == 10);
    assert(rest2.drop_last() =~= db);
}

/// Law: the serialized file is the header followed by one text line per
/// pixel, and every pixel's line parses back to that pixel's channels.
pub proof fn lemma_export_round_trip(frame: Seq<u32>, w: int, h: int)
    ensures
        ppm_bytes_spec(frame, w, h) == ppm_header(w, h) + pixel_lines(
            frame,
            frame.len() as int,
        ),
        forall|k: int|
            0 <= k < frame.len() ==> parse_pixel_line(pixel_line(#[trigger] frame[k])) == Some(
                (red_byte(frame[k]), green_byte(frame[k]), blue_byte(frame[k])),
            ),
{
    assert forall|k: int|
        0 <= k < frame.len() implies parse_pixel_line(pixel_line(#[trigger] frame[k])) == Some(
        (red_byte(frame[k]), green_byte(frame[k]), blue_byte(frame[k])),
    ) by {
        lemma_pixel_line_round_trip(frame[k]);
    }
}

} // verus!
