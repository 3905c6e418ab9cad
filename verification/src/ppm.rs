//! Plain-text pixmap rendering of a captured frame: the byte-exact file
//! contents the screenshot dump program writes to disk. The magic line, the
//! dimensions, the maximum channel value, then one `r g b` line per pixel.

use vstd::prelude::*;

use crate::screenshot::{Bgra8, Screenshot};

verus! {

/// The decimal digits of `n` as ASCII bytes, most significant first, with no
/// leading zeros.
pub open spec fn dec_bytes(n: int) -> Seq<u8>
    recommends
        n >= 0,
    decreases n,
{
    if n < 10 {
        seq![(n + 48) as u8]
    } else {
        dec_bytes(n / 10) + seq![(n % 10 + 48) as u8]
    }
}

/// Render `n` in decimal onto the end of `out`.
fn push_dec(out: &mut Vec<u8>, n: usize)
    ensures
        final(out)@ == old(out)@ + dec_bytes(n as int),
    decreases n,
{
    if n >= 10 {
        push_dec(out, n / 10);
    }
    out.push((n % 10) as u8 + 48);
    proof {
        if n >= 10 {
            assert(out@ =~= old(out)@ + (dec_bytes(n as int / 10) + seq![
                (n as int % 10 + 48) as u8,
            ]));
        } else {
            assert(out@ =~= old(out)@ + seq![(n as int + 48) as u8]);
        }
    }
}

/// The text line for one pixel: red, green, blue in decimal, space separated,
/// newline terminated.
pub open spec fn ppm_pixel_line(p: Bgra8) -> Seq<u8> {
    dec_bytes(p.r as int) + seq![32u8] + dec_bytes(p.g as int) + seq![32u8] + dec_bytes(p.b as int)
        + seq![10u8]
}

/// The pixel lines of a whole frame, in order.
pub open spec fn ppm_pixel_lines(pixels: Seq<Bgra8>) -> Seq<u8>
    decreases pixels.len(),
{
    if pixels.len() == 0 {
        Seq::empty()
    } else {
        ppm_pixel_line(pixels[0]) + ppm_pixel_lines(pixels.skip(1))
    }
}

/// The full file contents for a frame: the plain-text pixmap magic line, the
/// width and height, the maximum channel value, then the pixel lines.
pub open spec fn ppm_bytes(pixels: Seq<Bgra8>, width: int, height: int) -> Seq<u8> {
    seq![80u8, 51u8, 10u8]  // the magic: an uppercase P, the digit three, a newline
     + dec_bytes(width) + seq![32u8] + dec_bytes(height) + seq![10u8] + dec_bytes(255) + seq![10u8]
        + ppm_pixel_lines(pixels)
}

/// Render a captured frame as a plain-text pixmap, byte for byte what the
/// screenshot dump program writes to disk.
pub fn ppm_encode(screenshot: &Screenshot) -> (out: Vec<u8>)
    ensures
        out@ == ppm_bytes(screenshot.pixels@, screenshot.width as int, screenshot.height as int),
{
    let ghost goal = ppm_bytes(
        screenshot.pixels@,
        screenshot.width as int,
        screenshot.height as int,
    );
    let mut out: Vec<u8> = Vec::new();
    out.push(80);
    out.push(51);
    out.push(10);
    push_dec(&mut out, screenshot.width);
    out.push(32);
    push_dec(&mut out, screenshot.height);
    out.push(10);
    push_dec(&mut out, 255);
    out.push(10);
    let ghost header = out@;
    proof {
        assert(goal =~= header + ppm_pixel_lines(screenshot.pixels@));
        assert(screenshot.pixels@.skip(0) =~= screenshot.pixels@);
    }
    let n = screenshot.pixels.len();
    let mut i: usize = 0;
    while i < n
        invariant
            n == screenshot.pixels@.len(),
            i <= n,
            goal == header + ppm_pixel_lines(screenshot.pixels@),
            goal == out@ + ppm_pixel_lines(screenshot.pixels@.skip(i as int)),
        decreases n - i,
    {
        let px = screenshot.pixels[i];
        let ghost rem = screenshot.pixels@.skip(i as int);
        let ghost out0 = out@;
        push_dec(&mut out, px.r as usize);
        out.push(32);
        push_dec(&mut out, px.g as usize);
        out.push(32);
        push_dec(&mut out, px.b as usize);
        out.push(10);
        proof {
            assert(rem[0] == px);
            assert(out@ =~= out0 + ppm_pixel_line(px));
            assert(rem.skip(1) =~= screenshot.pixels@.skip(i as int + 1));
            assert(ppm_pixel_lines(rem) == ppm_pixel_line(px) + ppm_pixel_lines(rem.skip(1)));
            assert(out0 + (ppm_pixel_line(px) + ppm_pixel_lines(rem.skip(1))) =~= out@
                + ppm_pixel_lines(rem.skip(1)));
        }
        i = i + 1;
    }
    proof {
        assert(screenshot.pixels@.skip(n as int) =~= Seq::<Bgra8>::empty());
        assert(out@ =~= goal);
    }
    out
}

} // verus!
