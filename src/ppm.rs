use vstd::prelude::*;

verus! {

/// One 8-bit RGB pixel, each channel in `0..=255`.
#[derive(Clone, Copy, Debug, PartialEq, Eq, Structural)]
pub struct Pixel {
    pub r: u8,
    pub g: u8,
    pub b: u8,
}

/// The decimal digits of `n`, most significant first, as ASCII bytes.
pub open spec fn decimal(n: nat) -> Seq<u8>
    decreases n,
{
    if n < 10 {
        seq![(48 + n) as u8]
    } else {
        decimal(n / 10).push((48 + n % 10) as u8)
    }
}

/// The plain-text PPM header: the ASCII magic number, the dimensions, and the maximum value 255.
pub open spec fn header_text(width: nat, height: nat) -> Seq<u8> {
    seq![80u8, 51u8, 10u8] + decimal(width) + seq![32u8] + decimal(height) + seq![10u8]
        + seq![50u8, 53u8, 53u8, 10u8]
}

/// One pixel as a line `R G B`.
pub open spec fn pixel_text(p: Pixel) -> Seq<u8> {
    decimal(p.r as nat) + seq![32u8] + decimal(p.g as nat) + seq![32u8] + decimal(p.b as nat)
        + seq![10u8]
}

/// The lines of the first `n` pixels, in order.
pub open spec fn pixels_text(pixels: Seq<Pixel>, n: nat) -> Seq<u8>
    decreases n,
{
    if n == 0 || n > pixels.len() {
        Seq::empty()
    } else {
        pixels_text(pixels, (n - 1) as nat) + pixel_text(pixels[n - 1])
    }
}

/// A whole image: the header, then every pixel row-major from the top-left.
pub open spec fn image_text(width: nat, height: nat, pixels: Seq<Pixel>) -> Seq<u8> {
    header_text(width, height) + pixels_text(pixels, pixels.len())
}

/// Appends the decimal digits of `n` to `out`.
pub fn push_decimal(out: &mut Vec<u8>, n: u64)
    ensures
        final(out)@ == old(out)@ + decimal(n as nat),
    decreases n,
{
    if n < 10 {
        out.push((48 + n) as u8);
    } else {
        push_decimal(out, n / 10);
        out.push((48 + n % 10) as u8);
        assert(out@ =~= old(out)@ + decimal(n as nat));
    }
}

/// The decimal text of `n`.
pub fn decimal_text(n: u64) -> (r: Vec<u8>)
    ensures
        r@ == decimal(n as nat),
{
    let mut out: Vec<u8> = Vec::new();
    push_decimal(&mut out, n);
    assert(out@ =~= decimal(n as nat));
    out
}

/// Appends the PPM header for an image of the given size to `out`.
pub fn push_header(out: &mut Vec<u8>, width: u32, height: u32)
    ensures
        final(out)@ == old(out)@ + header_text(width as nat, height as nat),
{
    out.push(80u8);
    out.push(51u8);
    out.push(10u8);
    push_decimal(out, width as u64);
    out.push(32u8);
    push_decimal(out, height as u64);
    out.push(10u8);
    out.push(50u8);
    out.push(53u8);
    out.push(53u8);
    out.push(10u8);
    assert(out@ =~= old(out)@ + header_text(width as nat, height as nat));
}

/// Appends one pixel line to `out`.
pub fn push_pixel(out: &mut Vec<u8>, p: Pixel)
    ensures
        final(out)@ == old(out)@ + pixel_text(p),
{
    push_decimal(out, p.r as u64);
    out.push(32u8);
    push_decimal(out, p.g as u64);
    out.push(32u8);
    push_decimal(out, p.b as u64);
    out.push(10u8);
    assert(out@ =~= old(out)@ + pixel_text(p));
}

/// Encodes an image as plain-text PPM. Returns `None` when the number of pixels is not
/// `width * height`.
pub fn encode_image(width: u32, height: u32, pixels: &Vec<Pixel>) -> (r: Option<Vec<u8>>)
    ensures
        r is None <==> pixels@.len() != width as nat * height as nat,
        r matches Some(text) ==> text@ == image_text(width as nat, height as nat, pixels@),
{
    assert(width as nat * height as nat <= 0xffff_ffff * 0xffff_ffff) by (nonlinear_arith);
    let count: u64 = width as u64 * height as u64;
    if pixels.len() as u64 != count {
        return None;
    }
    let mut out: Vec<u8> = Vec::new();
    push_header(&mut out, width, height);
    let ghost head = out@;
    let mut i: usize = 0;
    while i < pixels.len()
        invariant
            i <= pixels@.len(),
            head == header_text(width as nat, height as nat),
            out@ == head + pixels_text(pixels@, i as nat),
        decreases pixels@.len() - i,
    {
        push_pixel(&mut out, pixels[i]);
        assert(out@ =~= head + pixels_text(pixels@, (i + 1) as nat));
        i += 1;
    }
    Some(out)
}

} // verus!
