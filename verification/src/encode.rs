use vstd::prelude::*;
use vstd::string::*;
use crate::eval::Pixmap;
use crate::token::{dec_rep, u32_to_string};
use crate::Size;

verus! {

/// What the PNG encoder returns for one RGBA buffer: a fixed function of
/// the buffer and its dimensions, stated by name only.
pub uninterp spec fn png_bytes(data: Seq<u8>, w: int, h: int) -> Seq<u8>;

/// Relies on `png_encode_mini::write_rgba_from_u8`: it writes the PNG
/// encoding of an RGBA buffer, a fixed function of the buffer and its
/// dimensions, into the given writer. The encoder asserts that the buffer
/// holds `4 * w * h` bytes and computes `(4 * w + 1) * h` in 32 bits,
/// which the preconditions respect; it fails only when its writer fails,
/// and writing into an in-memory vector never does, so the encoding
/// always comes back.
#[verifier::external_body]
fn encode_png(img: &Pixmap) -> (r: Vec<u8>)
    requires
        img.wf(),
        (4 * img.width + 1) * img.height <= u32::MAX,
    ensures
        r@ == png_bytes(img.data@, img.width as int, img.height as int),
{
    let mut out: Vec<u8> = Vec::new();
    png_encode_mini::write_rgba_from_u8(&mut out, img.data.as_slice(), img.width, img.height)
        .unwrap();
    out
}

/// The archive member name of one image: its width for a square image,
/// else width by height, with the PNG suffix.
pub open spec fn png_name(w: u32, h: u32) -> Seq<char> {
    if w == h {
        dec_rep(w as nat) + ".png"@
    } else {
        dec_rep(w as nat) + seq!['x'] + dec_rep(h as nat) + ".png"@
    }
}

/// The archive member name of one image, executable form.
pub fn png_file_name(w: u32, h: u32) -> (r: String)
    ensures
        r@ == png_name(w, h),
{
    if w == h {
        let r = u32_to_string(w).concat(".png");
        r
    } else {
        let r = u32_to_string(w).concat("x").concat(u32_to_string(h).as_str()).concat(".png");
        proof {
            reveal_strlit("x");
            assert(r@ =~= dec_rep(w as nat) + seq!['x'] + dec_rep(h as nat) + ".png"@);
        }
        r
    }
}

/// One member of a PNG sequence: the archive name and the encoded bytes.
pub struct PngFile {
    pub name: String,
    pub data: Vec<u8>,
}

/// Encodes each scaled buffer as a PNG and names it after the buffer's
/// own dimensions, in plan order; the zipped archive of these members is
/// the PNG-sequence container. Every buffer within the encoder's 32-bit
/// bound encodes, so the member list is owed unconditionally.
pub fn png_sequence(images: &Vec<(Size, Pixmap)>) -> (r: Vec<PngFile>)
    requires
        forall|k: int|
            0 <= k < images@.len() ==> (#[trigger] images@[k]).1.wf() && (4 * images@[k].1.width
                + 1) * images@[k].1.height <= u32::MAX,
    ensures
        r@.len() == images@.len(),
        forall|k: int|
            0 <= k < r@.len() ==> (#[trigger] r@[k]).name@ == png_name(
                images@[k].1.width,
                images@[k].1.height,
            ) && r@[k].data@ == png_bytes(
                images@[k].1.data@,
                images@[k].1.width as int,
                images@[k].1.height as int,
            ),
{
    let mut out: Vec<PngFile> = Vec::new();
    let mut i: usize = 0;
    while i < images.len()
        invariant
            i <= images@.len(),
            forall|k: int|
                0 <= k < images@.len() ==> (#[trigger] images@[k]).1.wf() && (4
                    * images@[k].1.width + 1) * images@[k].1.height <= u32::MAX,
            out@.len() == i,
            forall|k: int|
                0 <= k < i ==> (#[trigger] out@[k]).name@ == png_name(
                    images@[k].1.width,
                    images@[k].1.height,
                ) && out@[k].data@ == png_bytes(
                    images@[k].1.data@,
                    images@[k].1.width as int,
                    images@[k].1.height as int,
                ),
        decreases images@.len() - i,
    {
        let buf = &images[i].1;
        let name = png_file_name(buf.width, buf.height);
        let data = encode_png(buf);
        out.push(PngFile { name, data });
        i += 1;
    }
    out
}

} // verus!
