use vstd::prelude::*;
use vstd::arithmetic::div_mod::{lemma_fundamental_div_mod, lemma_mod_bound};
use crate::error::{Error, ValidationError};
use crate::plan::{BuildPlan, Entry};
use crate::{FitType, ResamplingFilter, Size};

verus! {

/// A decoded raster image: RGBA bytes, row-major, four bytes per pixel.
#[derive(Clone, Debug)]
pub struct Pixmap {
    pub width: u32,
    pub height: u32,
    pub data: Vec<u8>,
}

impl Pixmap {
    /// Both dimensions are populated and the buffer holds exactly one
    /// four-byte pixel per grid cell.
    pub open spec fn wf(&self) -> bool {
        &&& 1 <= self.width
        &&& 1 <= self.height
        &&& self.data@.len() == 4 * self.width * self.height
    }
}

/// How a source file was decoded: from a raster format, or rasterized
/// from a vector format at its native resolution.
#[derive(Clone, Copy, Debug, PartialEq, Eq, Structural)]
pub enum SourceKind {
    Raster,
    Vector,
}

/// One decoded source image, keyed by the path it was decoded from.
#[derive(Clone, Debug)]
pub struct SourceImage {
    pub path: String,
    pub kind: SourceKind,
    pub pixels: Pixmap,
}

/// The larger of two integers.
pub open spec fn larger(a: int, b: int) -> int {
    if a >= b {
        a
    } else {
        b
    }
}

/// Width of the largest box inside `bw` x `bh` that keeps the `sw` : `sh`
/// aspect ratio, never below one pixel.
pub open spec fn fit_w(sw: int, sh: int, bw: int, bh: int) -> int {
    if sw * bh <= sh * bw {
        let w0 = (sw * bh) / sh;
        if w0 < 1 {
            1
        } else {
            w0
        }
    } else {
        bw
    }
}

/// Height counterpart of `fit_w`.
pub open spec fn fit_h(sw: int, sh: int, bw: int, bh: int) -> int {
    if sw * bh <= sh * bw {
        bh
    } else {
        let h0 = (sh * bw) / sw;
        if h0 < 1 {
            1
        } else {
            h0
        }
    }
}

/// `w` x `h` has the `sw` : `sh` aspect ratio up to one pixel of rounding:
/// the cross products differ by less than one source row or column.
pub open spec fn aspect_close(sw: int, sh: int, w: int, h: int) -> bool {
    -larger(sw, sh) <= w * sh - h * sw <= larger(sw, sh)
}

/// The proportional fit stays inside the box, touches it on one axis, and
/// keeps the source aspect ratio within one pixel of rounding.
pub proof fn lemma_fit_dims(sw: int, sh: int, bw: int, bh: int)
    requires
        1 <= sw,
        1 <= sh,
        1 <= bw,
        1 <= bh,
    ensures
        1 <= fit_w(sw, sh, bw, bh) <= bw,
        1 <= fit_h(sw, sh, bw, bh) <= bh,
        fit_w(sw, sh, bw, bh) == bw || fit_h(sw, sh, bw, bh) == bh,
        aspect_close(sw, sh, fit_w(sw, sh, bw, bh), fit_h(sw, sh, bw, bh)),
{
    if sw * bh <= sh * bw {
        let p = sw * bh;
        let q = p / sh;
        let m = p % sh;
        lemma_fundamental_div_mod(p, sh);
        assert(p >= 0) by (nonlinear_arith)
            requires
                sw >= 1,
                bh >= 1,
                p == sw * bh,
        ;
        lemma_mod_bound(p, sh);
        assert(q >= 0) by (nonlinear_arith)
            requires
                p == sh * q + m,
                0 <= m < sh,
                p >= 0,
                sh >= 1,
        ;
        assert(q <= bw) by (nonlinear_arith)
            requires
                p == sh * q + m,
                0 <= m < sh,
                p <= sh * bw,
                sh >= 1,
        ;
        let w = fit_w(sw, sh, bw, bh);
        assert(w * sh - bh * sw == if q < 1 {
            sh - p
        } else {
            -m
        }) by (nonlinear_arith)
            requires
                p == sh * q + m,
                p == sw * bh,
                w == if q < 1 {
                    1int
                } else {
                    q
                },
        ;
        if q < 1 {
            assert(p < sh) by (nonlinear_arith)
                requires
                    p == sh * q + m,
                    0 <= m < sh,
                    q == 0,
            ;
        }
    } else {
        let p = sh * bw;
        let q = p / sw;
        let m = p % sw;
        lemma_fundamental_div_mod(p, sw);
        assert(p >= 0) by (nonlinear_arith)
            requires
                sh >= 1,
                bw >= 1,
                p == sh * bw,
        ;
        lemma_mod_bound(p, sw);
        assert(q >= 0) by (nonlinear_arith)
            requires
                p == sw * q + m,
                0 <= m < sw,
                p >= 0,
                sw >= 1,
        ;
        assert(q <= bh) by (nonlinear_arith)
            requires
                p == sw * q + m,
                0 <= m < sw,
                p <= sw * bh,
                sw >= 1,
        ;
        let h = fit_h(sw, sh, bw, bh);
        assert(bw * sh - h * sw == if q < 1 {
            p - sw
        } else {
            m
        }) by (nonlinear_arith)
            requires
                p == sw * q + m,
                p == sh * bw,
                h == if q < 1 {
                    1int
                } else {
                    q
                },
        ;
        if q < 1 {
            assert(p < sw) by (nonlinear_arith)
                requires
                    p == sw * q + m,
                    0 <= m < sw,
                    q == 0,
            ;
        }
    }
}

/// The largest box inside `bw` x `bh` that keeps the source aspect ratio,
/// clamped to at least one pixel on each axis.
pub fn fit_dimensions(sw: u32, sh: u32, bw: u32, bh: u32) -> (r: (u32, u32))
    requires
        1 <= sw,
        1 <= sh,
        1 <= bw,
        1 <= bh,
    ensures
        r.0 == fit_w(sw as int, sh as int, bw as int, bh as int),
        r.1 == fit_h(sw as int, sh as int, bw as int, bh as int),
        1 <= r.0 <= bw,
        1 <= r.1 <= bh,
        r.0 == bw || r.1 == bh,
        aspect_close(sw as int, sh as int, r.0 as int, r.1 as int),
{
    proof {
        lemma_fit_dims(sw as int, sh as int, bw as int, bh as int);
        assert((sw as u64) * (bh as u64) <= 0xFFFF_FFFFu64 * 0xFFFF_FFFFu64) by (nonlinear_arith)
            requires
                sw as u64 <= 0xFFFF_FFFFu64,
                bh as u64 <= 0xFFFF_FFFFu64,
        ;
        assert((sh as u64) * (bw as u64) <= 0xFFFF_FFFFu64 * 0xFFFF_FFFFu64) by (nonlinear_arith)
            requires
                sh as u64 <= 0xFFFF_FFFFu64,
                bw as u64 <= 0xFFFF_FFFFu64,
        ;
    }
    let a = (sw as u64) * (bh as u64);
    let b = (sh as u64) * (bw as u64);
    if a <= b {
        let q = a / (sh as u64);
        let w = if q < 1 {
            1u64
        } else {
            q
        };
        ((w as u32), bh)
    } else {
        let q = b / (sw as u64);
        let h = if q < 1 {
            1u64
        } else {
            q
        };
        (bw, (h as u32))
    }
}

/// What the resampling kernel of the image library returns for one buffer
/// and one target box: a fixed function of the buffer, the dimensions and
/// the kernel, stated by name only.
pub uninterp spec fn resampled(
    data: Seq<u8>,
    sw: int,
    sh: int,
    nw: int,
    nh: int,
    filter: ResamplingFilter,
) -> Seq<u8>;

/// Relies on `image::imageops::resize`: it returns a buffer of exactly
/// `nw` x `nh` pixels, resampled with the chosen kernel, and its pixels
/// depend only on the input buffer, the dimensions and the kernel. It
/// samples through an intermediate buffer of the source width by the
/// target height, so that product must fit alongside the output's.
#[verifier::external_body]
fn resample_rgba(img: &Pixmap, nw: u32, nh: u32, filter: ResamplingFilter) -> (r: Pixmap)
    requires
        img.wf(),
        1 <= nw,
        1 <= nh,
        4 * nw * nh <= usize::MAX,
        4 * img.width * nh <= usize::MAX,
    ensures
        r.width == nw,
        r.height == nh,
        r.wf(),
        r.data@ == resampled(
            img.data@,
            img.width as int,
            img.height as int,
            nw as int,
            nh as int,
            filter,
        ),
{
    let buf = image::RgbaImage::from_raw(img.width, img.height, img.data.clone()).unwrap();
    let kernel = match filter {
        ResamplingFilter::Nearest => image::imageops::FilterType::Nearest,
        ResamplingFilter::Linear => image::imageops::FilterType::Triangle,
        ResamplingFilter::Cubic => image::imageops::FilterType::CatmullRom,
    };
    let out = image::imageops::resize(&buf, nw, nh, kernel);
    Pixmap { width: nw, height: nh, data: out.into_raw() }
}

/// A `src_w` x `src_h` buffer composited into the centre of a transparent
/// `w` x `h` canvas, with integer-floor centering offsets on each axis.
pub open spec fn embedded(src_w: int, src_h: int, data: Seq<u8>, w: int, h: int) -> Seq<u8> {
    let dx = (w - src_w) / 2;
    let dy = (h - src_h) / 2;
    Seq::new(
        (4 * w * h) as nat,
        |i: int|
            {
                let p = i / 4;
                let c = i % 4;
                let y = p / w;
                let x = p % w;
                if dx <= x < dx + src_w && dy <= y < dy + src_h {
                    data[4 * ((y - dy) * src_w + (x - dx)) + c]
                } else {
                    0u8
                }
            },
    )
}

/// Composites `img` centred onto a transparent canvas of exactly `w` x
/// `h`, padding with fully transparent pixels.
pub fn center_pad(img: &Pixmap, w: u32, h: u32) -> (r: Pixmap)
    requires
        img.wf(),
        img.width <= w,
        img.height <= h,
        4 * w * h <= usize::MAX,
    ensures
        r.wf(),
        r.width == w,
        r.height == h,
        r.data@ == embedded(img.width as int, img.height as int, img.data@, w as int, h as int),
{
    let iw = img.width as usize;
    let ih = img.height as usize;
    let wu = w as usize;
    let hu = h as usize;
    let dx = (wu - iw) / 2;
    let dy = (hu - ih) / 2;
    let dlen = img.data.len();
    proof {
        assert(4 * wu <= 4 * wu * hu) by (nonlinear_arith)
            requires
                hu >= 1,
                wu >= 0,
        ;
    }
    let total = 4 * wu * hu;
    let ghost emb = embedded(img.width as int, img.height as int, img.data@, w as int, h as int);
    let mut data: Vec<u8> = Vec::new();
    let mut i: usize = 0;
    while i < total
        invariant
            i <= total,
            total == 4 * wu * hu,
            iw == img.width as usize,
            ih == img.height as usize,
            wu == w as usize,
            hu == h as usize,
            1 <= iw <= wu,
            1 <= ih <= hu,
            dx == (wu - iw) / 2,
            dy == (hu - ih) / 2,
            dlen == img.data@.len(),
            dlen == 4 * iw * ih,
            emb == embedded(img.width as int, img.height as int, img.data@, w as int, h as int),
            emb.len() == total,
            data@.len() == i,
            forall|k: int| 0 <= k < i ==> data@[k] == emb[k],
        decreases total - i,
    {
        proof {
            lemma_fundamental_div_mod(i as int, 4);
            lemma_mod_bound(i as int, 4);
            lemma_fundamental_div_mod(i as int / 4, wu as int);
            lemma_mod_bound(i as int / 4, wu as int);
            assert(i / 4 < wu * hu) by (nonlinear_arith)
                requires
                    4 * (i / 4) <= i,
                    i < 4 * wu * hu,
                    wu >= 1,
                    hu >= 1,
                    i >= 0,
            ;
            assert((i / 4) / wu < hu) by (nonlinear_arith)
                requires
                    i / 4 == wu * ((i / 4) / wu) + (i / 4) % wu,
                    0 <= (i / 4) % wu < wu,
                    i / 4 < wu * hu,
                    wu >= 1,
            ;
        }
        let p = i / 4;
        let c = i % 4;
        let y = p / wu;
        let x = p % wu;
        let v: u8 = if dx <= x && x < dx + iw && dy <= y && y < dy + ih {
            proof {
                assert((y - dy) * iw + (x - dx) <= iw * ih - 1) by (nonlinear_arith)
                    requires
                        0 <= y - dy < ih,
                        0 <= x - dx < iw,
                        iw >= 1,
                        ih >= 1,
                ;
                assert(4 * ((y - dy) * iw + (x - dx)) + c < 4 * iw * ih) by (nonlinear_arith)
                    requires
                        (y - dy) * iw + (x - dx) <= iw * ih - 1,
                        0 <= (y - dy) * iw + (x - dx),
                        0 <= c < 4,
                        iw >= 1,
                        ih >= 1,
                ;
            }
            img.data[4 * ((y - dy) * iw + (x - dx)) + c]
        } else {
            0u8
        };
        data.push(v);
        i += 1;
    }
    proof {
        assert(data@ =~= emb);
    }
    Pixmap { width: w, height: h, data }
}

/// The downsizing guard: shrinking a raster source on either axis under
/// nearest-neighbour resampling is refused; vector sources and the other
/// kernels downsize freely.
pub open spec fn downsize_refused(
    kind: SourceKind,
    sw: u32,
    sh: u32,
    tw: u32,
    th: u32,
    filter: ResamplingFilter,
) -> bool {
    &&& kind == SourceKind::Raster
    &&& filter == ResamplingFilter::Nearest
    &&& (tw < sw || th < sh)
}

/// The pixels of one scaled binding: the source resampled into the
/// aspect-preserving box, then centred on a transparent canvas when an
/// exact fit asks for more than the box.
pub open spec fn scaled_data(
    data: Seq<u8>,
    sw: int,
    sh: int,
    tw: int,
    th: int,
    filter: ResamplingFilter,
    fit: FitType,
) -> Seq<u8> {
    let bw = fit_w(sw, sh, tw, th);
    let bh = fit_h(sw, sh, tw, th);
    let buf = resampled(data, sw, sh, bw, bh, filter);
    if fit == FitType::Exact && (bw != tw || bh != th) {
        embedded(bw, bh, buf, tw, th)
    } else {
        buf
    }
}

/// Scales one binding from its decoded source. Fails exactly when the
/// downsizing guard refuses the request; otherwise the buffer is pinned
/// by `scaled_data`, matches the requested size exactly under an exact
/// fit, and stays inside the requested box, aspect kept within one pixel,
/// under a proportional fit.
pub fn scale_entry(src: &SourceImage, e: &Entry) -> (r: Result<Pixmap, Error>)
    requires
        src.pixels.wf(),
        1 <= e.size.w,
        1 <= e.size.h,
        4 * e.size.w * e.size.h <= usize::MAX,
        4 * src.pixels.width * e.size.h <= usize::MAX,
    ensures
        downsize_refused(
            src.kind,
            src.pixels.width,
            src.pixels.height,
            e.size.w,
            e.size.h,
            e.filter,
        ) ==> r == Err::<Pixmap, Error>(
            Error::Validation(
                ValidationError::IllegalDownsizeWithoutInterpolation(
                    e.size,
                    Size { w: src.pixels.width, h: src.pixels.height },
                    e.path,
                ),
            ),
        ),
        !downsize_refused(
            src.kind,
            src.pixels.width,
            src.pixels.height,
            e.size.w,
            e.size.h,
            e.filter,
        ) ==> r is Ok,
        match r {
            Ok(p) => p.wf() && p.data@ == scaled_data(
                src.pixels.data@,
                src.pixels.width as int,
                src.pixels.height as int,
                e.size.w as int,
                e.size.h as int,
                e.filter,
                e.fit,
            ) && (e.fit == FitType::Exact ==> p.width == e.size.w && p.height == e.size.h) && (
            e.fit == FitType::Proportional ==> p.width == fit_w(
                src.pixels.width as int,
                src.pixels.height as int,
                e.size.w as int,
                e.size.h as int,
            ) && p.height == fit_h(
                src.pixels.width as int,
                src.pixels.height as int,
                e.size.w as int,
                e.size.h as int,
            ) && p.width <= e.size.w && p.height <= e.size.h && aspect_close(
                src.pixels.width as int,
                src.pixels.height as int,
                p.width as int,
                p.height as int,
            )),
            Err(err) => true,
        },
{
    if src.kind == SourceKind::Raster && e.filter == ResamplingFilter::Nearest && (e.size.w
        < src.pixels.width || e.size.h < src.pixels.height) {
        return Err(
            Error::Validation(
                ValidationError::IllegalDownsizeWithoutInterpolation(
                    e.size,
                    Size { w: src.pixels.width, h: src.pixels.height },
                    e.path.clone(),
                ),
            ),
        );
    }
    let bwh = fit_dimensions(src.pixels.width, src.pixels.height, e.size.w, e.size.h);
    let bw = bwh.0;
    let bh = bwh.1;
    proof {
        assert(4 * bw * bh <= 4 * e.size.w * e.size.h) by (nonlinear_arith)
            requires
                1 <= bw <= e.size.w,
                1 <= bh <= e.size.h,
        ;
        assert(4 * src.pixels.width * bh <= 4 * src.pixels.width * e.size.h) by (nonlinear_arith)
            requires
                1 <= bh <= e.size.h,
                1 <= src.pixels.width,
        ;
    }
    let buf = resample_rgba(&src.pixels, bw, bh, e.filter);
    match e.fit {
        FitType::Proportional => Ok(buf),
        FitType::Exact => {
            if bw == e.size.w && bh == e.size.h {
                Ok(buf)
            } else {
                Ok(center_pad(&buf, e.size.w, e.size.h))
            }
        },
    }
}

/// Whether a path already stands in the list.
pub open spec fn contains_path(acc: Seq<Seq<char>>, p: Seq<char>) -> bool {
    exists|k: int| 0 <= k < acc.len() && acc[k] == p
}

/// The paths in scan order, each kept only at its first appearance.
pub open spec fn dedup_paths(paths: Seq<Seq<char>>, i: int, acc: Seq<Seq<char>>) -> Seq<Seq<char>>
    decreases paths.len() - i,
{
    if i < 0 || i >= paths.len() {
        acc
    } else if contains_path(acc, paths[i]) {
        dedup_paths(paths, i + 1, acc)
    } else {
        dedup_paths(paths, i + 1, acc.push(paths[i]))
    }
}

/// The source path of each entry.
pub open spec fn entry_paths(entries: Seq<Entry>) -> Seq<Seq<char>> {
    entries.map_values(|e: Entry| e.path@)
}

/// Whether a path already stands in the list, executable form.
fn vec_contains_path(v: &Vec<String>, p: &String) -> (r: bool)
    ensures
        r == contains_path(crate::token::string_views(v@), p@),
{
    let ghost sv = crate::token::string_views(v@);
    let mut i: usize = 0;
    while i < v.len()
        invariant
            i <= v@.len(),
            sv == crate::token::string_views(v@),
            sv.len() == v@.len(),
            forall|j: int| 0 <= j < i ==> sv[j] != p@,
        decreases v@.len() - i,
    {
        proof {
            assert(sv[i as int] == v@[i as int]@);
        }
        if crate::token::str_eq(v[i].as_str(), p.as_str()) {
            return true;
        }
        i += 1;
    }
    false
}

/// The distinct source paths of a plan's entries, in first-seen order: an
/// identical source must not be decoded twice, so the decoding stage works
/// through exactly this list.
pub fn unique_paths(plan: &BuildPlan) -> (r: Vec<String>)
    ensures
        crate::token::string_views(r@) == dedup_paths(entry_paths(plan.entries@), 0, Seq::empty()),
        forall|a: int, b: int| 0 <= a < b < r@.len() ==> r@[a]@ != r@[b]@,
{
    let ghost pv = entry_paths(plan.entries@);
    let mut out: Vec<String> = Vec::new();
    proof {
        assert(crate::token::string_views(out@) =~= Seq::<Seq<char>>::empty());
    }
    let mut i: usize = 0;
    while i < plan.entries.len()
        invariant
            i <= plan.entries@.len(),
            pv == entry_paths(plan.entries@),
            pv.len() == plan.entries@.len(),
            dedup_paths(pv, 0, Seq::empty()) == dedup_paths(
                pv,
                i as int,
                crate::token::string_views(out@),
            ),
            forall|a: int, b: int|
                0 <= a < b < out@.len() ==> crate::token::string_views(out@)[a]
                    != crate::token::string_views(out@)[b],
        decreases plan.entries@.len() - i,
    {
        let ghost sv = crate::token::string_views(out@);
        let p = &plan.entries[i].path;
        proof {
            assert(pv[i as int] == plan.entries@[i as int].path@);
        }
        if !vec_contains_path(&out, p) {
            out.push(p.clone());
            proof {
                assert(crate::token::string_views(out@) =~= sv.push(pv[i as int]));
                assert forall|a: int, b: int|
                    0 <= a < b < out@.len() implies crate::token::string_views(out@)[a]
                    != crate::token::string_views(out@)[b] by {
                    if b < sv.len() {
                    } else {
                        assert(crate::token::string_views(out@)[b] == pv[i as int]);
                        assert(!contains_path(sv, pv[i as int]));
                    }
                }
            }
        }
        i += 1;
    }
    proof {
        let sv = crate::token::string_views(out@);
        assert forall|a: int, b: int| 0 <= a < b < out@.len() implies out@[a]@ != out@[b]@ by {
            assert(sv[a] == out@[a]@);
            assert(sv[b] == out@[b]@);
        }
    }
    out
}

/// First decoded source with this path, or the length when none has it.
pub open spec fn src_find(sources: Seq<SourceImage>, p: Seq<char>, i: int) -> int
    decreases sources.len() - i,
{
    if i < 0 || i >= sources.len() {
        sources.len() as int
    } else if sources[i].path@ == p {
        i
    } else {
        src_find(sources, p, i + 1)
    }
}

/// The first fault of the scaling pass in plan order: a source that was
/// never decoded, or a request the downsizing guard refuses.
pub open spec fn scale_fault(entries: Seq<Entry>, sources: Seq<SourceImage>, i: int) -> Result<
    (),
    Error,
>
    decreases entries.len() - i,
{
    if i < 0 || i >= entries.len() {
        Ok(())
    } else {
        let e = entries[i];
        let k = src_find(sources, e.path@, 0);
        if k >= sources.len() {
            Err(Error::Source(e.path))
        } else if downsize_refused(
            sources[k].kind,
            sources[k].pixels.width,
            sources[k].pixels.height,
            e.size.w,
            e.size.h,
            e.filter,
        ) {
            Err(
                Error::Validation(
                    ValidationError::IllegalDownsizeWithoutInterpolation(
                        e.size,
                        Size { w: sources[k].pixels.width, h: sources[k].pixels.height },
                        e.path,
                    ),
                ),
            )
        } else {
            scale_fault(entries, sources, i + 1)
        }
    }
}

/// First decoded source with this path, executable form.
fn find_source(sources: &Vec<SourceImage>, path: &String) -> (k: usize)
    ensures
        k == src_find(sources@, path@, 0),
        k <= sources@.len(),
{
    let mut i: usize = 0;
    while i < sources.len()
        invariant
            i <= sources@.len(),
            src_find(sources@, path@, 0) == src_find(sources@, path@, i as int),
        decreases sources@.len() - i,
    {
        if crate::token::str_eq(sources[i].path.as_str(), path.as_str()) {
            proof {
                assert(src_find(sources@, path@, i as int) == i);
            }
            return i;
        }
        proof {
            assert(src_find(sources@, path@, i as int) == src_find(sources@, path@, i as int + 1));
        }
        i += 1;
    }
    sources.len()
}

/// Produces the pixel buffer of every binding, in plan order, from the
/// decoded sources: the scaling pass of one invocation. Succeeds if and
/// only if every entry's source was decoded and no entry trips the
/// downsizing guard, and then each buffer is pinned by `scaled_data`.
pub fn icon(plan: &BuildPlan, sources: &Vec<SourceImage>) -> (r: Result<Vec<(Size, Pixmap)>, Error>)
    requires
        forall|k: int| 0 <= k < sources@.len() ==> (#[trigger] sources@[k]).pixels.wf(),
        forall|k: int|
            0 <= k < plan.entries@.len() ==> 1 <= (#[trigger] plan.entries@[k]).size.w && 1
                <= plan.entries@[k].size.h && 4 * plan.entries@[k].size.w * plan.entries@[k].size.h
                <= usize::MAX,
        forall|j: int, k: int|
            #![trigger sources@[j].pixels.width, plan.entries@[k].size.h]
            0 <= j < sources@.len() && 0 <= k < plan.entries@.len() ==> 4
                * sources@[j].pixels.width * plan.entries@[k].size.h <= usize::MAX,
    ensures
        match scale_fault(plan.entries@, sources@, 0) {
            Ok(u) => r matches Ok(v) && v@.len() == plan.entries@.len() && (forall|k: int|
                0 <= k < v@.len() ==> {
                    let e = #[trigger] plan.entries@[k];
                    let s = sources@[src_find(sources@, e.path@, 0)];
                    &&& v@[k].0 == e.size
                    &&& v@[k].1.wf()
                    &&& v@[k].1.data@ == scaled_data(
                        s.pixels.data@,
                        s.pixels.width as int,
                        s.pixels.height as int,
                        e.size.w as int,
                        e.size.h as int,
                        e.filter,
                        e.fit,
                    )
                    &&& (e.fit == FitType::Exact ==> v@[k].1.width == e.size.w && v@[k].1.height
                        == e.size.h)
                    &&& (e.fit == FitType::Proportional ==> v@[k].1.width == fit_w(
                        s.pixels.width as int,
                        s.pixels.height as int,
                        e.size.w as int,
                        e.size.h as int,
                    ) && v@[k].1.height == fit_h(
                        s.pixels.width as int,
                        s.pixels.height as int,
                        e.size.w as int,
                        e.size.h as int,
                    ) && v@[k].1.width <= e.size.w && v@[k].1.height <= e.size.h && aspect_close(
                        s.pixels.width as int,
                        s.pixels.height as int,
                        v@[k].1.width as int,
                        v@[k].1.height as int,
                    ))
                }),
            Err(e) => r matches Err(e2) && e2 == e,
        },
{
    let mut out: Vec<(Size, Pixmap)> = Vec::new();
    let mut i: usize = 0;
    while i < plan.entries.len()
        invariant
            i <= plan.entries@.len(),
            forall|k: int| 0 <= k < sources@.len() ==> (#[trigger] sources@[k]).pixels.wf(),
            forall|k: int|
                0 <= k < plan.entries@.len() ==> 1 <= (#[trigger] plan.entries@[k]).size.w && 1
                    <= plan.entries@[k].size.h && 4 * plan.entries@[k].size.w
                    * plan.entries@[k].size.h <= usize::MAX,
            forall|j: int, k: int|
                #![trigger sources@[j].pixels.width, plan.entries@[k].size.h]
                0 <= j < sources@.len() && 0 <= k < plan.entries@.len() ==> 4
                    * sources@[j].pixels.width * plan.entries@[k].size.h <= usize::MAX,
            scale_fault(plan.entries@, sources@, 0) == scale_fault(
                plan.entries@,
                sources@,
                i as int,
            ),
            out@.len() == i,
            forall|k: int|
                0 <= k < i ==> {
                    let e = #[trigger] plan.entries@[k];
                    let s = sources@[src_find(sources@, e.path@, 0)];
                    &&& out@[k].0 == e.size
                    &&& out@[k].1.wf()
                    &&& out@[k].1.data@ == scaled_data(
                        s.pixels.data@,
                        s.pixels.width as int,
                        s.pixels.height as int,
                        e.size.w as int,
                        e.size.h as int,
                        e.filter,
                        e.fit,
                    )
                    &&& (e.fit == FitType::Exact ==> out@[k].1.width == e.size.w && out@[k].1.height
                        == e.size.h)
                    &&& (e.fit == FitType::Proportional ==> out@[k].1.width == fit_w(
                        s.pixels.width as int,
                        s.pixels.height as int,
                        e.size.w as int,
                        e.size.h as int,
                    ) && out@[k].1.height == fit_h(
                        s.pixels.width as int,
                        s.pixels.height as int,
                        e.size.w as int,
                        e.size.h as int,
                    ) && out@[k].1.width <= e.size.w && out@[k].1.height <= e.size.h
                        && aspect_close(
                        s.pixels.width as int,
                        s.pixels.height as int,
                        out@[k].1.width as int,
                        out@[k].1.height as int,
                    ))
                },
        decreases plan.entries@.len() - i,
    {
        let e = &plan.entries[i];
        let k = find_source(sources, &e.path);
        if k >= sources.len() {
            return Err(Error::Source(e.path.clone()));
        }
        let src = &sources[k];
        match scale_entry(src, e) {
            Ok(p) => {
                out.push((e.size, p));
            },
            Err(err) => {
                return Err(err);
            },
        }
        i += 1;
    }
    Ok(out)
}

} // verus!
