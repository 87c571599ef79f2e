//! In-memory image cache, keyed by URL and split by resolution.
//!
//! Views are re-rendered constantly, so images must be fetched once and cached
//! rather than refetched per frame. The cache records, per URL and per
//! [`ImageKind`], whether the image is loading, loaded (with the caller's
//! display handle `H`) or failed.
use vstd::prelude::*;

use crate::text::same_text;

verus! {

broadcast use vstd::string::group_string_axioms;

/// A decoded, ready-to-upload RGBA image.
#[derive(Clone)]
pub struct DecodedImage {
    pub width: u32,
    pub height: u32,
    pub rgba: Vec<u8>,
}

/// Load state of a single image URL; `H` is the display handle of a loaded image.
#[derive(Debug, Clone)]
pub enum ImageState<H> {
    Loading,
    Loaded(H),
    Failed,
}

/// Which resolution of an image is wanted. The same URL can be both a grid
/// thumbnail and the expanded full image, so they're cached separately.
#[derive(Debug, Clone, Copy, PartialEq, Eq, Hash, Structural)]
pub enum ImageKind {
    Thumbnail,
    Full,
}

/// URL-keyed cache of fetched images, split by [`ImageKind`].
#[derive(Debug)]
pub struct ImageCache<H> {
    thumbnails: Vec<(String, ImageState<H>)>,
    full: Vec<(String, ImageState<H>)>,
}

/// The states of a list of entries, by URL (later entries win).
pub open spec fn entry_map<H>(v: Seq<(String, ImageState<H>)>) -> Map<Seq<char>, ImageState<H>>
    decreases v.len(),
{
    if v.len() == 0 {
        Map::empty()
    } else {
        entry_map(v.drop_last()).insert(v.last().0@, v.last().1)
    }
}

pub open spec fn distinct_keys<H>(v: Seq<(String, ImageState<H>)>) -> bool {
    forall|i: int, j: int| 0 <= i < j < v.len() ==> (#[trigger] v[i]).0@ != (#[trigger] v[j]).0@
}

/// The cache's contents: for each kind, the state of each known URL.
pub struct CacheModel<H> {
    pub thumbnails: Map<Seq<char>, ImageState<H>>,
    pub full: Map<Seq<char>, ImageState<H>>,
}

impl<H> CacheModel<H> {
    pub open spec fn of(self, kind: ImageKind) -> Map<Seq<char>, ImageState<H>> {
        match kind {
            ImageKind::Thumbnail => self.thumbnails,
            ImageKind::Full => self.full,
        }
    }

    pub open spec fn with(self, kind: ImageKind, m: Map<Seq<char>, ImageState<H>>) -> CacheModel<H> {
        match kind {
            ImageKind::Thumbnail => CacheModel { thumbnails: m, full: self.full },
            ImageKind::Full => CacheModel { thumbnails: self.thumbnails, full: m },
        }
    }
}

/// `begin_load` on the model: a URL not yet known for `kind` becomes
/// `Loading` and the answer is `true` (start a fetch); a known URL is left as
/// it is and the answer is `false`.
pub open spec fn spec_begin_load<H>(m: CacheModel<H>, url: Seq<char>, kind: ImageKind) -> (
    CacheModel<H>,
    bool,
) {
    if m.of(kind).contains_key(url) {
        (m, false)
    } else {
        (m.with(kind, m.of(kind).insert(url, ImageState::Loading)), true)
    }
}

/// `finish_load` on the model: the URL's state for `kind` becomes `Loaded`
/// with the handle, or `Failed` without one.
pub open spec fn spec_finish_load<H>(
    m: CacheModel<H>,
    url: Seq<char>,
    kind: ImageKind,
    loaded: Option<H>,
) -> CacheModel<H> {
    m.with(
        kind,
        m.of(kind).insert(
            url,
            match loaded {
                Some(h) => ImageState::Loaded(h),
                None => ImageState::Failed,
            },
        ),
    )
}

proof fn lemma_entry_map_index<H>(v: Seq<(String, ImageState<H>)>, i: int)
    requires
        distinct_keys(v),
        0 <= i < v.len(),
    ensures
        entry_map(v).contains_key(v[i].0@),
        entry_map(v)[v[i].0@] == v[i].1,
    decreases v.len(),
{
    if i < v.len() - 1 {
        assert(v.drop_last()[i] == v[i]);
        lemma_entry_map_index(v.drop_last(), i);
        assert(v[i].0@ != v.last().0@);
    }
}

proof fn lemma_entry_map_absent<H>(v: Seq<(String, ImageState<H>)>, k: Seq<char>)
    requires
        forall|i: int| 0 <= i < v.len() ==> (#[trigger] v[i]).0@ != k,
    ensures
        !entry_map(v).contains_key(k),
    decreases v.len(),
{
    if v.len() > 0 {
        assert forall|i: int| 0 <= i < v.drop_last().len() implies (
        #[trigger] v.drop_last()[i]).0@ != k by {
            assert(v.drop_last()[i] == v[i]);
        }
        lemma_entry_map_absent(v.drop_last(), k);
        assert(v[v.len() - 1].0@ != k);
    }
}

proof fn lemma_entry_map_update<H>(v: Seq<(String, ImageState<H>)>, i: int, e: (String, ImageState<H>))
    requires
        distinct_keys(v),
        0 <= i < v.len(),
        e.0@ == v[i].0@,
    ensures
        distinct_keys(v.update(i, e)),
        entry_map(v.update(i, e)) == entry_map(v).insert(e.0@, e.1),
    decreases v.len(),
{
    let w = v.update(i, e);
    assert forall|a: int, b: int| 0 <= a < b < w.len() implies (#[trigger] w[a]).0@ != (
    #[trigger] w[b]).0@ by {
        assert(w[a].0@ == v[a].0@);
        assert(w[b].0@ == v[b].0@);
    }
    if i == v.len() - 1 {
        assert(w.drop_last() =~= v.drop_last());
        assert(entry_map(w) =~= entry_map(v).insert(e.0@, e.1));
    } else {
        assert(w.drop_last() =~= v.drop_last().update(i, e));
        lemma_entry_map_update(v.drop_last(), i, e);
        assert(v[i].0@ != v.last().0@);
        assert(entry_map(w) =~= entry_map(v).insert(e.0@, e.1));
    }
}

/// Index of `url` among the entries.
fn position<H>(v: &Vec<(String, ImageState<H>)>, url: &str) -> (r: Option<usize>)
    ensures
        match r {
            Some(i) => i < v@.len() && v@[i as int].0@ == url@,
            None => forall|i: int| 0 <= i < v@.len() ==> (#[trigger] v@[i]).0@ != url@,
        },
{
    let mut i: usize = 0;
    while i < v.len()
        invariant
            i <= v@.len(),
            forall|j: int| 0 <= j < i ==> (#[trigger] v@[j]).0@ != url@,
        decreases v.len() - i,
    {
        if same_text(v[i].0.as_str(), url) {
            return Some(i);
        }
        i = i + 1;
    }
    None
}

/// Record `state` for `url` in a distinct-keyed entry list.
fn put<H>(v: &mut Vec<(String, ImageState<H>)>, url: String, state: ImageState<H>)
    requires
        distinct_keys(old(v)@),
    ensures
        distinct_keys(final(v)@),
        entry_map(final(v)@) == entry_map(old(v)@).insert(url@, state),
{
    match position(v, url.as_str()) {
        Some(i) => {
            proof {
                lemma_entry_map_update(v@, i as int, (url, state));
            }
            v.set(i, (url, state));
        },
        None => {
            let ghost key = url@;
            let ghost before = v@;
            v.push((url, state));
            assert(v@.drop_last() =~= before);
            assert forall|a: int, b: int| 0 <= a < b < v@.len() implies (#[trigger] v@[a]).0@ != (
            #[trigger] v@[b]).0@ by {
                assert(v@[a] == before[a] || b < before.len());
                if b < before.len() {
                    assert(v@[a] == before[a] && v@[b] == before[b]);
                } else {
                    assert(v@[a] == before[a]);
                }
            }
        },
    }
}

impl<H> View for ImageCache<H> {
    type V = CacheModel<H>;

    closed spec fn view(&self) -> CacheModel<H> {
        CacheModel { thumbnails: entry_map(self.thumbnails@), full: entry_map(self.full@) }
    }
}

impl<H> ImageCache<H> {
    /// The cache's internal consistency: no URL is recorded twice per kind.
    pub closed spec fn wf(&self) -> bool {
        distinct_keys(self.thumbnails@) && distinct_keys(self.full@)
    }

    /// An empty cache.
    pub fn new() -> (c: Self)
        ensures
            c.wf(),
            c@.thumbnails == Map::<Seq<char>, ImageState<H>>::empty(),
            c@.full == Map::<Seq<char>, ImageState<H>>::empty(),
    {
        let c = ImageCache { thumbnails: Vec::new(), full: Vec::new() };
        assert(c@.thumbnails =~= Map::<Seq<char>, ImageState<H>>::empty());
        assert(c@.full =~= Map::<Seq<char>, ImageState<H>>::empty());
        c
    }

    /// The state recorded for `url` at `kind`, if any.
    pub fn get(&self, url: &str, kind: ImageKind) -> (r: Option<&ImageState<H>>)
        requires
            self.wf(),
        ensures
            match r {
                Some(s) => self@.of(kind).contains_key(url@) && self@.of(kind)[url@] == *s,
                None => !self@.of(kind).contains_key(url@),
            },
    {
        let v = match kind {
            ImageKind::Thumbnail => &self.thumbnails,
            ImageKind::Full => &self.full,
        };
        match position(v, url) {
            Some(i) => {
                proof {
                    lemma_entry_map_index(v@, i as int);
                }
                Some(&v[i].1)
            },
            None => {
                proof {
                    lemma_entry_map_absent(v@, url@);
                }
                None
            },
        }
    }

    /// Mark a URL as in-flight for `kind`. Returns `true` if newly inserted
    /// (the caller should kick off a fetch), `false` if already known.
    pub fn begin_load(&mut self, url: &str, kind: ImageKind) -> (r: bool)
        requires
            old(self).wf(),
        ensures
            final(self).wf(),
            (final(self)@, r) == spec_begin_load(old(self)@, url@, kind),
    {
        let known = self.get(url, kind).is_some();
        if known {
            return false;
        }
        let key = String::from_str(url);
        match kind {
            ImageKind::Thumbnail => put(&mut self.thumbnails, key, ImageState::Loading),
            ImageKind::Full => put(&mut self.full, key, ImageState::Loading),
        }
        proof {
            let m = old(self)@;
            assert(self@ == m.with(kind, m.of(kind).insert(url@, ImageState::Loading)));
        }
        true
    }

    /// Record the result of a fetch+decode: a display handle, or `None` for failure.
    pub fn finish_load(&mut self, url: String, kind: ImageKind, loaded: Option<H>)
        requires
            old(self).wf(),
        ensures
            final(self).wf(),
            final(self)@ == spec_finish_load(old(self)@, url@, kind, loaded),
    {
        let ghost u = url@;
        let state = match loaded {
            Some(h) => ImageState::Loaded(h),
            None => ImageState::Failed,
        };
        match kind {
            ImageKind::Thumbnail => put(&mut self.thumbnails, url, state),
            ImageKind::Full => put(&mut self.full, url, state),
        }
        proof {
            let m = old(self)@;
            assert(self@ == spec_finish_load(m, u, kind, loaded));
        }
    }
}

impl<H> Default for ImageCache<H> {
    fn default() -> (c: Self)
        ensures
            c.wf(),
            c@.thumbnails == Map::<Seq<char>, ImageState<H>>::empty(),
            c@.full == Map::<Seq<char>, ImageState<H>>::empty(),
    {
        Self::new()
    }
}

/// A URL is fetched at most once per kind: once `begin_load` has answered
/// `true` for it, asking again answers `false` and changes nothing, and the
/// other kind is unaffected.
pub proof fn lemma_begin_load_once<H>(m: CacheModel<H>, url: Seq<char>, kind: ImageKind)
    ensures
        ({
            let (m1, _) = spec_begin_load(m, url, kind);
            let (m2, again) = spec_begin_load(m1, url, kind);
            &&& !again
            &&& m2 == m1
            &&& m1.of(kind).contains_key(url)
        }),
        ({
            let (m1, _) = spec_begin_load(m, url, kind);
            let other = match kind {
                ImageKind::Thumbnail => ImageKind::Full,
                ImageKind::Full => ImageKind::Thumbnail,
            };
            m1.of(other) == m.of(other)
        }),
{
}

/// A finished load is what a later lookup sees, and a later `begin_load`
/// does not restart it.
pub proof fn lemma_finish_then_begin<H>(
    m: CacheModel<H>,
    url: Seq<char>,
    kind: ImageKind,
    loaded: Option<H>,
)
    ensures
        ({
            let m1 = spec_finish_load(m, url, kind, loaded);
            &&& m1.of(kind)[url] == match loaded {
                Some(h) => ImageState::Loaded(h),
                None => ImageState::<H>::Failed,
            }
            &&& spec_begin_load(m1, url, kind) == (m1, false)
        }),
{
}

// ---------------------------------------------------------------------------
// Decoding
// ---------------------------------------------------------------------------

#[verifier::external_type_specification]
#[verifier::external_body]
pub struct ExDynamicImage(image::DynamicImage);

/// An image as plain values: width, height and RGBA8 pixel bytes.
pub open spec fn image_model(d: DecodedImage) -> (u32, u32, Seq<u8>) {
    (d.width, d.height, d.rgba@)
}

/// Names the RGBA8 image (width, height, pixels) that encoded bytes decode
/// to, the format being guessed from the bytes; `None` when they do not
/// decode.
pub uninterp spec fn decoded_rgba(bytes: Seq<u8>) -> Option<(u32, u32, Seq<u8>)>;

/// Names the RGBA8 image that encoded bytes give when decoded, resized in
/// their own color type with a Lanczos3 filter to fit within `max` x `max`
/// with the aspect ratio kept, and then converted.
pub uninterp spec fn lanczos_fit(bytes: Seq<u8>, max: u32) -> (u32, u32, Seq<u8>);

/// Names the RGBA8 image that encoded bytes give when decoded, scaled down in
/// their own color type with the fast thumbnail filter to fit within
/// `max` x `max` with the aspect ratio kept, and then converted.
pub uninterp spec fn thumbnail_fit(bytes: Seq<u8>, max: u32) -> (u32, u32, Seq<u8>);

/// A decoded image in the color type it was stored in, with its size and the
/// encoded bytes it was decoded from. Only [`load_image`] makes one, so the
/// image is always what those bytes decode to.
pub struct LoadedImage {
    image: image::DynamicImage,
    width: u32,
    height: u32,
    source: Ghost<Seq<u8>>,
}

impl LoadedImage {
    /// The encoded bytes the image was decoded from.
    pub closed spec fn source(&self) -> Seq<u8> {
        self.source@
    }

    pub closed spec fn spec_width(&self) -> u32 {
        self.width
    }

    pub closed spec fn spec_height(&self) -> u32 {
        self.height
    }

    pub fn width(&self) -> (w: u32)
        ensures
            w == self.spec_width(),
    {
        self.width
    }

    pub fn height(&self) -> (h: u32)
        ensures
            h == self.spec_height(),
    {
        self.height
    }
}

/// `image::load_from_memory`: the bytes decoded, their format guessed from
/// them, into an image in its own color type. It fails exactly when
/// `decoded_rgba` names no image, and its size is the size `decoded_rgba`
/// names (`to_rgba8` keeps the size).
#[verifier::external_body]
pub(crate) fn load_image(bytes: &[u8]) -> (r: Option<LoadedImage>)
    ensures
        match r {
            Some(l) => {
                &&& l.source() == bytes@
                &&& decoded_rgba(bytes@) matches Some((w, h, _)) && l.spec_width() == w
                    && l.spec_height() == h
            },
            None => decoded_rgba(bytes@) is None,
        },
{
    let image = image::load_from_memory(bytes).ok()?;
    Some(LoadedImage { width: image.width(), height: image.height(), image, source: Ghost(bytes@) })
}

/// `DynamicImage::to_rgba8`: the image as RGBA8, which is what
/// `decoded_rgba` names for its bytes. Its pixel buffer holds exactly four
/// bytes per pixel: the decoder's buffer is allocated at `total_bytes()`, the
/// image's pixel count times its bytes per pixel, and `to_rgba8` either clones
/// an RGBA8 buffer or casts one pixel for each pixel.
#[verifier::external_body]
pub(crate) fn rgba_of(l: LoadedImage) -> (r: DecodedImage)
    ensures
        decoded_rgba(l.source()) == Some(image_model(r)),
        r.rgba@.len() == 4 * r.width * r.height,
{
    let rgba = l.image.to_rgba8();
    DecodedImage { width: rgba.width(), height: rgba.height(), rgba: rgba.into_raw() }
}

/// The size `(nw, nh)` that an image of `w` x `h` pixels is scaled to so as to
/// fit within `max` x `max` with its aspect ratio kept: its longer side becomes
/// `max` and its other side is within one pixel of its scaled length, and is at
/// least one pixel.
pub open spec fn fits_scaled(w: int, h: int, max: int, nw: int, nh: int) -> bool {
    &&& 1 <= nw <= max
    &&& 1 <= nh <= max
    &&& if w >= h {
        nw == max && -w <= nh * w - h * max <= w
    } else {
        nh == max && -h <= nw * h - w * max <= h
    }
}

/// `DynamicImage::resize(max, max, FilterType::Lanczos3)`, in the image's own
/// color type, then `to_rgba8`; the contract names the result. Besides the
/// name, it states what the crate's `resize_dimensions` gives for a bound of
/// at least one pixel (the scale is the smaller of `max / w` and `max / h`,
/// each side is rounded and kept at least one), and that the result, a new
/// buffer converted as in [`rgba_of`], holds four bytes per pixel.
#[verifier::external_body]
fn resize_lanczos(l: LoadedImage, max: u32) -> (r: DecodedImage)
    requires
        l.spec_width() > max || l.spec_height() > max,
    ensures
        image_model(r) == lanczos_fit(l.source(), max),
        max >= 1 ==> fits_scaled(
            l.spec_width() as int,
            l.spec_height() as int,
            max as int,
            r.width as int,
            r.height as int,
        ),
        r.rgba@.len() == 4 * r.width * r.height,
{
    let rgba = l.image.resize(max, max, image::imageops::FilterType::Lanczos3).to_rgba8();
    DecodedImage { width: rgba.width(), height: rgba.height(), rgba: rgba.into_raw() }
}

/// `DynamicImage::thumbnail(max, max)`, in the image's own color type, then
/// `to_rgba8`; named and sized as for [`resize_lanczos`] (`thumbnail` uses
/// the same `resize_dimensions` and always writes a new buffer).
#[verifier::external_body]
fn resize_thumbnail(l: LoadedImage, max: u32) -> (r: DecodedImage)
    requires
        l.spec_width() > max || l.spec_height() > max,
    ensures
        image_model(r) == thumbnail_fit(l.source(), max),
        max >= 1 ==> fits_scaled(
            l.spec_width() as int,
            l.spec_height() as int,
            max as int,
            r.width as int,
            r.height as int,
        ),
        r.rgba@.len() == 4 * r.width * r.height,
{
    let rgba = l.image.thumbnail(max, max).to_rgba8();
    DecodedImage { width: rgba.width(), height: rgba.height(), rgba: rgba.into_raw() }
}

/// Whether an image of this size is shrunk to fit `max_dim`: only when there
/// is a bound and the image exceeds it.
pub open spec fn should_shrink(width: u32, height: u32, max_dim: Option<u32>) -> bool {
    max_dim matches Some(m) && (width > m || height > m)
}

/// What decoding and resizing gives for encoded bytes: nothing when they do
/// not decode; else the image shrunk in its own color type (Lanczos3 for full
/// images, the thumbnail filter otherwise) when it exceeds the bound, and as
/// it is when it does not, converted to RGBA8.
pub open spec fn spec_decode_and_resize(bytes: Seq<u8>, max_dim: Option<u32>, high_quality: bool) -> Option<
    (u32, u32, Seq<u8>),
> {
    match decoded_rgba(bytes) {
        None => None,
        Some((w, h, px)) => if !should_shrink(w, h, max_dim) {
            Some((w, h, px))
        } else if high_quality {
            Some(lanczos_fit(bytes, max_dim->0))
        } else {
            Some(thumbnail_fit(bytes, max_dim->0))
        },
    }
}

/// Decode encoded image bytes to RGBA, downscaling to fit `max_dim` if given.
/// `high_quality` selects a Lanczos3 filter (full images) over the fast
/// thumbnail filter (grid thumbnails). The pixels hold four bytes each, and a
/// shrunk image fits the bound with its aspect ratio kept.
pub fn decode_and_resize(bytes: &[u8], max_dim: Option<u32>, high_quality: bool) -> (r: Option<
    DecodedImage,
>)
    ensures
        match r {
            Some(d) => spec_decode_and_resize(bytes@, max_dim, high_quality) == Some(image_model(d)),
            None => spec_decode_and_resize(bytes@, max_dim, high_quality) is None,
        },
        match r {
            Some(d) => d.rgba@.len() == 4 * d.width * d.height,
            None => true,
        },
        match r {
            Some(d) => match decoded_rgba(bytes@) {
                Some((w, h, _)) => if should_shrink(w, h, max_dim) {
                    max_dim->0 >= 1 ==> fits_scaled(
                        w as int,
                        h as int,
                        max_dim->0 as int,
                        d.width as int,
                        d.height as int,
                    )
                } else {
                    d.width == w && d.height == h
                },
                None => false,
            },
            None => true,
        },
{
    let img = match load_image(bytes) {
        Some(img) => img,
        None => return None,
    };
    if let Some(m) = max_dim {
        if img.width() > m || img.height() > m {
            if high_quality {
                return Some(resize_lanczos(img, m));
            } else {
                return Some(resize_thumbnail(img, m));
            }
        }
    }
    Some(rgba_of(img))
}

} // verus!
