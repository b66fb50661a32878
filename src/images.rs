use vstd::prelude::*;

use crate::types::{ImageFlags, ImageId, TextureType};

verus! {

/// Largest width or height, in pixels, that a texture may have.
pub const MAX_TEXTURE_SIZE: u32 = 16384;

/// Decoded pixel data handed to the renderer: rows top to bottom, pixels left
/// to right, `format.bytes_per_pixel()` bytes per pixel.
#[derive(Clone, Debug)]
pub struct Image {
    pub width: u32,
    pub height: u32,
    pub format: TextureType,
    pub data: Vec<u8>,
}

/// Why a texture could not be created.
#[derive(Copy, Clone, Debug, PartialEq, Eq, Structural)]
pub enum ImageError {
    /// A dimension is zero or larger than `MAX_TEXTURE_SIZE`.
    UnsupportedSize,
    /// The pixel data does not have `width * height * bytes_per_pixel` bytes.
    DataSizeMismatch,
}

/// What a texture holds, as the contracts see it.
pub struct TextureView {
    pub width: u32,
    pub height: u32,
    pub format: TextureType,
    pub flags: ImageFlags,
    pub data: Seq<u8>,
}

/// A texture owned by the store.
#[derive(Clone, Debug)]
pub struct Texture {
    pub width: u32,
    pub height: u32,
    pub format: TextureType,
    pub flags: ImageFlags,
    pub data: Vec<u8>,
}

impl Texture {
    pub open spec fn view(&self) -> TextureView {
        TextureView {
            width: self.width,
            height: self.height,
            format: self.format,
            flags: self.flags,
            data: self.data@,
        }
    }
}

pub open spec fn size_supported(width: u32, height: u32) -> bool {
    0 < width <= MAX_TEXTURE_SIZE && 0 < height <= MAX_TEXTURE_SIZE
}

pub open spec fn data_len(width: u32, height: u32, format: TextureType) -> int {
    width as int * height as int * format.spec_bytes_per_pixel() as int
}

/// The result that creating a texture from `img` gives on a store with `n` slots.
pub open spec fn create_result(n: nat, img: &Image) -> Result<ImageId, ImageError> {
    if !size_supported(img.width, img.height) {
        Err(ImageError::UnsupportedSize)
    } else if img.data@.len() != data_len(img.width, img.height, img.format) {
        Err(ImageError::DataSizeMismatch)
    } else {
        Ok(ImageId { index: n as usize })
    }
}

/// The slots after creating a texture from `img` with `flags`.
pub open spec fn after_create(s: Seq<Option<TextureView>>, img: &Image, flags: ImageFlags) -> Seq<
    Option<TextureView>,
> {
    if create_result(s.len(), img) is Ok {
        s.push(
            Some(
                TextureView {
                    width: img.width,
                    height: img.height,
                    format: img.format,
                    flags,
                    data: img.data@,
                },
            ),
        )
    } else {
        s
    }
}

pub open spec fn live(s: Seq<Option<TextureView>>, id: ImageId) -> bool {
    id.index < s.len() && s[id.index as int] is Some
}

/// Whether `img` placed at `(x, y)` fits inside the live texture `id`, in its layout.
pub open spec fn update_fits(
    s: Seq<Option<TextureView>>,
    id: ImageId,
    img: &Image,
    x: u32,
    y: u32,
) -> bool {
    live(s, id) && {
        let t = s[id.index as int]->Some_0;
        &&& img.format == t.format
        &&& img.data@.len() == data_len(img.width, img.height, img.format)
        &&& x as int + img.width as int <= t.width as int
        &&& y as int + img.height as int <= t.height as int
    }
}

/// Byte `i` of a texture of width `tw` after `img` was written at `(x, y)`.
pub open spec fn updated_byte(old: Seq<u8>, tw: u32, img: &Image, x: u32, y: u32, i: int) -> u8 {
    let bpp = img.format.spec_bytes_per_pixel() as int;
    let p = i / bpp;
    let px = p % tw as int;
    let py = p / tw as int;
    if x <= px < x + img.width && y <= py < y + img.height {
        img.data@[((py - y) * img.width + (px - x)) * bpp + i % bpp]
    } else {
        old[i]
    }
}

/// The slots after `img` was written at `(x, y)` into texture `id`.
pub open spec fn after_update(
    s: Seq<Option<TextureView>>,
    id: ImageId,
    img: &Image,
    x: u32,
    y: u32,
) -> Seq<Option<TextureView>> {
    if update_fits(s, id, img, x, y) {
        let t = s[id.index as int]->Some_0;
        s.update(
            id.index as int,
            Some(
                TextureView {
                    data: Seq::new(t.data.len(), |i: int| updated_byte(t.data, t.width, img, x, y, i)),
                    ..t
                },
            ),
        )
    } else {
        s
    }
}

/// The slots after texture `id` was released.
pub open spec fn after_delete(s: Seq<Option<TextureView>>, id: ImageId) -> Seq<Option<TextureView>> {
    if id.index < s.len() {
        s.update(id.index as int, None)
    } else {
        s
    }
}

pub open spec fn size_of(s: Seq<Option<TextureView>>, id: ImageId) -> (u32, u32) {
    if live(s, id) {
        let t = s[id.index as int]->Some_0;
        (t.width, t.height)
    } else {
        (0, 0)
    }
}

pub open spec fn type_of(s: Seq<Option<TextureView>>, id: ImageId) -> Option<TextureType> {
    if live(s, id) {
        Some(s[id.index as int]->Some_0.format)
    } else {
        None
    }
}

pub open spec fn flags_of(s: Seq<Option<TextureView>>, id: ImageId) -> ImageFlags {
    if live(s, id) {
        s[id.index as int]->Some_0.flags
    } else {
        ImageFlags { bits: 0 }
    }
}

/// The slots after each `(id, image, x, y)` of `ups` was written, in order.
pub open spec fn after_updates(s: Seq<Option<TextureView>>, ups: Seq<(ImageId, Image, u32, u32)>) -> Seq<
    Option<TextureView>,
>
    decreases ups.len(),
{
    if ups.len() == 0 {
        s
    } else {
        let u = ups.last();
        after_update(after_updates(s, ups.drop_last()), u.0, &u.1, u.2, u.3)
    }
}

/// A texture that was created reports the size of the image it was created from.
pub proof fn lemma_created_size(s: Seq<Option<TextureView>>, img: &Image, flags: ImageFlags)
    requires
        s.len() <= usize::MAX,
        create_result(s.len(), img) is Ok,
    ensures
        size_of(after_create(s, img, flags), create_result(s.len(), img)->Ok_0) == (img.width, img.height),
        type_of(after_create(s, img, flags), create_result(s.len(), img)->Ok_0) == Some(img.format),
        flags_of(after_create(s, img, flags), create_result(s.len(), img)->Ok_0) == flags,
{
}

/// Creating a texture leaves the size of every earlier id as it was.
pub proof fn lemma_create_keeps_sizes(s: Seq<Option<TextureView>>, img: &Image, flags: ImageFlags, id: ImageId)
    requires
        id.index < s.len(),
    ensures
        size_of(after_create(s, img, flags), id) == size_of(s, id),
{
}

/// Writing pixels into a texture changes the size of no texture.
pub proof fn lemma_update_keeps_size(
    s: Seq<Option<TextureView>>,
    target: ImageId,
    img: &Image,
    x: u32,
    y: u32,
    id: ImageId,
)
    ensures
        size_of(after_update(s, target, img, x, y), id) == size_of(s, id),
{
}

/// Any number of pixel writes changes the size of no texture.
pub proof fn lemma_updates_keep_size(s: Seq<Option<TextureView>>, ups: Seq<(ImageId, Image, u32, u32)>, id: ImageId)
    ensures
        size_of(after_updates(s, ups), id) == size_of(s, id),
    decreases ups.len(),
{
    if ups.len() > 0 {
        let u = ups.last();
        lemma_updates_keep_size(s, ups.drop_last(), id);
        lemma_update_keeps_size(after_updates(s, ups.drop_last()), u.0, &u.1, u.2, u.3, id);
    }
}

/// Deleting an id a second time changes nothing.
pub proof fn lemma_delete_twice(s: Seq<Option<TextureView>>, id: ImageId)
    ensures
        after_delete(after_delete(s, id), id) == after_delete(s, id),
{
    assert(after_delete(after_delete(s, id), id) =~= after_delete(s, id));
}

/// Deleting an id that is not live (never issued, or already deleted) changes nothing.
pub proof fn lemma_delete_not_live(s: Seq<Option<TextureView>>, id: ImageId)
    requires
        !live(s, id),
    ensures
        after_delete(s, id) == s,
{
    assert(after_delete(s, id) =~= s);
}

/// Deleting one id leaves every other id as it was.
pub proof fn lemma_delete_keeps_others(s: Seq<Option<TextureView>>, id: ImageId, other: ImageId)
    requires
        other.index != id.index,
    ensures
        live(after_delete(s, id), other) == live(s, other),
        size_of(after_delete(s, id), other) == size_of(s, other),
        type_of(after_delete(s, id), other) == type_of(s, other),
        flags_of(after_delete(s, id), other) == flags_of(s, other),
        !live(after_delete(s, id), id),
{
}

proof fn lemma_pixel_index_bound(row: int, col: int, k: int, w: int, h: int, bpp: int)
    requires
        0 <= row < h,
        0 <= col < w,
        0 <= k < bpp,
    ensures
        (row * w + col) * bpp + k < w * h * bpp,
        0 <= row * w,
        0 <= (row * w + col) * bpp,
        row * w + col <= (row * w + col) * bpp,
{
    assert(row * w + col < h * w) by (nonlinear_arith)
        requires
            0 <= row < h,
            0 <= col < w,
    ;
    assert((row * w + col) * bpp + k < (h * w) * bpp) by (nonlinear_arith)
        requires
            0 <= row * w + col < h * w,
            0 <= k < bpp,
    ;
    assert(w * h * bpp == (h * w) * bpp) by (nonlinear_arith);
    assert(0 <= row * w) by (nonlinear_arith)
        requires
            0 <= row,
            0 <= col < w,
    ;
    assert(0 <= (row * w + col) * bpp && row * w + col <= (row * w + col) * bpp) by (nonlinear_arith)
        requires
            0 <= row * w + col,
            0 <= k < bpp,
    ;
}

/// The textures of one renderer. An id is the index of its slot; slots are
/// never reused, so an id stays invalid once deleted.
pub struct ImageStore {
    pub textures: Vec<Option<Texture>>,
}

impl View for ImageStore {
    type V = Seq<Option<TextureView>>;

    open spec fn view(&self) -> Seq<Option<TextureView>> {
        Seq::new(
            self.textures@.len(),
            |i: int|
                match self.textures@[i] {
                    Some(t) => Some(t.view()),
                    None => None,
                },
        )
    }
}

pub open spec fn texture_wf(t: TextureView) -> bool {
    &&& size_supported(t.width, t.height)
    &&& t.data.len() == data_len(t.width, t.height, t.format)
}

impl ImageStore {
    /// Every live texture has a supported size and exactly its pixel data.
    pub open spec fn wf(&self) -> bool {
        forall|i: int| 0 <= i < self@.len() && #[trigger] self@[i] is Some ==> texture_wf(self@[i]->Some_0)
    }

    pub fn new() -> (r: ImageStore)
        ensures
            r.wf(),
            r@.len() == 0,
    {
        ImageStore { textures: Vec::new() }
    }

    /// Uploads `image` as a new texture with `flags`.
    pub fn create_image(&mut self, image: &Image, flags: ImageFlags) -> (r: Result<ImageId, ImageError>)
        requires
            old(self).wf(),
        ensures
            final(self).wf(),
            r == create_result(old(self)@.len(), image),
            final(self)@ == after_create(old(self)@, image, flags),
    {
        if image.width == 0 || image.height == 0 || image.width > MAX_TEXTURE_SIZE
            || image.height > MAX_TEXTURE_SIZE {
            return Err(ImageError::UnsupportedSize);
        }
        let bpp = image.format.bytes_per_pixel();
        assert(image.width as int * image.height as int <= 16384 * 16384) by (nonlinear_arith)
            requires
                image.width <= 16384,
                image.height <= 16384,
        ;
        let expected: usize = image.width as usize * image.height as usize * bpp;
        if image.data.len() != expected {
            return Err(ImageError::DataSizeMismatch);
        }
        let id = ImageId { index: self.textures.len() };
        let data = image.data.clone();
        assert(data@ =~= image.data@);
        let t = Texture { width: image.width, height: image.height, format: image.format, flags, data };
        self.textures.push(Some(t));
        assert(self@ =~= after_create(old(self)@, image, flags));
        Ok(id)
    }

    /// Releases texture `id`; an id that is not live is left as it is.
    pub fn delete_image(&mut self, id: ImageId)
        requires
            old(self).wf(),
        ensures
            final(self).wf(),
            final(self)@ == after_delete(old(self)@, id),
    {
        if id.index < self.textures.len() {
            self.textures.set(id.index, None);
            assert(self@ =~= after_delete(old(self)@, id));
        }
    }

    /// Writes `image` into texture `id` with its top-left pixel at `(x, y)`.
    /// Where the id is not live, the layouts differ, the pixel data is not
    /// `image`'s size, or the region leaves the texture, nothing changes.
    pub fn update_image(&mut self, id: ImageId, image: &Image, x: u32, y: u32)
        requires
            old(self).wf(),
        ensures
            final(self).wf(),
            final(self)@ == after_update(old(self)@, id, image, x, y),
    {
        let idx = id.index;
        if idx >= self.textures.len() {
            return;
        }
        let fits = match &self.textures[idx] {
            Some(t) => {
                proof {
                    assert(old(self)@[idx as int] is Some);
                }
                if image.format == t.format && x as u64 + image.width as u64 <= t.width as u64
                    && y as u64 + image.height as u64 <= t.height as u64 {
                    assert(image.width as int * image.height as int <= 16384 * 16384) by (nonlinear_arith)
                        requires
                            image.width <= 16384,
                            image.height <= 16384,
                    ;
                    let area: u64 = image.width as u64 * image.height as u64;
                    assert(area as int * image.format.spec_bytes_per_pixel() as int <= 4 * 16384 * 16384) by (nonlinear_arith)
                        requires
                            area <= 16384 * 16384,
                            image.format.spec_bytes_per_pixel() <= 4,
                    ;
                    image.data.len() as u64 == area * image.format.bytes_per_pixel() as u64
                } else {
                    false
                }
            },
            None => false,
        };
        if !fits {
            return;
        }
        let mut slot: Option<Texture> = None;
        self.textures.set_and_swap(idx, &mut slot);
        let mut t = match slot {
            Some(t) => t,
            None => {
                return;
            },
        };
        let ghost old_t = t.view();
        let bpp = image.format.bytes_per_pixel();
        let tw = t.width as usize;
        let iw = image.width as usize;
        let ih = image.height as usize;
        let xs = x as usize;
        let ys = y as usize;
        let n = t.data.len();
        proof {
            assert(texture_wf(old_t)) by {
                assert(old(self)@[idx as int] is Some);
            }
        }
        let mut i: usize = 0;
        while i < n
            invariant
                0 <= i <= n,
                n == t.data@.len(),
                n == old_t.data.len(),
                t.width == old_t.width,
                t.height == old_t.height,
                t.format == old_t.format,
                t.flags == old_t.flags,
                tw == t.width,
                texture_wf(old_t),
                bpp == image.format.spec_bytes_per_pixel(),
                iw == image.width,
                ih == image.height,
                xs == x,
                ys == y,
                x as int + image.width as int <= old_t.width as int,
                y as int + image.height as int <= old_t.height as int,
                image.data@.len() == data_len(image.width, image.height, image.format),
                forall|j: int| 0 <= j < i ==> t.data@[j] == updated_byte(old_t.data, old_t.width, image, x, y, j),
                forall|j: int| i <= j < n ==> t.data@[j] == old_t.data[j],
            decreases n - i,
        {
            let p = i / bpp;
            let px = p % tw;
            let py = p / tw;
            if xs <= px && px < xs + iw && ys <= py && py < ys + ih {
                proof {
                    lemma_pixel_index_bound((py - ys) as int, (px - xs) as int, (i % bpp) as int, iw as int, ih as int, bpp as int);
                }
                let dlen = image.data.len();
                let row_start = (py - ys) * iw;
                let pixel = row_start + (px - xs);
                let src = pixel * bpp + i % bpp;
                let b = image.data[src];
                t.data.set(i, b);
            }
            i = i + 1;
        }
        proof {
            assert(t.data@ =~= Seq::new(old_t.data.len(), |j: int| updated_byte(old_t.data, old_t.width, image, x, y, j)));
        }
        self.textures.set(idx, Some(t));
        assert(self@ =~= after_update(old(self)@, id, image, x, y));
    }

    /// Width and height of texture `id`, or `(0, 0)` for an id that is not live.
    pub fn texture_size(&self, id: ImageId) -> (r: (u32, u32))
        ensures
            r == size_of(self@, id),
    {
        if id.index < self.textures.len() {
            match &self.textures[id.index] {
                Some(t) => (t.width, t.height),
                None => (0, 0),
            }
        } else {
            (0, 0)
        }
    }

    /// Pixel layout of texture `id`, or `None` for an id that is not live.
    pub fn texture_type(&self, id: ImageId) -> (r: Option<TextureType>)
        ensures
            r == type_of(self@, id),
    {
        if id.index < self.textures.len() {
            match &self.textures[id.index] {
                Some(t) => Some(t.format),
                None => None,
            }
        } else {
            None
        }
    }

    /// Flags of texture `id`, or no flags for an id that is not live.
    pub fn texture_flags(&self, id: ImageId) -> (r: ImageFlags)
        ensures
            r == flags_of(self@, id),
    {
        if id.index < self.textures.len() {
            match &self.textures[id.index] {
                Some(t) => t.flags,
                None => ImageFlags::empty(),
            }
        } else {
            ImageFlags::empty()
        }
    }
}

} // verus!
