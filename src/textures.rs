//! The texture service: per-tag RGBA images with clamped sampling and a
//! fallback for unknown tags.
use vstd::prelude::*;
use crate::color::Color;

verus! {

/// Largest texture width or height, in pixels.
pub const TEXTURE_LIMIT: u32 = 32768;

/// Width and height reported for a tag that has no texture.
pub const DEFAULT_TEXTURE_SIZE: u32 = 128;

pub open spec fn white() -> Color {
    Color { r: 255, g: 255, b: 255, a: 255 }
}

/// An RGBA image stored row by row.
#[derive(Debug)]
pub struct Texture {
    pub width: u32,
    pub height: u32,
    pub pixels: Vec<Color>,
}

impl Texture {
    pub open spec fn wf(&self) -> bool {
        0 < self.width <= TEXTURE_LIMIT && 0 < self.height <= TEXTURE_LIMIT && self.pixels@.len()
            == self.width * self.height
    }

    /// The pixel at `(x, y)`, or white outside the image.
    pub open spec fn pixel_at(&self, x: int, y: int) -> Color {
        if 0 <= x < self.width && 0 <= y < self.height {
            self.pixels@[y * self.width + x]
        } else {
            white()
        }
    }

    /// Builds a texture from its rows of pixels; `None` unless the sizes are
    /// positive, within `TEXTURE_LIMIT`, and match the pixel count.
    pub fn new(width: u32, height: u32, pixels: Vec<Color>) -> (r: Option<Texture>)
        ensures
            r is Some <==> (0 < width <= TEXTURE_LIMIT && 0 < height <= TEXTURE_LIMIT
                && pixels@.len() == width * height),
            r matches Some(t) ==> t.width == width && t.height == height && t.pixels@ == pixels@,
    {
        if width == 0 || height == 0 || width > TEXTURE_LIMIT || height > TEXTURE_LIMIT {
            return None;
        }
        assert(width as u64 * height as u64 <= 0x4000_0000) by (nonlinear_arith)
            requires width <= TEXTURE_LIMIT, height <= TEXTURE_LIMIT;
        if pixels.len() as u64 != width as u64 * height as u64 {
            return None;
        }
        Some(Texture { width, height, pixels })
    }

    /// The pixel at `(x, y)`, white outside the image.
    pub fn pixel(&self, x: i32, y: i32) -> (c: Color)
        requires
            self.wf(),
        ensures
            c == self.pixel_at(x as int, y as int),
    {
        if x < 0 || y < 0 || x as u32 >= self.width || y as u32 >= self.height {
            return Color::white();
        }
        assert(y * self.width + x < self.width * self.height <= 0x4000_0000) by (nonlinear_arith)
            requires
                self.width <= TEXTURE_LIMIT,
                self.height <= TEXTURE_LIMIT,
                0 <= x < self.width,
                0 <= y < self.height,
                self.pixels@.len() == self.width * self.height;
        let i = y as usize * self.width as usize + x as usize;
        self.pixels[i]
    }
}

/// Textures keyed by cell or sprite tag, each tag at most once.
pub struct TextureManager {
    pub entries: Vec<(char, Texture)>,
}

impl TextureManager {
    pub open spec fn wf(&self) -> bool {
        &&& forall|i: int| 0 <= i < self.entries@.len() ==> (#[trigger] self.entries@[i]).1.wf()
        &&& forall|i: int, k: int|
            0 <= i < self.entries@.len() && 0 <= k < self.entries@.len() && i != k
                ==> (#[trigger] self.entries@[i]).0 != (#[trigger] self.entries@[k]).0
    }

    pub open spec fn has_tag(&self, ch: char) -> bool {
        exists|i: int| 0 <= i < self.entries@.len() && (#[trigger] self.entries@[i]).0 == ch
    }

    /// The texture of a tag that has one.
    pub open spec fn texture_of(&self, ch: char) -> Texture
        recommends
            self.has_tag(ch),
    {
        self.entries@[choose|i: int| 0 <= i < self.entries@.len() && (#[trigger] self.entries@[i]).0 == ch].1
    }

    /// `(width, height)` of a tag's texture, the default size for an unknown tag.
    pub open spec fn dims_of(&self, ch: char) -> (u32, u32) {
        if self.has_tag(ch) {
            (self.texture_of(ch).width, self.texture_of(ch).height)
        } else {
            (DEFAULT_TEXTURE_SIZE, DEFAULT_TEXTURE_SIZE)
        }
    }

    /// The color sampled from a tag's texture at `(tx, ty)`, the coordinates
    /// clamped to the image; white for an unknown tag.
    pub open spec fn sample(&self, ch: char, tx: int, ty: int) -> Color {
        if self.has_tag(ch) {
            let t = self.texture_of(ch);
            let x = if tx < t.width - 1 { tx } else { t.width - 1 };
            let y = if ty < t.height - 1 { ty } else { t.height - 1 };
            t.pixel_at(x, y)
        } else {
            white()
        }
    }

    /// A manager with no textures.
    pub fn new() -> (m: TextureManager)
        ensures
            m.wf(),
            m.entries@.len() == 0,
    {
        TextureManager { entries: Vec::new() }
    }

    /// Index of the entry of tag `ch`.
    fn find(&self, ch: char) -> (r: Option<usize>)
        requires
            self.wf(),
        ensures
            r is Some <==> self.has_tag(ch),
            r matches Some(i) ==> i < self.entries@.len() && self.entries@[i as int].0 == ch
                && self.entries@[i as int].1 == self.texture_of(ch),
    {
        let mut i: usize = 0;
        while i < self.entries.len()
            invariant
                self.wf(),
                0 <= i <= self.entries@.len(),
                forall|k: int| 0 <= k < i ==> (#[trigger] self.entries@[k]).0 != ch,
            decreases self.entries.len() - i,
        {
            if self.entries[i].0 == ch {
                proof {
                    assert(self.entries@[i as int].0 == ch);
                    self.lemma_texture_at(ch, i as int);
                }
                return Some(i);
            }
            i += 1;
        }
        None
    }

    /// The texture of a tag is the one at its entry.
    pub proof fn lemma_texture_at(&self, ch: char, i: int)
        requires
            self.wf(),
            0 <= i < self.entries@.len(),
            self.entries@[i].0 == ch,
        ensures
            self.has_tag(ch),
            self.texture_of(ch) == self.entries@[i].1,
    {
        let k = choose|k: int| 0 <= k < self.entries@.len() && (#[trigger] self.entries@[k]).0 == ch;
        assert(self.entries@[k].0 == ch);
    }

    /// Adds the texture of a tag, replacing the one it had.
    pub fn insert(&mut self, ch: char, texture: Texture)
        requires
            old(self).wf(),
            texture.wf(),
        ensures
            final(self).wf(),
            final(self).has_tag(ch),
            final(self).texture_of(ch) == texture,
            forall|c: char| c != ch ==> final(self).has_tag(c) == old(self).has_tag(c),
            forall|c: char|
                c != ch && #[trigger] old(self).has_tag(c) ==> final(self).texture_of(c) == old(
                    self,
                ).texture_of(c),
    {
        let ghost before = *self;
        let n = self.entries.len();
        match self.find(ch) {
            Some(i) => {
                self.entries.set(i, (ch, texture));
                assert forall|k: int| 0 <= k < n implies (#[trigger] self.entries@[k]).0
                    == before.entries@[k].0 by {}
            },
            None => {
                self.entries.push((ch, texture));
                assert forall|k: int| 0 <= k < n implies (#[trigger] self.entries@[k]) == before.entries@[k] by {}
                assert(self.entries@[n as int].0 == ch);
            },
        }
        proof {
            let len = self.entries@.len();
            let i = if before.has_tag(ch) {
                choose|k: int| 0 <= k < before.entries@.len() && (#[trigger] before.entries@[k]).0 == ch
            } else {
                n as int
            };
            assert(self.entries@[i].0 == ch);
            self.lemma_texture_at(ch, i);
            assert forall|c: char| c != ch implies self.has_tag(c) == before.has_tag(c) by {
                if self.has_tag(c) {
                    let k = choose|k: int| 0 <= k < len && (#[trigger] self.entries@[k]).0 == c;
                    assert(before.entries@[k].0 == c);
                }
                if before.has_tag(c) {
                    let k = choose|k: int| 0 <= k < n && (#[trigger] before.entries@[k]).0 == c;
                    assert(self.entries@[k].0 == c);
                }
            }
            assert forall|c: char| c != ch && #[trigger] before.has_tag(c) implies self.texture_of(c)
                == before.texture_of(c) by {
                let k = choose|k: int| 0 <= k < n && (#[trigger] before.entries@[k]).0 == c;
                before.lemma_texture_at(c, k);
                assert(self.entries@[k].0 == c);
                self.lemma_texture_at(c, k);
            }
        }
    }

    /// Width and height of a tag's texture; `None` for an unknown tag.
    pub fn get_image_dimensions(&self, ch: char) -> (r: Option<(u32, u32)>)
        requires
            self.wf(),
        ensures
            r is Some <==> self.has_tag(ch),
            r matches Some(d) ==> d == self.dims_of(ch),
    {
        match self.find(ch) {
            Some(i) => Some((self.entries[i].1.width, self.entries[i].1.height)),
            None => None,
        }
    }

    /// Width and height of a tag's texture, the default size for an unknown tag.
    pub fn dimensions(&self, ch: char) -> (r: (u32, u32))
        requires
            self.wf(),
        ensures
            r == self.dims_of(ch),
            0 < r.0 <= TEXTURE_LIMIT,
            0 < r.1 <= TEXTURE_LIMIT,
    {
        match self.find(ch) {
            Some(i) => (self.entries[i].1.width, self.entries[i].1.height),
            None => (DEFAULT_TEXTURE_SIZE, DEFAULT_TEXTURE_SIZE),
        }
    }

    /// The texture of a tag, if it has one.
    pub fn get_texture(&self, ch: char) -> (r: Option<&Texture>)
        requires
            self.wf(),
        ensures
            r is Some <==> self.has_tag(ch),
            r matches Some(t) ==> *t == self.texture_of(ch),
    {
        match self.find(ch) {
            Some(i) => Some(&self.entries[i].1),
            None => None,
        }
    }

    /// The color of a tag's texture at `(tx, ty)`, each coordinate clamped to
    /// the last row or column; white for an unknown tag.
    pub fn get_pixel_color(&self, ch: char, tx: u32, ty: u32) -> (c: Color)
        requires
            self.wf(),
        ensures
            c == self.sample(ch, tx as int, ty as int),
    {
        match self.find(ch) {
            Some(i) => {
                let t = &self.entries[i].1;
                let x = if tx < t.width - 1 { tx } else { t.width - 1 };
                let y = if ty < t.height - 1 { ty } else { t.height - 1 };
                t.pixel(x as i32, y as i32)
            },
            None => Color::white(),
        }
    }
}

} // verus!
