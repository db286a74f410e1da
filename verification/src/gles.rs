//! What the GLES2 video renderer of the Raspberry Pi Zero demo keeps track of:
//! which textures hold the picture, and how large each of them is.
//!
//! A picture goes up either as its three planes, leaving the color conversion to
//! the shader, or as one packed texture. A texture is allocated anew when its
//! size changes, and written into otherwise.

use vstd::prelude::*;

verus! {

/// Which upload path was last used, so that drawing picks the right program.
#[derive(Debug, Clone, Copy, PartialEq, Eq, Structural)]
pub enum ActiveMode {
    /// One packed texture.
    Rgba,
    /// Three planes.
    I420,
}

/// How pixels get into a texture.
#[derive(Debug, Clone, Copy, PartialEq, Eq, Structural)]
pub enum Upload {
    /// The texture is allocated at the size of the pixels.
    Allocate,
    /// The pixels are written into a texture that has their size.
    Reuse,
}

/// The size that a texture was last allocated with.
#[derive(Debug, Clone, Copy, PartialEq, Eq, Structural)]
pub struct TextureSize {
    /// Texels across.
    pub width: u32,
    /// Texels down.
    pub height: u32,
}

impl TextureSize {
    /// A texture that has not been allocated yet.
    pub open spec fn unallocated() -> TextureSize {
        TextureSize { width: 0, height: 0 }
    }

    /// Takes an upload of this size: the texture is allocated when it has another
    /// size, and reused when it has this one.
    pub fn upload(&mut self, width: u32, height: u32) -> (r: Upload)
        ensures
            *final(self) == (TextureSize { width, height }),
            r == if *old(self) == (TextureSize { width, height }) {
                Upload::Reuse
            } else {
                Upload::Allocate
            },
    {
        if width != self.width || height != self.height {
            self.width = width;
            self.height = height;
            Upload::Allocate
        } else {
            Upload::Reuse
        }
    }
}

/// Half of a length, rounded up: the side of a chroma plane.
pub open spec fn half_up(n: u32) -> u32 {
    ((n + 1) / 2) as u32
}

/// One plane of an upload: how many of its bytes go up, and how.
#[derive(Debug, Clone, Copy, PartialEq, Eq, Structural)]
pub struct PlaneUpload {
    /// Texels across.
    pub width: u32,
    /// Texels down.
    pub height: u32,
    /// How many bytes from the start of the plane.
    pub len: usize,
    /// How they get into the texture.
    pub upload: Upload,
}

/// What the renderer keeps track of.
#[derive(Debug, Clone, Copy, PartialEq, Eq, Structural)]
pub struct GlesState {
    /// Which upload path was last used.
    pub active: ActiveMode,
    /// The packed texture.
    pub rgba: TextureSize,
    /// The luma texture.
    pub y: TextureSize,
    /// The first chroma texture.
    pub u: TextureSize,
    /// The second chroma texture.
    pub v: TextureSize,
}

impl GlesState {
    /// No texture is allocated, and the packed program draws.
    pub fn new() -> (r: GlesState)
        ensures
            r == (GlesState {
                active: ActiveMode::Rgba,
                rgba: TextureSize::unallocated(),
                y: TextureSize::unallocated(),
                u: TextureSize::unallocated(),
                v: TextureSize::unallocated(),
            }),
            r.rgba.width == 0 && r.rgba.height == 0 && r.y == r.rgba && r.u == r.rgba && r.v
                == r.rgba,
    {
        let none = TextureSize { width: 0, height: 0 };
        GlesState { active: ActiveMode::Rgba, rgba: none, y: none, u: none, v: none }
    }

    /// Uploads packed pixels.
    pub fn upload_rgba(&mut self, width: u32, height: u32) -> (r: Upload)
        ensures
            *final(self) == (GlesState {
                active: ActiveMode::Rgba,
                rgba: TextureSize { width, height },
                ..*old(self)
            }),
            r == if old(self).rgba == (TextureSize { width, height }) {
                Upload::Reuse
            } else {
                Upload::Allocate
            },
    {
        self.active = ActiveMode::Rgba;
        let mut rgba = self.rgba;
        let r = rgba.upload(width, height);
        self.rgba = rgba;
        r
    }

    /// Uploads three planes of these lengths: the luma plane, and two chroma
    /// planes of half its size in both directions. Each gives as many bytes as
    /// its texture has texels.
    pub fn upload_i420(
        &mut self,
        y_len: usize,
        u_len: usize,
        v_len: usize,
        width: u32,
        height: u32,
    ) -> (r: (PlaneUpload, PlaneUpload, PlaneUpload))
        requires
            width * height <= u32::MAX,
            width * height <= y_len,
            half_up(width) * half_up(height) <= u_len,
            half_up(width) * half_up(height) <= v_len,
        ensures
            ({
                let luma = TextureSize { width, height };
                let chroma = TextureSize { width: half_up(width), height: half_up(height) };
                &&& *final(self) == (GlesState {
                    active: ActiveMode::I420,
                    rgba: old(self).rgba,
                    y: luma,
                    u: chroma,
                    v: chroma,
                })
                &&& is_plane(r.0, old(self).y, luma)
                &&& is_plane(r.1, old(self).u, chroma)
                &&& is_plane(r.2, old(self).v, chroma)
            }),
            r.0.width == width && r.0.height == height && r.0.len == width * height,
            r.1.width == width / 2 + width % 2 && r.1.height == height / 2 + height % 2,
            r.1.len == r.1.width * r.1.height,
            r.2.width == r.1.width && r.2.height == r.1.height && r.2.len == r.1.len,
            r.0.upload is Reuse <==> old(self).y.width == width && old(self).y.height == height,
            r.1.upload is Reuse <==> old(self).u.width == r.1.width && old(self).u.height
                == r.1.height,
            r.2.upload is Reuse <==> old(self).v.width == r.2.width && old(self).v.height
                == r.2.height,
    {
        self.active = ActiveMode::I420;
        let chroma_w: u32 = width / 2 + width % 2;
        let chroma_h: u32 = height / 2 + height % 2;
        proof {
            let (w, h) = (width as int, height as int);
            assert(0 <= w * h) by (nonlinear_arith)
                requires
                    w >= 0,
                    h >= 0,
            ;
            let (cw, ch) = (chroma_w as int, chroma_h as int);
            assert(0 <= cw * ch) by (nonlinear_arith)
                requires
                    cw >= 0,
                    ch >= 0,
            ;
            assert(cw * ch <= w * h) by (nonlinear_arith)
                requires
                    w >= 0,
                    h >= 0,
                    0 <= cw <= w,
                    0 <= ch <= h,
            ;
        }
        let luma_len: usize = (width * height) as usize;
        let chroma_len: usize = (chroma_w * chroma_h) as usize;
        let mut y = self.y;
        let mut u = self.u;
        let mut v = self.v;
        let y_upload = y.upload(width, height);
        let u_upload = u.upload(chroma_w, chroma_h);
        let v_upload = v.upload(chroma_w, chroma_h);
        self.y = y;
        self.u = u;
        self.v = v;
        (
            PlaneUpload { width, height, len: luma_len, upload: y_upload },
            PlaneUpload { width: chroma_w, height: chroma_h, len: chroma_len, upload: u_upload },
            PlaneUpload { width: chroma_w, height: chroma_h, len: chroma_len, upload: v_upload },
        )
    }

    /// The dimensions of the picture uploaded last.
    pub fn texture_dimensions(&self) -> (r: (u32, u32))
        ensures
            r == (match self.active {
                ActiveMode::Rgba => (self.rgba.width, self.rgba.height),
                ActiveMode::I420 => (self.y.width, self.y.height),
            }),
    {
        match self.active {
            ActiveMode::Rgba => (self.rgba.width, self.rgba.height),
            ActiveMode::I420 => (self.y.width, self.y.height),
        }
    }
}

/// Whether a plane goes up into a texture of the given size, which is allocated
/// unless it has that size already, with one byte for each texel.
pub open spec fn is_plane(plane: PlaneUpload, before: TextureSize, size: TextureSize) -> bool {
    &&& plane.width == size.width
    &&& plane.height == size.height
    &&& plane.len == size.width * size.height
    &&& plane.upload == if before == size {
        Upload::Reuse
    } else {
        Upload::Allocate
    }
}

/// A texture is only ever written into at the size it was allocated with.
pub proof fn reused_textures_fit(plane: PlaneUpload, before: TextureSize, size: TextureSize)
    requires
        is_plane(plane, before, size),
        plane.upload == Upload::Reuse,
    ensures
        before.width == plane.width,
        before.height == plane.height,
{
}

/// A plane goes up with a byte to a texel, into a texture of its size: a new one where
/// the texture had another size, and the same one where it had this.
pub proof fn planes_fill_their_textures(plane: PlaneUpload, before: TextureSize, size: TextureSize)
    requires
        is_plane(plane, before, size),
    ensures
        plane.width == size.width,
        plane.height == size.height,
        plane.len == plane.width * plane.height,
        plane.upload is Reuse <==> before.width == size.width && before.height == size.height,
{
}

/// A chroma plane has half as many texels to a side, rounded up.
pub proof fn chroma_is_half_as_large(n: u32)
    ensures
        2 * half_up(n) == n || 2 * half_up(n) == n + 1,
{
}

} // verus!
