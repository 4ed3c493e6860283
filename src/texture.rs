//! Textures held in memory as rows of sRGB pixels.

use vstd::prelude::*;

verus! {

/// A texture: `width` by `height` pixels of three sRGB bytes each, row by
/// row from the top.
pub struct Texture {
    width: u32,
    height: u32,
    data: Vec<u8>,
}

/// Index of the first byte of pixel (x, y) in a texture `w` pixels wide.
pub open spec fn pixel_index(w: int, x: int, y: int) -> int {
    3 * (x + y * w)
}

impl Texture {
    pub closed spec fn w(&self) -> nat {
        self.width as nat
    }

    pub closed spec fn h(&self) -> nat {
        self.height as nat
    }

    /// The pixel bytes.
    pub closed spec fn bytes(&self) -> Seq<u8> {
        self.data@
    }

    pub closed spec fn wf(&self) -> bool {
        self.data@.len() == 3 * self.width * self.height
    }

    /// A texture from its size and its pixel bytes; `None` when there are not
    /// exactly three bytes for each pixel.
    pub fn new(width: u32, height: u32, data: Vec<u8>) -> (r: Option<Texture>)
        ensures
            r is Some <==> data@.len() == 3 * width * height,
            r matches Some(t) ==> t.wf() && t.w() == width && t.h() == height && t.bytes() == data@,
    {
        let len = data.len();
        assert((width as u64) * (height as u64) <= u64::MAX) by (nonlinear_arith)
            requires
                width <= u32::MAX,
                height <= u32::MAX,
        ;
        let n: u64 = (width as u64) * (height as u64);
        if n > u64::MAX / 3 {
            assert(3 * width * height > usize::MAX) by (nonlinear_arith)
                requires
                    n == width * height,
                    n > u64::MAX / 3,
                    usize::MAX <= u64::MAX,
            ;
            return None;
        }
        assert(3 * n == 3 * width * height) by (nonlinear_arith)
            requires
                n == width * height,
        ;
        if len as u64 != 3 * n {
            return None;
        }
        Some(Texture { width, height, data })
    }

    pub fn width(&self) -> (r: u32)
        ensures
            r == self.w(),
    {
        self.width
    }

    pub fn height(&self) -> (r: u32)
        ensures
            r == self.h(),
    {
        self.height
    }

    /// The sRGB bytes of the pixel at (x, y), counted in pixels from the top
    /// left.
    pub fn at(&self, x: u32, y: u32) -> (r: [u8; 3])
        requires
            self.wf(),
            x < self.w(),
            y < self.h(),
        ensures
            r[0] == self.bytes()[pixel_index(self.w() as int, x as int, y as int)],
            r[1] == self.bytes()[pixel_index(self.w() as int, x as int, y as int) + 1],
            r[2] == self.bytes()[pixel_index(self.w() as int, x as int, y as int) + 2],
    {
        // reading the length tells that it fits in a usize
        let _len = self.data.len();
        let w = self.width as usize;
        let xx = x as usize;
        let yy = y as usize;
        proof {
            let h = self.height as int;
            assert(3 * (x + y * w) + 2 < 3 * w * h) by (nonlinear_arith)
                requires
                    x < w,
                    y < h,
            ;
            assert(0 <= y * w <= 3 * (x + y * w)) by (nonlinear_arith)
                requires
                    0 <= x,
                    0 <= y,
                    0 <= w,
            ;
        }
        let idx = 3 * (xx + yy * w);
        [self.data[idx], self.data[idx + 1], self.data[idx + 2]]
    }
}

/// A cube of six textures that a ray which hits nothing looks up by its
/// direction, one face for each half axis.
pub struct SkyboxBackground {
    /// The face in the positive X direction.
    pub px: Texture,
    /// The face in the negative X direction.
    pub nx: Texture,
    /// The face in the positive Y direction.
    pub py: Texture,
    /// The face in the negative Y direction.
    pub ny: Texture,
    /// The face in the positive Z direction.
    pub pz: Texture,
    /// The face in the negative Z direction.
    pub nz: Texture,
}

} // verus!
