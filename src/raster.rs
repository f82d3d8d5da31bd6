use vstd::prelude::*;

verus! {

/// A grayscale image: `width * height` eight-bit samples in row-major order.
#[derive(Debug)]
pub struct Raster {
    pub width: usize,
    pub height: usize,
    pub pixels: Vec<u8>,
}

impl Raster {
    /// The buffer holds exactly one sample per pixel.
    pub open spec fn wf(&self) -> bool {
        self.pixels@.len() == self.width as int * self.height as int
    }

    /// The sample at column `x` and row `y`.
    pub open spec fn spec_pixel(&self, x: int, y: int) -> u8 {
        self.pixels@[y * self.width as int + x]
    }

    /// Builds a raster from its dimensions and samples, or `None` when the
    /// buffer length is not `width * height`.
    pub fn new(width: usize, height: usize, pixels: Vec<u8>) -> (r: Option<Raster>)
        ensures
            pixels@.len() == width as int * height as int <==> r is Some,
            r matches Some(ras) ==> ras.wf() && ras.width == width && ras.height == height
                && ras.pixels@ == pixels@,
    {
        let len = pixels.len();
        let ok = match width.checked_mul(height) {
            Some(n) => n == len,
            None => false,
        };
        if ok {
            Some(Raster { width, height, pixels })
        } else {
            None
        }
    }

    /// Whether the buffer length matches the dimensions.
    pub fn is_well_formed(&self) -> (r: bool)
        ensures
            r == self.wf(),
    {
        let len = self.pixels.len();
        match self.width.checked_mul(self.height) {
            Some(n) => n == len,
            None => false,
        }
    }

    pub fn width(&self) -> (r: usize)
        ensures
            r == self.width,
    {
        self.width
    }

    pub fn height(&self) -> (r: usize)
        ensures
            r == self.height,
    {
        self.height
    }

    pub fn pixels(&self) -> (r: &Vec<u8>)
        ensures
            r@ == self.pixels@,
    {
        &self.pixels
    }

    /// The sample at column `x` and row `y`.
    pub fn pixel(&self, x: usize, y: usize) -> (r: u8)
        requires
            self.wf(),
            x < self.width,
            y < self.height,
        ensures
            r == self.spec_pixel(x as int, y as int),
    {
        let len = self.pixels.len();
        proof {
            lemma_index_in_grid(x as int, y as int, self.width as int, self.height as int);
        }
        self.pixels[y * self.width + x]
    }
}

/// A cell of a `width * height` grid has a row-major index below the cell count.
pub proof fn lemma_index_in_grid(x: int, y: int, width: int, height: int)
    requires
        0 <= x < width,
        0 <= y < height,
    ensures
        0 <= y * width + x < width * height,
{
    assert(y * width + x < width * height) by (nonlinear_arith)
        requires
            0 <= x < width,
            0 <= y < height,
    ;
    assert(0 <= y * width) by (nonlinear_arith)
        requires
            0 <= x < width,
            0 <= y < height,
    ;
}

} // verus!
