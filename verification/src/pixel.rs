use vstd::prelude::*;

verus! {

/// One 4-channel 8-bit pixel: red, green, blue, alpha.
#[derive(Clone, Copy, PartialEq, Eq, Structural, Debug)]
pub struct Pixel {
    pub r: u8,
    pub g: u8,
    pub b: u8,
    pub a: u8,
}

/// Largest side length a grid may have.
pub const MAX_DIM: usize = 1_000_000;

/// A decoded raster: `width * height` pixels stored in row-major order,
/// so cell `(x, y)` lives at index `y * width + x`.
#[derive(Debug)]
pub struct PixelGrid {
    pub width: usize,
    pub height: usize,
    pub data: Vec<Pixel>,
}

/// Row-major index arithmetic stays inside the backing vector.
pub proof fn lemma_row_major_index(w: int, h: int, x: int, y: int)
    by (nonlinear_arith)
    requires
        0 <= x < w,
        0 <= y < h,
    ensures
        0 <= y * w + x < w * h,
{
}

/// Distinct cells map to distinct row-major indices.
pub proof fn lemma_row_major_injective(w: int, x1: int, y1: int, x2: int, y2: int)
    by (nonlinear_arith)
    requires
        0 <= x1 < w,
        0 <= x2 < w,
        !(x1 == x2 && y1 == y2),
    ensures
        y1 * w + x1 != y2 * w + x2,
{
}

impl PixelGrid {
    /// Well-formedness: bounded sides and exactly one pixel per cell.
    pub open spec fn wf(self) -> bool {
        &&& self.width <= MAX_DIM
        &&& self.height <= MAX_DIM
        &&& self.data@.len() == self.width * self.height
    }

    /// The pixel at column `x`, row `y`.
    pub open spec fn at(self, x: int, y: int) -> Pixel {
        self.data@[y * self.width + x]
    }

    /// A fresh grid with every cell set to `fill`.
    pub fn new(width: usize, height: usize, fill: Pixel) -> (g: PixelGrid)
        requires
            width <= MAX_DIM,
            height <= MAX_DIM,
            width * height <= usize::MAX,
        ensures
            g.wf(),
            g.width == width,
            g.height == height,
            forall|x: int, y: int|
                0 <= x < width && 0 <= y < height ==> g.at(x, y) == fill,
    {
        let n: usize = width * height;
        let mut data: Vec<Pixel> = Vec::new();
        let mut i: usize = 0;
        while i < n
            invariant
                i <= n,
                data@.len() == i,
                forall|j: int| 0 <= j < i ==> data@[j] == fill,
            decreases n - i,
        {
            data.push(fill);
            i = i + 1;
        }
        let g = PixelGrid { width, height, data };
        proof {
            assert forall|x: int, y: int|
                0 <= x < width && 0 <= y < height implies g.at(x, y) == fill by {
                lemma_row_major_index(width as int, height as int, x, y);
            }
        }
        g
    }

    /// Builds a grid from a row-major pixel vector, provided the cell count
    /// matches the requested shape.
    pub fn from_raw(width: usize, height: usize, data: Vec<Pixel>) -> (r: Option<PixelGrid>)
        ensures
            match r {
                Some(g) => {
                    &&& g.wf()
                    &&& g.width == width
                    &&& g.height == height
                    &&& g.data@ == data@
                },
                None => !(width <= MAX_DIM && height <= MAX_DIM
                    && data@.len() == width * height),
            },
    {
        proof {
            vstd::std_specs::vec::axiom_spec_len(&data);
        }
        if width > MAX_DIM || height > MAX_DIM {
            return None;
        }
        if let Some(n) = width.checked_mul(height) {
            if data.len() == n {
                Some(PixelGrid { width, height, data })
            } else {
                None
            }
        } else {
            None
        }
    }

    /// Reads the pixel at `(x, y)`.
    pub fn get(&self, x: usize, y: usize) -> (p: Pixel)
        requires
            self.wf(),
            x < self.width,
            y < self.height,
        ensures
            p == self.at(x as int, y as int),
    {
        proof {
            self.lemma_area_bounded();
            lemma_row_major_index(
                self.width as int, self.height as int, x as int, y as int);
        }
        let i: usize = y * self.width + x;
        self.data[i]
    }

    /// Overwrites the pixel at `(x, y)`, leaving every other cell unchanged.
    pub fn set(&mut self, x: usize, y: usize, p: Pixel)
        requires
            old(self).wf(),
            x < old(self).width,
            y < old(self).height,
        ensures
            final(self).wf(),
            final(self).width == old(self).width,
            final(self).height == old(self).height,
            final(self).at(x as int, y as int) == p,
            forall|i: int, j: int|
                0 <= i < final(self).width && 0 <= j < final(self).height
                    && !(i == x && j == y)
                    ==> final(self).at(i, j) == old(self).at(i, j),
    {
        proof {
            self.lemma_area_bounded();
            lemma_row_major_index(
                self.width as int, self.height as int, x as int, y as int);
        }
        let idx: usize = y * self.width + x;
        self.data[idx] = p;
        proof {
            assert forall|i: int, j: int|
                0 <= i < self.width && 0 <= j < self.height && !(i == x && j == y)
                    implies self.at(i, j) == old(self).at(i, j) by {
                lemma_row_major_index(
                    self.width as int, self.height as int, i, j);
                lemma_row_major_injective(
                    self.width as int, i, j, x as int, y as int);
            }
        }
    }

    /// The grid's width, as a value.
    pub fn get_width(&self) -> (w: usize)
        ensures
            w == self.width,
    {
        self.width
    }

    /// The grid's height, as a value.
    pub fn get_height(&self) -> (h: usize)
        ensures
            h == self.height,
    {
        self.height
    }

    /// The whole cell count never exceeds the machine's address range.
    pub proof fn lemma_area_bounded(&self)
        requires
            self.wf(),
        ensures
            self.width * self.height <= usize::MAX,
    {
        vstd::std_specs::vec::axiom_spec_len(&self.data);
    }
}

} // verus!
