use vstd::prelude::*;

verus! {

/// Largest side length a kernel may have.
pub const MAX_KERNEL_SIDE: usize = 255;

/// Largest magnitude a kernel weight may have.
pub const MAX_KERNEL_WEIGHT: i64 = 1_000_000;

/// Why a kernel was rejected at construction.
#[derive(Clone, Copy, PartialEq, Eq, Structural, Debug)]
pub enum KernelError {
    /// The rows do not form a square matrix with an odd, bounded, nonzero
    /// side.
    InvalidKernelShape,
    /// Some weight's magnitude exceeds `MAX_KERNEL_WEIGHT`.
    WeightOutOfRange,
}

/// The rows form a square matrix with an odd side in `1 ..= MAX_KERNEL_SIDE`.
pub open spec fn rows_shape_ok(rows: Seq<Vec<i64>>) -> bool {
    &&& 1 <= rows.len() <= MAX_KERNEL_SIDE
    &&& rows.len() % 2 == 1
    &&& forall|i: int| 0 <= i < rows.len() ==> (#[trigger] rows[i])@.len() == rows.len()
}

/// Every weight's magnitude is at most `MAX_KERNEL_WEIGHT`.
pub open spec fn rows_weights_ok(rows: Seq<Vec<i64>>) -> bool {
    forall|i: int, j: int|
        0 <= i < rows.len() && 0 <= j < rows[i]@.len()
            ==> -MAX_KERNEL_WEIGHT <= #[trigger] rows[i]@[j] <= MAX_KERNEL_WEIGHT
}

/// A square matrix of integer weights describing a neighborhood-weighted
/// operation.
#[derive(Debug)]
pub struct Kernel {
    pub side: usize,
    pub weights: Vec<Vec<i64>>,
}

impl Kernel {
    /// Well-formedness: a validated square, odd-sided matrix of bounded
    /// weights.
    pub open spec fn wf(self) -> bool {
        &&& self.side == self.weights@.len()
        &&& rows_shape_ok(self.weights@)
        &&& rows_weights_ok(self.weights@)
    }

    /// Half the side, rounded down: the window's reach on each side of its
    /// center.
    pub open spec fn half(self) -> int {
        self.side as int / 2
    }

    /// The weight in row `ky`, column `kx`.
    pub open spec fn weight(self, ky: int, kx: int) -> int {
        self.weights@[ky]@[kx] as int
    }

    /// Validates and wraps a weight matrix: the rows must form a square
    /// matrix with an odd, bounded, nonzero side, and every weight must be
    /// bounded.
    pub fn new(rows: Vec<Vec<i64>>) -> (r: Result<Kernel, KernelError>)
        ensures
            match r {
                Ok(k) => {
                    &&& k.wf()
                    &&& k.weights@ == rows@
                    &&& k.side == rows@.len()
                },
                Err(e) => {
                    &&& !(rows_shape_ok(rows@) && rows_weights_ok(rows@))
                    &&& e == (if !rows_shape_ok(rows@) {
                        KernelError::InvalidKernelShape
                    } else {
                        KernelError::WeightOutOfRange
                    })
                },
            },
    {
        let n = rows.len();
        if n < 1 || n > MAX_KERNEL_SIDE || n % 2 != 1 {
            return Err(KernelError::InvalidKernelShape);
        }
        let mut i: usize = 0;
        while i < n
            invariant
                n == rows@.len(),
                i <= n,
                forall|p: int| 0 <= p < i ==> (#[trigger] rows@[p])@.len() == n,
            decreases n - i,
        {
            if rows[i].len() != n {
                return Err(KernelError::InvalidKernelShape);
            }
            i = i + 1;
        }
        let mut i: usize = 0;
        while i < n
            invariant
                n == rows@.len(),
                i <= n,
                rows_shape_ok(rows@),
                forall|p: int, q: int|
                    0 <= p < i && 0 <= q < rows@[p]@.len()
                        ==> -MAX_KERNEL_WEIGHT <= #[trigger] rows@[p]@[q] <= MAX_KERNEL_WEIGHT,
            decreases n - i,
        {
            let row = &rows[i];
            let mut j: usize = 0;
            while j < n
                invariant
                    n == rows@.len(),
                    i < n,
                    rows_shape_ok(rows@),
                    row == rows@[i as int],
                    row@.len() == n,
                    j <= n,
                    forall|q: int|
                        0 <= q < j
                            ==> -MAX_KERNEL_WEIGHT <= #[trigger] row@[q] <= MAX_KERNEL_WEIGHT,
                decreases n - j,
            {
                let w = row[j];
                if w < -MAX_KERNEL_WEIGHT || w > MAX_KERNEL_WEIGHT {
                    proof {
                        assert(rows@[i as int]@[j as int] == w);
                        assert(!rows_weights_ok(rows@));
                    }
                    return Err(KernelError::WeightOutOfRange);
                }
                j = j + 1;
            }
            i = i + 1;
        }
        Ok(Kernel { side: n, weights: rows })
    }
}

/// Generates the flat kernel used for a naive box blur: a `size` by `size`
/// matrix with `content` in every cell. Rejects a side that is not odd,
/// zero, or over the side bound, and a fill weight over the weight bound.
pub fn generate_blur_kernel_naive(content: i64, size: usize) -> (r: Result<
    Kernel,
    KernelError,
>)
    ensures
        match r {
            Ok(k) => {
                &&& k.wf()
                &&& k.side == size
                &&& forall|ky: int, kx: int|
                    0 <= ky < size && 0 <= kx < size ==> k.weight(ky, kx) == content
            },
            Err(e) => {
                &&& !(1 <= size <= MAX_KERNEL_SIDE && size % 2 == 1
                    && -MAX_KERNEL_WEIGHT <= content <= MAX_KERNEL_WEIGHT)
                &&& e == (if !(1 <= size <= MAX_KERNEL_SIDE && size % 2 == 1) {
                    KernelError::InvalidKernelShape
                } else {
                    KernelError::WeightOutOfRange
                })
            },
        },
        r is Ok <==> (1 <= size <= MAX_KERNEL_SIDE && size % 2 == 1
            && -MAX_KERNEL_WEIGHT <= content <= MAX_KERNEL_WEIGHT),
{
    if size < 1 || size > MAX_KERNEL_SIDE || size % 2 != 1 {
        return Err(KernelError::InvalidKernelShape);
    }
    if content < -MAX_KERNEL_WEIGHT || content > MAX_KERNEL_WEIGHT {
        return Err(KernelError::WeightOutOfRange);
    }
    let mut rows: Vec<Vec<i64>> = Vec::new();
    let mut i: usize = 0;
    while i < size
        invariant
            i <= size,
            rows@.len() == i,
            forall|p: int| 0 <= p < i ==> (#[trigger] rows@[p])@.len() == size,
            forall|p: int, q: int|
                0 <= p < i && 0 <= q < size ==> rows@[p]@[q] == content,
        decreases size - i,
    {
        let mut row: Vec<i64> = Vec::new();
        let mut j: usize = 0;
        while j < size
            invariant
                j <= size,
                row@.len() == j,
                forall|q: int| 0 <= q < j ==> row@[q] == content,
            decreases size - j,
        {
            row.push(content);
            j = j + 1;
        }
        rows.push(row);
        i = i + 1;
    }
    Ok(Kernel { side: size, weights: rows })
}

/// Gaussian kernel generation is part of the interface surface but carries
/// no behavior: it performs no work and returns nothing, and no other
/// component may depend on it.
pub fn generete_kernel_gaussian() {
}

/// A kernel's shape, read off a row matrix. Mind the internal convention:
/// `height` is the length of the first row (the column count) and `width`
/// is the number of rows; square kernels make the swap invisible.
#[derive(Clone, Copy, PartialEq, Eq, Structural, Debug)]
pub struct Dimension {
    pub height: usize,
    pub width: usize,
}

/// Reads a row matrix's shape. The matrix must have at least one row; rows
/// of unequal length are not detected, the first row alone is consulted.
pub fn get_dimension<T>(kernel: &Vec<Vec<T>>) -> (d: Dimension)
    requires
        kernel@.len() >= 1,
    ensures
        d.height == kernel@[0]@.len(),
        d.width == kernel@.len(),
{
    let rows_quantity = kernel.len();
    let columns_quantity = kernel[0].len();
    Dimension { height: columns_quantity, width: rows_quantity }
}

} // verus!
