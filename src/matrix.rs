use vstd::prelude::*;

use crate::grid::{lemma_cell_offset, lemma_cell_order};
use crate::element::Element;

verus! {

/// A matrix of `R` rows and `C` columns whose `R * C` elements are stored in
/// row-major order: the element of row `i` and column `j` sits at offset
/// `i * C + j`.
#[derive(Clone, Debug)]
pub struct MX<T, const R: usize, const C: usize> {
    pub data: Vec<T>,
}

/// A matrix of a single row.
pub type VR<T, const D: usize> = MX<T, 1, D>;

/// A matrix of a single column.
pub type VC<T, const D: usize> = MX<T, D, 1>;

/// Why a construction from explicit elements was refused.
#[derive(Debug, Clone, Copy, PartialEq, Eq)]
pub enum ShapeError {
    /// A flat list did not hold exactly `R * C` elements.
    Length { expected: usize, found: usize },
    /// A nested literal did not hold exactly `R` rows.
    Rows { expected: usize, found: usize },
    /// Row `row` of a nested literal did not hold exactly `C` elements.
    Columns { row: usize, expected: usize, found: usize },
}

impl<T, const R: usize, const C: usize> MX<T, R, C> {
    /// The elements hold exactly one value per cell.
    pub open spec fn wf(&self) -> bool {
        self.data@.len() == R * C
    }

    /// The element of row `i` and column `j`.
    pub open spec fn get(&self, i: int, j: int) -> T {
        self.data@[i * C + j]
    }

    /// Return the matrix dimensions.
    pub fn shape(&self) -> (r: (usize, usize))
        ensures
            r == (R, C),
    {
        (R, C)
    }
}

impl<T: Copy, const R: usize, const C: usize> MX<T, R, C> {
    /// A matrix whose every cell holds `v`.
    pub fn filled(v: T) -> (res: Self)
        requires
            R * C <= usize::MAX,
        ensures
            res.wf(),
            forall|k: int| 0 <= k < R * C ==> res.data@[k] == v,
    {
        let n: usize = R * C;
        let mut data: Vec<T> = Vec::new();
        let mut k: usize = 0;
        while k < n
            invariant
                n == R * C,
                k <= n,
                data@.len() == k,
                forall|p: int| 0 <= p < k ==> data@[p] == v,
            decreases n - k,
        {
            data.push(v);
            k = k + 1;
        }
        MX { data }
    }
}

impl<T: Copy, const R: usize, const C: usize> MX<T, R, C> {
    /// A matrix whose cells are `items`, given in row-major order. The list
    /// must hold exactly `R * C` elements.
    pub fn from_flat(items: Vec<T>) -> (res: Result<Self, ShapeError>)
        requires
            R * C <= usize::MAX,
        ensures
            items@.len() == R * C <==> res is Ok,
            res matches Ok(m) ==> m.wf() && m.data@ == items@,
            res matches Err(e) ==> e == (ShapeError::Length { expected: (R * C) as usize, found: items@.len() as usize }),
    {
        let n: usize = R * C;
        let found: usize = items.len();
        if found == n {
            Ok(MX { data: items })
        } else {
            Err(ShapeError::Length { expected: n, found })
        }
    }

    /// A matrix built from a nested literal: `rows` lists the rows in order,
    /// each holding its `C` elements from left to right. The literal must hold
    /// exactly `R` rows of `C` elements each.
    pub fn from_rows(rows: Vec<Vec<T>>) -> (res: Result<Self, ShapeError>)
        requires
            R * C <= usize::MAX,
        ensures
            (rows@.len() == R && forall|r: int| 0 <= r < R ==> (#[trigger] rows@[r])@.len() == C) <==> res is Ok,
            res matches Ok(m) ==> m.wf() && forall|i: int, j: int| 0 <= i < R && 0 <= j < C ==> #[trigger] m.get(i, j) == rows@[i]@[j],
            rows@.len() != R <==> res == Err::<Self, ShapeError>(ShapeError::Rows { expected: R, found: rows@.len() as usize }),
            res matches Err(ShapeError::Rows { .. }) ==> rows@.len() != R,
            res matches Err(ShapeError::Columns { row, expected, found }) ==> {
                &&& rows@.len() == R
                &&& row < R
                &&& expected == C
                &&& found == rows@[row as int]@.len()
                &&& found != C
                &&& forall|r: int| 0 <= r < row ==> (#[trigger] rows@[r])@.len() == C
            },
            !(res matches Err(ShapeError::Length { .. })),
    {
        let nrows: usize = rows.len();
        if nrows != R {
            return Err(ShapeError::Rows { expected: R, found: nrows });
        }
        let mut data: Vec<T> = Vec::new();
        let mut i: usize = 0;
        while i < R
            invariant
                rows@.len() == R,
                R * C <= usize::MAX,
                i <= R,
                data@.len() == i * C,
                forall|r: int| 0 <= r < i ==> (#[trigger] rows@[r])@.len() == C,
                forall|ii: int, jj: int| 0 <= ii < i && 0 <= jj < C ==> #[trigger] data@[ii * C + jj] == rows@[ii]@[jj],
            decreases R - i,
        {
            let row: &Vec<T> = &rows[i];
            let found: usize = row.len();
            if found != C {
                return Err(ShapeError::Columns { row: i, expected: C, found });
            }
            let mut j: usize = 0;
            while j < C
                invariant
                    rows@.len() == R,
                    R * C <= usize::MAX,
                    i < R,
                    j <= C,
                    row@ == rows@[i as int]@,
                    row@.len() == C,
                    data@.len() == i * C + j,
                    forall|ii: int, jj: int| (0 <= ii < i && 0 <= jj < C) || (ii == i && 0 <= jj < j) ==> #[trigger] data@[ii * C + jj] == rows@[ii]@[jj],
                decreases C - j,
            {
                let ghost before = data@;
                data.push(row[j]);
                proof {
                    assert forall|ii: int, jj: int| (0 <= ii < i && 0 <= jj < C) || (ii == i && 0 <= jj <= j) implies #[trigger] data@[ii * C + jj] == rows@[ii]@[jj] by {
                        if ii < i || jj < j {
                            lemma_cell_order(ii, jj, i as int, j as int, C as int);
                            assert(data@[ii * C + jj] == before[ii * C + jj]);
                        }
                    }
                }
                j = j + 1;
            }
            proof {
                assert((i + 1) * C == i * C + C) by (nonlinear_arith);
            }
            i = i + 1;
        }
        Ok(MX { data })
    }

    /// The element at row-major offset `k`.
    pub fn at(&self, k: usize) -> (r: T)
        requires
            self.wf(),
            k < R * C,
        ensures
            r == self.data@[k as int],
    {
        self.data[k]
    }

    /// The element of row `i` and column `j`, which sits at offset `i * C + j`.
    pub fn at_rc(&self, i: usize, j: usize) -> (r: T)
        requires
            self.wf(),
            i < R,
            j < C,
        ensures
            r == self.get(i as int, j as int),
            r == self.data@[i * C + j],
    {
        let len: usize = self.data.len();
        proof {
            lemma_cell_offset(i as int, j as int, R as int, C as int);
            assert(i * C + j < len);
        }
        self.data[i * C + j]
    }

    /// Overwrite the element at row-major offset `k` with `v`.
    pub fn set(&mut self, k: usize, v: T)
        requires
            old(self).wf(),
            k < R * C,
        ensures
            final(self).wf(),
            final(self).data@ == old(self).data@.update(k as int, v),
    {
        self.data.set(k, v);
    }

    /// Overwrite the element of row `i` and column `j` with `v`.
    pub fn set_rc(&mut self, i: usize, j: usize, v: T)
        requires
            old(self).wf(),
            i < R,
            j < C,
        ensures
            final(self).wf(),
            final(self).data@ == old(self).data@.update(i * C + j, v),
            final(self).get(i as int, j as int) == v,
    {
        let len: usize = self.data.len();
        proof {
            lemma_cell_offset(i as int, j as int, R as int, C as int);
            assert(i * C + j < len);
        }
        self.data.set(i * C + j, v);
    }

    /// A copy of the elements in row-major order, for consumers that need a
    /// flat buffer; the matrix keeps its own storage.
    pub fn to_vec(&self) -> (r: Vec<T>)
        ensures
            r@ == self.data@,
    {
        let n: usize = self.data.len();
        let mut out: Vec<T> = Vec::new();
        let mut k: usize = 0;
        while k < n
            invariant
                n == self.data@.len(),
                k <= n,
                out@ == self.data@.subrange(0, k as int),
            decreases n - k,
        {
            out.push(self.data[k]);
            k = k + 1;
        }
        proof {
            assert(self.data@.subrange(0, n as int) =~= self.data@);
        }
        out
    }

    /// The elements in row-major order.
    pub fn into_iter(self) -> (r: Vec<T>)
        ensures
            r@ == self.data@,
    {
        self.data
    }
}

impl<T: Element, const R: usize, const C: usize> MX<T, R, C> {
    /// A matrix whose cells are taken in row-major order from `items`. Extra
    /// items are ignored without notice; cells past the end of `items` hold
    /// the element type's default value.
    pub fn from_iter(items: Vec<T>) -> (res: Self)
        requires
            R * C <= usize::MAX,
        ensures
            res.wf(),
            forall|k: int| 0 <= k < R * C ==> #[trigger] res.data@[k] == if k < items@.len() {
                items@[k]
            } else {
                T::default_spec()
            },
    {
        let n: usize = R * C;
        let mut res: Self = Self::filled(T::default_value());
        let mut k: usize = 0;
        while k < n && k < items.len()
            invariant
                n == R * C,
                res.wf(),
                k <= n,
                k <= items@.len(),
                forall|p: int| 0 <= p < R * C ==> #[trigger] res.data@[p] == if p < k {
                    items@[p]
                } else {
                    T::default_spec()
                },
            decreases n - k,
        {
            res.set(k, items[k]);
            k = k + 1;
        }
        res
    }
}

impl<T: Copy, const D: usize> MX<T, 1, D> {
    /// A single-row matrix holding `items` from left to right.
    pub fn row(items: Vec<T>) -> (res: Result<Self, ShapeError>)
        ensures
            items@.len() == D <==> res is Ok,
            res matches Ok(m) ==> m.wf() && m.data@ == items@,
            res matches Err(e) ==> e == (ShapeError::Length { expected: D, found: items@.len() as usize }),
    {
        Self::from_flat(items)
    }
}

impl<T: Copy, const D: usize> MX<T, D, 1> {
    /// A single-column matrix holding `items` from top to bottom.
    pub fn column(items: Vec<T>) -> (res: Result<Self, ShapeError>)
        ensures
            items@.len() == D <==> res is Ok,
            res matches Ok(m) ==> m.wf() && m.data@ == items@,
            res matches Err(e) ==> e == (ShapeError::Length { expected: D, found: items@.len() as usize }),
    {
        Self::from_flat(items)
    }
}

impl<T: Element, const R: usize, const C: usize> PartialEq for MX<T, R, C> {
    fn eq(&self, other: &Self) -> (r: bool) {
        let n: usize = self.data.len();
        if n != other.data.len() {
            return false;
        }
        let mut k: usize = 0;
        while k < n
            invariant
                n == self.data@.len(),
                n == other.data@.len(),
                k <= n,
                forall|p: int| 0 <= p < k ==> self.data@[p] == other.data@[p],
            decreases n - k,
        {
            if !self.data[k].same(&other.data[k]) {
                return false;
            }
            k = k + 1;
        }
        proof {
            assert(self.data@ =~= other.data@);
        }
        true
    }
}

impl<T: Element, const R: usize, const C: usize> vstd::std_specs::cmp::PartialEqSpecImpl for MX<T, R, C> {
    open spec fn obeys_eq_spec() -> bool {
        true
    }

    open spec fn eq_spec(&self, other: &Self) -> bool {
        self.data@ == other.data@
    }
}

} // verus!
