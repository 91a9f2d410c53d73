use vstd::prelude::*;

use crate::grid::{lemma_cell_offset, lemma_cell_order, lemma_offset_cell};
use crate::matrix::MX;

verus! {

/// `t` is the transpose of `m`: cell `(j, i)` of `t` is cell `(i, j)` of `m`.
pub open spec fn is_transpose<T, const R: usize, const C: usize>(t: MX<T, C, R>, m: MX<T, R, C>) -> bool {
    &&& t.wf()
    &&& forall|i: int, j: int| 0 <= i < R && 0 <= j < C ==> #[trigger] t.get(j, i) == m.get(i, j)
}

/// `id` is the `N`-by-`N` identity: ones on the diagonal, zeros elsewhere.
pub open spec fn is_identity<const N: usize>(id: MX<i64, N, N>) -> bool {
    &&& id.wf()
    &&& forall|i: int, j: int| 0 <= i < N && 0 <= j < N ==> #[trigger] id.get(i, j) == if i == j {
        1i64
    } else {
        0i64
    }
}

/// Two well-formed matrices of one shape that agree on every cell hold the
/// same element sequence.
pub proof fn lemma_cells_determine<T, const R: usize, const C: usize>(a: MX<T, R, C>, b: MX<T, R, C>)
    requires
        a.wf(),
        b.wf(),
        forall|i: int, j: int| 0 <= i < R && 0 <= j < C ==> #[trigger] a.get(i, j) == b.get(i, j),
    ensures
        a.data@ == b.data@,
{
    assert forall|p: int| 0 <= p < a.data@.len() implies a.data@[p] == b.data@[p] by {
        lemma_offset_cell(p, R as int, C as int);
        assert(a.get(p / C as int, p % C as int) == b.get(p / C as int, p % C as int));
    }
    assert(a.data@ =~= b.data@);
}

/// Transposing twice gives back the matrix that was transposed.
pub proof fn lemma_transpose_involution<T, const R: usize, const C: usize>(
    m: MX<T, R, C>,
    t: MX<T, C, R>,
    tt: MX<T, R, C>,
)
    requires
        m.wf(),
        is_transpose(t, m),
        is_transpose(tt, t),
    ensures
        tt.data@ == m.data@,
{
    assert forall|i: int, j: int| 0 <= i < R && 0 <= j < C implies #[trigger] tt.get(i, j) == m.get(i, j) by {
        assert(tt.get(i, j) == t.get(j, i));
    }
    lemma_cells_determine(tt, m);
}

/// Reshaping to another shape of the same size and back gives back the
/// matrix that was reshaped.
pub proof fn lemma_reshape_round_trip<T, const R: usize, const C: usize, const R2: usize, const C2: usize>(
    m: MX<T, R, C>,
    r: MX<T, R2, C2>,
    back: MX<T, R, C>,
)
    requires
        m.wf(),
        R * C == R2 * C2,
        r.wf(),
        r.data@ == m.data@,
        back.wf(),
        back.data@ == r.data@,
    ensures
        back.data@ == m.data@,
{
}

/// Against the identity, the first `n` terms of cell `(i, j)` sum to `m(i, j)`
/// once the diagonal term is among them, and to zero before.
proof fn lemma_dot_identity<const R: usize, const C: usize>(m: MX<i64, R, C>, id: MX<i64, C, C>, i: int, j: int, n: int)
    requires
        m.wf(),
        is_identity(id),
        0 <= i < R,
        0 <= j < C,
        0 <= n <= C,
    ensures
        dot_prefix(m, id, i, j, n) == if j < n {
            m.get(i, j) as int
        } else {
            0
        },
    decreases n,
{
    if n > 0 {
        lemma_dot_identity(m, id, i, j, n - 1);
        assert(id.get(n - 1, j) == if n - 1 == j { 1i64 } else { 0i64 });
    }
}

/// Multiplying by the identity of matching size stays within `i64` and gives
/// back the matrix that was multiplied: any `res` whose cells are the cells
/// of the product, as `multiply` returns it, equals `m`.
pub proof fn lemma_multiply_identity<const R: usize, const C: usize>(
    m: MX<i64, R, C>,
    id: MX<i64, C, C>,
    res: MX<i64, R, C>,
)
    requires
        m.wf(),
        is_identity(id),
        res.wf(),
        forall|i: int, j: int| 0 <= i < R && 0 <= j < C ==> #[trigger] res.get(i, j) == dot_prefix(m, id, i, j, C as int),
    ensures
        multiply_fits(m, id),
        res.data@ == m.data@,
{
    assert forall|i: int, j: int, k: int| 0 <= i < R && 0 <= j < C && 0 <= k < C implies i64::MIN <= #[trigger] (m.get(i, k) * id.get(k, j)) <= i64::MAX by {
        assert(id.get(k, j) == if k == j { 1i64 } else { 0i64 });
    }
    assert forall|i: int, j: int, n: int| 0 <= i < R && 0 <= j < C && 0 <= n <= C implies i64::MIN <= #[trigger] dot_prefix(m, id, i, j, n) <= i64::MAX by {
        lemma_dot_identity(m, id, i, j, n);
    }
    assert forall|i: int, j: int| 0 <= i < R && 0 <= j < C implies #[trigger] res.get(i, j) == m.get(i, j) by {
        lemma_dot_identity(m, id, i, j, C as int);
    }
    lemma_cells_determine(res, m);
}

impl<const N: usize> MX<i64, N, N> {
    /// The `N`-by-`N` identity matrix.
    pub fn identity() -> (res: Self)
        requires
            N * N <= usize::MAX,
        ensures
            is_identity(res),
    {
        let mut res: Self = Self::filled(0);
        proof {
            assert forall|p: int, q: int| 0 <= p < N && 0 <= q < N implies #[trigger] res.get(p, q) == 0i64 by {
                lemma_cell_offset(p, q, N as int, N as int);
            }
        }
        let mut i: usize = 0;
        while i < N
            invariant
                res.wf(),
                i <= N,
                forall|p: int, q: int| 0 <= p < N && 0 <= q < N ==> #[trigger] res.get(p, q) == if p == q && p < i {
                    1i64
                } else {
                    0i64
                },
            decreases N - i,
        {
            let ghost before = res;
            res.set_rc(i, i, 1);
            proof {
                lemma_cell_offset(i as int, i as int, N as int, N as int);
                assert forall|p: int, q: int| 0 <= p < N && 0 <= q < N implies #[trigger] res.get(p, q) == if p == q && p < i + 1 {
                    1i64
                } else {
                    0i64
                } by {
                    if p != i || q != i {
                        if p < i || (p == i && q < i) {
                            lemma_cell_order(p, q, i as int, i as int, N as int);
                        } else {
                            lemma_cell_order(i as int, i as int, p, q, N as int);
                        }
                        lemma_cell_offset(p, q, N as int, N as int);
                        assert(res.data@[p * N + q] == before.data@[p * N + q]);
                        assert(res.get(p, q) == before.get(p, q));
                    }
                }
            }
            i = i + 1;
        }
        res
    }
}

impl<T: Copy, const R: usize, const C: usize> MX<T, R, C> {
    /// The same row-major element sequence read under the shape `R2` by `C2`.
    pub fn reshape<const R2: usize, const C2: usize>(self) -> (res: MX<T, R2, C2>)
        requires
            self.wf(),
            R * C == R2 * C2,
        ensures
            res.wf(),
            res.data@ == self.data@,
    {
        MX { data: self.data }
    }

    /// A new matrix whose cell `(j, i)` holds this matrix's cell `(i, j)`.
    pub fn transpose(&self) -> (res: MX<T, C, R>)
        requires
            self.wf(),
        ensures
            is_transpose(res, *self),
    {
        let n: usize = self.data.len();
        let mut data: Vec<T> = Vec::new();
        let mut j: usize = 0;
        while j < C
            invariant
                self.wf(),
                n == R * C,
                j <= C,
                data@.len() == j * R,
                forall|jj: int, ii: int| 0 <= jj < j && 0 <= ii < R ==> #[trigger] data@[jj * R + ii] == self.data@[ii * C + jj],
            decreases C - j,
        {
            let mut i: usize = 0;
            while i < R
                invariant
                    self.wf(),
                    n == R * C,
                    j < C,
                    i <= R,
                    data@.len() == j * R + i,
                    forall|jj: int, ii: int| (0 <= jj < j && 0 <= ii < R) || (jj == j && 0 <= ii < i) ==> #[trigger] data@[jj * R + ii] == self.data@[ii * C + jj],
                decreases R - i,
            {
                proof {
                    lemma_cell_offset(i as int, j as int, R as int, C as int);
                }
                let v = self.data[i * C + j];
                let ghost before = data@;
                data.push(v);
                proof {
                    assert forall|jj: int, ii: int| (0 <= jj < j && 0 <= ii < R) || (jj == j && 0 <= ii <= i) implies #[trigger] data@[jj * R + ii] == self.data@[ii * C + jj] by {
                        if jj < j || ii < i {
                            lemma_cell_order(jj, ii, j as int, i as int, R as int);
                            assert(data@[jj * R + ii] == before[jj * R + ii]);
                        }
                    }
                }
                i = i + 1;
            }
            proof {
                assert((j + 1) * R == j * R + R) by (nonlinear_arith);
            }
            j = j + 1;
        }
        proof {
            assert(j * R == C * R);
            assert(C * R == R * C) by (nonlinear_arith);
        }
        MX { data }
    }
}

/// The sum over `k` in `[0, n)` of `a(i, k) * b(k, j)`: the first `n` terms of
/// cell `(i, j)` of the product `a * b`.
pub open spec fn dot_prefix<const R: usize, const C: usize, const C2: usize>(
    a: MX<i64, R, C>,
    b: MX<i64, C, C2>,
    i: int,
    j: int,
    n: int,
) -> int
    decreases n,
{
    if n <= 0 {
        0
    } else {
        dot_prefix(a, b, i, j, n - 1) + a.get(i, n - 1) * b.get(n - 1, j)
    }
}

/// Every term and every partial sum of the product `a * b` fits in an `i64`.
pub open spec fn multiply_fits<const R: usize, const C: usize, const C2: usize>(
    a: MX<i64, R, C>,
    b: MX<i64, C, C2>,
) -> bool {
    &&& forall|i: int, j: int, k: int|
        0 <= i < R && 0 <= j < C2 && 0 <= k < C ==> i64::MIN <= #[trigger] (a.get(i, k) * b.get(k, j)) <= i64::MAX
    &&& forall|i: int, j: int, n: int|
        0 <= i < R && 0 <= j < C2 && 0 <= n <= C ==> i64::MIN <= #[trigger] dot_prefix(a, b, i, j, n) <= i64::MAX
}

impl<const R: usize, const C: usize> MX<i64, R, C> {
    /// The matrix product: cell `(i, j)` of the result is the sum over `k` of
    /// `self(i, k) * rhs(k, j)`.
    pub fn multiply<const C2: usize>(&self, rhs: &MX<i64, C, C2>) -> (res: MX<i64, R, C2>)
        requires
            self.wf(),
            rhs.wf(),
            R * C2 <= usize::MAX,
            multiply_fits(*self, *rhs),
        ensures
            res.wf(),
            forall|i: int, j: int| 0 <= i < R && 0 <= j < C2 ==> #[trigger] res.get(i, j) == dot_prefix(*self, *rhs, i, j, C as int),
    {
        let na: usize = self.data.len();
        let nb: usize = rhs.data.len();
        let mut data: Vec<i64> = Vec::new();
        let mut i: usize = 0;
        while i < R
            invariant
                self.wf(),
                rhs.wf(),
                na == R * C,
                nb == C * C2,
                R * C2 <= usize::MAX,
                multiply_fits(*self, *rhs),
                i <= R,
                data@.len() == i * C2,
                forall|ii: int, jj: int| 0 <= ii < i && 0 <= jj < C2 ==> #[trigger] data@[ii * C2 + jj] == dot_prefix(*self, *rhs, ii, jj, C as int),
            decreases R - i,
        {
            let mut j: usize = 0;
            while j < C2
                invariant
                    self.wf(),
                    rhs.wf(),
                    na == R * C,
                    nb == C * C2,
                    R * C2 <= usize::MAX,
                    multiply_fits(*self, *rhs),
                    i < R,
                    j <= C2,
                    data@.len() == i * C2 + j,
                    forall|ii: int, jj: int| (0 <= ii < i && 0 <= jj < C2) || (ii == i && 0 <= jj < j) ==> #[trigger] data@[ii * C2 + jj] == dot_prefix(*self, *rhs, ii, jj, C as int),
                decreases C2 - j,
            {
                let mut acc: i64 = 0;
                let mut k: usize = 0;
                while k < C
                    invariant
                        self.wf(),
                        rhs.wf(),
                        na == R * C,
                        nb == C * C2,
                        multiply_fits(*self, *rhs),
                        i < R,
                        j < C2,
                        k <= C,
                        acc == dot_prefix(*self, *rhs, i as int, j as int, k as int),
                    decreases C - k,
                {
                    proof {
                        lemma_cell_offset(i as int, k as int, R as int, C as int);
                        lemma_cell_offset(k as int, j as int, C as int, C2 as int);
                        assert(i64::MIN <= self.get(i as int, k as int) * rhs.get(k as int, j as int) <= i64::MAX);
                        assert(i64::MIN <= dot_prefix(*self, *rhs, i as int, j as int, k + 1) <= i64::MAX);
                    }
                    let t = self.data[i * C + k] * rhs.data[k * C2 + j];
                    acc = acc + t;
                    k = k + 1;
                }
                proof {
                    lemma_cell_offset(i as int, j as int, R as int, C2 as int);
                }
                let ghost before = data@;
                data.push(acc);
                proof {
                    assert forall|ii: int, jj: int| (0 <= ii < i && 0 <= jj < C2) || (ii == i && 0 <= jj <= j) implies #[trigger] data@[ii * C2 + jj] == dot_prefix(*self, *rhs, ii, jj, C as int) by {
                        if ii < i || jj < j {
                            lemma_cell_order(ii, jj, i as int, j as int, C2 as int);
                            assert(data@[ii * C2 + jj] == before[ii * C2 + jj]);
                        }
                    }
                }
                j = j + 1;
            }
            proof {
                assert((i + 1) * C2 == i * C2 + C2) by (nonlinear_arith);
            }
            i = i + 1;
        }
        MX { data }
    }
}

} // verus!
