use vstd::prelude::*;

use crate::matrix::MX;

verus! {

pub open spec fn abs(a: int) -> int {
    if a < 0 {
        -a
    } else {
        a
    }
}

/// Integer division rounded toward zero, as `/` computes it on `i64`.
pub open spec fn trunc_div(a: int, b: int) -> int {
    if (a < 0) == (b < 0) {
        abs(a) / abs(b)
    } else {
        -(abs(a) / abs(b))
    }
}

/// The magnitude of `a`, which fits in a `u64` for every `i64`.
fn magnitude(a: i64) -> (r: u64)
    ensures
        r == abs(a as int),
{
    if a < 0 {
        let p: i64 = -(a + 1);
        (p as u64) + 1
    } else {
        a as u64
    }
}

/// `a / b` rounded toward zero.
fn div_toward_zero(a: i64, b: i64) -> (r: i64)
    requires
        b != 0,
        !(a == i64::MIN && b == -1),
    ensures
        r == trunc_div(a as int, b as int),
{
    let ua: u64 = magnitude(a);
    let ub: u64 = magnitude(b);
    let q: u64 = ua / ub;
    proof {
        vstd::arithmetic::div_mod::lemma_div_is_ordered_by_denominator(ua as int, 1, ub as int);
        vstd::arithmetic::div_mod::lemma_div_basics(ua as int);
    }
    if (a < 0) == (b < 0) {
        proof {
            if a == i64::MIN {
                assert(b < 0 && b != -1);
                vstd::arithmetic::div_mod::lemma_div_is_ordered_by_denominator(ua as int, 2, ub as int);
                assert(ua as int / 2 == 0x4000_0000_0000_0000);
            }
        }
        q as i64
    } else if q == 0x8000_0000_0000_0000 {
        i64::MIN
    } else {
        -(q as i64)
    }
}

/// The remainder that goes with `trunc_div`, as `%` computes it on `i64`: it
/// has the sign of `a`.
pub open spec fn trunc_rem(a: int, b: int) -> int {
    if a >= 0 {
        a % b
    } else {
        -((-a) % b)
    }
}

/// A binary operator applied cell by cell.
#[derive(Debug, Clone, Copy, PartialEq, Eq)]
pub enum BinOp {
    Add,
    Sub,
    Mul,
    Div,
    Rem,
    BitAnd,
    BitOr,
    BitXor,
    Shl,
    Shr,
}

/// A unary operator applied cell by cell.
#[derive(Debug, Clone, Copy, PartialEq, Eq)]
pub enum UnOp {
    Neg,
    Not,
}

impl BinOp {
    /// `a op b` has a value: the exact result fits in an `i64`, a divisor is
    /// not zero, and a shift amount is below 64.
    pub open spec fn defined(self, a: i64, b: i64) -> bool {
        match self {
            BinOp::Add => i64::MIN <= a + b <= i64::MAX,
            BinOp::Sub => i64::MIN <= a - b <= i64::MAX,
            BinOp::Mul => i64::MIN <= a * b <= i64::MAX,
            BinOp::Div | BinOp::Rem => b != 0 && !(a == i64::MIN && b == -1),
            BinOp::BitAnd | BinOp::BitOr | BinOp::BitXor => true,
            BinOp::Shl | BinOp::Shr => 0 <= b < 64,
        }
    }

    /// The value of `a op b`.
    pub open spec fn result(self, a: i64, b: i64) -> int {
        match self {
            BinOp::Add => a + b,
            BinOp::Sub => a - b,
            BinOp::Mul => a * b,
            BinOp::Div => trunc_div(a as int, b as int),
            BinOp::Rem => trunc_rem(a as int, b as int),
            BinOp::BitAnd => (a & b) as int,
            BinOp::BitOr => (a | b) as int,
            BinOp::BitXor => (a ^ b) as int,
            BinOp::Shl => (a << (b as u32)) as int,
            BinOp::Shr => (a >> (b as u32)) as int,
        }
    }

    pub fn apply(self, a: i64, b: i64) -> (r: i64)
        requires
            self.defined(a, b),
        ensures
            r == self.result(a, b),
    {
        match self {
            BinOp::Add => a + b,
            BinOp::Sub => a - b,
            BinOp::Mul => a * b,
            BinOp::Div => div_toward_zero(a, b),
            BinOp::Rem => a % b,
            BinOp::BitAnd => a & b,
            BinOp::BitOr => a | b,
            BinOp::BitXor => a ^ b,
            BinOp::Shl => a << (b as u32),
            BinOp::Shr => a >> (b as u32),
        }
    }
}

impl UnOp {
    /// `op a` has a value: a negation fits in an `i64`.
    pub open spec fn defined(self, a: i64) -> bool {
        match self {
            UnOp::Neg => a != i64::MIN,
            UnOp::Not => true,
        }
    }

    /// The value of `op a`.
    pub open spec fn result(self, a: i64) -> int {
        match self {
            UnOp::Neg => -a,
            UnOp::Not => (!a) as int,
        }
    }

    pub fn apply(self, a: i64) -> (r: i64)
        requires
            self.defined(a),
        ensures
            r == self.result(a),
    {
        match self {
            UnOp::Neg => -a,
            UnOp::Not => !a,
        }
    }
}

impl<const R: usize, const C: usize> MX<i64, R, C> {
    /// A new matrix whose every cell is `self(k) op rhs(k)`. Both operands
    /// have the same shape, which the type enforces.
    pub fn zip_with(&self, rhs: &Self, op: BinOp) -> (res: Self)
        requires
            self.wf(),
            rhs.wf(),
            forall|k: int| 0 <= k < R * C ==> #[trigger] op.defined(self.data@[k], rhs.data@[k]),
        ensures
            res.wf(),
            forall|k: int| 0 <= k < R * C ==> #[trigger] res.data@[k] == op.result(self.data@[k], rhs.data@[k]),
    {
        let n: usize = self.data.len();
        let mut data: Vec<i64> = Vec::new();
        let mut k: usize = 0;
        while k < n
            invariant
                self.wf(),
                rhs.wf(),
                n == R * C,
                k <= n,
                forall|p: int| 0 <= p < R * C ==> #[trigger] op.defined(self.data@[p], rhs.data@[p]),
                data@.len() == k,
                forall|p: int| 0 <= p < k ==> #[trigger] data@[p] == op.result(self.data@[p], rhs.data@[p]),
            decreases n - k,
        {
            data.push(op.apply(self.data[k], rhs.data[k]));
            k = k + 1;
        }
        MX { data }
    }

    /// A new matrix whose every cell is `self(k) op s`.
    pub fn zip_scalar(&self, s: i64, op: BinOp) -> (res: Self)
        requires
            self.wf(),
            forall|k: int| 0 <= k < R * C ==> #[trigger] op.defined(self.data@[k], s),
        ensures
            res.wf(),
            forall|k: int| 0 <= k < R * C ==> #[trigger] res.data@[k] == op.result(self.data@[k], s),
    {
        let n: usize = self.data.len();
        let mut data: Vec<i64> = Vec::new();
        let mut k: usize = 0;
        while k < n
            invariant
                self.wf(),
                n == R * C,
                k <= n,
                forall|p: int| 0 <= p < R * C ==> #[trigger] op.defined(self.data@[p], s),
                data@.len() == k,
                forall|p: int| 0 <= p < k ==> #[trigger] data@[p] == op.result(self.data@[p], s),
            decreases n - k,
        {
            data.push(op.apply(self.data[k], s));
            k = k + 1;
        }
        MX { data }
    }

    /// A new matrix whose every cell is `op self(k)`.
    pub fn map_unary(&self, op: UnOp) -> (res: Self)
        requires
            self.wf(),
            forall|k: int| 0 <= k < R * C ==> #[trigger] op.defined(self.data@[k]),
        ensures
            res.wf(),
            forall|k: int| 0 <= k < R * C ==> #[trigger] res.data@[k] == op.result(self.data@[k]),
    {
        let n: usize = self.data.len();
        let mut data: Vec<i64> = Vec::new();
        let mut k: usize = 0;
        while k < n
            invariant
                self.wf(),
                n == R * C,
                k <= n,
                forall|p: int| 0 <= p < R * C ==> #[trigger] op.defined(self.data@[p]),
                data@.len() == k,
                forall|p: int| 0 <= p < k ==> #[trigger] data@[p] == op.result(self.data@[p]),
            decreases n - k,
        {
            data.push(op.apply(self.data[k]));
            k = k + 1;
        }
        MX { data }
    }

    /// In place: every cell becomes `self(k) op rhs(k)`; `rhs` is left as it was.
    pub fn zip_assign(&mut self, rhs: &Self, op: BinOp)
        requires
            old(self).wf(),
            rhs.wf(),
            forall|k: int| 0 <= k < R * C ==> #[trigger] op.defined(old(self).data@[k], rhs.data@[k]),
        ensures
            final(self).wf(),
            forall|k: int| 0 <= k < R * C ==> #[trigger] final(self).data@[k] == op.result(old(self).data@[k], rhs.data@[k]),
    {
        let n: usize = self.data.len();
        let mut k: usize = 0;
        while k < n
            invariant
                self.wf(),
                rhs.wf(),
                n == R * C,
                k <= n,
                forall|p: int| 0 <= p < R * C ==> #[trigger] op.defined(old(self).data@[p], rhs.data@[p]),
                forall|p: int| 0 <= p < k ==> #[trigger] self.data@[p] == op.result(old(self).data@[p], rhs.data@[p]),
                forall|p: int| k <= p < n ==> #[trigger] self.data@[p] == old(self).data@[p],
            decreases n - k,
        {
            let v: i64 = op.apply(self.data[k], rhs.data[k]);
            self.data.set(k, v);
            k = k + 1;
        }
    }

    /// In place: every cell becomes `self(k) op s`.
    pub fn scalar_assign(&mut self, s: i64, op: BinOp)
        requires
            old(self).wf(),
            forall|k: int| 0 <= k < R * C ==> #[trigger] op.defined(old(self).data@[k], s),
        ensures
            final(self).wf(),
            forall|k: int| 0 <= k < R * C ==> #[trigger] final(self).data@[k] == op.result(old(self).data@[k], s),
    {
        let n: usize = self.data.len();
        let mut k: usize = 0;
        while k < n
            invariant
                self.wf(),
                n == R * C,
                k <= n,
                forall|p: int| 0 <= p < R * C ==> #[trigger] op.defined(old(self).data@[p], s),
                forall|p: int| 0 <= p < k ==> #[trigger] self.data@[p] == op.result(old(self).data@[p], s),
                forall|p: int| k <= p < n ==> #[trigger] self.data@[p] == old(self).data@[p],
            decreases n - k,
        {
            let v: i64 = op.apply(self.data[k], s);
            self.data.set(k, v);
            k = k + 1;
        }
    }

    /// The cell-by-cell sum of two matrices of the same shape.
    pub fn add(&self, rhs: &Self) -> (res: Self)
        requires
            self.wf(),
            rhs.wf(),
            forall|k: int| 0 <= k < R * C ==> #[trigger] BinOp::Add.defined(self.data@[k], rhs.data@[k]),
        ensures
            res.wf(),
            forall|k: int| 0 <= k < R * C ==> #[trigger] res.data@[k] == BinOp::Add.result(self.data@[k], rhs.data@[k]),
    {
        self.zip_with(rhs, BinOp::Add)
    }

    /// The cell-by-cell difference of two matrices of the same shape.
    pub fn sub(&self, rhs: &Self) -> (res: Self)
        requires
            self.wf(),
            rhs.wf(),
            forall|k: int| 0 <= k < R * C ==> #[trigger] BinOp::Sub.defined(self.data@[k], rhs.data@[k]),
        ensures
            res.wf(),
            forall|k: int| 0 <= k < R * C ==> #[trigger] res.data@[k] == BinOp::Sub.result(self.data@[k], rhs.data@[k]),
    {
        self.zip_with(rhs, BinOp::Sub)
    }

    /// The cell-by-cell product of two matrices of the same shape.
    pub fn mul(&self, rhs: &Self) -> (res: Self)
        requires
            self.wf(),
            rhs.wf(),
            forall|k: int| 0 <= k < R * C ==> #[trigger] BinOp::Mul.defined(self.data@[k], rhs.data@[k]),
        ensures
            res.wf(),
            forall|k: int| 0 <= k < R * C ==> #[trigger] res.data@[k] == BinOp::Mul.result(self.data@[k], rhs.data@[k]),
    {
        self.zip_with(rhs, BinOp::Mul)
    }

    /// The cell-by-cell quotient, rounded toward zero, of two matrices of the same shape.
    pub fn div(&self, rhs: &Self) -> (res: Self)
        requires
            self.wf(),
            rhs.wf(),
            forall|k: int| 0 <= k < R * C ==> #[trigger] BinOp::Div.defined(self.data@[k], rhs.data@[k]),
        ensures
            res.wf(),
            forall|k: int| 0 <= k < R * C ==> #[trigger] res.data@[k] == BinOp::Div.result(self.data@[k], rhs.data@[k]),
    {
        self.zip_with(rhs, BinOp::Div)
    }

    /// The cell-by-cell remainder, with the sign of the left operand, of two matrices of the same shape.
    pub fn rem(&self, rhs: &Self) -> (res: Self)
        requires
            self.wf(),
            rhs.wf(),
            forall|k: int| 0 <= k < R * C ==> #[trigger] BinOp::Rem.defined(self.data@[k], rhs.data@[k]),
        ensures
            res.wf(),
            forall|k: int| 0 <= k < R * C ==> #[trigger] res.data@[k] == BinOp::Rem.result(self.data@[k], rhs.data@[k]),
    {
        self.zip_with(rhs, BinOp::Rem)
    }

    /// The cell-by-cell bitwise and of two matrices of the same shape.
    pub fn bitand(&self, rhs: &Self) -> (res: Self)
        requires
            self.wf(),
            rhs.wf(),
            forall|k: int| 0 <= k < R * C ==> #[trigger] BinOp::BitAnd.defined(self.data@[k], rhs.data@[k]),
        ensures
            res.wf(),
            forall|k: int| 0 <= k < R * C ==> #[trigger] res.data@[k] == BinOp::BitAnd.result(self.data@[k], rhs.data@[k]),
    {
        self.zip_with(rhs, BinOp::BitAnd)
    }

    /// The cell-by-cell bitwise or of two matrices of the same shape.
    pub fn bitor(&self, rhs: &Self) -> (res: Self)
        requires
            self.wf(),
            rhs.wf(),
            forall|k: int| 0 <= k < R * C ==> #[trigger] BinOp::BitOr.defined(self.data@[k], rhs.data@[k]),
        ensures
            res.wf(),
            forall|k: int| 0 <= k < R * C ==> #[trigger] res.data@[k] == BinOp::BitOr.result(self.data@[k], rhs.data@[k]),
    {
        self.zip_with(rhs, BinOp::BitOr)
    }

    /// The cell-by-cell bitwise exclusive or of two matrices of the same shape.
    pub fn bitxor(&self, rhs: &Self) -> (res: Self)
        requires
            self.wf(),
            rhs.wf(),
            forall|k: int| 0 <= k < R * C ==> #[trigger] BinOp::BitXor.defined(self.data@[k], rhs.data@[k]),
        ensures
            res.wf(),
            forall|k: int| 0 <= k < R * C ==> #[trigger] res.data@[k] == BinOp::BitXor.result(self.data@[k], rhs.data@[k]),
    {
        self.zip_with(rhs, BinOp::BitXor)
    }

    /// The cell-by-cell left shift of two matrices of the same shape.
    pub fn shl(&self, rhs: &Self) -> (res: Self)
        requires
            self.wf(),
            rhs.wf(),
            forall|k: int| 0 <= k < R * C ==> #[trigger] BinOp::Shl.defined(self.data@[k], rhs.data@[k]),
        ensures
            res.wf(),
            forall|k: int| 0 <= k < R * C ==> #[trigger] res.data@[k] == BinOp::Shl.result(self.data@[k], rhs.data@[k]),
    {
        self.zip_with(rhs, BinOp::Shl)
    }

    /// The cell-by-cell arithmetic right shift of two matrices of the same shape.
    pub fn shr(&self, rhs: &Self) -> (res: Self)
        requires
            self.wf(),
            rhs.wf(),
            forall|k: int| 0 <= k < R * C ==> #[trigger] BinOp::Shr.defined(self.data@[k], rhs.data@[k]),
        ensures
            res.wf(),
            forall|k: int| 0 <= k < R * C ==> #[trigger] res.data@[k] == BinOp::Shr.result(self.data@[k], rhs.data@[k]),
    {
        self.zip_with(rhs, BinOp::Shr)
    }

    /// The cell-by-cell negation.
    pub fn neg(&self) -> (res: Self)
        requires
            self.wf(),
            forall|k: int| 0 <= k < R * C ==> #[trigger] UnOp::Neg.defined(self.data@[k]),
        ensures
            res.wf(),
            forall|k: int| 0 <= k < R * C ==> #[trigger] res.data@[k] == UnOp::Neg.result(self.data@[k]),
    {
        self.map_unary(UnOp::Neg)
    }

    /// The cell-by-cell bitwise complement.
    pub fn not(&self) -> (res: Self)
        requires
            self.wf(),
            forall|k: int| 0 <= k < R * C ==> #[trigger] UnOp::Not.defined(self.data@[k]),
        ensures
            res.wf(),
            forall|k: int| 0 <= k < R * C ==> #[trigger] res.data@[k] == UnOp::Not.result(self.data@[k]),
    {
        self.map_unary(UnOp::Not)
    }
}

} // verus!
