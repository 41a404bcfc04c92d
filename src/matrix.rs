use vstd::prelude::*;

use crate::cow_vec::StaticCowVec;

verus! {

/// Offset in column-major storage of the element at row `r`, column `c`,
/// for a matrix with `rows` rows.
pub open spec fn col_major(r: int, c: int, rows: int) -> int {
    r + c * rows
}

/// Every in-range (row, column) pair lands inside the `k * m` storage.
pub proof fn lemma_offset_in_range(r: int, c: int, k: int, m: int)
    requires
        0 <= r < k,
        0 <= c < m,
    ensures
        0 <= col_major(r, c, k) < k * m,
{
    assert(0 <= r + c * k < k * m) by (nonlinear_arith)
        requires
            0 <= r < k,
            0 <= c < m,
    ;
}

/// Distinct (row, column) pairs map to distinct storage offsets.
pub proof fn lemma_offset_injective(r1: int, c1: int, r2: int, c2: int, k: int)
    requires
        0 <= r1 < k,
        0 <= r2 < k,
        0 <= c1,
        0 <= c2,
        col_major(r1, c1, k) == col_major(r2, c2, k),
    ensures
        r1 == r2,
        c1 == c2,
{
    if c1 < c2 {
        assert(c1 * k + k <= c2 * k) by (nonlinear_arith)
            requires
                c1 < c2,
                0 < k,
        ;
    } else if c2 < c1 {
        assert(c2 * k + k <= c1 * k) by (nonlinear_arith)
            requires
                c2 < c1,
                0 < k,
        ;
    }
}

/// Every offset of the `k * m` storage is the offset of exactly the pair
/// (`i % k`, `i / k`): the flat layout and the two-dimensional view hold the
/// same elements.
pub proof fn lemma_offset_decompose(i: int, k: int, m: int)
    requires
        0 <= m,
        0 <= i < k * m,
    ensures
        0 <= i % k < k,
        0 <= i / k < m,
        col_major(i % k, i / k, k) == i,
{
    assert(0 < k) by (nonlinear_arith)
        requires
            0 <= m,
            0 <= i < k * m,
    ;
    vstd::arithmetic::div_mod::lemma_fundamental_div_mod(i, k);
    vstd::arithmetic::div_mod::lemma_mod_pos_bound(i, k);
    vstd::arithmetic::div_mod::lemma_div_pos_is_pos(i, k);
    let q = i / k;
    assert(q < m) by (nonlinear_arith)
        requires
            i == k * q + i % k,
            0 <= i % k,
            i < k * m,
            0 < k,
    ;
    assert(q * k == k * q) by (nonlinear_arith);
}

/// The integer arguments of one row-major, no-transpose dense multiply call
/// `C = A * B`: `A` is `m` by `k` with leading dimension `lda`, `B` is `k` by
/// `n` with leading dimension `ldb`, and `C` is `m` by `n` with leading
/// dimension `ldc`.
#[derive(Clone, Copy, Debug, PartialEq, Eq, Structural)]
pub struct GemmArgs {
    pub m: i32,
    pub n: i32,
    pub k: i32,
    pub lda: i32,
    pub ldb: i32,
    pub ldc: i32,
}

/// A `K` by `M` matrix stored column-major in a copy-on-write vector of
/// `KM == K * M` elements: element (r, c) sits at offset `r + c * K`.
#[derive(Clone, Copy)]
pub struct Matrix<'a, T, const K: usize, const M: usize, const KM: usize>(
    pub StaticCowVec<'a, T, KM>,
);

impl<'a, T, const K: usize, const M: usize, const KM: usize> View for Matrix<'a, T, K, M, KM> {
    type V = Seq<T>;

    open spec fn view(&self) -> Seq<T> {
        self.0@
    }
}

impl<'a, T: Copy, const K: usize, const M: usize, const KM: usize> Matrix<'a, T, K, M, KM> {
    /// The element at row `r`, column `c`.
    pub open spec fn entry(&self, r: int, c: int) -> T {
        self@[col_major(r, c, K as int)]
    }

    /// `self` is the transpose of `a`: its (c, r) element is `a`'s (r, c).
    pub open spec fn is_transpose_of(&self, a: Matrix<'_, T, M, K, KM>) -> bool {
        forall|r: int, c: int|
            0 <= r < M && 0 <= c < K ==> #[trigger] self.entry(c, r) == a.entry(r, c)
    }

    /// An owned matrix whose every element is the scalar's default value
    /// (zero for the numeric types).
    pub fn zeros() -> (r: Self)
        where T: Default,
        requires
            K * M == KM,
        ensures
            r.0 is Owned,
            r@.len() == KM,
            forall|i: int, j: int|
                0 <= i < K && 0 <= j < M ==> call_ensures(T::default, (), #[trigger] r.entry(i, j)),
    {
        let r = Matrix(StaticCowVec::zeros());
        assert forall|i: int, j: int| 0 <= i < K && 0 <= j < M implies call_ensures(
            T::default,
            (),
            #[trigger] r.entry(i, j),
        ) by {
            lemma_offset_in_range(i, j, K as int, M as int);
        }
        r
    }

    /// An owned matrix over the column-major elements of `a`.
    pub fn from_array(a: [T; KM]) -> (r: Self)
        requires
            K * M == KM,
        ensures
            r.0 is Owned,
            r@ == a@,
    {
        Matrix(StaticCowVec::from_array(a))
    }

    /// A matrix that borrows the column-major elements of `a`.
    pub fn from_ref(a: &'a [T; KM]) -> (r: Self)
        requires
            K * M == KM,
        ensures
            r.0 is Borrowed,
            r@ == a@,
    {
        Matrix(StaticCowVec::from_ref(a))
    }

    /// A matrix over the elements of `v`, in its storage mode.
    pub fn from_vec(v: StaticCowVec<'a, T, KM>) -> (r: Self)
        requires
            K * M == KM,
        ensures
            r.0 == v,
    {
        Matrix(v)
    }

    /// Whether the storage is borrowed from the caller.
    pub fn is_borrowed(&self) -> (r: bool)
        ensures
            r == self.0 is Borrowed,
    {
        self.0.is_borrowed()
    }

    /// Whether the storage is owned.
    pub fn is_owned(&self) -> (r: bool)
        ensures
            r == self.0 is Owned,
    {
        self.0.is_owned()
    }

    /// Element (n[0], n[1]) without a bound check; the caller keeps the row
    /// below `K` and the column below `M`.
    pub fn get_unchecked(&self, n: [usize; 2]) -> (r: &T)
        requires
            K * M == KM,
            n[0] < K,
            n[1] < M,
        ensures
            *r == self.entry(n[0] as int, n[1] as int),
    {
        proof {
            lemma_offset_in_range(n[0] as int, n[1] as int, K as int, M as int);
        }
        self.0.get_unchecked(n[0] + n[1] * K)
    }

    /// Mutable access to element (n[0], n[1]) without a bound check. A
    /// borrowed matrix is first promoted to an owned copy.
    pub fn get_unchecked_mut(&mut self, n: [usize; 2]) -> (r: &mut T)
        requires
            K * M == KM,
            n[0] < K,
            n[1] < M,
        ensures
            *r == old(self).entry(n[0] as int, n[1] as int),
            final(self).0 is Owned,
            final(self)@ == old(self)@.update(col_major(n[0] as int, n[1] as int, K as int), *final(r)),
    {
        proof {
            lemma_offset_in_range(n[0] as int, n[1] as int, K as int, M as int);
        }
        self.0.get_unchecked_mut(n[0] + n[1] * K)
    }

    /// Element (n[0], n[1]); the row must be below `K` and the column below `M`.
    pub fn index(&self, n: [usize; 2]) -> (r: &T)
        requires
            K * M == KM,
            n[0] < K,
            n[1] < M,
        ensures
            *r == self.entry(n[0] as int, n[1] as int),
    {
        self.get_unchecked(n)
    }

    /// Mutable access to element (n[0], n[1]); the row must be below `K` and
    /// the column below `M`. A borrowed matrix is first promoted to an owned copy.
    pub fn index_mut(&mut self, n: [usize; 2]) -> (r: &mut T)
        requires
            K * M == KM,
            n[0] < K,
            n[1] < M,
        ensures
            *r == old(self).entry(n[0] as int, n[1] as int),
            final(self).0 is Owned,
            final(self)@ == old(self)@.update(col_major(n[0] as int, n[1] as int, K as int), *final(r)),
    {
        self.get_unchecked_mut(n)
    }

    /// Checked access: `None` exactly when the row is not below `K` or the
    /// column is not below `M`.
    pub fn get(&self, n: [usize; 2]) -> (r: Option<&T>)
        requires
            K * M == KM,
        ensures
            r is Some <==> (n[0] < K && n[1] < M),
            r is Some ==> *r->0 == self.entry(n[0] as int, n[1] as int),
    {
        if n[0] < K && n[1] < M {
            Some(self.get_unchecked(n))
        } else {
            None
        }
    }

    /// Writes `v` at (n[0], n[1]) when the pair is in range, promoting a
    /// borrowed matrix to an owned copy first; returns whether it was in range.
    pub fn set(&mut self, n: [usize; 2], v: T) -> (r: bool)
        requires
            K * M == KM,
        ensures
            r == (n[0] < K && n[1] < M),
            r ==> final(self).0 is Owned && final(self)@ == old(self)@.update(
                col_major(n[0] as int, n[1] as int, K as int),
                v,
            ),
            !r ==> *final(self) == *old(self),
    {
        if n[0] < K && n[1] < M {
            *self.get_unchecked_mut(n) = v;
            true
        } else {
            false
        }
    }

    /// A new owned `M` by `K` matrix whose (c, r) element is this matrix's
    /// (r, c) element. `self` is left as it is.
    pub fn transpose<'b>(&self) -> (r: Matrix<'b, T, M, K, KM>)
        requires
            K * M == KM,
        ensures
            r.0 is Owned,
            r.is_transpose_of(*self),
    {
        assert(M * K == KM) by (nonlinear_arith)
            requires
                K * M == KM,
        ;
        let mut buffer = Matrix::<'b, T, M, K, KM>::from_array(self.0.to_array());
        let mut x: usize = 0;
        while x < K
            invariant
                K * M == KM,
                M * K == KM,
                x <= K,
                buffer.0 is Owned,
                buffer@.len() == KM,
                forall|i: int, j: int|
                    0 <= i < x && 0 <= j < M ==> #[trigger] buffer.entry(j, i) == self.entry(i, j),
            decreases K - x,
        {
            let mut y: usize = 0;
            while y < M
                invariant
                    K * M == KM,
                    M * K == KM,
                    x < K,
                    y <= M,
                    buffer.0 is Owned,
                    buffer@.len() == KM,
                    forall|i: int, j: int|
                        (0 <= i < x && 0 <= j < M) || (i == x && 0 <= j < y) ==> #[trigger] buffer.entry(j, i)
                            == self.entry(i, j),
                decreases M - y,
            {
                let v = *self.get_unchecked([x, y]);
                let ghost before = buffer;
                let slot = buffer.get_unchecked_mut([y, x]);
                *slot = v;
                proof {
                    lemma_offset_in_range(y as int, x as int, M as int, K as int);
                    assert(buffer@ == before@.update(col_major(y as int, x as int, M as int), v));
                    assert forall|i: int, j: int|
                        (0 <= i < x && 0 <= j < M) || (i == x && 0 <= j <= y) implies #[trigger] buffer.entry(j, i)
                            == self.entry(i, j) by {
                        lemma_offset_in_range(j, i, M as int, K as int);
                        if i != x || j != y {
                            if col_major(j, i, M as int) == col_major(y as int, x as int, M as int) {
                                lemma_offset_injective(j, i, y as int, x as int, M as int);
                            }
                            assert(before.entry(j, i) == self.entry(i, j));
                        }
                    }
                }
                y += 1;
            }
            x += 1;
        }
        buffer
    }

    /// The backend arguments for multiplying this matrix by an `N` by `K`
    /// matrix into an `N` by `M` one. Read row-major, this matrix's storage
    /// is an `M` by `K` array and the other's a `K` by `N` array, so the call
    /// takes `m = M`, `n = N`, `k = K`, `lda = K` and `ldb = ldc = N`. `None`
    /// exactly when one of the three dimensions does not fit the backend's
    /// 32-bit integers.
    pub fn mul_args<const N: usize>() -> (r: Option<GemmArgs>)
        ensures
            r is Some <==> (K <= i32::MAX && M <= i32::MAX && N <= i32::MAX),
            r is Some ==> r == Some(
                GemmArgs {
                    m: M as i32,
                    n: N as i32,
                    k: K as i32,
                    lda: K as i32,
                    ldb: N as i32,
                    ldc: N as i32,
                },
            ),
    {
        let max = i32::MAX as usize;
        if K <= max && M <= max && N <= max {
            Some(
                GemmArgs {
                    m: M as i32,
                    n: N as i32,
                    k: K as i32,
                    lda: K as i32,
                    ldb: N as i32,
                    ldc: N as i32,
                },
            )
        } else {
            None
        }
    }

    /// The underlying vector.
    pub fn as_vec(&self) -> (r: &StaticCowVec<'a, T, KM>)
        ensures
            *r == self.0,
    {
        &self.0
    }

    /// Mutable access to the underlying vector.
    pub fn as_vec_mut(&mut self) -> (r: &mut StaticCowVec<'a, T, KM>)
        ensures
            *r == old(self).0,
            final(self).0 == *final(r),
    {
        &mut self.0
    }
}

/// Transposing twice gives back the matrix it started from, element for element:
/// if `t` is the transpose of `a` and `u` the transpose of `t`, then `u`
/// holds exactly `a`'s elements in `a`'s layout.
pub proof fn lemma_transpose_involution<T: Copy, const K: usize, const M: usize, const KM: usize>(
    a: Matrix<'_, T, K, M, KM>,
    t: Matrix<'_, T, M, K, KM>,
    u: Matrix<'_, T, K, M, KM>,
)
    requires
        K * M == KM,
        t.is_transpose_of(a),
        u.is_transpose_of(t),
    ensures
        u@ == a@,
{
    assert forall|i: int| 0 <= i < KM implies u@[i] == a@[i] by {
        lemma_offset_decompose(i, K as int, M as int);
        let r = i % (K as int);
        let c = i / (K as int);
        assert(u.entry(r, c) == t.entry(c, r));
        assert(t.entry(c, r) == a.entry(r, c));
    }
    assert(u@ =~= a@);
}

/// Reading a matrix built over a flat column-major buffer back through
/// two-dimensional indices gives the buffer exactly: each in-range pair
/// (r, c) reads `a[r + c * K]`, and each flat position `i` is read at
/// (`i % K`, `i / K`).
pub proof fn lemma_flat_round_trip<T: Copy, const K: usize, const M: usize, const KM: usize>(
    a: [T; KM],
    m: Matrix<'_, T, K, M, KM>,
)
    requires
        K * M == KM,
        m@ == a@,
    ensures
        forall|r: int, c: int|
            0 <= r < K && 0 <= c < M ==> #[trigger] m.entry(r, c) == a@[col_major(r, c, K as int)],
        forall|i: int|
            0 <= i < KM ==> #[trigger] a@[i] == m.entry(i % (K as int), i / (K as int)),
{
    assert forall|i: int| 0 <= i < KM implies #[trigger] a@[i] == m.entry(
        i % (K as int),
        i / (K as int),
    ) by {
        lemma_offset_decompose(i, K as int, M as int);
    }
}

} // verus!
