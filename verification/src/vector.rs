//! The semantics of the generated vector operations, for every field
//! count at once: a vector is the ordered sequence of its fields'
//! values, and each operation carries the exact element-wise contract
//! the generated code honors.

use vstd::prelude::*;

verus! {

/// Whether a mathematical value fits the element type.
pub open spec fn fits_i64(x: int) -> bool {
    i64::MIN <= x <= i64::MAX
}

/// A generated vector value: its fields in declaration order.
pub struct Vector {
    elems: Vec<i64>,
}

impl View for Vector {
    type V = Seq<i64>;

    closed spec fn view(&self) -> Seq<i64> {
        self.elems@
    }
}

/// The element-wise sum of two vectors.
pub open spec fn spec_add(a: Seq<i64>, b: Seq<i64>) -> Seq<int> {
    Seq::new(a.len(), |i: int| a[i] + b[i])
}

/// The element-wise difference of two vectors.
pub open spec fn spec_sub(a: Seq<i64>, b: Seq<i64>) -> Seq<int> {
    Seq::new(a.len(), |i: int| a[i] - b[i])
}

/// Every field scaled by a scalar.
pub open spec fn spec_scale(a: Seq<i64>, s: i64) -> Seq<int> {
    Seq::new(a.len(), |i: int| a[i] * s)
}

/// Addition of generated vectors commutes.
pub proof fn lemma_add_commutes(a: Seq<i64>, b: Seq<i64>)
    requires
        a.len() == b.len(),
    ensures
        spec_add(a, b) == spec_add(b, a),
{
    assert(spec_add(a, b) =~= spec_add(b, a));
}

/// Scaling a vector is exactly mapping each field by the scalar
/// multiplication.
pub proof fn lemma_scale_is_map(a: Seq<i64>, s: i64)
    ensures
        spec_scale(a, s) == a.map_values(|e: i64| e * s),
{
    assert(spec_scale(a, s) =~= a.map_values(|e: i64| e * s));
}

impl Vector {
    /// The positional constructor: one value per field, in declaration
    /// order; field `i` of the result is argument `i`.
    pub fn new(elems: Vec<i64>) -> (r: Vector)
        ensures
            r@ == elems@,
    {
        Vector { elems }
    }

    /// Conversion from a fixed-size array of the element type: slot
    /// `i` becomes field `i`.
    pub fn from_slice(a: &[i64]) -> (r: Vector)
        ensures
            r@ == a@,
    {
        let mut elems: Vec<i64> = Vec::new();
        let mut i: usize = 0;
        while i < a.len()
            invariant
                0 <= i <= a@.len(),
                elems@ =~= a@.take(i as int),
            decreases a@.len() - i,
        {
            elems.push(a[i]);
            proof {
                assert(elems@ =~= a@.take(i + 1 as int));
            }
            i = i + 1;
        }
        proof {
            assert(a@.take(a@.len() as int) =~= a@);
        }
        Vector { elems }
    }

    /// The field count.
    pub fn len(&self) -> (r: usize)
        ensures
            r == self@.len(),
    {
        self.elems.len()
    }

    /// Indexed read access, field `i` in declaration order; an index
    /// at or past the field count is excluded rather than a fault.
    pub fn get(&self, i: usize) -> (r: i64)
        requires
            i < self@.len(),
        ensures
            r == self@[i as int],
    {
        self.elems[i]
    }

    /// Indexed write access, field `i` in declaration order.
    pub fn set(&mut self, i: usize, v: i64)
        requires
            i < old(self)@.len(),
        ensures
            final(self)@ == old(self)@.update(i as int, v),
    {
        self.elems[i] = v;
    }

    /// Element-wise addition.
    pub fn add(&self, rhs: &Vector) -> (r: Vector)
        requires
            self@.len() == rhs@.len(),
            forall|i: int| 0 <= i < self@.len() ==> fits_i64(self@[i] + rhs@[i]),
        ensures
            r@.len() == self@.len(),
            forall|i: int| 0 <= i < self@.len() ==> r@[i] == spec_add(self@, rhs@)[i],
    {
        let n = self.elems.len();
        let mut elems: Vec<i64> = Vec::new();
        let mut i: usize = 0;
        while i < n
            invariant
                0 <= i <= n,
                n == self@.len() == rhs@.len(),
                elems@.len() == i,
                forall|j: int| 0 <= j < i ==> elems@[j] == self@[j] + rhs@[j],
                forall|j: int| 0 <= j < self@.len() ==> fits_i64(self@[j] + rhs@[j]),
            decreases n - i,
        {
            elems.push(self.elems[i] + rhs.elems[i]);
            i = i + 1;
        }
        Vector { elems }
    }

    /// In-place accumulating addition.
    pub fn add_assign(&mut self, rhs: &Vector)
        requires
            old(self)@.len() == rhs@.len(),
            forall|i: int| 0 <= i < old(self)@.len() ==> fits_i64(old(self)@[i] + rhs@[i]),
        ensures
            final(self)@.len() == old(self)@.len(),
            forall|i: int|
                0 <= i < old(self)@.len() ==> final(self)@[i] == spec_add(old(self)@, rhs@)[i],
    {
        let r = self.add(rhs);
        self.elems = r.elems;
    }

    /// Element-wise subtraction.
    pub fn sub(&self, rhs: &Vector) -> (r: Vector)
        requires
            self@.len() == rhs@.len(),
            forall|i: int| 0 <= i < self@.len() ==> fits_i64(self@[i] - rhs@[i]),
        ensures
            r@.len() == self@.len(),
            forall|i: int| 0 <= i < self@.len() ==> r@[i] == spec_sub(self@, rhs@)[i],
    {
        let n = self.elems.len();
        let mut elems: Vec<i64> = Vec::new();
        let mut i: usize = 0;
        while i < n
            invariant
                0 <= i <= n,
                n == self@.len() == rhs@.len(),
                elems@.len() == i,
                forall|j: int| 0 <= j < i ==> elems@[j] == self@[j] - rhs@[j],
                forall|j: int| 0 <= j < self@.len() ==> fits_i64(self@[j] - rhs@[j]),
            decreases n - i,
        {
            elems.push(self.elems[i] - rhs.elems[i]);
            i = i + 1;
        }
        Vector { elems }
    }

    /// In-place accumulating subtraction.
    pub fn sub_assign(&mut self, rhs: &Vector)
        requires
            old(self)@.len() == rhs@.len(),
            forall|i: int| 0 <= i < old(self)@.len() ==> fits_i64(old(self)@[i] - rhs@[i]),
        ensures
            final(self)@.len() == old(self)@.len(),
            forall|i: int|
                0 <= i < old(self)@.len() ==> final(self)@[i] == spec_sub(old(self)@, rhs@)[i],
    {
        let r = self.sub(rhs);
        self.elems = r.elems;
    }

    /// Unary negation of every field.
    pub fn neg(&self) -> (r: Vector)
        requires
            forall|i: int| 0 <= i < self@.len() ==> fits_i64(-self@[i]),
        ensures
            r@.len() == self@.len(),
            forall|i: int| 0 <= i < self@.len() ==> r@[i] == -self@[i],
    {
        let n = self.elems.len();
        let mut elems: Vec<i64> = Vec::new();
        let mut i: usize = 0;
        while i < n
            invariant
                0 <= i <= n,
                n == self@.len(),
                elems@.len() == i,
                forall|j: int| 0 <= j < i ==> elems@[j] == -self@[j],
                forall|j: int| 0 <= j < self@.len() ==> fits_i64(-self@[j]),
            decreases n - i,
        {
            elems.push(-self.elems[i]);
            i = i + 1;
        }
        Vector { elems }
    }
}

/// Division truncating toward zero, the element type's own division.
pub open spec fn div_trunc(x: int, d: int) -> int
    recommends
        d != 0,
{
    if x == 0 {
        0
    } else if x > 0 && d > 0 {
        x / d
    } else if x < 0 && d < 0 {
        (x * -1) / (d * -1)
    } else if x < 0 {
        ((x * -1) / d) * -1
    } else {
        (x / (d * -1)) * -1
    }
}

/// Whether every field equals the element type's zero value.
pub open spec fn spec_is_zero(a: Seq<i64>) -> bool {
    forall|i: int| 0 <= i < a.len() ==> a[i] == 0
}

impl Vector {
    /// Element-wise multiplication of two vectors.
    pub fn mul_elem(&self, rhs: &Vector) -> (r: Vector)
        requires
            self@.len() == rhs@.len(),
            forall|i: int| 0 <= i < self@.len() ==> fits_i64(self@[i] * rhs@[i]),
        ensures
            r@.len() == self@.len(),
            forall|i: int| 0 <= i < self@.len() ==> r@[i] == self@[i] * rhs@[i],
    {
        let n = self.elems.len();
        let mut elems: Vec<i64> = Vec::new();
        let mut i: usize = 0;
        while i < n
            invariant
                0 <= i <= n,
                n == self@.len() == rhs@.len(),
                elems@.len() == i,
                forall|j: int| 0 <= j < i ==> elems@[j] == self@[j] * rhs@[j],
                forall|j: int| 0 <= j < self@.len() ==> fits_i64(self@[j] * rhs@[j]),
            decreases n - i,
        {
            elems.push(self.elems[i] * rhs.elems[i]);
            i = i + 1;
        }
        Vector { elems }
    }

    /// Element-wise division of two vectors, truncating toward zero.
    pub fn div_elem(&self, rhs: &Vector) -> (r: Vector)
        requires
            self@.len() == rhs@.len(),
            forall|i: int| 0 <= i < self@.len() ==> rhs@[i] != 0,
            forall|i: int| 0 <= i < self@.len() ==> fits_i64(div_trunc(self@[i] as int, rhs@[i] as int)),
        ensures
            r@.len() == self@.len(),
            forall|i: int| 0 <= i < self@.len() ==> r@[i] == div_trunc(self@[i] as int, rhs@[i] as int),
    {
        let n = self.elems.len();
        let mut elems: Vec<i64> = Vec::new();
        let mut i: usize = 0;
        while i < n
            invariant
                0 <= i <= n,
                n == self@.len() == rhs@.len(),
                elems@.len() == i,
                forall|j: int| 0 <= j < i ==> elems@[j] == div_trunc(self@[j] as int, rhs@[j] as int),
                forall|j: int| 0 <= j < self@.len() ==> rhs@[j] != 0,
                forall|j: int| 0 <= j < self@.len() ==> fits_i64(div_trunc(self@[j] as int, rhs@[j] as int)),
            decreases n - i,
        {
            let q = match self.elems[i].checked_div(rhs.elems[i]) {
                Some(v) => v,
                None => {
                    proof {
                        assert(false);
                    }
                    0
                },
            };
            elems.push(q);
            i = i + 1;
        }
        Vector { elems }
    }

    /// Multiplication of the vector by a bare scalar on the right.
    pub fn mul_scalar(&self, s: i64) -> (r: Vector)
        requires
            forall|i: int| 0 <= i < self@.len() ==> fits_i64(self@[i] * s),
        ensures
            r@.len() == self@.len(),
            forall|i: int| 0 <= i < self@.len() ==> r@[i] == spec_scale(self@, s)[i],
    {
        let n = self.elems.len();
        let mut elems: Vec<i64> = Vec::new();
        let mut i: usize = 0;
        while i < n
            invariant
                0 <= i <= n,
                n == self@.len(),
                elems@.len() == i,
                forall|j: int| 0 <= j < i ==> elems@[j] == self@[j] * s,
                forall|j: int| 0 <= j < self@.len() ==> fits_i64(self@[j] * s),
            decreases n - i,
        {
            elems.push(self.elems[i] * s);
            i = i + 1;
        }
        Vector { elems }
    }

    /// In-place accumulating scalar multiplication.
    pub fn mul_assign_scalar(&mut self, s: i64)
        requires
            forall|i: int| 0 <= i < old(self)@.len() ==> fits_i64(old(self)@[i] * s),
        ensures
            final(self)@.len() == old(self)@.len(),
            forall|i: int|
                0 <= i < old(self)@.len() ==> final(self)@[i] == spec_scale(old(self)@, s)[i],
    {
        let r = self.mul_scalar(s);
        self.elems = r.elems;
    }

    /// Scalar-on-the-left multiplication; its result is identical to
    /// the vector multiplied by the scalar on the right.
    pub fn scalar_mul(s: i64, v: &Vector) -> (r: Vector)
        requires
            forall|i: int| 0 <= i < v@.len() ==> fits_i64(s * v@[i]),
        ensures
            r@.len() == v@.len(),
            forall|i: int| 0 <= i < v@.len() ==> r@[i] == s * v@[i],
            forall|i: int| 0 <= i < v@.len() ==> r@[i] == spec_scale(v@, s)[i],
    {
        let n = v.elems.len();
        let mut elems: Vec<i64> = Vec::new();
        let mut i: usize = 0;
        while i < n
            invariant
                0 <= i <= n,
                n == v@.len(),
                elems@.len() == i,
                forall|j: int| 0 <= j < i ==> elems@[j] == s * v@[j],
                forall|j: int| 0 <= j < v@.len() ==> fits_i64(s * v@[j]),
            decreases n - i,
        {
            elems.push(s * v.elems[i]);
            i = i + 1;
        }
        Vector { elems }
    }

    /// Division of the vector by a bare scalar, truncating toward zero.
    pub fn div_scalar(&self, s: i64) -> (r: Vector)
        requires
            s != 0,
            forall|i: int| 0 <= i < self@.len() ==> fits_i64(div_trunc(self@[i] as int, s as int)),
        ensures
            r@.len() == self@.len(),
            forall|i: int| 0 <= i < self@.len() ==> r@[i] == div_trunc(self@[i] as int, s as int),
    {
        let n = self.elems.len();
        let mut elems: Vec<i64> = Vec::new();
        let mut i: usize = 0;
        while i < n
            invariant
                0 <= i <= n,
                n == self@.len(),
                s != 0,
                elems@.len() == i,
                forall|j: int| 0 <= j < i ==> elems@[j] == div_trunc(self@[j] as int, s as int),
                forall|j: int| 0 <= j < self@.len() ==> fits_i64(div_trunc(self@[j] as int, s as int)),
            decreases n - i,
        {
            let q = match self.elems[i].checked_div(s) {
                Some(v) => v,
                None => {
                    proof {
                        assert(false);
                    }
                    0
                },
            };
            elems.push(q);
            i = i + 1;
        }
        Vector { elems }
    }

    /// In-place accumulating scalar division.
    pub fn div_assign_scalar(&mut self, s: i64)
        requires
            s != 0,
            forall|i: int| 0 <= i < old(self)@.len() ==> fits_i64(div_trunc(old(self)@[i] as int, s as int)),
        ensures
            final(self)@.len() == old(self)@.len(),
            forall|i: int|
                0 <= i < old(self)@.len() ==> final(self)@[i] == div_trunc(old(self)@[i] as int, s as int),
    {
        let r = self.div_scalar(s);
        self.elems = r.elems;
    }

    /// Applies a same-type-in, same-type-out transform to every field,
    /// preserving field order.
    pub fn map<F: Fn(i64) -> i64>(&self, f: F) -> (r: Vector)
        requires
            forall|i: int| 0 <= i < self@.len() ==> call_requires(f, (self@[i],)),
        ensures
            r@.len() == self@.len(),
            forall|i: int| 0 <= i < self@.len() ==> call_ensures(f, (self@[i],), r@[i]),
    {
        let n = self.elems.len();
        let mut elems: Vec<i64> = Vec::new();
        let mut i: usize = 0;
        while i < n
            invariant
                0 <= i <= n,
                n == self@.len(),
                elems@.len() == i,
                forall|j: int| 0 <= j < i ==> call_ensures(f, (self@[j],), elems@[j]),
                forall|j: int| 0 <= j < self@.len() ==> call_requires(f, (self@[j],)),
            decreases n - i,
        {
            let v = f(self.elems[i]);
            elems.push(v);
            i = i + 1;
        }
        Vector { elems }
    }

    /// Whether every field equals the element type's zero value.
    pub fn is_zero(&self) -> (r: bool)
        ensures
            r == spec_is_zero(self@),
    {
        let n = self.elems.len();
        let mut i: usize = 0;
        while i < n
            invariant
                0 <= i <= n,
                n == self@.len(),
                forall|j: int| 0 <= j < i ==> self@[j] == 0,
            decreases n - i,
        {
            if self.elems[i] != 0 {
                return false;
            }
            i = i + 1;
        }
        true
    }

    /// The least field value: a linear scan in declaration order with
    /// a strict comparison, so ties keep the earliest-scanned value.
    pub fn min_element(&self) -> (r: i64)
        requires
            self@.len() >= 1,
        ensures
            exists|i: int| 0 <= i < self@.len() && r == self@[i],
            forall|i: int| 0 <= i < self@.len() ==> r <= self@[i],
    {
        let n = self.elems.len();
        let mut m = self.elems[0];
        let mut i: usize = 1;
        while i < n
            invariant
                1 <= i <= n,
                n == self@.len(),
                exists|j: int| 0 <= j < i && m == self@[j],
                forall|j: int| 0 <= j < i ==> m <= self@[j],
            decreases n - i,
        {
            if self.elems[i] < m {
                m = self.elems[i];
            }
            i = i + 1;
        }
        m
    }

    /// The greatest field value: a linear scan in declaration order
    /// with a strict comparison, so ties keep the earliest-scanned
    /// value.
    pub fn max_element(&self) -> (r: i64)
        requires
            self@.len() >= 1,
        ensures
            exists|i: int| 0 <= i < self@.len() && r == self@[i],
            forall|i: int| 0 <= i < self@.len() ==> r >= self@[i],
    {
        let n = self.elems.len();
        let mut m = self.elems[0];
        let mut i: usize = 1;
        while i < n
            invariant
                1 <= i <= n,
                n == self@.len(),
                exists|j: int| 0 <= j < i && m == self@[j],
                forall|j: int| 0 <= j < i ==> m >= self@[j],
            decreases n - i,
        {
            if self.elems[i] > m {
                m = self.elems[i];
            }
            i = i + 1;
        }
        m
    }
}

/// The sum over fields of element-wise products of two vectors.
pub open spec fn spec_dot(a: Seq<i64>, b: Seq<i64>) -> int
    recommends
        a.len() == b.len(),
    decreases a.len(),
{
    if a.len() == 0 {
        0
    } else {
        spec_dot(a.drop_last(), b.drop_last()) + a.last() * b.last()
    }
}

/// The sum over fields of a vector.
pub open spec fn spec_sum(a: Seq<i64>) -> int
    decreases a.len(),
{
    if a.len() == 0 {
        0
    } else {
        spec_sum(a.drop_last()) + a.last()
    }
}

/// Whether `r` is the square root of `n`, truncated to an integer.
pub open spec fn is_sqrt(n: int, r: int) -> bool {
    &&& 0 <= r
    &&& r * r <= n
    &&& n < (r + 1) * (r + 1)
}

/// The truncated square root is unique.
pub proof fn lemma_sqrt_unique(n: int, r1: int, r2: int)
    requires
        is_sqrt(n, r1),
        is_sqrt(n, r2),
    ensures
        r1 == r2,
{
    assert(r1 == r2) by (nonlinear_arith)
        requires
            0 <= r1,
            0 <= r2,
            r1 * r1 <= n,
            n < (r1 + 1) * (r1 + 1),
            r2 * r2 <= n,
            n < (r2 + 1) * (r2 + 1),
    ;
}

/// The dot product of a vector with itself is never negative.
pub proof fn lemma_dot_self_nonneg(a: Seq<i64>)
    ensures
        spec_dot(a, a) >= 0,
    decreases a.len(),
{
    if a.len() > 0 {
        lemma_dot_self_nonneg(a.drop_last());
        assert(a.last() * a.last() >= 0) by (nonlinear_arith);
    }
}

/// The dot product of a vector with itself is at least one when some
/// field is not zero.
pub proof fn lemma_dot_self_pos(a: Seq<i64>)
    requires
        !spec_is_zero(a),
    ensures
        spec_dot(a, a) >= 1,
    decreases a.len(),
{
    let k = choose|k: int| 0 <= k < a.len() && a[k] != 0;
    lemma_dot_self_nonneg(a.drop_last());
    if a.last() != 0 {
        assert(a.last() * a.last() >= 1) by (nonlinear_arith)
            requires
                a.last() != 0,
        ;
    } else {
        assert(k < a.len() - 1);
        assert(a.drop_last()[k] != 0);
        assert(!spec_is_zero(a.drop_last()));
        lemma_dot_self_pos(a.drop_last());
        assert(a.last() * a.last() >= 0) by (nonlinear_arith);
    }
}

/// The element type's division keeps the quotient between zero and the
/// numerand when the divisor is positive.
pub proof fn lemma_div_trunc_fits(x: i64, d: int)
    requires
        d >= 1,
    ensures
        fits_i64(div_trunc(x as int, d)),
{
    if x == 0 {
    } else if x > 0 {
        vstd::arithmetic::div_mod::lemma_div_pos_is_pos(x as int, d);
        vstd::arithmetic::div_mod::lemma_div_nonincreasing(x as int, d);
    } else {
        let m = (x as int) * -1;
        vstd::arithmetic::div_mod::lemma_div_pos_is_pos(m, d);
        vstd::arithmetic::div_mod::lemma_div_nonincreasing(m, d);
        assert(div_trunc(x as int, d) == (m / d) * -1);
        assert(0 <= m / d <= m);
    }
}

/// The truncated square root of a value no greater than the element
/// type's maximum.
fn isqrt_u64(n: u64) -> (r: u64)
    ensures
        is_sqrt(n as int, r as int),
{
    let mut lo: u64 = 0;
    let mut hi: u64 = 4294967296;
    proof {
        assert((4294967296 as int) * (4294967296 as int) > u64::MAX as int) by (nonlinear_arith);
    }
    while lo + 1 < hi
        invariant
            lo < hi <= 4294967296,
            (lo as int) * (lo as int) <= n as int,
            (n as int) < (hi as int) * (hi as int),
        decreases hi - lo,
    {
        let mid = lo + (hi - lo) / 2;
        proof {
            assert(lo < mid < hi);
            assert((mid as int) * (mid as int) <= 18446744065119617025) by (nonlinear_arith)
                requires
                    mid <= 4294967295,
            ;
        }
        if mid * mid <= n {
            lo = mid;
        } else {
            hi = mid;
        }
    }
    lo
}

impl Vector {
    /// The dot product: the sum over fields of element-wise products.
    pub fn dot(&self, rhs: &Vector) -> (r: i64)
        requires
            self@.len() == rhs@.len(),
            forall|i: int| 0 <= i < self@.len() ==> fits_i64(self@[i] * rhs@[i]),
            forall|k: int|
                0 <= k <= self@.len() ==> fits_i64(
                    #[trigger] spec_dot(self@.take(k), rhs@.take(k)),
                ),
        ensures
            r == spec_dot(self@, rhs@),
    {
        let n = self.elems.len();
        let mut acc: i64 = 0;
        let mut i: usize = 0;
        proof {
            assert(self@.take(0) =~= Seq::<i64>::empty());
            assert(rhs@.take(0) =~= Seq::<i64>::empty());
        }
        while i < n
            invariant
                0 <= i <= n,
                n == self@.len() == rhs@.len(),
                acc == spec_dot(self@.take(i as int), rhs@.take(i as int)),
                forall|j: int| 0 <= j < self@.len() ==> fits_i64(self@[j] * rhs@[j]),
                forall|k: int|
                    0 <= k <= self@.len() ==> fits_i64(
                        #[trigger] spec_dot(self@.take(k), rhs@.take(k)),
                    ),
            decreases n - i,
        {
            proof {
                assert(self@.take(i + 1).drop_last() =~= self@.take(i as int));
                assert(rhs@.take(i + 1).drop_last() =~= rhs@.take(i as int));
                assert(self@.take(i + 1).last() == self@[i as int]);
                assert(rhs@.take(i + 1).last() == rhs@[i as int]);
                assert(fits_i64(spec_dot(self@.take(i + 1), rhs@.take(i + 1))));
            }
            acc = acc + self.elems[i] * rhs.elems[i];
            i = i + 1;
        }
        proof {
            assert(self@.take(n as int) =~= self@);
            assert(rhs@.take(n as int) =~= rhs@);
        }
        acc
    }

    /// The sum over fields.
    pub fn sum(&self) -> (r: i64)
        requires
            forall|k: int| 0 <= k <= self@.len() ==> fits_i64(#[trigger] spec_sum(self@.take(k))),
        ensures
            r == spec_sum(self@),
    {
        let n = self.elems.len();
        let mut acc: i64 = 0;
        let mut i: usize = 0;
        proof {
            assert(self@.take(0) =~= Seq::<i64>::empty());
        }
        while i < n
            invariant
                0 <= i <= n,
                n == self@.len(),
                acc == spec_sum(self@.take(i as int)),
                forall|k: int|
                    0 <= k <= self@.len() ==> fits_i64(#[trigger] spec_sum(self@.take(k))),
            decreases n - i,
        {
            proof {
                assert(self@.take(i + 1).drop_last() =~= self@.take(i as int));
                assert(self@.take(i + 1).last() == self@[i as int]);
                assert(fits_i64(spec_sum(self@.take(i + 1))));
            }
            acc = acc + self.elems[i];
            i = i + 1;
        }
        proof {
            assert(self@.take(n as int) =~= self@);
        }
        acc
    }

    /// The dot product of the vector with itself.
    pub fn length_squared(&self) -> (r: i64)
        requires
            forall|i: int| 0 <= i < self@.len() ==> fits_i64(self@[i] * self@[i]),
            forall|k: int|
                0 <= k <= self@.len() ==> fits_i64(
                    #[trigger] spec_dot(self@.take(k), self@.take(k)),
                ),
        ensures
            r == spec_dot(self@, self@),
    {
        self.dot(self)
    }

    /// The square root of the squared length, truncated per the
    /// element type's arithmetic.
    pub fn length(&self) -> (r: i64)
        requires
            forall|i: int| 0 <= i < self@.len() ==> fits_i64(self@[i] * self@[i]),
            forall|k: int|
                0 <= k <= self@.len() ==> fits_i64(
                    #[trigger] spec_dot(self@.take(k), self@.take(k)),
                ),
        ensures
            is_sqrt(spec_dot(self@, self@), r as int),
    {
        let d = self.length_squared();
        proof {
            lemma_dot_self_nonneg(self@);
        }
        let root = isqrt_u64(d as u64);
        proof {
            assert((root as int) <= 3037000499) by (nonlinear_arith)
                requires
                    (root as int) * (root as int) <= (d as u64) as int,
                    (d as u64) as int <= 0x7fffffffffffffff,
                    root >= 0,
            ;
        }
        root as i64
    }

    /// Every field divided by the vector's length, per the element
    /// type's own division; the zero vector, whose length is zero, is
    /// excluded rather than a fault.
    pub fn normalized(&self) -> (r: Vector)
        requires
            !spec_is_zero(self@),
            forall|i: int| 0 <= i < self@.len() ==> fits_i64(self@[i] * self@[i]),
            forall|k: int|
                0 <= k <= self@.len() ==> fits_i64(
                    #[trigger] spec_dot(self@.take(k), self@.take(k)),
                ),
        ensures
            r@.len() == self@.len(),
            exists|l: int|
                is_sqrt(spec_dot(self@, self@), l) && (forall|i: int|
                    0 <= i < self@.len() ==> r@[i] == div_trunc(self@[i] as int, l)),
    {
        let l = self.length();
        proof {
            lemma_dot_self_pos(self@);
            if l < 1 {
                assert(l as int == 0);
                assert((l as int + 1) * (l as int + 1) == 1) by (nonlinear_arith)
                    requires
                        l as int == 0,
                ;
                assert(false);
            }
            assert(l >= 1);
        }
        let n = self.elems.len();
        let mut elems: Vec<i64> = Vec::new();
        let mut i: usize = 0;
        while i < n
            invariant
                0 <= i <= n,
                n == self@.len(),
                l >= 1,
                elems@.len() == i,
                forall|j: int| 0 <= j < i ==> elems@[j] == div_trunc(self@[j] as int, l as int),
            decreases n - i,
        {
            proof {
                lemma_div_trunc_fits(self@[i as int], l as int);
            }
            let q = match self.elems[i].checked_div(l) {
                Some(v) => v,
                None => {
                    proof {
                        assert(false);
                    }
                    0
                },
            };
            elems.push(q);
            i = i + 1;
        }
        proof {
            assert(is_sqrt(spec_dot(self@, self@), l as int));
        }
        Vector { elems }
    }
}

/// The three-vector cross product over fields in declaration order.
pub open spec fn spec_cross(a: Seq<i64>, b: Seq<i64>) -> Seq<int>
    recommends
        a.len() == 3,
        b.len() == 3,
{
    seq![
        a[1] * b[2] - a[2] * b[1],
        a[2] * b[0] - a[0] * b[2],
        a[0] * b[1] - a[1] * b[0],
    ]
}

/// The cross product of a vector with itself is the zero vector.
pub proof fn lemma_cross_self_is_zero(a: Seq<i64>)
    requires
        a.len() == 3,
    ensures
        spec_cross(a, a) == seq![0int, 0int, 0int],
{
    assert(spec_cross(a, a) =~= seq![0int, 0int, 0int]);
}

/// Whether every field of `a` equals the corresponding field of `b`.
pub open spec fn all_eq(a: Seq<i64>, b: Seq<i64>) -> bool {
    forall|i: int| 0 <= i < a.len() ==> a[i] == b[i]
}

/// Whether every field of `a` is at most the corresponding field of `b`.
pub open spec fn all_le(a: Seq<i64>, b: Seq<i64>) -> bool {
    forall|i: int| 0 <= i < a.len() ==> a[i] <= b[i]
}

/// Whether every field of `a` is at least the corresponding field of `b`.
pub open spec fn all_ge(a: Seq<i64>, b: Seq<i64>) -> bool {
    forall|i: int| 0 <= i < a.len() ==> a[i] >= b[i]
}

/// Whether every field of `a` is strictly below the corresponding field
/// of `b`.
pub open spec fn all_lt(a: Seq<i64>, b: Seq<i64>) -> bool {
    forall|i: int| 0 <= i < a.len() ==> a[i] < b[i]
}

/// Whether every field of `a` is strictly above the corresponding field
/// of `b`.
pub open spec fn all_gt(a: Seq<i64>, b: Seq<i64>) -> bool {
    forall|i: int| 0 <= i < a.len() ==> a[i] > b[i]
}

/// The partial order over vectors of one type: equal when every field
/// agrees, less or greater when the fields that differ all lean one
/// way, and incomparable when two fields disagree in direction.
pub open spec fn spec_compare(a: Seq<i64>, b: Seq<i64>) -> Option<core::cmp::Ordering> {
    if all_eq(a, b) {
        Some(core::cmp::Ordering::Equal)
    } else if all_le(a, b) {
        Some(core::cmp::Ordering::Less)
    } else if all_ge(a, b) {
        Some(core::cmp::Ordering::Greater)
    } else {
        None
    }
}

/// For a pair whose fields disagree in direction, the partial order
/// reports incomparable and each of the four field-by-field comparison
/// predicates reports false: the two paths never imply contradictory
/// orderings.
pub proof fn lemma_order_consistency(a: Seq<i64>, b: Seq<i64>, i: int, j: int)
    requires
        a.len() == b.len(),
        0 <= i < a.len(),
        0 <= j < a.len(),
        a[i] < b[i],
        a[j] > b[j],
    ensures
        spec_compare(a, b) is None,
        !all_lt(a, b),
        !all_le(a, b),
        !all_gt(a, b),
        !all_ge(a, b),
{
    assert(!all_eq(a, b));
    assert(!all_le(a, b));
    assert(!all_ge(a, b));
}

impl Vector {
    /// The cross product, defined exactly at field count three.
    pub fn cross(a: &Vector, b: &Vector) -> (r: Vector)
        requires
            a@.len() == 3,
            b@.len() == 3,
            forall|i: int, j: int| 0 <= i < 3 && 0 <= j < 3 ==> fits_i64(a@[i] * b@[j]),
            forall|i: int| 0 <= i < 3 ==> fits_i64(#[trigger] spec_cross(a@, b@)[i]),
        ensures
            r@.len() == 3,
            forall|i: int| 0 <= i < 3 ==> r@[i] == spec_cross(a@, b@)[i],
    {
        proof {
            assert(fits_i64(spec_cross(a@, b@)[0]));
            assert(fits_i64(spec_cross(a@, b@)[1]));
            assert(fits_i64(spec_cross(a@, b@)[2]));
            assert(spec_cross(a@, b@)[0] == a@[1] * b@[2] - a@[2] * b@[1]);
            assert(spec_cross(a@, b@)[1] == a@[2] * b@[0] - a@[0] * b@[2]);
            assert(spec_cross(a@, b@)[2] == a@[0] * b@[1] - a@[1] * b@[0]);
        }
        let x = a.elems[1] * b.elems[2] - a.elems[2] * b.elems[1];
        let y = a.elems[2] * b.elems[0] - a.elems[0] * b.elems[2];
        let z = a.elems[0] * b.elems[1] - a.elems[1] * b.elems[0];
        let mut elems: Vec<i64> = Vec::new();
        elems.push(x);
        elems.push(y);
        elems.push(z);
        Vector { elems }
    }

    /// The partial-order comparison: a running relation accumulated
    /// field by field, incomparable as soon as two fields disagree in
    /// direction.
    pub fn partial_cmp(&self, rhs: &Vector) -> (r: Option<core::cmp::Ordering>)
        requires
            self@.len() == rhs@.len(),
        ensures
            r == spec_compare(self@, rhs@),
    {
        let n = self.elems.len();
        let mut state = core::cmp::Ordering::Equal;
        let mut i: usize = 0;
        while i < n
            invariant
                0 <= i <= n,
                n == self@.len() == rhs@.len(),
                state is Equal ==> forall|j: int| 0 <= j < i ==> self@[j] == rhs@[j],
                state is Less ==> (forall|j: int| 0 <= j < i ==> self@[j] <= rhs@[j]) && (exists|
                    j: int,
                |
                    0 <= j < i && self@[j] < rhs@[j]),
                state is Greater ==> (forall|j: int| 0 <= j < i ==> self@[j] >= rhs@[j]) && (
                exists|j: int| 0 <= j < i && self@[j] > rhs@[j]),
            decreases n - i,
        {
            let x = self.elems[i];
            let y = rhs.elems[i];
            if x < y {
                if matches!(state, core::cmp::Ordering::Greater) {
                    proof {
                        assert(!all_eq(self@, rhs@));
                        assert(!all_le(self@, rhs@));
                        assert(!all_ge(self@, rhs@));
                    }
                    return None;
                }
                state = core::cmp::Ordering::Less;
            } else if x > y {
                if matches!(state, core::cmp::Ordering::Less) {
                    proof {
                        assert(!all_eq(self@, rhs@));
                        assert(!all_le(self@, rhs@));
                        assert(!all_ge(self@, rhs@));
                    }
                    return None;
                }
                state = core::cmp::Ordering::Greater;
            }
            i = i + 1;
        }
        match state {
            core::cmp::Ordering::Equal => {
                proof {
                    assert(all_eq(self@, rhs@));
                }
                Some(core::cmp::Ordering::Equal)
            },
            core::cmp::Ordering::Less => {
                proof {
                    assert(all_le(self@, rhs@));
                    assert(!all_eq(self@, rhs@));
                }
                Some(core::cmp::Ordering::Less)
            },
            core::cmp::Ordering::Greater => {
                proof {
                    assert(all_ge(self@, rhs@));
                    assert(!all_eq(self@, rhs@));
                    assert(!all_le(self@, rhs@));
                }
                Some(core::cmp::Ordering::Greater)
            },
        }
    }

    /// The independent field-by-field strict-less conjunction.
    pub fn lt(&self, rhs: &Vector) -> (r: bool)
        requires
            self@.len() == rhs@.len(),
        ensures
            r == all_lt(self@, rhs@),
    {
        let n = self.elems.len();
        let mut i: usize = 0;
        while i < n
            invariant
                0 <= i <= n,
                n == self@.len() == rhs@.len(),
                forall|j: int| 0 <= j < i ==> self@[j] < rhs@[j],
            decreases n - i,
        {
            if !(self.elems[i] < rhs.elems[i]) {
                return false;
            }
            i = i + 1;
        }
        true
    }

    /// The independent field-by-field less-or-equal conjunction.
    pub fn le(&self, rhs: &Vector) -> (r: bool)
        requires
            self@.len() == rhs@.len(),
        ensures
            r == all_le(self@, rhs@),
    {
        let n = self.elems.len();
        let mut i: usize = 0;
        while i < n
            invariant
                0 <= i <= n,
                n == self@.len() == rhs@.len(),
                forall|j: int| 0 <= j < i ==> self@[j] <= rhs@[j],
            decreases n - i,
        {
            if !(self.elems[i] <= rhs.elems[i]) {
                return false;
            }
            i = i + 1;
        }
        true
    }

    /// The independent field-by-field strict-greater conjunction.
    pub fn gt(&self, rhs: &Vector) -> (r: bool)
        requires
            self@.len() == rhs@.len(),
        ensures
            r == all_gt(self@, rhs@),
    {
        let n = self.elems.len();
        let mut i: usize = 0;
        while i < n
            invariant
                0 <= i <= n,
                n == self@.len() == rhs@.len(),
                forall|j: int| 0 <= j < i ==> self@[j] > rhs@[j],
            decreases n - i,
        {
            if !(self.elems[i] > rhs.elems[i]) {
                return false;
            }
            i = i + 1;
        }
        true
    }

    /// The independent field-by-field greater-or-equal conjunction.
    pub fn ge(&self, rhs: &Vector) -> (r: bool)
        requires
            self@.len() == rhs@.len(),
        ensures
            r == all_ge(self@, rhs@),
    {
        let n = self.elems.len();
        let mut i: usize = 0;
        while i < n
            invariant
                0 <= i <= n,
                n == self@.len() == rhs@.len(),
                forall|j: int| 0 <= j < i ==> self@[j] >= rhs@[j],
            decreases n - i,
        {
            if !(self.elems[i] >= rhs.elems[i]) {
                return false;
            }
            i = i + 1;
        }
        true
    }
}

impl PartialEq for Vector {
    /// Structural, field-by-field equality.
    fn eq(&self, other: &Self) -> (r: bool) {
        let n = self.elems.len();
        if n != other.elems.len() {
            return false;
        }
        let mut i: usize = 0;
        while i < n
            invariant
                0 <= i <= n,
                n == self@.len() == other@.len(),
                forall|j: int| 0 <= j < i ==> self@[j] == other@[j],
            decreases n - i,
        {
            if self.elems[i] != other.elems[i] {
                return false;
            }
            i = i + 1;
        }
        proof {
            assert(self@ =~= other@);
        }
        true
    }
}

impl vstd::std_specs::cmp::PartialEqSpecImpl for Vector {
    open spec fn obeys_eq_spec() -> bool {
        true
    }

    open spec fn eq_spec(&self, other: &Self) -> bool {
        self@ == other@
    }
}

/// The decimal digit character for one digit value.
pub open spec fn spec_digit(d: int) -> char {
    if d == 0 {
        '0'
    } else if d == 1 {
        '1'
    } else if d == 2 {
        '2'
    } else if d == 3 {
        '3'
    } else if d == 4 {
        '4'
    } else if d == 5 {
        '5'
    } else if d == 6 {
        '6'
    } else if d == 7 {
        '7'
    } else if d == 8 {
        '8'
    } else {
        '9'
    }
}

/// The decimal rendering of a nonnegative value, most significant
/// digit first.
pub open spec fn spec_dec_nat(n: nat) -> Seq<char>
    decreases n,
{
    if n < 10 {
        seq![spec_digit(n as int)]
    } else {
        spec_dec_nat(n / 10).push(spec_digit((n % 10) as int))
    }
}

/// The decimal rendering of an element value, with a leading minus
/// sign when it is negative.
pub open spec fn spec_dec_i64(v: i64) -> Seq<char> {
    if v >= 0 {
        spec_dec_nat(v as nat)
    } else {
        seq!['-'] + spec_dec_nat((0 - v as int) as nat)
    }
}

/// The body of the bracketed listing: every field's decimal rendering,
/// each wrapped in single spaces, in declaration order.
pub open spec fn spec_listing(a: Seq<i64>) -> Seq<char>
    decreases a.len(),
{
    if a.len() == 0 {
        Seq::empty()
    } else {
        spec_listing(a.drop_last()) + " "@ + spec_dec_i64(a.last()) + " "@
    }
}

/// The single-character text of one decimal digit.
fn digit_str(d: u64) -> (r: &'static str)
    requires
        d < 10,
    ensures
        r@ == seq![spec_digit(d as int)],
{
    if d == 0 {
        proof {
            reveal_strlit("0");
            assert("0"@ =~= seq![spec_digit(0)]);
        }
        "0"
    } else if d == 1 {
        proof {
            reveal_strlit("1");
            assert("1"@ =~= seq![spec_digit(1)]);
        }
        "1"
    } else if d == 2 {
        proof {
            reveal_strlit("2");
            assert("2"@ =~= seq![spec_digit(2)]);
        }
        "2"
    } else if d == 3 {
        proof {
            reveal_strlit("3");
            assert("3"@ =~= seq![spec_digit(3)]);
        }
        "3"
    } else if d == 4 {
        proof {
            reveal_strlit("4");
            assert("4"@ =~= seq![spec_digit(4)]);
        }
        "4"
    } else if d == 5 {
        proof {
            reveal_strlit("5");
            assert("5"@ =~= seq![spec_digit(5)]);
        }
        "5"
    } else if d == 6 {
        proof {
            reveal_strlit("6");
            assert("6"@ =~= seq![spec_digit(6)]);
        }
        "6"
    } else if d == 7 {
        proof {
            reveal_strlit("7");
            assert("7"@ =~= seq![spec_digit(7)]);
        }
        "7"
    } else if d == 8 {
        proof {
            reveal_strlit("8");
            assert("8"@ =~= seq![spec_digit(8)]);
        }
        "8"
    } else {
        proof {
            reveal_strlit("9");
            assert("9"@ =~= seq![spec_digit(9)]);
        }
        "9"
    }
}

/// Appends the decimal rendering of a nonnegative value.
pub(crate) fn push_dec_u64(s: &mut String, n: u64)
    ensures
        final(s)@ == old(s)@ + spec_dec_nat(n as nat),
    decreases n,
{
    if n >= 10 {
        push_dec_u64(s, n / 10);
        s.append(digit_str(n % 10));
        proof {
            assert(spec_dec_nat(n as nat) =~= spec_dec_nat((n as nat) / 10) + seq![
                spec_digit(((n as nat) % 10) as int),
            ]);
        }
    } else {
        s.append(digit_str(n));
    }
}

/// Appends the decimal rendering of an element value.
pub(crate) fn push_dec_i64(s: &mut String, v: i64)
    ensures
        final(s)@ == old(s)@ + spec_dec_i64(v),
{
    if v < 0 {
        proof {
            reveal_strlit("-");
            assert("-"@ =~= seq!['-']);
        }
        s.append("-");
        let m: u64 = if v == i64::MIN {
            9223372036854775808u64
        } else {
            (-v) as u64
        };
        push_dec_u64(s, m);
    } else {
        push_dec_u64(s, v as u64);
    }
}

impl Vector {
    /// The bracketed, space-separated display listing of the field
    /// values in declaration order.
    pub fn to_display_string(&self) -> (r: String)
        ensures
            r@ == "["@ + spec_listing(self@) + "]"@,
    {
        let mut s = String::from_str("[");
        let n = self.elems.len();
        let mut i: usize = 0;
        proof {
            assert(spec_listing(self@.take(0)) =~= Seq::<char>::empty());
            assert(s@ =~= "["@ + spec_listing(self@.take(0)));
        }
        while i < n
            invariant
                0 <= i <= n,
                n == self@.len(),
                s@ == "["@ + spec_listing(self@.take(i as int)),
            decreases n - i,
        {
            s.append(" ");
            push_dec_i64(&mut s, self.elems[i]);
            s.append(" ");
            proof {
                assert(self@.take(i + 1).drop_last() =~= self@.take(i as int));
                assert(self@.take(i + 1).last() == self@[i as int]);
                assert(s@ =~= "["@ + spec_listing(self@.take(i + 1)));
            }
            i = i + 1;
        }
        proof {
            assert(self@.take(n as int) =~= self@);
        }
        s.concat("]")
    }

    /// The debug listing: the display listing labeled with the type's
    /// own name.
    pub fn to_debug_string(&self, label: &str) -> (r: String)
        ensures
            r@ == label@ + " ["@ + spec_listing(self@) + "]"@,
    {
        let body = self.to_display_string();
        let mut s = label.to_owned();
        s.append(" ");
        let r = s.concat(body.as_str());
        proof {
            reveal_strlit(" ");
            reveal_strlit("[");
            reveal_strlit(" [");
            assert(" ["@ =~= " "@ + "["@);
            assert(r@ =~= label@ + " ["@ + spec_listing(self@) + "]"@);
        }
        r
    }
}

} // verus!
