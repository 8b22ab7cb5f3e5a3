use vstd::prelude::*;

verus! {

// ---------------------------------------------------------------------------
// Fibonacci

/// The Fibonacci numbers, with `fib(0) == 0` and `fib(1) == 1`.
pub open spec fn fib_spec(n: nat) -> nat
    decreases n,
{
    if n <= 1 {
        n
    } else {
        fib_spec((n - 1) as nat) + fib_spec((n - 2) as nat)
    }
}

/// The Fibonacci sequence: it starts 0, 1, and every later number is the
/// sum of the two before it.
pub proof fn law_fib_sequence(n: nat)
    ensures
        fib_spec(0) == 0,
        fib_spec(1) == 1,
        n >= 2 ==> fib_spec(n) == fib_spec((n - 1) as nat) + fib_spec((n - 2) as nat),
{
}

/// The Fibonacci numbers never decrease.
pub proof fn lemma_fib_monotonic(i: nat, j: nat)
    requires
        i <= j,
    ensures
        fib_spec(i) <= fib_spec(j),
    decreases j - i,
{
    if i < j {
        lemma_fib_monotonic(i, (j - 1) as nat);
        if j >= 2 {
            assert(fib_spec(j) == fib_spec((j - 1) as nat) + fib_spec((j - 2) as nat));
        }
    }
}

/// The `n`-th Fibonacci number, computed by the doubly recursive definition
/// on purpose: it is a workload.
pub fn fib(n: usize) -> (r: usize)
    requires
        fib_spec(n as nat) <= usize::MAX,
    ensures
        r == fib_spec(n as nat),
        n <= 1 ==> r == n,
        n >= 2 ==> r == fib_spec((n - 1) as nat) + fib_spec((n - 2) as nat),
    decreases n,
{
    if n <= 1 {
        return n;
    }
    proof {
        lemma_fib_monotonic((n - 1) as nat, n as nat);
        lemma_fib_monotonic((n - 2) as nat, n as nat);
    }
    return fib(n - 1) + fib(n - 2);
}

/// Whether `fib(n)` fits in a `usize`, so that `fib` can compute it.
/// Works along the sequence with checked additions, in `n` steps.
pub fn fib_fits(n: usize) -> (r: bool)
    ensures
        r == (fib_spec(n as nat) <= usize::MAX),
{
    if n <= 1 {
        return true;
    }
    // a == fib(i - 1), b == fib(i)
    let mut a: usize = 0;
    let mut b: usize = 1;
    let mut i: usize = 1;
    while i < n
        invariant
            1 <= i <= n,
            a == fib_spec((i - 1) as nat),
            b == fib_spec(i as nat),
        decreases n - i,
    {
        proof {
            assert(fib_spec((i + 1) as nat) == fib_spec(i as nat) + fib_spec((i - 1) as nat));
        }
        match b.checked_add(a) {
            Some(c) => {
                a = b;
                b = c;
                i = i + 1;
            },
            None => {
                proof {
                    lemma_fib_monotonic((i + 1) as nat, n as nat);
                }
                return false;
            },
        }
    }
    true
}

// ---------------------------------------------------------------------------
// Counting

/// How far `count` counts.
pub const COUNT_ROUNDS: usize = 1000;

/// `core::hint::black_box` on a `usize`: std documents it as an identity
/// function that only keeps the compiler from reasoning about the value.
#[verifier::external_body]
fn black_box_usize(x: usize) -> (r: usize)
    ensures
        r == x,
{
    core::hint::black_box(x)
}

/// Counts to `COUNT_ROUNDS`, passing every step through `black_box` so that
/// the compiler cannot fold the loop; returns the count reached.
pub fn count() -> (r: usize)
    ensures
        r == COUNT_ROUNDS,
{
    let mut counter: usize = 0;
    let mut round: usize = 0;
    while round < COUNT_ROUNDS
        invariant
            round <= COUNT_ROUNDS,
            counter == round,
        decreases COUNT_ROUNDS - round,
    {
        counter = black_box_usize(counter + 1);
        round = round + 1;
    }
    black_box_usize(counter)
}

/// `critical_section::with` running `count`: the crate's documentation says
/// that `with` runs the closure inside a critical section and hands back what
/// it returned, and `count` returns `COUNT_ROUNDS`.
#[verifier::external_body]
fn count_with_critical_section() -> (r: usize)
    ensures
        r == COUNT_ROUNDS,
{
    critical_section::with(|_| count())
}

/// Counts to `COUNT_ROUNDS` with interrupts held off: the load that competes
/// for the core in the critical-section benchmark.
pub fn count_in_critical_section() -> (r: usize)
    ensures
        r == COUNT_ROUNDS,
{
    count_with_critical_section()
}

// ---------------------------------------------------------------------------
// Matrix multiplication

/// `sum(row[k] * b[k][j] for k < upto)`: the dot product of `row` with column
/// `j` of `b`, over the first `upto` terms.
pub open spec fn dot_prefix<const N: usize>(row: [u8; N], b: [[u8; N]; N], j: int, upto: int) -> int
    decreases upto,
{
    if upto <= 0 {
        0
    } else {
        dot_prefix(row, b, j, upto - 1) + row[upto - 1] * b[upto - 1][j]
    }
}

/// A dot product is built term by term: the empty prefix sums to 0, and
/// each longer prefix adds exactly `row[k] * b[k][j]`, every term counted.
pub proof fn law_dot_prefix_terms<const N: usize>(row: [u8; N], b: [[u8; N]; N], j: int, k: int)
    requires
        0 <= k,
    ensures
        dot_prefix(row, b, j, 0) == 0,
        dot_prefix(row, b, j, k + 1) == dot_prefix(row, b, j, k) + row[k] * b[k][j],
{
}

/// Row `i` of an identity matrix: 1 at column `i`, 0 elsewhere.
pub open spec fn is_identity_row<const N: usize>(row: [u8; N], i: int) -> bool {
    forall|k: int| 0 <= k < N ==> #[trigger] row[k] == if k == i { 1u8 } else { 0u8 }
}

/// Row `i` of the identity times `b` is row `i` of `b`: the first `upto`
/// terms of the dot product with column `j` give `b[i][j]` once `i` is
/// among them, and 0 before.
pub proof fn lemma_identity_dot_prefix<const N: usize>(row: [u8; N], b: [[u8; N]; N], i: int, j: int, upto: int)
    requires
        is_identity_row(row, i),
        0 <= upto <= N,
    ensures
        dot_prefix(row, b, j, upto) == if 0 <= i < upto { b[i][j] as int } else { 0 },
    decreases upto,
{
    if upto > 0 {
        lemma_identity_dot_prefix(row, b, i, j, upto - 1);
        assert(row[upto - 1] == if upto - 1 == i { 1u8 } else { 0u8 });
    }
}

/// Multiplying by the identity: where `a` is the identity (row `i` has its
/// 1 at column `i`), each entry of `c` gains exactly the entry of `b` at the
/// same place.
pub proof fn law_identity_product<const N: usize>(a: [[u8; N]; N], b: [[u8; N]; N], i: int, j: int)
    requires
        0 <= i < N,
        0 <= j < N,
        forall|r: int| 0 <= r < N ==> #[trigger] is_identity_row(a[r], r),
    ensures
        dot_prefix(a[i], b, j, N as int) == b[i][j],
{
    assert(is_identity_row(a[i], i));
    lemma_identity_dot_prefix(a[i], b, i, j, N as int);
}

/// Every term of a dot product is non-negative, so its prefixes grow.
pub proof fn lemma_dot_prefix_monotonic<const N: usize>(row: [u8; N], b: [[u8; N]; N], j: int, k1: int, k2: int)
    requires
        0 <= k1 <= k2,
    ensures
        0 <= dot_prefix(row, b, j, k1) <= dot_prefix(row, b, j, k2),
    decreases k2,
{
    if k2 > 0 {
        let x = row[k2 - 1];
        let y = b[k2 - 1][j];
        assert(0 <= x * y) by (nonlinear_arith)
            requires
                0 <= x,
                0 <= y,
        ;
        if k1 < k2 {
            lemma_dot_prefix_monotonic(row, b, j, k1, k2 - 1);
        } else {
            lemma_dot_prefix_monotonic(row, b, j, 0, k2 - 1);
        }
    }
}

/// The sums fit: every entry of `c + a * b` is at most 255.
pub open spec fn product_fits<const M: usize, const N: usize>(
    a: [[u8; N]; M],
    b: [[u8; N]; N],
    c: [[u8; N]; M],
) -> bool {
    forall|i: int, j: int| 0 <= i < M && 0 <= j < N ==> c[i][j] + #[trigger] dot_prefix(a[i], b, j, N as int) <= 255
}

/// Whether every entry of `c + a * b` is at most 255, so that
/// `matrix_mult` can compute the product in `u8` arithmetic.
pub fn product_fits_u8<const M: usize, const N: usize>(
    matrix_a: &[[u8; N]; M],
    matrix_b: &[[u8; N]; N],
    matrix_c: &[[u8; N]; M],
) -> (r: bool)
    ensures
        r == product_fits(*matrix_a, *matrix_b, *matrix_c),
{
    for i in 0..M
        invariant
            forall|i2: int, j2: int| 0 <= i2 < i && 0 <= j2 < N ==>
                matrix_c[i2][j2] + #[trigger] dot_prefix(matrix_a[i2], *matrix_b, j2, N as int) <= 255,
    {
        for j in 0..N
            invariant
                0 <= i < M,
                forall|i2: int, j2: int| 0 <= i2 < i && 0 <= j2 < N ==>
                    matrix_c[i2][j2] + #[trigger] dot_prefix(matrix_a[i2], *matrix_b, j2, N as int) <= 255,
                forall|j2: int| 0 <= j2 < j ==>
                    matrix_c[i as int][j2] + #[trigger] dot_prefix(matrix_a[i as int], *matrix_b, j2, N as int) <= 255,
        {
            // sum == c[i][j] + dot_prefix(.., k), and stays at most 255
            let mut sum: u32 = matrix_c[i][j] as u32;
            for k in 0..N
                invariant
                    0 <= i < M,
                    0 <= j < N,
                    sum == matrix_c[i as int][j as int] + dot_prefix(matrix_a[i as int], *matrix_b, j as int, k as int),
                    sum <= 255,
            {
                let x = matrix_a[i][k] as u32;
                let y = matrix_b[k][j] as u32;
                assert(x * y <= 255 * 255) by (nonlinear_arith)
                    requires
                        x <= 255,
                        y <= 255,
                ;
                sum = sum + x * y;
                if sum > 255 {
                    proof {
                        lemma_dot_prefix_monotonic(matrix_a[i as int], *matrix_b, j as int, k + 1, N as int);
                    }
                    return false;
                }
            }
        }
    }
    true
}

/// Adds the product `a * b` to `c`, entry by entry, in `u8` arithmetic.
pub fn matrix_mult<const M: usize, const N: usize>(
    matrix_a: &[[u8; N]; M],
    matrix_b: &[[u8; N]; N],
    matrix_c: &mut [[u8; N]; M],
)
    requires
        product_fits(*matrix_a, *matrix_b, *old(matrix_c)),
    ensures
        forall|i: int, j: int| 0 <= i < M && 0 <= j < N ==> #[trigger] final(matrix_c)[i][j]
            == old(matrix_c)[i][j] + dot_prefix(matrix_a[i], *matrix_b, j, N as int),
        forall|i: int, j: int| 0 <= i < M && 0 <= j < N && is_identity_row(matrix_a[i], i) ==>
            #[trigger] final(matrix_c)[i][j] == old(matrix_c)[i][j] + if i < N { matrix_b[i][j] as int } else { 0 },
{
    let ghost c0 = *matrix_c;
    for i in 0..M
        invariant
            product_fits(*matrix_a, *matrix_b, c0),
            forall|i2: int, j2: int| 0 <= i2 < i && 0 <= j2 < N ==> #[trigger] matrix_c[i2][j2]
                == c0[i2][j2] + dot_prefix(matrix_a[i2], *matrix_b, j2, N as int),
            forall|i2: int| i <= i2 < M ==> #[trigger] matrix_c[i2] == c0[i2],
    {
        for j in 0..N
            invariant
                0 <= i < M,
                product_fits(*matrix_a, *matrix_b, c0),
                forall|i2: int, j2: int| 0 <= i2 < i && 0 <= j2 < N ==> #[trigger] matrix_c[i2][j2]
                    == c0[i2][j2] + dot_prefix(matrix_a[i2], *matrix_b, j2, N as int),
                forall|j2: int| 0 <= j2 < j ==> #[trigger] matrix_c[i as int][j2]
                    == c0[i as int][j2] + dot_prefix(matrix_a[i as int], *matrix_b, j2, N as int),
                forall|j2: int| j <= j2 < N ==> #[trigger] matrix_c[i as int][j2] == c0[i as int][j2],
                forall|i2: int| i < i2 < M ==> #[trigger] matrix_c[i2] == c0[i2],
        {
            for k in 0..N
                invariant
                    0 <= i < M,
                    0 <= j < N,
                    product_fits(*matrix_a, *matrix_b, c0),
                    forall|i2: int, j2: int| 0 <= i2 < i && 0 <= j2 < N ==> #[trigger] matrix_c[i2][j2]
                        == c0[i2][j2] + dot_prefix(matrix_a[i2], *matrix_b, j2, N as int),
                    forall|j2: int| 0 <= j2 < j ==> #[trigger] matrix_c[i as int][j2]
                        == c0[i as int][j2] + dot_prefix(matrix_a[i as int], *matrix_b, j2, N as int),
                    forall|j2: int| j < j2 < N ==> #[trigger] matrix_c[i as int][j2] == c0[i as int][j2],
                    matrix_c[i as int][j as int] == c0[i as int][j as int]
                        + dot_prefix(matrix_a[i as int], *matrix_b, j as int, k as int),
                    forall|i2: int| i < i2 < M ==> #[trigger] matrix_c[i2] == c0[i2],
            {
                proof {
                    lemma_dot_prefix_monotonic(matrix_a[i as int], *matrix_b, j as int, k as int, k + 1);
                    lemma_dot_prefix_monotonic(matrix_a[i as int], *matrix_b, j as int, k + 1, N as int);
                    assert(c0[i as int][j as int] + dot_prefix(matrix_a[i as int], *matrix_b, j as int, N as int) <= 255);
                }
                let product = matrix_a[i][k] * matrix_b[k][j];
                matrix_c[i][j] = matrix_c[i][j] + product;
            }
        }
    }
    proof {
        assert forall|i: int, j: int| 0 <= i < M && 0 <= j < N && is_identity_row(matrix_a[i], i) implies
            #[trigger] matrix_c[i][j] == c0[i][j] + if i < N { matrix_b[i][j] as int } else { 0 } by {
            lemma_identity_dot_prefix(matrix_a[i], *matrix_b, i, j, N as int);
        }
    }
}

/// Puts `rows` into `dst` from row `offset` on: how the benchmarking core
/// takes in the half of the product that the other core computed.
pub fn place_rows<const M: usize, const N: usize, const H: usize>(
    dst: &mut [[u8; N]; M],
    rows: &[[u8; N]; H],
    offset: usize,
)
    requires
        offset + H <= M,
    ensures
        forall|i: int| 0 <= i < M ==> #[trigger] final(dst)[i] == if offset <= i < offset + H {
            rows[i - offset]
        } else {
            old(dst)[i]
        },
{
    for i in 0..H
        invariant
            offset + H <= M,
            forall|i2: int| 0 <= i2 < M ==> #[trigger] dst[i2] == if offset <= i2 < offset + i {
                rows[i2 - offset]
            } else {
                old(dst)[i2]
            },
    {
        dst[offset + i] = rows[i];
    }
}

} // verus!
