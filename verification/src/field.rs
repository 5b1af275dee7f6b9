//! BN254 field elements in their 32-byte big-endian encoding, and negation
//! of G1 points in their 64-byte encoding `be(X) || be(Y)`: the point
//! `(X, Y)` negates to `(X, -Y)`, where `-Y` is `0` for `Y = 0` and `p - Y`
//! otherwise, for `Y` below the base field modulus `p`.

use vstd::prelude::*;

verus! {

/// `256^n`.
pub open spec fn pow256(n: nat) -> nat
    decreases n,
{
    if n == 0 {
        1
    } else {
        256 * pow256((n - 1) as nat)
    }
}

/// The number that the big-endian bytes `s` encode.
pub open spec fn be_nat(s: Seq<u8>) -> nat
    decreases s.len(),
{
    if s.len() == 0 {
        0
    } else {
        (s[0] as nat) * pow256((s.len() - 1) as nat) + be_nat(s.drop_first())
    }
}

/// The BN254 base field modulus
/// `p = 0x30644e72e131a029b85045b68181585d97816a916871ca8d3c208c16d87cfd47`,
/// big-endian.
pub open spec fn fp_modulus_bytes() -> Seq<u8> {
    seq![
        0x30u8, 0x64u8, 0x4eu8, 0x72u8, 0xe1u8, 0x31u8, 0xa0u8, 0x29u8,
        0xb8u8, 0x50u8, 0x45u8, 0xb6u8, 0x81u8, 0x81u8, 0x58u8, 0x5du8,
        0x97u8, 0x81u8, 0x6au8, 0x91u8, 0x68u8, 0x71u8, 0xcau8, 0x8du8,
        0x3cu8, 0x20u8, 0x8cu8, 0x16u8, 0xd8u8, 0x7cu8, 0xfdu8, 0x47u8,
    ]
}

/// The field modulus `p`.
pub open spec fn fp_modulus() -> nat {
    be_nat(fp_modulus_bytes())
}

/// The `Y` coordinate of a G1 encoding.
pub open spec fn g1_y(point: Seq<u8>) -> Seq<u8> {
    point.subrange(32, 64)
}

/// The `X` coordinate of a G1 encoding.
pub open spec fn g1_x(point: Seq<u8>) -> Seq<u8> {
    point.subrange(0, 32)
}

/// A G1 encoding can be negated when its `Y` coordinate is a field element.
pub open spec fn g1_negatable(point: Seq<u8>) -> bool {
    be_nat(g1_y(point)) < fp_modulus()
}

/// `-y` in the base field, for a field element `y`.
pub open spec fn fp_neg(y: nat) -> nat {
    if y == 0 {
        0
    } else {
        (fp_modulus() - y) as nat
    }
}

/// `negated` is the encoding of the negation of the point `point`.
pub open spec fn is_g1_negation(point: Seq<u8>, negated: Seq<u8>) -> bool {
    &&& negated.len() == 64
    &&& g1_x(negated) == g1_x(point)
    &&& be_nat(g1_y(negated)) == fp_neg(be_nat(g1_y(point)))
}

/// The point at infinity (both coordinates zero), or a point `(X, Y)` with
/// `Y^2 = X^3 + 3` in the base field.
pub open spec fn g1_on_curve(point: Seq<u8>) -> bool {
    let x = be_nat(g1_x(point)) as int;
    let y = be_nat(g1_y(point)) as int;
    (x == 0 && y == 0) || (y * y) % (fp_modulus() as int) == (x * x * x + 3) % (fp_modulus() as int)
}

/// A G1 encoding that the host accepts: 64 bytes, both coordinates field
/// elements (which leaves the two flag bits of the first byte unset), and
/// the point on the curve. On BN254 every point of the curve is in G1.
pub open spec fn g1_valid(point: Seq<u8>) -> bool {
    &&& point.len() == 64
    &&& be_nat(g1_x(point)) < fp_modulus()
    &&& be_nat(g1_y(point)) < fp_modulus()
    &&& g1_on_curve(point)
}

/// The reduction of `a` into the base field.
pub open spec fn fp(a: int) -> int {
    a % (fp_modulus() as int)
}

/// `a^e` in the base field.
pub open spec fn fp_pow(a: int, e: nat) -> int
    decreases e,
{
    if e == 0 {
        1
    } else {
        fp(a * fp_pow(a, (e - 1) as nat))
    }
}

/// An element `c0 + c1 * u` of the quadratic extension `Fp2 = Fp[u] / (u^2 + 1)`,
/// as the pair `(c0, c1)`.
pub open spec fn fp2_add(a: (int, int), b: (int, int)) -> (int, int) {
    (fp(a.0 + b.0), fp(a.1 + b.1))
}

pub open spec fn fp2_sub(a: (int, int), b: (int, int)) -> (int, int) {
    (fp(a.0 - b.0), fp(a.1 - b.1))
}

pub open spec fn fp2_mul(a: (int, int), b: (int, int)) -> (int, int) {
    (fp(a.0 * b.0 - a.1 * b.1), fp(a.0 * b.1 + a.1 * b.0))
}

/// The inverse in `Fp2`, through `(c0 + c1 u)^-1 = (c0 - c1 u) / (c0^2 + c1^2)`
/// and Fermat's `t^-1 = t^(p - 2)`.
pub open spec fn fp2_inv(a: (int, int)) -> (int, int) {
    let t = fp_pow(fp(a.0 * a.0 + a.1 * a.1), (fp_modulus() - 2) as nat);
    (fp(a.0 * t), fp(-a.1 * t))
}

/// A point of the twist `y^2 = x^3 + b'` over `Fp2` in affine
/// coordinates; `None` is the point at infinity.
pub open spec fn g2_add(p: Option<((int, int), (int, int))>, q: Option<((int, int), (int, int))>) -> Option<
    ((int, int), (int, int)),
> {
    match (p, q) {
        (None, _) => q,
        (_, None) => p,
        (Some((x1, y1)), Some((x2, y2))) => {
            if x1 == x2 && (y1 != y2 || y1 == (0int, 0int)) {
                None
            } else {
                let l = if x1 == x2 {
                    fp2_mul(fp2_mul((3int, 0int), fp2_mul(x1, x1)), fp2_inv(fp2_add(y1, y1)))
                } else {
                    fp2_mul(fp2_sub(y2, y1), fp2_inv(fp2_sub(x2, x1)))
                };
                let x3 = fp2_sub(fp2_sub(fp2_mul(l, l), x1), x2);
                Some((x3, fp2_sub(fp2_mul(l, fp2_sub(x1, x3)), y1)))
            }
        },
    }
}

/// `[n] p` on the twist, by double-and-add.
pub open spec fn g2_mul(n: nat, p: Option<((int, int), (int, int))>) -> Option<((int, int), (int, int))>
    decreases n,
{
    if n == 0 {
        None
    } else {
        let h = g2_mul(n / 2, p);
        let d = g2_add(h, h);
        if n % 2 == 1 {
            g2_add(d, p)
        } else {
            d
        }
    }
}

/// The constant `b' = 3 / (9 + u)` of the twist.
pub open spec fn g2_twist_b() -> (int, int) {
    (
        19485874751759354771024239261021720505790618469301721065564631296452457478373int,
        266929791119991161246907387137283842545076965332900288569378510910307636690int,
    )
}

/// The four field elements of a G2 encoding
/// `be(X.c1) || be(X.c0) || be(Y.c1) || be(Y.c0)`, as `(X, Y)`.
pub open spec fn g2_coordinates(point: Seq<u8>) -> ((int, int), (int, int)) {
    (
        (be_nat(point.subrange(32, 64)) as int, be_nat(point.subrange(0, 32)) as int),
        (be_nat(point.subrange(96, 128)) as int, be_nat(point.subrange(64, 96)) as int),
    )
}

/// A G2 encoding that the host accepts: 128 bytes, each of the four
/// components a field element, and the point either at infinity (all
/// zero) or on the twist and of order `r`. No host function tests this
/// apart from the pairing check, which traps where it fails.
pub open spec fn g2_valid(point: Seq<u8>) -> bool {
    let (x, y) = g2_coordinates(point);
    &&& point.len() == 128
    &&& 0 <= x.0 < fp_modulus() && 0 <= x.1 < fp_modulus()
    &&& 0 <= y.0 < fp_modulus() && 0 <= y.1 < fp_modulus()
    &&& ((x == (0int, 0int) && y == (0int, 0int)) || (fp2_mul(y, y) == fp2_add(fp2_mul(fp2_mul(x, x), x), g2_twist_b())
        && g2_mul(fr_modulus(), Some((x, y))) is None))
}

/// The encoding of the negation of the G1 point `point`: the one `q` with
/// `is_g1_negation(point, q)` (see `lemma_g1_neg_unique`).
pub open spec fn g1_neg(point: Seq<u8>) -> Seq<u8> {
    choose|q: Seq<u8>| is_g1_negation(point, q)
}

/// A point has one negation: any encoding of it is `g1_neg(point)`.
pub proof fn lemma_g1_neg_unique(point: Seq<u8>, q: Seq<u8>)
    requires
        is_g1_negation(point, q),
    ensures
        g1_neg(point) == q,
{
    let c = g1_neg(point);
    assert(is_g1_negation(point, c));
    lemma_be_nat_injective(g1_y(c), g1_y(q));
    assert(c =~= g1_x(c) + g1_y(c));
    assert(q =~= g1_x(q) + g1_y(q));
}

/// Negation keeps a valid G1 encoding valid: `-Y` is a field element and
/// `(-Y)^2 = Y^2`.
pub proof fn lemma_g1_negation_valid(point: Seq<u8>, q: Seq<u8>)
    requires
        g1_valid(point),
        is_g1_negation(point, q),
    ensures
        g1_valid(q),
{
    let pm = fp_modulus() as int;
    let y = be_nat(g1_y(point)) as int;
    let x = be_nat(g1_x(point)) as int;
    assert(pm > 0) by {
        reveal_with_fuel(be_nat, 3);
        lemma_pow256_positive(31);
    }
    if y != 0 {
        let ny = pm - y;
        assert(ny * ny == pm * (pm - 2 * y) + y * y) by (nonlinear_arith)
            requires
                ny == pm - y,
        ;
        vstd::arithmetic::div_mod::lemma_mod_multiples_vanish(pm - 2 * y, y * y, pm);
        assert(be_nat(g1_y(q)) == ny);
    }
}

/// The `len` big-endian bytes of `n`.
pub open spec fn be_bytes(n: nat, len: nat) -> Seq<u8>
    decreases len,
{
    if len == 0 {
        Seq::empty()
    } else {
        be_bytes(n / 256, (len - 1) as nat).push((n % 256) as u8)
    }
}

/// Appending a byte multiplies the number by 256 and adds the byte.
pub proof fn lemma_be_nat_push(s: Seq<u8>, b: u8)
    ensures
        be_nat(s.push(b)) == be_nat(s) * 256 + b,
    decreases s.len(),
{
    let t = s.push(b);
    if s.len() == 0 {
        assert(t.drop_first() =~= Seq::<u8>::empty());
        assert(t[0] == b);
        assert(be_nat(t.drop_first()) == 0);
        assert(pow256(0) == 1);
        assert(be_nat(t) == (t[0] as nat) * pow256(0) + be_nat(t.drop_first()));
    } else {
        assert(t.drop_first() =~= s.drop_first().push(b));
        lemma_be_nat_push(s.drop_first(), b);
        let w = pow256((s.len() - 1) as nat);
        assert(pow256(s.len()) == 256 * w);
        let s0 = s[0] as int;
        let r = be_nat(s.drop_first()) as int;
        assert(t[0] == s[0]);
        assert(s0 * (256 * w) + (r * 256 + b) == (s0 * w + r) * 256 + b) by (nonlinear_arith);
        assert(be_nat(t) == (t[0] as nat) * pow256((t.len() - 1) as nat) + be_nat(t.drop_first()));
        assert(be_nat(s) == (s[0] as nat) * w + be_nat(s.drop_first()));
    }
}

/// `be_bytes` encodes every number below `256^len` in `len` bytes.
pub proof fn lemma_be_bytes(n: nat, len: nat)
    requires
        n < pow256(len),
    ensures
        be_bytes(n, len).len() == len,
        be_nat(be_bytes(n, len)) == n,
    decreases len,
{
    if len > 0 {
        let w = pow256((len - 1) as nat);
        assert(n / 256 < w) by (nonlinear_arith)
            requires
                n < 256 * w,
        ;
        lemma_be_bytes(n / 256, (len - 1) as nat);
        lemma_be_nat_push(be_bytes(n / 256, (len - 1) as nat), (n % 256) as u8);
    }
}

/// A G1 encoding whose `Y` is a field element has a negation.
pub proof fn lemma_g1_neg_exists(point: Seq<u8>)
    requires
        point.len() == 64,
        g1_negatable(point),
    ensures
        is_g1_negation(point, g1_neg(point)),
{
    let y = be_nat(g1_y(point));
    lemma_be_nat_bound(fp_modulus_bytes());
    let ny = fp_neg(y);
    lemma_be_bytes(ny, 32);
    let q = g1_x(point) + be_bytes(ny, 32);
    assert(g1_x(q) =~= g1_x(point));
    assert(g1_y(q) =~= be_bytes(ny, 32));
    assert(is_g1_negation(point, q));
}

/// Two encodings of one length that encode the same number are the same.
pub proof fn lemma_be_nat_injective(a: Seq<u8>, b: Seq<u8>)
    requires
        a.len() == b.len(),
        be_nat(a) == be_nat(b),
    ensures
        a == b,
    decreases a.len(),
{
    if a.len() > 0 {
        lemma_be_nat_bound(a.drop_first());
        lemma_be_nat_bound(b.drop_first());
        let w = pow256((a.len() - 1) as nat) as int;
        let ra = be_nat(a.drop_first()) as int;
        let rb = be_nat(b.drop_first()) as int;
        let a0 = a[0] as int;
        let b0 = b[0] as int;
        assert(a0 == b0) by (nonlinear_arith)
            requires
                a0 * w + ra == b0 * w + rb,
                0 <= ra < w,
                0 <= rb < w,
                0 <= a0,
                0 <= b0,
        ;
        lemma_be_nat_injective(a.drop_first(), b.drop_first());
        assert(a =~= b) by {
            assert forall|i: int| 0 <= i < a.len() implies a[i] == b[i] by {
                if i > 0 {
                    assert(a[i] == a.drop_first()[i - 1]);
                    assert(b[i] == b.drop_first()[i - 1]);
                }
            }
        }
    }
}

pub proof fn lemma_be_nat_bound(s: Seq<u8>)
    ensures
        be_nat(s) < pow256(s.len()),
    decreases s.len(),
{
    if s.len() > 0 {
        lemma_be_nat_bound(s.drop_first());
        let w = pow256((s.len() - 1) as nat);
        let r = be_nat(s.drop_first());
        let d = s[0];
        assert(d * w + r < 256 * w) by (nonlinear_arith)
            requires
                d <= 255,
                r < w,
        ;
    }
}

pub proof fn lemma_be_nat_zero(s: Seq<u8>)
    ensures
        be_nat(s) == 0 <==> forall|i: int| 0 <= i < s.len() ==> s[i] == 0,
    decreases s.len(),
{
    if s.len() > 0 {
        lemma_be_nat_zero(s.drop_first());
        let w = pow256((s.len() - 1) as nat);
        lemma_pow256_positive((s.len() - 1) as nat);
        let d = s[0];
        assert(d > 0 ==> d * w > 0) by (nonlinear_arith)
            requires
                w > 0,
        ;
        if forall|i: int| 0 <= i < s.len() ==> s[i] == 0 {
            assert forall|i: int| 0 <= i < s.drop_first().len() implies s.drop_first()[i] == 0 by {
                assert(s.drop_first()[i] == s[i + 1]);
            }
        } else {
            let i = choose|i: int| 0 <= i < s.len() && s[i] != 0;
            if i > 0 {
                assert(s.drop_first()[i - 1] == s[i]);
            }
        }
    }
}

pub proof fn lemma_pow256_positive(n: nat)
    ensures
        pow256(n) > 0,
    decreases n,
{
    if n > 0 {
        lemma_pow256_positive((n - 1) as nat);
    }
}

/// Splits off the byte at `k` of the suffix of `s` from `k`.
proof fn lemma_suffix_step(s: Seq<u8>, k: int)
    requires
        0 <= k < s.len(),
    ensures
        be_nat(s.subrange(k, s.len() as int)) == s[k] * pow256((s.len() - k - 1) as nat) + be_nat(
            s.subrange(k + 1, s.len() as int),
        ),
{
    let t = s.subrange(k, s.len() as int);
    assert(t.drop_first() =~= s.subrange(k + 1, s.len() as int));
    assert(t[0] == s[k]);
}

/// The BN254 scalar field modulus
/// `r = 0x30644e72e131a029b85045b68181585d2833e84879b9709143e1f593f0000001`,
/// big-endian.
pub open spec fn fr_modulus_bytes() -> Seq<u8> {
    seq![
        0x30u8, 0x64u8, 0x4eu8, 0x72u8, 0xe1u8, 0x31u8, 0xa0u8, 0x29u8,
        0xb8u8, 0x50u8, 0x45u8, 0xb6u8, 0x81u8, 0x81u8, 0x58u8, 0x5du8,
        0x28u8, 0x33u8, 0xe8u8, 0x48u8, 0x79u8, 0xb9u8, 0x70u8, 0x91u8,
        0x43u8, 0xe1u8, 0xf5u8, 0x93u8, 0xf0u8, 0x00u8, 0x00u8, 0x01u8,
    ]
}

/// The scalar field modulus `r`.
pub open spec fn fr_modulus() -> nat {
    be_nat(fr_modulus_bytes())
}

/// The 32 bytes encode an element of the scalar field: a number below `r`.
pub open spec fn is_scalar(x: Seq<u8>) -> bool {
    be_nat(x) < fr_modulus()
}

fn fp_modulus_array() -> (m: [u8; 32])
    ensures
        m@ == fp_modulus_bytes(),
{
    let m: [u8; 32] = [
        0x30u8, 0x64u8, 0x4eu8, 0x72u8, 0xe1u8, 0x31u8, 0xa0u8, 0x29u8,
        0xb8u8, 0x50u8, 0x45u8, 0xb6u8, 0x81u8, 0x81u8, 0x58u8, 0x5du8,
        0x97u8, 0x81u8, 0x6au8, 0x91u8, 0x68u8, 0x71u8, 0xcau8, 0x8du8,
        0x3cu8, 0x20u8, 0x8cu8, 0x16u8, 0xd8u8, 0x7cu8, 0xfdu8, 0x47u8,
    ];
    assert(m@ =~= fp_modulus_bytes());
    m
}

fn fr_modulus_array() -> (m: [u8; 32])
    ensures
        m@ == fr_modulus_bytes(),
{
    let m: [u8; 32] = [
        0x30u8, 0x64u8, 0x4eu8, 0x72u8, 0xe1u8, 0x31u8, 0xa0u8, 0x29u8,
        0xb8u8, 0x50u8, 0x45u8, 0xb6u8, 0x81u8, 0x81u8, 0x58u8, 0x5du8,
        0x28u8, 0x33u8, 0xe8u8, 0x48u8, 0x79u8, 0xb9u8, 0x70u8, 0x91u8,
        0x43u8, 0xe1u8, 0xf5u8, 0x93u8, 0xf0u8, 0x00u8, 0x00u8, 0x01u8,
    ];
    assert(m@ =~= fr_modulus_bytes());
    m
}

/// The bytes of `m - y` for 32-byte `m` and `y`, and whether the
/// subtraction borrowed (that is, `y > m`).
fn sub_with_borrow(m: &[u8; 32], y: &[u8; 32]) -> (res: ([u8; 32], bool))
    ensures
        be_nat(res.0@) + be_nat(y@) == be_nat(m@) + (if res.1 { pow256(32) } else { 0 }),
{
    let mut d: [u8; 32] = [0u8; 32];
    let mut borrow: bool = false;
    let mut i: usize = 32;
    assert(d@.subrange(32, 32) =~= Seq::<u8>::empty());
    assert(y@.subrange(32, 32) =~= Seq::<u8>::empty());
    assert(m@.subrange(32, 32) =~= Seq::<u8>::empty());
    while i > 0
        invariant
            i <= 32,
            d@.len() == 32,
            y@.len() == 32,
            m@.len() == 32,
            be_nat(d@.subrange(i as int, 32)) + be_nat(y@.subrange(i as int, 32)) == be_nat(
                m@.subrange(i as int, 32),
            ) + (if borrow { pow256((32 - i) as nat) } else { 0 }),
        decreases i,
    {
        let k: usize = i - 1;
        let mk: u8 = m[k];
        let yk: u8 = y[k];
        let b: u8 = if borrow { 1 } else { 0 };
        let dk: u8;
        let next_borrow: bool;
        if (mk as u16) >= (yk as u16) + (b as u16) {
            dk = mk - yk - b;
            next_borrow = false;
        } else {
            dk = ((mk as u16) + 256 - (yk as u16) - (b as u16)) as u8;
            next_borrow = true;
        }
        let ghost before = d@;
        d[k] = dk;
        assert(d@.subrange(i as int, 32) =~= before.subrange(i as int, 32));
        proof {
            lemma_suffix_step(d@, k as int);
            lemma_suffix_step(y@, k as int);
            lemma_suffix_step(m@, k as int);
            let w = pow256((31 - k) as nat);
            assert(pow256((32 - k) as nat) == 256 * w);
            let nb: int = if next_borrow { 1 } else { 0 };
            let ob: int = if borrow { 1 } else { 0 };
            assert(dk + yk + ob == mk + 256 * nb);
            assert((dk + yk + ob) * w == (mk + 256 * nb) * w);
            assert((dk + yk + ob) * w == dk * w + yk * w + ob * w) by (nonlinear_arith);
            assert((mk + 256 * nb) * w == mk * w + nb * (256 * w)) by (nonlinear_arith);
        }
        borrow = next_borrow;
        i = k;
    }
    assert(d@.subrange(0, 32) =~= d@);
    assert(y@.subrange(0, 32) =~= y@);
    assert(m@.subrange(0, 32) =~= m@);
    (d, borrow)
}

fn all_zero(x: &[u8; 32]) -> (r: bool)
    ensures
        r == (be_nat(x@) == 0),
{
    proof {
        lemma_be_nat_zero(x@);
    }
    let mut k: usize = 0;
    while k < 32
        invariant
            k <= 32,
            x@.len() == 32,
            forall|m: int| 0 <= m < k ==> x@[m] == 0,
        decreases 32 - k,
    {
        if x[k] != 0 {
            proof {
                lemma_be_nat_zero(x@);
            }
            assert(x@[k as int] != 0);
            return false;
        }
        k = k + 1;
    }
    true
}

/// Whether the number that `y` encodes is below the one that `m` encodes.
fn below(m: &[u8; 32], y: &[u8; 32]) -> (r: bool)
    ensures
        r == (be_nat(y@) < be_nat(m@)),
{
    let (d, borrow) = sub_with_borrow(m, y);
    proof {
        lemma_be_nat_bound(d@);
    }
    !borrow && !all_zero(&d)
}

/// Whether `x` encodes an element of the scalar field (a number below `r`).
pub fn is_scalar_field_element(x: &[u8; 32]) -> (r: bool)
    ensures
        r == is_scalar(x@),
{
    let m = fr_modulus_array();
    below(&m, x)
}

fn y_coordinate(point: &[u8; 64]) -> (y: [u8; 32])
    ensures
        y@ == g1_y(point@),
{
    let mut y: [u8; 32] = [0u8; 32];
    let mut j: usize = 0;
    while j < 32
        invariant
            j <= 32,
            forall|k: int| 0 <= k < j ==> y@[k] == point@[32 + k],
        decreases 32 - j,
    {
        y[j] = point[32 + j];
        j = j + 1;
    }
    assert(y@ =~= g1_y(point@));
    y
}

fn x_coordinate(point: &[u8; 64]) -> (x: [u8; 32])
    ensures
        x@ == g1_x(point@),
{
    let mut x: [u8; 32] = [0u8; 32];
    let mut j: usize = 0;
    while j < 32
        invariant
            j <= 32,
            forall|k: int| 0 <= k < j ==> x@[k] == point@[k],
        decreases 32 - j,
    {
        x[j] = point[j];
        j = j + 1;
    }
    assert(x@ =~= g1_x(point@));
    x
}

/// Whether both coordinates of the G1 encoding `point` are below the base
/// field modulus.
pub fn g1_coordinates_in_field(point: &[u8; 64]) -> (r: bool)
    ensures
        r == (be_nat(g1_x(point@)) < fp_modulus() && be_nat(g1_y(point@)) < fp_modulus()),
{
    let x = x_coordinate(point);
    let y = y_coordinate(point);
    let m = fp_modulus_array();
    below(&m, &x) && below(&m, &y)
}

/// Whether the `Y` coordinate of the G1 encoding `point` is below the base
/// field modulus, so that the point can be negated.
pub fn g1_is_negatable(point: &[u8; 64]) -> (r: bool)
    ensures
        r == g1_negatable(point@),
{
    let y = y_coordinate(point);
    let m = fp_modulus_array();
    below(&m, &y)
}

/// The negation of the G1 point `point`, as the SDK's `Neg` on
/// `Bn254G1Affine` computes it: `X` kept, `Y` replaced by `-Y`. That `Neg`
/// reads `Y` as a `Bn254Fp`, whose construction aborts with
/// "Bn254: Invalid Fp" where `Y` is not below the field modulus, before the
/// field negation is reached.
pub fn g1_negate(point: &[u8; 64]) -> (q: [u8; 64])
    requires
        g1_negatable(point@),
    ensures
        is_g1_negation(point@, q@),
        q@ == g1_neg(point@),
        g1_valid(point@) ==> g1_valid(q@),
{
    let y = y_coordinate(point);
    let m = fp_modulus_array();
    let (d, borrow) = sub_with_borrow(&m, &y);
    proof {
        lemma_be_nat_bound(d@);
    }
    let mut q: [u8; 64] = *point;
    if !all_zero(&y) {
        let mut k: usize = 0;
        while k < 32
            invariant
                k <= 32,
                forall|t: int| 0 <= t < 32 ==> q@[t] == point@[t],
                forall|t: int| 0 <= t < k ==> q@[32 + t] == d@[t],
            decreases 32 - k,
        {
            q[32 + k] = d[k];
            k = k + 1;
        }
        assert(g1_y(q@) =~= d@);
    }
    assert(g1_x(q@) =~= g1_x(point@));
    proof {
        lemma_g1_neg_unique(point@, q@);
        if g1_valid(point@) {
            lemma_g1_negation_valid(point@, q@);
        }
    }
    q
}

} // verus!
