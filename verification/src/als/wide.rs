//! Natural numbers of any size, as far as comparing powers needs them.

use vstd::arithmetic::power::{lemma_pow0, lemma_pow_positive, pow};
use vstd::prelude::*;

verus! {

/// What the place of a limb is worth in terms of the place below it.
pub open spec fn base() -> int {
    0x1_0000_0000_0000_0000
}

/// The number that limbs stand for; the first limb is the lowest.
pub open spec fn number(limbs: Seq<u64>) -> int
    decreases limbs.len(),
{
    if limbs.len() == 0 {
        0
    } else {
        number(limbs.drop_last()) + limbs.last() * pow(base(), (limbs.len() - 1) as nat)
    }
}

proof fn lemma_base_step(n: nat)
    ensures
        pow(base(), n + 1) == base() * pow(base(), n),
        pow(base(), n) > 0,
{
    reveal(pow);
    lemma_pow_positive(base(), n);
}

/// A number is smaller than the worth of the place above its limbs.
proof fn lemma_number_bound(limbs: Seq<u64>)
    ensures
        0 <= number(limbs) < pow(base(), limbs.len()),
    decreases limbs.len(),
{
    if limbs.len() == 0 {
        lemma_pow0(base());
    } else {
        let n = (limbs.len() - 1) as nat;
        lemma_number_bound(limbs.drop_last());
        lemma_base_step(n);
        let p = pow(base(), n);
        let top = limbs.last() as int;
        assert(0 <= top * p && top * p + p <= base() * p) by (nonlinear_arith)
            requires
                0 <= top < base(),
                p > 0,
        ;
    }
}

/// The limbs of a number that is multiplied.
fn multiply(limbs: &Vec<u64>, factor: u128) -> (r: Vec<u64>)
    requires
        factor <= 0x1_0000_0000_0000_0000,
    ensures
        r@.len() == limbs@.len() + 1,
        number(r@) == factor * number(limbs@),
{
    let mut r: Vec<u64> = Vec::new();
    let mut carry: u64 = 0;
    assert(limbs@.take(0) =~= Seq::empty());
    assert(factor * 0 == 0);
    assert(0 * pow(base(), 0) == 0);
    for i in 0..limbs.len()
        invariant
            factor <= 0x1_0000_0000_0000_0000,
            r@.len() == i,
            number(r@) + carry * pow(base(), i as nat) == factor * number(limbs@.take(i as int)),
    {
        let limb = limbs[i];
        assert(limb * factor + carry <= 0xffff_ffff_ffff_ffff * 0x1_0000_0000_0000_0000
            + 0xffff_ffff_ffff_ffff) by (nonlinear_arith)
            requires
                0 <= limb <= 0xffff_ffff_ffff_ffff,
                0 <= factor <= 0x1_0000_0000_0000_0000,
                0 <= carry <= 0xffff_ffff_ffff_ffff,
        ;
        assert(0 <= limb * factor) by (nonlinear_arith)
            requires
                0 <= limb,
                0 <= factor,
        ;
        let product: u128 = limb as u128 * factor + carry as u128;
        let low: u64 = (product % 0x1_0000_0000_0000_0000) as u64;
        let high: u64 = (product / 0x1_0000_0000_0000_0000) as u64;
        let ghost before = r@;
        r.push(low);
        proof {
            let p = pow(base(), i as nat);
            lemma_base_step(i as nat);
            assert(product == low + base() * high);
            assert(r@.drop_last() =~= before);
            assert(number(r@) == number(before) + low * p);
            assert(limbs@.take(i + 1).drop_last() =~= limbs@.take(i as int));
            assert(limbs@.take(i + 1).last() == limb);
            let lower = number(limbs@.take(i as int));
            assert(number(limbs@.take(i + 1)) == lower + limb * p);
            let f = factor as int;
            let c = carry as int;
            let l = limb as int;
            let lo = low as int;
            let hi = high as int;
            assert(number(before) + lo * p + hi * (base() * p) == f * (lower + l * p))
                by (nonlinear_arith)
                requires
                    number(before) + c * p == f * lower,
                    l * f + c == lo + base() * hi,
            ;
        }
        carry = high;
    }
    let ghost before = r@;
    r.push(carry);
    assert(r@.drop_last() =~= before);
    assert(limbs@.take(limbs@.len() as int) =~= limbs@);
    r
}

/// Whether one number does not exceed another that has as many limbs.
fn not_above(a: &Vec<u64>, b: &Vec<u64>) -> (r: bool)
    requires
        a@.len() == b@.len(),
    ensures
        r == (number(a@) <= number(b@)),
{
    let mut i: usize = a.len();
    assert(a@.take(a@.len() as int) =~= a@);
    assert(b@.take(b@.len() as int) =~= b@);
    while i > 0
        invariant
            i <= a@.len(),
            a@.len() == b@.len(),
            number(a@) - number(b@) == number(a@.take(i as int)) - number(b@.take(i as int)),
        decreases i,
    {
        let x = a[i - 1];
        let y = b[i - 1];
        proof {
            let n = (i - 1) as nat;
            let p = pow(base(), n);
            assert(a@.take(i as int).drop_last() =~= a@.take(n as int));
            assert(b@.take(i as int).drop_last() =~= b@.take(n as int));
            lemma_number_bound(a@.take(n as int));
            lemma_number_bound(b@.take(n as int));
            lemma_pow_positive(base(), n);
            let low = number(a@.take(n as int));
            let other = number(b@.take(n as int));
            let u = x as int;
            let v = y as int;
            assert(u < v ==> low + u * p < other + v * p) by (nonlinear_arith)
                requires
                    low < p,
                    other >= 0,
                    p > 0,
            ;
            assert(v < u ==> other + v * p < low + u * p) by (nonlinear_arith)
                requires
                    other < p,
                    low >= 0,
                    p > 0,
            ;
        }
        if x < y {
            return true;
        }
        if x > y {
            return false;
        }
        i = i - 1;
    }
    assert(a@.take(0) =~= Seq::empty());
    assert(b@.take(0) =~= Seq::empty());
    true
}

/// The tenth power of a number, of eleven limbs.
fn tenth_power(n: u128) -> (r: Vec<u64>)
    requires
        n <= 0x1_0000_0000_0000_0000,
    ensures
        r@.len() == 11,
        number(r@) == pow(n as int, 10),
{
    let mut r: Vec<u64> = Vec::new();
    r.push(1);
    proof {
        assert(r@.drop_last() =~= Seq::empty());
        lemma_pow0(base());
        lemma_pow0(n as int);
        assert(number(r@.drop_last()) == 0);
        assert(number(r@) == 0 + 1 * pow(base(), 0));
    }
    let mut i: usize = 0;
    while i < 10
        invariant
            i <= 10,
            n <= 0x1_0000_0000_0000_0000,
            r@.len() == 1 + i,
            number(r@) == pow(n as int, i as nat),
        decreases 10 - i,
    {
        r = multiply(&r, n);
        proof {
            reveal(pow);
        }
        i = i + 1;
    }
    r
}

/// Whether the tenth power of `larger` is at most ten times that of `smaller`: the
/// two are not further apart than a tenth of an order of magnitude.
pub fn within_tenth(larger: u128, smaller: u128) -> (r: bool)
    requires
        larger <= 0x1_0000_0000_0000_0000,
        smaller <= 0x1_0000_0000_0000_0000,
    ensures
        r == (pow(larger as int, 10) <= 10 * pow(smaller as int, 10)),
{
    let a = multiply(&tenth_power(larger), 1);
    let b = multiply(&tenth_power(smaller), 10);
    not_above(&a, &b)
}

} // verus!
