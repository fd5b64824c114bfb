//! Fermat's little theorem for the BabyBear prime.
//!
//! The proof goes through a generator of the multiplicative group: the powers
//! of 31 modulo `p` have order exactly `p - 1`, so they are `p - 1` distinct
//! non-zero residues, hence all of them. Every non-zero residue is then a
//! power of 31, and its `(p - 1)`-th power is one.

use vstd::prelude::*;
use vstd::arithmetic::div_mod::*;
use vstd::arithmetic::mul::*;
use vstd::arithmetic::power2::*;
use vstd::arithmetic::power::*;
use vstd::relations::injective_on;
use vstd::set_lib::*;
use crate::field::BABY_BEAR_MODULUS;
use crate::field::field_mul;
use crate::field::field_pow;

verus! {

/// The order of the multiplicative group, `p - 1 = 2^27 * 15`.
pub open spec fn group_order() -> nat {
    2013265920
}

/// `31^k mod p`.
pub closed spec fn gen_pow(k: nat) -> int {
    pow(31, k) % (BABY_BEAR_MODULUS as int)
}

proof fn lemma_gen_pow_range(k: nat)
    ensures
        0 <= gen_pow(k) < BABY_BEAR_MODULUS,
{
    lemma_mod_bound(pow(31, k), BABY_BEAR_MODULUS as int);
}

proof fn lemma_gen_pow_add(j: nat, k: nat)
    ensures
        gen_pow(j + k) == (gen_pow(j) * gen_pow(k)) % (BABY_BEAR_MODULUS as int),
{
    lemma_pow_adds(31, j, k);
    lemma_mul_mod_noop(pow(31, j), pow(31, k), BABY_BEAR_MODULUS as int);
}

/// Small powers of the generator.
proof fn lemma_gen_pow_small()
    ensures
        gen_pow(1) == 31,
        gen_pow(2) == 961,
        gen_pow(3) == 29791,
        gen_pow(4) == 923521,
        gen_pow(5) == 28629151,
        gen_pow(10) == 1558084728,
        gen_pow(15) == 440564289,
{
    lemma_pow1(31);
    assert(gen_pow(1) == 31);
    lemma_gen_pow_add(1, 1);
    assert(gen_pow(2) == 961);
    lemma_gen_pow_add(2, 1);
    assert(gen_pow(3) == 29791);
    lemma_gen_pow_add(2, 2);
    assert(gen_pow(4) == 923521);
    lemma_gen_pow_add(4, 1);
    assert(gen_pow(5) == 28629151);
    lemma_gen_pow_add(5, 5);
    assert(gen_pow(10) == 1558084728);
    lemma_gen_pow_add(10, 5);
    assert(gen_pow(15) == 440564289);
}

proof fn lemma_order_half_part0()
    ensures
        gen_pow(7680) == 1559589183,
{
    lemma_gen_pow_small();
    lemma_gen_pow_add(15, 15);
    assert(gen_pow(30) == 975630072);
    lemma_gen_pow_add(30, 30);
    assert(gen_pow(60) == 1149491290);
    lemma_gen_pow_add(60, 60);
    assert(gen_pow(120) == 1003846038);
    lemma_gen_pow_add(120, 120);
    assert(gen_pow(240) == 1267047229);
    lemma_gen_pow_add(240, 240);
    assert(gen_pow(480) == 570250684);
    lemma_gen_pow_add(480, 480);
    assert(gen_pow(960) == 414040701);
    lemma_gen_pow_add(960, 960);
    assert(gen_pow(1920) == 195061667);
    lemma_gen_pow_add(1920, 1920);
    assert(gen_pow(3840) == 1049899240);
    lemma_gen_pow_add(3840, 3840);
    assert(gen_pow(7680) == 1559589183);
}

proof fn lemma_order_half_part1()
    ensures
        gen_pow(3932160) == 1753498361,
{
    lemma_order_half_part0();
    lemma_gen_pow_add(7680, 7680);
    assert(gen_pow(15360) == 1286330022);
    lemma_gen_pow_add(15360, 15360);
    assert(gen_pow(30720) == 1421947380);
    lemma_gen_pow_add(30720, 30720);
    assert(gen_pow(61440) == 2009781145);
    lemma_gen_pow_add(61440, 61440);
    assert(gen_pow(122880) == 1657000625);
    lemma_gen_pow_add(122880, 122880);
    assert(gen_pow(245760) == 298008106);
    lemma_gen_pow_add(245760, 245760);
    assert(gen_pow(491520) == 1282623253);
    lemma_gen_pow_add(491520, 491520);
    assert(gen_pow(983040) == 1340477990);
    lemma_gen_pow_add(983040, 983040);
    assert(gen_pow(1966080) == 341742893);
    lemma_gen_pow_add(1966080, 1966080);
    assert(gen_pow(3932160) == 1753498361);
}

proof fn lemma_order_half_part2()
    ensures
        gen_pow(1006632960) == 2013265920,
{
    lemma_order_half_part1();
    lemma_gen_pow_add(3932160, 3932160);
    assert(gen_pow(7864320) == 1732600167);
    lemma_gen_pow_add(7864320, 7864320);
    assert(gen_pow(15728640) == 397765732);
    lemma_gen_pow_add(15728640, 15728640);
    assert(gen_pow(31457280) == 1721589904);
    lemma_gen_pow_add(31457280, 31457280);
    assert(gen_pow(62914560) == 760005850);
    lemma_gen_pow_add(62914560, 62914560);
    assert(gen_pow(125829120) == 196396260);
    lemma_gen_pow_add(125829120, 125829120);
    assert(gen_pow(251658240) == 1592366214);
    lemma_gen_pow_add(251658240, 251658240);
    assert(gen_pow(503316480) == 1728404513);
    lemma_gen_pow_add(503316480, 503316480);
    assert(gen_pow(1006632960) == 2013265920);
}

proof fn lemma_order_fifth_part0()
    ensures
        gen_pow(1536) == 1924503713,
{
    lemma_gen_pow_small();
    lemma_gen_pow_add(3, 3);
    assert(gen_pow(6) == 887503681);
    lemma_gen_pow_add(6, 6);
    assert(gen_pow(12) == 1462844305);
    lemma_gen_pow_add(12, 12);
    assert(gen_pow(24) == 839089552);
    lemma_gen_pow_add(24, 24);
    assert(gen_pow(48) == 1646113519);
    lemma_gen_pow_add(48, 48);
    assert(gen_pow(96) == 989735200);
    lemma_gen_pow_add(96, 96);
    assert(gen_pow(192) == 354087134);
    lemma_gen_pow_add(192, 192);
    assert(gen_pow(384) == 939704260);
    lemma_gen_pow_add(384, 384);
    assert(gen_pow(768) == 210852613);
    lemma_gen_pow_add(768, 768);
    assert(gen_pow(1536) == 1924503713);
}

proof fn lemma_order_fifth_part1()
    ensures
        gen_pow(786432) == 233410736,
{
    lemma_order_fifth_part0();
    lemma_gen_pow_add(1536, 1536);
    assert(gen_pow(3072) == 620932417);
    lemma_gen_pow_add(3072, 3072);
    assert(gen_pow(6144) == 953858903);
    lemma_gen_pow_add(6144, 6144);
    assert(gen_pow(12288) == 911499372);
    lemma_gen_pow_add(12288, 12288);
    assert(gen_pow(24576) == 1788359951);
    lemma_gen_pow_add(24576, 24576);
    assert(gen_pow(49152) == 1109355884);
    lemma_gen_pow_add(49152, 49152);
    assert(gen_pow(98304) == 712883858);
    lemma_gen_pow_add(98304, 98304);
    assert(gen_pow(196608) == 1634029288);
    lemma_gen_pow_add(196608, 196608);
    assert(gen_pow(393216) == 475368472);
    lemma_gen_pow_add(393216, 393216);
    assert(gen_pow(786432) == 233410736);
}

proof fn lemma_order_fifth_part2()
    ensures
        gen_pow(402653184) == 645581151,
{
    lemma_order_fifth_part1();
    lemma_gen_pow_add(786432, 786432);
    assert(gen_pow(1572864) == 1351192264);
    lemma_gen_pow_add(1572864, 1572864);
    assert(gen_pow(3145728) == 1537548338);
    lemma_gen_pow_add(3145728, 3145728);
    assert(gen_pow(6291456) == 981668758);
    lemma_gen_pow_add(6291456, 6291456);
    assert(gen_pow(12582912) == 410767134);
    lemma_gen_pow_add(12582912, 12582912);
    assert(gen_pow(25165824) == 1902556399);
    lemma_gen_pow_add(25165824, 25165824);
    assert(gen_pow(50331648) == 422226006);
    lemma_gen_pow_add(50331648, 50331648);
    assert(gen_pow(100663296) == 161600065);
    lemma_gen_pow_add(100663296, 100663296);
    assert(gen_pow(201326592) == 1403701133);
    lemma_gen_pow_add(201326592, 201326592);
    assert(gen_pow(402653184) == 645581151);
}

proof fn lemma_order_third_part0()
    ensures
        gen_pow(2560) == 1605829134,
{
    lemma_gen_pow_small();
    lemma_gen_pow_add(5, 5);
    assert(gen_pow(10) == 1558084728);
    lemma_gen_pow_add(10, 10);
    assert(gen_pow(20) == 1422208504);
    lemma_gen_pow_add(20, 20);
    assert(gen_pow(40) == 1678705229);
    lemma_gen_pow_add(40, 40);
    assert(gen_pow(80) == 1771892767);
    lemma_gen_pow_add(80, 80);
    assert(gen_pow(160) == 940487245);
    lemma_gen_pow_add(160, 160);
    assert(gen_pow(320) == 1516982208);
    lemma_gen_pow_add(320, 320);
    assert(gen_pow(640) == 792115306);
    lemma_gen_pow_add(640, 640);
    assert(gen_pow(1280) == 452791590);
    lemma_gen_pow_add(1280, 1280);
    assert(gen_pow(2560) == 1605829134);
}

proof fn lemma_order_third_part1()
    ensures
        gen_pow(1310720) == 1734511292,
{
    lemma_order_third_part0();
    lemma_gen_pow_add(2560, 2560);
    assert(gen_pow(5120) == 2008025366);
    lemma_gen_pow_add(5120, 5120);
    assert(gen_pow(10240) == 456279664);
    lemma_gen_pow_add(10240, 10240);
    assert(gen_pow(20480) == 1492617483);
    lemma_gen_pow_add(20480, 20480);
    assert(gen_pow(40960) == 1252078097);
    lemma_gen_pow_add(40960, 40960);
    assert(gen_pow(81920) == 12770214);
    lemma_gen_pow_add(81920, 81920);
    assert(gen_pow(163840) == 1812738875);
    lemma_gen_pow_add(163840, 163840);
    assert(gen_pow(327680) == 1048536409);
    lemma_gen_pow_add(327680, 327680);
    assert(gen_pow(655360) == 434152628);
    lemma_gen_pow_add(655360, 655360);
    assert(gen_pow(1310720) == 1734511292);
}

proof fn lemma_order_third_part2()
    ensures
        gen_pow(671088640) == 1314723123,
{
    lemma_order_third_part1();
    lemma_gen_pow_add(1310720, 1310720);
    assert(gen_pow(2621440) == 839726776);
    lemma_gen_pow_add(2621440, 2621440);
    assert(gen_pow(5242880) == 629262984);
    lemma_gen_pow_add(5242880, 5242880);
    assert(gen_pow(10485760) == 1502726565);
    lemma_gen_pow_add(10485760, 10485760);
    assert(gen_pow(20971520) == 48459945);
    lemma_gen_pow_add(20971520, 20971520);
    assert(gen_pow(41943040) == 288916259);
    lemma_gen_pow_add(41943040, 41943040);
    assert(gen_pow(83886080) == 503591070);
    lemma_gen_pow_add(83886080, 83886080);
    assert(gen_pow(167772160) == 782862608);
    lemma_gen_pow_add(167772160, 167772160);
    assert(gen_pow(335544320) == 1314723124);
    lemma_gen_pow_add(335544320, 335544320);
    assert(gen_pow(671088640) == 1314723123);
}

/// The generator's power at the group order is one, and at the order divided
/// by each of its prime factors it is not.
proof fn lemma_generator_certificate()
    ensures
        gen_pow(2013265920) == 1,
        gen_pow(1006632960) != 1,
        gen_pow(671088640) != 1,
        gen_pow(402653184) != 1,
{
    lemma_order_half_part2();
    lemma_order_fifth_part2();
    lemma_order_third_part2();
    lemma_gen_pow_add(1006632960, 1006632960);
}

/// Exponents that give one are closed under multiples.
proof fn lemma_kernel_multiple(c: nat, j: nat)
    requires
        gen_pow(c) == 1,
    ensures
        gen_pow(c * j) == 1,
    decreases j,
{
    if j == 0 {
        lemma_mul_basics(c as int);
        lemma_pow0(31);
    } else {
        lemma_kernel_multiple(c, (j - 1) as nat);
        lemma_mul_is_distributive_sub(c as int, j as int, 1);
        assert(c * j == c * (j - 1) + c);
        lemma_gen_pow_add(c * ((j - 1) as nat), c);
    }
}

/// Exponents that give one are closed under remainders.
proof fn lemma_kernel_remainder(a: nat, b: nat)
    requires
        b > 0,
        gen_pow(a) == 1,
        gen_pow(b) == 1,
    ensures
        gen_pow(a % b) == 1,
{
    lemma_fundamental_div_mod(a as int, b as int);
    lemma_kernel_multiple(b, a / b);
    lemma_gen_pow_add(b * (a / b), a % b);
    lemma_gen_pow_range(a % b);
    lemma_small_mod(gen_pow(a % b) as nat, BABY_BEAR_MODULUS as nat);
}

/// Euclid's algorithm on two exponents that give one: a common divisor of
/// both that gives one as well.
proof fn lemma_kernel_common_divisor(a: nat, b: nat) -> (c: nat)
    requires
        a > 0,
        gen_pow(a) == 1,
        gen_pow(b) == 1,
    ensures
        c > 0,
        gen_pow(c) == 1,
        a % c == 0,
        b % c == 0,
    decreases b,
{
    if b == 0 {
        lemma_mod_self_0(a as int);
        a
    } else {
        lemma_kernel_remainder(a, b);
        lemma_mod_bound(a as int, b as int);
        let c = lemma_kernel_common_divisor(b, a % b);
        // a = b * (a / b) + a % b, and c divides both summands
        let q = (a / b) as int;
        let r = (a % b) as int;
        lemma_fundamental_div_mod(a as int, b as int);
        assert((b as int) % (c as int) == 0);
        assert(((b as int) % (c as int)) * q == 0) by {
            lemma_mul_basics(q);
        }
        lemma_mul_mod_noop_left(b as int, q, c as int);
        assert((b * q) % (c as int) == 0);
        lemma_add_mod_noop(b * q, r, c as int);
        assert(a == b * q + r);
        c
    }
}

/// If `c * k = 2^n * 15` with `k` odd, then `k` divides 15.
proof fn lemma_strip_twos(c: nat, k: nat, n: nat) -> (c2: nat)
    requires
        k % 2 == 1,
        c * k == pow2(n) * 15,
    ensures
        c2 * k == 15,
    decreases n,
{
    if n == 0 {
        lemma2_to64();
        c
    } else {
        lemma_pow2_unfold(n);
        let rest = pow2((n - 1) as nat);
        assert(pow2(n) * 15 == 2 * (rest * 15)) by (nonlinear_arith)
            requires
                pow2(n) == 2 * rest,
        ;
        if c % 2 == 1 {
            lemma_mul_mod_noop_general(c as int, k as int, 2);
            assert(false);
        }
        let half = c / 2;
        assert(half * k == rest * 15) by (nonlinear_arith)
            requires
                c == 2 * half,
                c * k == 2 * (rest * 15),
        ;
        lemma_strip_twos(half, k, (n - 1) as nat)
    }
}

/// A proper cofactor of the group order is divisible by 2, 3 or 5.
proof fn lemma_cofactor_has_prime(c: nat, k: nat)
    requires
        c * k == group_order(),
        k >= 2,
    ensures
        k % 2 == 0 || k % 3 == 0 || k % 5 == 0,
{
    if k % 2 == 1 {
        lemma2_to64();
        assert(pow2(27) * 15 == 2013265920);
        let c2 = lemma_strip_twos(c, k, 27);
        assert(c2 >= 1 && k <= 15) by (nonlinear_arith)
            requires
                c2 * k == 15,
                k >= 2,
        ;
        if k == 3 || k == 5 || k == 15 {
        } else if k == 7 {
            assert(c2 * 7 == 15);
        } else if k == 9 {
            assert(c2 * 9 == 15);
        } else if k == 11 {
            assert(c2 * 11 == 15);
        } else if k == 13 {
            assert(c2 * 13 == 15);
        }
    }
}

/// The generator has order exactly `p - 1`: no smaller positive exponent
/// gives one.
proof fn lemma_generator_order(d: nat)
    requires
        0 < d < group_order(),
    ensures
        gen_pow(d) != 1,
{
    if gen_pow(d) == 1 {
        lemma_generator_certificate();
        let m = group_order();
        let c = lemma_kernel_common_divisor(m, d);
        // c divides d, so c <= d < m
        lemma_fundamental_div_mod(d as int, c as int);
        assert(c <= d) by (nonlinear_arith)
            requires
                d == c * (d / c),
                d > 0,
                c > 0,
                d / c >= 0,
        ;
        let k = m / c;
        lemma_fundamental_div_mod(m as int, c as int);
        assert(c * k == m);
        assert(k >= 2) by (nonlinear_arith)
            requires
                c * k == m,
                0 < c < m,
        ;
        lemma_cofactor_has_prime(c, k);
        if k % 2 == 0 {
            lemma_kernel_cofactor(c, k, 2);
        } else if k % 3 == 0 {
            lemma_kernel_cofactor(c, k, 3);
        } else {
            lemma_kernel_cofactor(c, k, 5);
        }
    }
}

/// If `c` gives one and `q` divides `k`, then `c * k / q` gives one.
proof fn lemma_kernel_cofactor(c: nat, k: nat, q: nat)
    requires
        gen_pow(c) == 1,
        q > 0,
        k % q == 0,
    ensures
        (c * k) % q == 0,
        gen_pow((c * k) / q) == 1,
{
    let j = k / q;
    lemma_fundamental_div_mod(k as int, q as int);
    assert(c * k == q * (c * j)) by (nonlinear_arith)
        requires
            k == q * j,
    ;
    lemma_mod_multiples_basic((c * j) as int, q as int);
    lemma_div_multiples_vanish((c * j) as int, q as int);
    lemma_mul_is_commutative(q as int, (c * j) as int);
    lemma_kernel_multiple(c, j);
}

/// Distinct exponents below the group order give distinct powers.
proof fn lemma_gen_pow_injective(i: nat, j: nat)
    requires
        i < j < group_order(),
    ensures
        gen_pow(i) != gen_pow(j),
{
    if gen_pow(i) == gen_pow(j) {
        lemma_generator_certificate();
        let m = group_order();
        let d = (j - i) as nat;
        let r = (m - i) as nat;
        // 31^(j + m - i) is both 31^i * 31^(m - i) = 31^m = 1 and 31^m * 31^(j - i)
        lemma_gen_pow_add(j, r);
        lemma_gen_pow_add(i, r);
        lemma_gen_pow_add(m, d);
        lemma_gen_pow_range(d);
        lemma_mul_basics(gen_pow(d));
        lemma_small_mod(gen_pow(d) as nat, BABY_BEAR_MODULUS as nat);
        assert(j + r == m + d);
        assert(gen_pow(d) == 1);
        lemma_generator_order(d);
    }
}

/// No power of the generator is zero.
proof fn lemma_gen_pow_nonzero(k: nat)
    requires
        k < group_order(),
    ensures
        gen_pow(k) != 0,
{
    if gen_pow(k) == 0 {
        lemma_generator_certificate();
        lemma_gen_pow_add(k, (group_order() - k) as nat);
        lemma_mul_basics(gen_pow((group_order() - k) as nat));
    }
}

/// Every non-zero residue is a power of the generator.
proof fn lemma_generator_reaches(a: int) -> (k: nat)
    requires
        0 < a < BABY_BEAR_MODULUS,
    ensures
        k < group_order(),
        gen_pow(k) == a,
{
    let m = group_order() as int;
    let exponents = set_int_range(0, m);
    let residues = set_int_range(1, BABY_BEAR_MODULUS as int);
    let f = |k: int| gen_pow(k as nat);
    let image = exponents.map(f);
    lemma_int_range(0, m);
    lemma_int_range(1, BABY_BEAR_MODULUS as int);
    assert(injective_on(f, exponents)) by {
        assert forall|x1: int, x2: int|
            exponents.contains(x1) && exponents.contains(x2) && #[trigger] f(x1) == #[trigger] f(
                x2,
            ) implies x1 == x2 by {
            if x1 < x2 {
                lemma_gen_pow_injective(x1 as nat, x2 as nat);
            } else if x2 < x1 {
                lemma_gen_pow_injective(x2 as nat, x1 as nat);
            }
        }
    }
    lemma_map_size(exponents, image, f);
    assert(image.subset_of(residues)) by {
        assert forall|v: int| image.contains(v) implies residues.contains(v) by {
            let k = choose|k: int| exponents.contains(k) && v == f(k);
            lemma_gen_pow_range(k as nat);
            lemma_gen_pow_nonzero(k as nat);
        }
    }
    lemma_subset_equality(image, residues);
    assert(residues.contains(a));
    assert(image.contains(a));
    let k = choose|k: int| exponents.contains(k) && a == f(k);
    k as nat
}

/// Fermat's little theorem: `a^(p-1) mod p == 1` for `0 < a < p`.
pub proof fn lemma_fermat_little(a: int)
    requires
        0 < a < BABY_BEAR_MODULUS,
    ensures
        field_pow(a, group_order()) == 1,
{
    let p = BABY_BEAR_MODULUS as int;
    let m = group_order();
    let k = lemma_generator_reaches(a);
    lemma_generator_certificate();
    // a^m = (31^k mod p)^m = 31^(k * m) (mod p)
    lemma_pow_mod_noop(pow(31, k), m, p);
    lemma_pow_multiplies(31, k, m);
    lemma_mul_is_commutative(k as int, m as int);
    lemma_kernel_multiple(m, k);
}

/// The inverse by Fermat: `a * a^(p-2) mod p == 1` for `0 < a < p`.
pub proof fn lemma_fermat_inverse(a: int)
    requires
        0 < a < BABY_BEAR_MODULUS,
    ensures
        field_mul(a, field_pow(a, (BABY_BEAR_MODULUS - 2) as nat)) == 1,
{
    let p = BABY_BEAR_MODULUS as int;
    let e = (BABY_BEAR_MODULUS - 2) as nat;
    lemma_fermat_little(a);
    assert(pow(a, group_order()) == a * pow(a, e)) by {
        reveal(pow);
    }
    lemma_mul_mod_noop_right(a, pow(a, e), p);
}

} // verus!
