//! Integer-only encoding and decoding of IEEE-754 double bit patterns, as
//! far as the machine needs them itself: an integer whose magnitude is
//! below `2^53` converts to a double exactly, and a double truncates back
//! to an integer without any rounding. Only these exact paths live here;
//! every computation that rounds is handed to the host.
use vstd::prelude::*;
use vstd::arithmetic::power2::pow2;

verus! {

pub open spec fn pow52() -> nat {
    0x10000000000000
}

pub open spec fn pow53() -> nat {
    0x20000000000000
}

pub open spec fn pow63() -> nat {
    0x8000000000000000
}

/// How many doublings bring a positive magnitude up to `2^52`.
pub open spec fn shifts_up(m: nat) -> nat
    decreases pow53() - m,
{
    if m == 0 || m >= pow52() {
        0
    } else {
        1 + shifts_up(2 * m)
    }
}

/// The bit pattern with sign `s`, biased exponent `e` and 53-bit
/// significand `m` (its leading bit implicit).
pub open spec fn encode_bits(s: nat, e: nat, m: nat) -> u64 {
    (s * pow63() + e * pow52() + (m - pow52())) as u64
}

/// The magnitude of an integer.
pub open spec fn mag_of(i: i64) -> nat {
    if i < 0 {
        (-(i as int)) as nat
    } else {
        i as nat
    }
}

/// The double bit pattern of an integer whose magnitude is below `2^53`:
/// such an integer is exactly representable, so no rounding is involved.
pub open spec fn i2f_small_bits(i: i64) -> u64 {
    if i == 0 {
        0u64
    } else {
        let s: nat = if i < 0 {
            1
        } else {
            0
        };
        let k = shifts_up(mag_of(i));
        encode_bits(s, (1075 - k) as nat, mag_of(i) * pow2(k))
    }
}

/// The integer a double bit pattern truncates to, toward zero: zero below
/// one and for NaN, saturated at the extremes, exact otherwise.
pub open spec fn f2i_bits(bits: u64) -> i64 {
    let s = bits / 0x8000000000000000;
    let e = (bits / 0x10000000000000) % 2048;
    let frac = bits % 0x10000000000000;
    if e == 2047 {
        if frac != 0 {
            0i64
        } else if s == 0 {
            i64::MAX
        } else {
            i64::MIN
        }
    } else if e < 1075 {
        let m = pow52() + frac as nat;
        let mag = m / pow2((1075 - e) as nat);
        if s == 0 {
            mag as i64
        } else {
            (-(mag as int)) as i64
        }
    } else {
        let m = pow52() + frac as nat;
        let mag = m * pow2((e - 1075) as nat);
        if s == 0 {
            if mag > i64::MAX {
                i64::MAX
            } else {
                mag as i64
            }
        } else {
            if mag >= pow63() {
                i64::MIN
            } else {
                (-(mag as int)) as i64
            }
        }
    }
}

/// Normalization facts: the doublings bring the magnitude into
/// `[2^52, 2^53)` and never number more than 52.
pub proof fn lemma_shifts_up(m: nat)
    requires
        1 <= m < pow53(),
    ensures
        m < pow52() ==> shifts_up(m) >= 1,
        pow52() <= m * pow2(shifts_up(m)) < pow53(),
        shifts_up(m) <= 52,
    decreases pow53() - m,
{
    vstd::arithmetic::power2::lemma2_to64();
    vstd::arithmetic::power2::lemma2_to64_rest();
    if m >= pow52() {
        assert(shifts_up(m) == 0);
        assert(pow2(0) == 1);
        assert(m * pow2(0) == m) by (nonlinear_arith)
            requires
                pow2(0) == 1,
        ;
    } else {
        lemma_shifts_up(2 * m);
        let k = shifts_up(2 * m);
        assert(shifts_up(m) == 1 + k);
        assert(pow2(1 + k) == 2 * pow2(k)) by {
            vstd::arithmetic::power2::lemma_pow2_unfold(1 + k);
        }
        assert(m * pow2(1 + k) == (2 * m) * pow2(k)) by (nonlinear_arith)
            requires
                pow2(1 + k) == 2 * pow2(k),
        ;
        assert(m * pow2(shifts_up(m)) == m * pow2(1 + k));
        assert(m * pow2(1 + k) == (2 * m) * pow2(k));
        assert(pow52() <= (2 * m) * pow2(k) < pow53());
        assert(pow52() <= m * pow2(shifts_up(m)) < pow53());
        if k + 1 > 52 {
            assert(k == 52);
            assert((2 * m) * pow2(52) < pow53());
            assert(2 * m < 2) by (nonlinear_arith)
                requires
                    (2 * m) * pow2(52) < pow53(),
                    pow2(52) == pow52(),
                    pow53() == 2 * pow52(),
            ;
            assert(false);
        }
    }
}

/// The three fields of an encoded pattern read back as they were written.
pub proof fn lemma_encode_fields(s: nat, e: nat, m: nat)
    requires
        s <= 1,
        1 <= e <= 2046,
        pow52() <= m < pow53(),
    ensures
        encode_bits(s, e, m) as nat == s * pow63() + e * pow52() + (m - pow52()),
        encode_bits(s, e, m) / 0x8000000000000000 == s,
        (encode_bits(s, e, m) / 0x10000000000000) % 2048 == e,
        encode_bits(s, e, m) % 0x10000000000000 == m - pow52(),
{
    let f = (m - pow52()) as nat;
    let total: nat = s * pow63() + e * pow52() + f;
    assert(f < pow52());
    assert(e * pow52() + f < 2047 * pow52() + pow52()) by (nonlinear_arith)
        requires
            e <= 2046,
            f < pow52(),
    ;
    assert(total < 0x10000000000000000) by (nonlinear_arith)
        requires
            s <= 1,
            total == s * 0x8000000000000000 + e * 0x10000000000000 + f,
            e * 0x10000000000000 + f < 2048 * 0x10000000000000,
    ;
    assert(encode_bits(s, e, m) as nat == total);
    assert(total / 0x8000000000000000 == s) by (nonlinear_arith)
        requires
            total == s * 0x8000000000000000 + e * 0x10000000000000 + f,
            e * 0x10000000000000 + f < 0x8000000000000000,
            s <= 1,
    ;
    assert(total / 0x10000000000000 == s * 2048 + e) by (nonlinear_arith)
        requires
            total == (s * 2048 + e) * 0x10000000000000 + f,
            f < 0x10000000000000,
    ;
    assert((s * 2048 + e) % 2048 == e) by (nonlinear_arith)
        requires
            s <= 1,
            e < 2048,
    ;
    assert(total % 0x10000000000000 == f) by (nonlinear_arith)
        requires
            total == (s * 2048 + e) * 0x10000000000000 + f,
            f < 0x10000000000000,
    ;
}

/// Convert an integer whose magnitude is below `2^53` to its exact double
/// bit pattern.
#[verifier::loop_isolation(false)]
pub fn i2fSmall(i: i64) -> (r: u64)
    requires
        -0x20000000000000 < i < 0x20000000000000,
    ensures
        r == i2f_small_bits(i),
{
    proof {
        vstd::arithmetic::power2::lemma2_to64();
        vstd::arithmetic::power2::lemma2_to64_rest();
    }
    if i == 0 {
        return 0;
    }
    let s: u64 = if i < 0 {
        1
    } else {
        0
    };
    let mag: u64 = if i < 0 {
        (-(i as i128)) as u64
    } else {
        i as u64
    };
    proof {
        assert(mag == mag_of(i));
        lemma_shifts_up(mag as nat);
    }
    let mut m: u64 = mag;
    let mut k: u64 = 0;
    while m < 0x10000000000000
        invariant
            1 <= mag < 0x20000000000000,
            1 <= m < 0x20000000000000,
            m as nat == (mag as nat) * pow2(k as nat),
            shifts_up(mag as nat) == k + shifts_up(m as nat),
            k <= 52,
        decreases 0x20000000000000 - m,
    {
        proof {
            vstd::arithmetic::power2::lemma_pow2_unfold(k as nat + 1);
            assert((mag as nat) * pow2(k as nat + 1) == 2 * ((mag as nat) * pow2(k as nat)))
                by (nonlinear_arith)
                requires
                    pow2(k as nat + 1) == 2 * pow2(k as nat),
            ;
            assert(shifts_up(m as nat) == 1 + shifts_up(2 * m as nat));
            assert(k < 52) by {
                if k == 52 {
                    assert(shifts_up(mag as nat) >= 53);
                    assert(false);
                }
            }
        }
        m = m * 2;
        k = k + 1;
    }
    proof {
        assert(shifts_up(m as nat) == 0);
        assert(k as nat == shifts_up(mag as nat));
    }
    let e: u64 = 1075 - k;
    let r = s * 0x8000000000000000 + e * 0x10000000000000 + (m - 0x10000000000000);
    proof {
        assert(r as nat == (s as nat) * pow63() + (e as nat) * pow52() + ((m as nat) - pow52()));
        assert(r == encode_bits(s as nat, e as nat, m as nat));
    }
    r
}

/// Truncate a double bit pattern toward zero to an integer, saturating at
/// the extremes; NaN truncates to zero.
#[verifier::loop_isolation(false)]
#[verifier::rlimit(60)]
pub fn f2iTrunc(bits: u64) -> (r: i64)
    ensures
        r == f2i_bits(bits),
{
    proof {
        vstd::arithmetic::power2::lemma2_to64();
        vstd::arithmetic::power2::lemma2_to64_rest();
    }
    let s = bits / 0x8000000000000000;
    let e = (bits / 0x10000000000000) % 2048;
    let frac = bits % 0x10000000000000;
    if e == 2047 {
        if frac != 0 {
            0
        } else if s == 0 {
            i64::MAX
        } else {
            i64::MIN
        }
    } else if e < 1075 {
        let m: u64 = 0x10000000000000 + frac;
        let sh: u64 = 1075 - e;
        let mut mag: u64 = m;
        let mut j: u64 = 0;
        while j < sh
            invariant
                j <= sh,
                mag as nat == (m as nat) / pow2(j as nat),
            decreases sh - j,
        {
            proof {
                vstd::arithmetic::power2::lemma_pow2_pos(j as nat);
                vstd::arithmetic::div_mod::lemma_div_denominator(
                    m as int,
                    pow2(j as nat) as int,
                    2,
                );
                vstd::arithmetic::power2::lemma_pow2_unfold(j as nat + 1);
                assert(pow2(j as nat) * 2 == pow2(j as nat + 1));
            }
            mag = mag / 2;
            j = j + 1;
        }
        proof {
            vstd::arithmetic::power2::lemma_pow2_pos(j as nat);
            assert(mag as nat <= m as nat) by (nonlinear_arith)
                requires
                    mag as nat == (m as nat) / pow2(j as nat),
                    pow2(j as nat) >= 1,
                    m >= 0,
            ;
        }
        if s == 0 {
            mag as i64
        } else {
            -(mag as i64)
        }
    } else {
        let m: u64 = 0x10000000000000 + frac;
        let sh: u64 = e - 1075;
        if sh >= 11 {
            proof {
                if sh > 11 {
                    vstd::arithmetic::power2::lemma_pow2_strictly_increases(11, sh as nat);
                }
                assert(pow2(sh as nat) >= 0x800);
                assert((m as nat) * pow2(sh as nat) >= 0x10000000000000 * 0x800)
                    by (nonlinear_arith)
                    requires
                        (m as nat) >= 0x10000000000000,
                        pow2(sh as nat) >= 0x800,
                ;
            }
            if s == 0 {
                i64::MAX
            } else {
                i64::MIN
            }
        } else {
            let mut mag: u64 = m;
            let mut j: u64 = 0;
            while j < sh
                invariant
                    j <= sh,
                    sh <= 10,
                    mag as nat == (m as nat) * pow2(j as nat),
                    mag < 0x8000000000000000,
                decreases sh - j,
            {
                proof {
                    vstd::arithmetic::power2::lemma_pow2_unfold(j as nat + 1);
                    assert((m as nat) * pow2(j as nat + 1) == 2 * ((m as nat) * pow2(j as nat)))
                        by (nonlinear_arith)
                        requires
                            pow2(j as nat + 1) == 2 * pow2(j as nat),
                    ;
                    if j as nat + 1 < 10 {
                        vstd::arithmetic::power2::lemma_pow2_strictly_increases(
                            j as nat + 1,
                            10,
                        );
                    }
                    assert(pow2(j as nat + 1) <= 0x400);
                    assert((m as nat) * pow2(j as nat + 1) < 0x20000000000000 * 0x400)
                        by (nonlinear_arith)
                        requires
                            (m as nat) < 0x20000000000000,
                            pow2(j as nat + 1) <= 0x400,
                    ;
                }
                mag = mag * 2;
                j = j + 1;
            }
            if s == 0 {
                if mag > 0x7fffffffffffffff {
                    i64::MAX
                } else {
                    mag as i64
                }
            } else {
                if mag >= 0x8000000000000000 {
                    i64::MIN
                } else {
                    -(mag as i64)
                }
            }
        }
    }
}

/// Round trip: converting an integer whose magnitude is below `2^53` to a
/// double and truncating back yields the original integer.
pub proof fn lemma_i2f_f2i_roundtrip(i: i64)
    requires
        -0x20000000000000 < i < 0x20000000000000,
    ensures
        f2i_bits(i2f_small_bits(i)) == i,
{
    vstd::arithmetic::power2::lemma2_to64();
    vstd::arithmetic::power2::lemma2_to64_rest();
    if i == 0 {
        vstd::arithmetic::power2::lemma_pow2_strictly_increases(53, 1075);
        let z: nat = pow52() + ((0u64 % 0x10000000000000) as nat);
        let p: nat = pow2(1075);
        assert(z < p);
        assert(z / p == 0) by (nonlinear_arith)
            requires
                z < p,
                p > 0,
        ;
        assert(f2i_bits(0u64) == 0i64);
    } else {
        let s: nat = if i < 0 {
            1
        } else {
            0
        };
        let mg = mag_of(i);
        assert(1 <= mg < pow53());
        lemma_shifts_up(mg);
        let k = shifts_up(mg);
        let m = mg * pow2(k);
        let e = (1075 - k) as nat;
        assert(1023 <= e <= 1075);
        lemma_encode_fields(s, e, m);
        let bits = i2f_small_bits(i);
        assert(bits == encode_bits(s, e, m));
        assert(bits / 0x8000000000000000 == s);
        assert((bits / 0x10000000000000) % 2048 == e);
        assert(bits % 0x10000000000000 == m - pow52());
        assert(e < 1075 || e == 1075);
        assert(pow52() + (m - pow52()) == m);
        assert(1075 - e == k);
        assert(m / pow2(k) == mg) by (nonlinear_arith)
            requires
                m == mg * pow2(k),
                pow2(k) >= 1,
        ;
        if s == 0 {
            assert(f2i_bits(bits) == mg as i64);
            assert(mg as i64 == i);
        } else {
            assert(f2i_bits(bits) == (-(mg as int)) as i64);
            assert((-(mg as int)) as i64 == i);
        }
    }
}

} // verus!
