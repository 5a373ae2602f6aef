//! Human-readable size strings: a byte count scaled through the unit
//! ladder `Bytes, kB, MB, ...`, and a decimal rendering of whole numbers.

use vstd::prelude::*;
use vstd::string::StringExecFns;
use vstd::arithmetic::div_mod::lemma_div_denominator;
use vstd::arithmetic::div_mod::lemma_div_is_ordered;
use vstd::arithmetic::div_mod::lemma_fundamental_div_mod;

verus! {

/// The decimal digit character for a single digit value.
pub open spec fn digit_char(d: nat) -> char {
    if d == 0 {
        '0'
    } else if d == 1 {
        '1'
    } else if d == 2 {
        '2'
    } else if d == 3 {
        '3'
    } else if d == 4 {
        '4'
    } else if d == 5 {
        '5'
    } else if d == 6 {
        '6'
    } else if d == 7 {
        '7'
    } else if d == 8 {
        '8'
    } else {
        '9'
    }
}

/// The usual decimal representation of `n`, most significant digit first,
/// with no leading zeros (a lone `0` for zero).
pub open spec fn dec_rep(n: nat) -> Seq<char>
    decreases n,
{
    if n < 10 {
        seq![digit_char(n)]
    } else {
        dec_rep(n / 10).push(digit_char(n % 10))
    }
}

fn digit_str(d: u64) -> (r: &'static str)
    requires
        d < 10,
    ensures
        r@ == seq![digit_char(d as nat)],
{
    let r: &'static str = if d == 0 {
        "0"
    } else if d == 1 {
        "1"
    } else if d == 2 {
        "2"
    } else if d == 3 {
        "3"
    } else if d == 4 {
        "4"
    } else if d == 5 {
        "5"
    } else if d == 6 {
        "6"
    } else if d == 7 {
        "7"
    } else if d == 8 {
        "8"
    } else {
        "9"
    };
    proof {
        reveal_strlit("0");
        reveal_strlit("1");
        reveal_strlit("2");
        reveal_strlit("3");
        reveal_strlit("4");
        reveal_strlit("5");
        reveal_strlit("6");
        reveal_strlit("7");
        reveal_strlit("8");
        reveal_strlit("9");
        assert(r@ =~= seq![digit_char(d as nat)]);
    }
    r
}

/// Renders `n` in decimal.
pub fn u64_to_dec(n: u64) -> (r: String)
    ensures
        r@ == dec_rep(n as nat),
    decreases n,
{
    if n < 10 {
        let r = digit_str(n).to_owned();
        r
    } else {
        let mut r = u64_to_dec(n / 10);
        r.append(digit_str(n % 10));
        proof {
            assert(r@ =~= dec_rep(n as nat));
        }
        r
    }
}

/// The unit written after a size that was scaled down `k` times.
pub open spec fn unit_text(k: nat) -> Seq<char> {
    if k == 0 {
        "Bytes"@
    } else if k == 1 {
        "kB"@
    } else if k == 2 {
        "MB"@
    } else if k == 3 {
        "GB"@
    } else if k == 4 {
        "TB"@
    } else if k == 5 {
        "PB"@
    } else if k == 6 {
        "EB"@
    } else {
        "ZB"@
    }
}

fn unit_str(k: u64) -> (r: &'static str)
    requires
        k < 8,
    ensures
        r@ == unit_text(k as nat),
{
    if k == 0 {
        "Bytes"
    } else if k == 1 {
        "kB"
    } else if k == 2 {
        "MB"
    } else if k == 3 {
        "GB"
    } else if k == 4 {
        "TB"
    } else if k == 5 {
        "PB"
    } else if k == 6 {
        "EB"
    } else {
        "ZB"
    }
}

/// `1024^k`.
pub open spec fn pow1024(k: nat) -> nat
    decreases k,
{
    if k == 0 {
        1
    } else {
        1024 * pow1024((k - 1) as nat)
    }
}

/// How many times a byte count is divided by 1024 before it drops below
/// 1024: the index of the unit it is displayed in.
pub open spec fn unit_index(b: nat) -> nat
    decreases b,
{
    if b < 1024 {
        0
    } else {
        1 + unit_index(b / 1024)
    }
}

proof fn lemma_pow1024_pos(k: nat)
    ensures
        pow1024(k) >= 1,
    decreases k,
{
    if k > 0 {
        lemma_pow1024_pos((k - 1) as nat);
        assert(1024 * pow1024((k - 1) as nat) >= pow1024((k - 1) as nat)) by (nonlinear_arith)
            requires
                pow1024((k - 1) as nat) >= 1,
        ;
    }
}

proof fn lemma_pow1024_monotonic(a: nat, b: nat)
    requires
        a <= b,
    ensures
        pow1024(a) <= pow1024(b),
    decreases b,
{
    if a < b {
        lemma_pow1024_monotonic(a, (b - 1) as nat);
        lemma_pow1024_pos((b - 1) as nat);
        assert(1024 * pow1024((b - 1) as nat) >= pow1024((b - 1) as nat)) by (nonlinear_arith)
            requires
                pow1024((b - 1) as nat) >= 1,
        ;
    }
}

/// A byte count below `1024^(k+1)` never scales past unit `k`.
proof fn lemma_unit_index_bound(b: nat, k: nat)
    requires
        b < pow1024((k + 1) as nat),
    ensures
        unit_index(b) <= k,
    decreases k,
{
    if b >= 1024 {
        lemma_pow1024_pos(k);
        if k == 0 {
            assert(pow1024(1) == 1024);
        } else {
            assert(pow1024((k + 1) as nat) == 1024 * pow1024(k));
            assert(b / 1024 < pow1024(k)) by (nonlinear_arith)
                requires
                    b < 1024 * pow1024(k),
                    pow1024(k) >= 1,
            ;
            lemma_unit_index_bound(b / 1024, (k - 1) as nat);
        }
    }
}

/// Every `u64` byte count stays within the unit ladder.
proof fn lemma_unit_index_u64(b: nat)
    requires
        b < 0x10000000000000000,
    ensures
        unit_index(b) <= 6,
{
    assert(pow1024(7) == 1024 * (1024 * (1024 * (1024 * (1024 * (1024 * (1024
        * 1)))))))
        by {
        reveal_with_fuel(pow1024, 8);
    };
    lemma_unit_index_bound(b, 6);
}

/// The display string for a byte count: the count divided by 1024 while it
/// is at least 1024, written with no decimal when the division is exact and
/// with exactly one (rounded) decimal digit otherwise, followed by the unit.
pub open spec fn spec_format_size(b: nat) -> Seq<char> {
    let k = unit_index(b);
    let d = pow1024(k);
    let whole = b / d;
    let rem = b % d;
    if rem == 0 {
        dec_rep(whole) + " "@ + unit_text(k)
    } else {
        let t = (rem * 10 + d / 2) / d;
        let w2 = if t == 10 {
            (whole + 1) as nat
        } else {
            whole
        };
        let t2 = if t == 10 {
            0 as nat
        } else {
            t
        };
        dec_rep(w2) + "."@ + seq![digit_char(t2)] + " "@ + unit_text(k)
    }
}

/// Scales a byte count into the unit ladder and renders it.
///
/// The result is a function of `bytes` alone, so repeated calls on the
/// same count always render the same string.
pub fn format_size(bytes: u64) -> (r: String)
    ensures
        r@ == spec_format_size(bytes as nat),
{
    proof {
        lemma_unit_index_u64(bytes as nat);
        vstd::arithmetic::div_mod::lemma_div_basics(bytes as int);
    }
    let mut v: u64 = bytes;
    let mut k: u64 = 0;
    while v >= 1024
        invariant
            v as nat == (bytes as nat) / pow1024(k as nat),
            unit_index(bytes as nat) == k as nat + unit_index(v as nat),
            unit_index(bytes as nat) <= 6,
        decreases v,
    {
        proof {
            lemma_pow1024_pos(k as nat);
            lemma_div_denominator(bytes as int, pow1024(k as nat) as int, 1024);
            assert(pow1024((k + 1) as nat) == pow1024(k as nat) * 1024) by {
                assert(pow1024((k + 1) as nat) == 1024 * pow1024(k as nat));
            };
            assert(unit_index(v as nat) == 1 + unit_index((v / 1024) as nat));
        }
        v = v / 1024;
        k = k + 1;
    }
    proof {
        assert(unit_index(v as nat) == 0);
        assert(k as nat == unit_index(bytes as nat));
    }
    let mut d: u64 = 1;
    let mut j: u64 = 0;
    while j < k
        invariant
            j <= k,
            k <= 6,
            d as nat == pow1024(j as nat),
        decreases k - j,
    {
        proof {
            lemma_pow1024_monotonic((j + 1) as nat, 6);
            assert(pow1024(6nat) == 1024 * (1024 * (1024 * (1024 * (1024 * (1024
                * 1)))))) by {
                reveal_with_fuel(pow1024, 7);
            };
            assert(pow1024((j + 1) as nat) == 1024 * pow1024(j as nat));
        }
        d = d * 1024;
        j = j + 1;
    }
    proof {
        lemma_pow1024_pos(k as nat);
        lemma_pow1024_monotonic(k as nat, 6);
        assert(pow1024(6nat) == 1024 * (1024 * (1024 * (1024 * (1024 * (1024 * 1))))))
            by {
            reveal_with_fuel(pow1024, 7);
        };
        lemma_fundamental_div_mod(bytes as int, d as int);
    }
    let rem: u64 = bytes % d;
    let ghost dn: nat = d as nat;
    let ghost remn: nat = (bytes as nat) % dn;
    if rem == 0 {
        let mut s = u64_to_dec(v);
        s.append(" ");
        s.append(unit_str(k));
        proof {
            assert(s@ =~= spec_format_size(bytes as nat));
        }
        s
    } else {
        proof {
            assert(remn < dn) by (nonlinear_arith)
                requires
                    remn == (bytes as nat) % dn,
                    dn >= 1,
            ;
            assert(rem * 10 + d / 2 <= 0xffffffffffffffff);
        }
        let t: u64 = (rem * 10 + d / 2) / d;
        proof {
            assert(t <= 10) by (nonlinear_arith)
                requires
                    t == ((remn * 10 + dn / 2) / dn) as int,
                    remn < dn,
                    dn >= 1,
            ;
            assert(v < 1024);
        }
        let w2: u64 = if t == 10 {
            v + 1
        } else {
            v
        };
        let t2: u64 = if t == 10 {
            0
        } else {
            t
        };
        let mut s = u64_to_dec(w2);
        s.append(".");
        s.append(digit_str(t2));
        s.append(" ");
        s.append(unit_str(k));
        proof {
            assert(s@ =~= spec_format_size(bytes as nat));
        }
        s
    }
}

/// The item-count string shown for a folder.
pub open spec fn spec_items_count(n: nat) -> Seq<char> {
    dec_rep(n) + " items"@
}

/// Renders a visible-child count as the folder's size column.
pub fn format_items_count(n: u64) -> (r: String)
    ensures
        r@ == spec_items_count(n as nat),
{
    let mut s = u64_to_dec(n);
    s.append(" items");
    proof {
        assert(s@ =~= spec_items_count(n as nat));
    }
    s
}

/// As a byte count grows, the unit it is displayed in never moves down
/// the ladder: the selected unit index is monotonic in the count.
pub proof fn lemma_unit_index_monotonic(a: nat, b: nat)
    requires
        a <= b,
    ensures
        unit_index(a) <= unit_index(b),
    decreases a,
{
    if a >= 1024 {
        lemma_div_is_ordered(a as int, b as int, 1024);
        vstd::arithmetic::div_mod::lemma_div_decreases(a as int, 1024);
        lemma_unit_index_monotonic(a / 1024, b / 1024);
    }
}

} // verus!

