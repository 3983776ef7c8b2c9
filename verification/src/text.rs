//! Verified text rendering for the record data the zones synthesize:
//! decimal numbers, hexadecimal digits, and IPv4/IPv6 addresses.

use vstd::prelude::*;

verus! {

/// The character standing for one digit value, decimal or hexadecimal.
pub open spec fn digit_char(d: nat) -> char {
    if d == 0 {
        '0'
    } else if d == 1 {
        '1'
    } else if d == 2 {
        '2'
    } else if d == 3 {
        '3'
    } else if d == 4 {
        '4'
    } else if d == 5 {
        '5'
    } else if d == 6 {
        '6'
    } else if d == 7 {
        '7'
    } else if d == 8 {
        '8'
    } else if d == 9 {
        '9'
    } else if d == 10 {
        'a'
    } else if d == 11 {
        'b'
    } else if d == 12 {
        'c'
    } else if d == 13 {
        'd'
    } else if d == 14 {
        'e'
    } else {
        'f'
    }
}

/// Decimal text of a number, most significant digit first, no leading zeros.
pub open spec fn dec_chars(n: nat) -> Seq<char>
    decreases n,
{
    if n < 10 {
        seq![digit_char(n)]
    } else {
        dec_chars(n / 10).push(digit_char(n % 10))
    }
}

/// Lowercase hexadecimal text of a number, no leading zeros.
pub open spec fn hex_chars(n: nat) -> Seq<char>
    decreases n,
{
    if n < 16 {
        seq![digit_char(n)]
    } else {
        hex_chars(n / 16).push(digit_char(n % 16))
    }
}

fn digit_str(d: u8) -> (r: &'static str)
    requires
        d < 16,
    ensures
        r@ == seq![digit_char(d as nat)],
{
    proof {
        reveal_strlit("0");
        reveal_strlit("1");
        reveal_strlit("2");
        reveal_strlit("3");
        reveal_strlit("4");
        reveal_strlit("5");
        reveal_strlit("6");
        reveal_strlit("7");
        reveal_strlit("8");
        reveal_strlit("9");
        reveal_strlit("a");
        reveal_strlit("b");
        reveal_strlit("c");
        reveal_strlit("d");
        reveal_strlit("e");
        reveal_strlit("f");
    }
    let r = if d == 0 {
        "0"
    } else if d == 1 {
        "1"
    } else if d == 2 {
        "2"
    } else if d == 3 {
        "3"
    } else if d == 4 {
        "4"
    } else if d == 5 {
        "5"
    } else if d == 6 {
        "6"
    } else if d == 7 {
        "7"
    } else if d == 8 {
        "8"
    } else if d == 9 {
        "9"
    } else if d == 10 {
        "a"
    } else if d == 11 {
        "b"
    } else if d == 12 {
        "c"
    } else if d == 13 {
        "d"
    } else if d == 14 {
        "e"
    } else {
        "f"
    };
    proof {
        assert(r@ =~= seq![digit_char(d as nat)]);
    }
    r
}

/// The decimal text of `n`, as `dec_chars` describes it.
pub fn u64_dec(n: u64) -> (r: String)
    ensures
        r@ == dec_chars(n as nat),
    decreases n,
{
    if n < 10 {
        digit_str(n as u8).to_owned()
    } else {
        let mut s = u64_dec(n / 10);
        s.append(digit_str((n % 10) as u8));
        proof {
            assert(s@ =~= dec_chars(n as nat));
        }
        s
    }
}

/// The lowercase hexadecimal text of `n`, as `hex_chars` describes it.
pub fn u16_hex(n: u16) -> (r: String)
    ensures
        r@ == hex_chars(n as nat),
    decreases n,
{
    if n < 16 {
        digit_str(n as u8).to_owned()
    } else {
        let mut s = u16_hex(n / 16);
        s.append(digit_str((n % 16) as u8));
        proof {
            assert(s@ =~= hex_chars(n as nat));
        }
        s
    }
}

/// Dotted-quad text of four address octets.
pub open spec fn ipv4_chars(b: Seq<u8>) -> Seq<char>
    recommends
        b.len() == 4,
{
    dec_chars(b[0] as nat) + "."@ + dec_chars(b[1] as nat) + "."@ + dec_chars(b[2] as nat) + "."@
        + dec_chars(b[3] as nat)
}

/// Renders four address octets as dotted-quad text.
pub fn ipv4_text(b: &Vec<u8>) -> (r: String)
    requires
        b@.len() == 4,
    ensures
        r@ == ipv4_chars(b@),
{
    let mut s = u64_dec(b[0] as u64);
    s.append(".");
    s.append(u64_dec(b[1] as u64).as_str());
    s.append(".");
    s.append(u64_dec(b[2] as u64).as_str());
    s.append(".");
    s.append(u64_dec(b[3] as u64).as_str());
    s
}

/// The sixteen-bit group starting at byte `2 * i` of an IPv6 address,
/// big-endian.
pub open spec fn ipv6_group(b: Seq<u8>, i: int) -> nat
    recommends
        b.len() == 16,
        0 <= i < 8,
{
    (b[2 * i] as nat) * 256 + (b[2 * i + 1] as nat)
}

/// Text of the groups `lo` to `k` (exclusive) of an IPv6 address,
/// colon-separated, each group in lowercase hexadecimal without leading
/// zeros; empty when the range is empty.
pub open spec fn ipv6_join(b: Seq<u8>, lo: int, k: int) -> Seq<char>
    recommends
        b.len() == 16,
        0 <= lo <= k <= 8,
    decreases k - lo,
{
    if k <= lo {
        Seq::empty()
    } else if k == lo + 1 {
        hex_chars(ipv6_group(b, lo))
    } else {
        ipv6_join(b, lo, k - 1) + ":"@ + hex_chars(ipv6_group(b, k - 1))
    }
}

/// Number of consecutive zero groups starting at group `i`.
pub open spec fn zero_run_len(b: Seq<u8>, i: int) -> int
    recommends
        b.len() == 16,
    decreases 8 - i,
{
    if i >= 8 {
        0
    } else if ipv6_group(b, i) != 0 {
        0
    } else {
        1 + zero_run_len(b, i + 1)
    }
}

/// Start of the leftmost longest zero run at or after group `i`
/// (8 when every group from `i` on is non-zero).
pub open spec fn best_zero_run(b: Seq<u8>, i: int) -> int
    recommends
        b.len() == 16,
    decreases 8 - i,
{
    if i >= 8 {
        8
    } else {
        let rest = best_zero_run(b, i + 1);
        if zero_run_len(b, i) >= zero_run_len(b, rest) {
            i
        } else {
            rest
        }
    }
}

/// Canonical text of a sixteen-byte IPv6 address: the longest run of
/// two or more zero groups (the leftmost on a tie) collapses to `::`,
/// the remaining groups are colon-separated lowercase hexadecimal
/// without leading zeros.
pub open spec fn ipv6_chars(b: Seq<u8>) -> Seq<char>
    recommends
        b.len() == 16,
{
    let s = best_zero_run(b, 0);
    let l = zero_run_len(b, s);
    if l <= 1 {
        ipv6_join(b, 0, 8)
    } else {
        ipv6_join(b, 0, s) + "::"@ + ipv6_join(b, s + l, 8)
    }
}

/// The group at index `i`, as a machine integer.
fn ipv6_group_at(b: &Vec<u8>, i: usize) -> (g: u16)
    requires
        b@.len() == 16,
        i < 8,
    ensures
        g as nat == ipv6_group(b@, i as int),
{
    (b[2 * i] as u16) * 256 + (b[2 * i + 1] as u16)
}

/// The number of consecutive zero groups starting at group `i`, as
/// `zero_run_len` describes.
fn zero_run_len_at(b: &Vec<u8>, i: usize) -> (r: usize)
    requires
        b@.len() == 16,
        i <= 8,
    ensures
        r == zero_run_len(b@, i as int),
        r <= 8 - i,
    decreases 8 - i,
{
    if i >= 8 {
        0
    } else if ipv6_group_at(b, i) != 0 {
        0
    } else {
        1 + zero_run_len_at(b, i + 1)
    }
}

/// Renders sixteen address bytes in the canonical IPv6 textual form, as
/// `ipv6_chars` describes.
pub fn ipv6_text(b: &Vec<u8>) -> (r: String)
    requires
        b@.len() == 16,
    ensures
        r@ == ipv6_chars(b@),
{
    let mut best: usize = 8;
    let mut i: usize = 8;
    while i > 0
        invariant
            b@.len() == 16,
            0 <= i <= 8,
            best <= 8,
            best == best_zero_run(b@, i as int),
        decreases i,
    {
        i = i - 1;
        if zero_run_len_at(b, i) >= zero_run_len_at(b, best) {
            best = i;
        }
    }
    let run = zero_run_len_at(b, best);
    let mut s = String::new();
    if run <= 1 {
        let mut k: usize = 0;
        while k < 8
            invariant
                b@.len() == 16,
                0 <= k <= 8,
                s@ == ipv6_join(b@, 0, k as int),
            decreases 8 - k,
        {
            if k > 0 {
                s.append(":");
            }
            s.append(u16_hex(ipv6_group_at(b, k)).as_str());
            k = k + 1;
        }
    } else {
        let mut k: usize = 0;
        while k < best
            invariant
                b@.len() == 16,
                best <= 8,
                0 <= k <= best,
                s@ == ipv6_join(b@, 0, k as int),
            decreases best - k,
        {
            if k > 0 {
                s.append(":");
            }
            s.append(u16_hex(ipv6_group_at(b, k)).as_str());
            k = k + 1;
        }
        s.append("::");
        let tail = best + run;
        let ghost pre = ipv6_join(b@, 0, best as int) + "::"@;
        proof {
            assert(s@ == pre + ipv6_join(b@, tail as int, tail as int));
        }
        let mut k: usize = tail;
        while k < 8
            invariant
                b@.len() == 16,
                tail <= 8,
                tail <= k <= 8,
                pre == ipv6_join(b@, 0, best as int) + "::"@,
                s@ == pre + ipv6_join(b@, tail as int, k as int),
            decreases 8 - k,
        {
            if k > tail {
                s.append(":");
            }
            s.append(u16_hex(ipv6_group_at(b, k)).as_str());
            k = k + 1;
        }
    }
    s
}

} // verus!
