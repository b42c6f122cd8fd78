//! The textual forms of the machine's values: trimming, literal
//! parsing and canonical rendering, all over plain bytes.

use vstd::prelude::*;

verus! {

/// Whether the byte is ASCII whitespace: space, tab, line feed,
/// form feed or carriage return.
pub open spec fn is_ascii_ws(c: u8) -> bool {
    c == 32 || c == 9 || c == 10 || c == 12 || c == 13
}

/// Whether the byte is a decimal digit.
pub open spec fn is_digit(c: u8) -> bool {
    48 <= c && c <= 57
}

/// Whether the text is all decimal digits.
pub open spec fn all_digits(s: Seq<u8>) -> bool {
    forall|i: int| 0 <= i < s.len() ==> is_digit(s[i])
}

/// The text with its leading ASCII whitespace removed.
pub open spec fn trim_front(s: Seq<u8>) -> Seq<u8>
    decreases s.len(),
{
    if s.len() > 0 && is_ascii_ws(s[0]) {
        trim_front(s.skip(1))
    } else {
        s
    }
}

/// The text with its trailing ASCII whitespace removed.
pub open spec fn trim_back(s: Seq<u8>) -> Seq<u8>
    decreases s.len(),
{
    if s.len() > 0 && is_ascii_ws(s.last()) {
        trim_back(s.drop_last())
    } else {
        s
    }
}

/// The text with ASCII whitespace removed from both ends.
pub open spec fn trim(s: Seq<u8>) -> Seq<u8> {
    trim_back(trim_front(s))
}

proof fn lemma_trim_front_subrange(s: Seq<u8>, lo: int)
    requires
        0 <= lo <= s.len(),
        forall|i: int| 0 <= i < lo ==> is_ascii_ws(s[i]),
        lo < s.len() ==> !is_ascii_ws(s[lo]),
    ensures
        trim_front(s) == s.subrange(lo, s.len() as int),
    decreases lo,
{
    if lo == 0 {
        assert(s.subrange(0, s.len() as int) =~= s);
    } else {
        let t = s.skip(1);
        assert(trim_front(s) == trim_front(t));
        assert(forall|i: int| 0 <= i < lo - 1 ==> is_ascii_ws(t[i]));
        lemma_trim_front_subrange(t, lo - 1);
        assert(t.subrange(lo - 1, t.len() as int) =~= s.subrange(lo, s.len() as int));
    }
}

proof fn lemma_trim_back_subrange(s: Seq<u8>, hi: int)
    requires
        0 <= hi <= s.len(),
        forall|i: int| hi <= i < s.len() ==> is_ascii_ws(s[i]),
        hi > 0 ==> !is_ascii_ws(s[hi - 1]),
    ensures
        trim_back(s) == s.subrange(0, hi),
    decreases s.len() - hi,
{
    if hi == s.len() {
        assert(s.subrange(0, s.len() as int) =~= s);
    } else {
        let t = s.drop_last();
        assert(trim_back(s) == trim_back(t));
        lemma_trim_back_subrange(t, hi);
        assert(t.subrange(0, hi) =~= s.subrange(0, hi));
    }
}

/// Whether the byte is ASCII whitespace.
fn is_ws(c: u8) -> (b: bool)
    ensures
        b == is_ascii_ws(c),
{
    c == 32 || c == 9 || c == 10 || c == 12 || c == 13
}

/// The trimmed copy of the text.
pub fn trim_bytes(s: &[u8]) -> (t: Vec<u8>)
    ensures
        t@ == trim(s@),
{
    let mut lo: usize = 0;
    while lo < s.len() && is_ws(s[lo])
        invariant
            0 <= lo <= s.len(),
            forall|i: int| 0 <= i < lo ==> is_ascii_ws(s@[i]),
        decreases s.len() - lo,
    {
        lo += 1;
    }
    proof {
        lemma_trim_front_subrange(s@, lo as int);
    }
    let ghost rest = s@.subrange(lo as int, s@.len() as int);
    let mut hi: usize = s.len();
    while hi > lo && is_ws(s[hi - 1])
        invariant
            lo <= hi <= s.len(),
            forall|i: int| hi <= i < s.len() ==> is_ascii_ws(s@[i]),
        decreases hi,
    {
        hi -= 1;
    }
    proof {
        assert(forall|i: int| hi - lo <= i < rest.len() ==> is_ascii_ws(rest[i]));
        lemma_trim_back_subrange(rest, hi - lo);
        assert(rest.subrange(0, hi - lo) =~= s@.subrange(lo as int, hi as int));
    }
    let mut t: Vec<u8> = Vec::new();
    let mut i: usize = lo;
    while i < hi
        invariant
            lo <= i <= hi <= s.len(),
            t@ == s@.subrange(lo as int, i as int),
        decreases hi - i,
    {
        t.push(s[i]);
        proof {
            assert(s@.subrange(lo as int, i + 1) =~= s@.subrange(lo as int, i as int).push(
                s@[i as int],
            ));
        }
        i += 1;
    }
    t
}

/// The value of a digit string, read in base ten.
pub open spec fn digits_val(s: Seq<u8>) -> int
    decreases s.len(),
{
    if s.len() == 0 {
        0
    } else {
        digits_val(s.drop_last()) * 10 + (s.last() - 48)
    }
}

proof fn lemma_digits_val_bounds(s: Seq<u8>)
    requires
        all_digits(s),
    ensures
        digits_val(s) >= 0,
        s.len() > 0 ==> digits_val(s) >= digits_val(s.drop_last()),
    decreases s.len(),
{
    if s.len() > 0 {
        assert(all_digits(s.drop_last()));
        lemma_digits_val_bounds(s.drop_last());
    }
}

/// Each digit string is worth at least any of its prefixes.
proof fn lemma_digits_val_monotone(s: Seq<u8>, k: int)
    requires
        all_digits(s),
        0 <= k <= s.len(),
    ensures
        digits_val(s) >= digits_val(s.take(k)),
        digits_val(s) >= 0,
    decreases s.len() - k,
{
    lemma_digits_val_bounds(s);
    if k == s.len() {
        assert(s.take(k) =~= s);
    } else {
        lemma_digits_val_monotone(s, k + 1);
        let t = s.take(k + 1);
        assert(all_digits(t));
        lemma_digits_val_bounds(t);
        assert(t.drop_last() =~= s.take(k));
    }
}

/// The signed decimal integer a token denotes: an optional sign, then
/// one or more digits, worth a value that fits a 64-bit signed
/// integer; anything else is nothing.
pub open spec fn int_literal(s: Seq<u8>) -> Option<i64> {
    let neg = s.len() > 0 && s[0] == 45;
    let t = if s.len() > 0 && (s[0] == 45 || s[0] == 43) {
        s.skip(1)
    } else {
        s
    };
    if t.len() == 0 || !all_digits(t) {
        None
    } else {
        let v = if neg {
            -digits_val(t)
        } else {
            digits_val(t)
        };
        if i64::MIN <= v <= i64::MAX {
            Some(v as i64)
        } else {
            None
        }
    }
}

/// Parse a signed decimal integer literal.
#[verifier::loop_isolation(false)]
pub fn parse_int_literal(s: &[u8]) -> (r: Option<i64>)
    ensures
        r == int_literal(s@),
{
    let mut neg = false;
    let mut start: usize = 0;
    if s.len() > 0 && (s[0] == 45 || s[0] == 43) {
        neg = s[0] == 45;
        start = 1;
    }
    let ghost t = s@.skip(start as int);
    proof {
        if start == 0 {
            assert(t =~= s@);
        }
    }
    if s.len() == start {
        return None;
    }
    // The magnitude is accumulated downward, so that the most negative
    // integer is reachable for a negative literal.
    let mut acc: i64 = 0;
    let mut i: usize = start;
    while i < s.len()
        invariant
            start <= i <= s.len(),
            t == s@.skip(start as int),
            all_digits(t.take(i - start)),
            acc == -digits_val(t.take(i - start)),
            i64::MIN <= acc <= 0,
        decreases s.len() - i,
    {
        let c = s[i];
        if !(48 <= c && c <= 57) {
            proof {
                assert(t[i - start] == c);
                assert(!all_digits(t));
            }
            return None;
        }
        let ghost pre = t.take(i - start);
        let ghost cur = t.take(i + 1 - start);
        proof {
            assert(cur.drop_last() =~= pre);
            assert(cur.last() == c);
        }
        let step = match acc.checked_mul(10) {
            Some(a) => a.checked_sub((c - 48) as i64),
            None => None,
        };
        match step {
            Some(b) => {
                acc = b;
            },
            None => {
                // The value so far is already below the signed range;
                // further digits only push it further out.
                proof {
                    assert(digits_val(cur) == digits_val(pre) * 10 + (c - 48));
                    assert(digits_val(cur) > i64::MAX as int + 1);
                    if all_digits(t) {
                        lemma_digits_val_monotone(t, i + 1 - start);
                        assert(t.take(i + 1 - start) == cur);
                    }
                }
                return None;
            },
        }
        i += 1;
    }
    proof {
        assert(t.take(s@.len() - start) =~= t);
    }
    if neg {
        Some(acc)
    } else {
        if acc == i64::MIN {
            return None;
        }
        Some(-acc)
    }
}

/// The boolean a token denotes: exactly `true` or `false`.
pub open spec fn bool_literal(s: Seq<u8>) -> Option<bool> {
    if s == seq![116u8, 114u8, 117u8, 101u8] {
        Some(true)
    } else if s == seq![102u8, 97u8, 108u8, 115u8, 101u8] {
        Some(false)
    } else {
        None
    }
}

/// Parse a boolean literal.
pub fn parse_bool_literal(s: &[u8]) -> (r: Option<bool>)
    ensures
        r == bool_literal(s@),
{
    if s.len() == 4 && s[0] == 116 && s[1] == 114 && s[2] == 117 && s[3] == 101 {
        proof {
            assert(s@ =~= seq![116u8, 114u8, 117u8, 101u8]);
        }
        Some(true)
    } else if s.len() == 5 && s[0] == 102 && s[1] == 97 && s[2] == 108 && s[3] == 115 && s[4]
        == 101 {
        proof {
            assert(s@ =~= seq![102u8, 97u8, 108u8, 115u8, 101u8]);
            assert(s@ != seq![116u8, 114u8, 117u8, 101u8]);
        }
        Some(false)
    } else {
        proof {
            if s@.len() == 4 {
                assert(s@ != seq![102u8, 97u8, 108u8, 115u8, 101u8]);
            }
        }
        None
    }
}

/// The decimal digits of a natural number, most significant first.
pub open spec fn dec_digits(n: nat) -> Seq<u8>
    decreases n,
{
    if n < 10 {
        seq![(48 + n) as u8]
    } else {
        dec_digits(n / 10).push((48 + n % 10) as u8)
    }
}

/// The canonical decimal text of a signed integer.
pub open spec fn int_text(i: int) -> Seq<u8> {
    if i < 0 {
        seq![45u8] + dec_digits((-i) as nat)
    } else {
        dec_digits(i as nat)
    }
}

/// Render a signed 64-bit integer in decimal.
pub fn render_int(i: i64) -> (out: Vec<u8>)
    ensures
        out@ == int_text(i as int),
{
    let neg = i < 0;
    let mag0: u64 = if i >= 0 {
        i as u64
    } else if i == i64::MIN {
        0x8000_0000_0000_0000
    } else {
        (-i) as u64
    };
    // The digits below the leading one, least significant first.
    let mut rev: Vec<u8> = Vec::new();
    let mut mag: u64 = mag0;
    let ghost all = dec_digits(mag0 as nat);
    while mag >= 10
        invariant
            all == dec_digits(mag0 as nat),
            all == dec_digits(mag as nat).add(rev@.reverse()),
            rev@.len() < all.len(),
        decreases mag,
    {
        let d: u8 = (mag % 10) as u8 + 48;
        proof {
            assert(dec_digits(mag as nat) == dec_digits((mag as nat) / 10).push(d));
            assert(rev@.push(d).reverse() =~= seq![d] + rev@.reverse());
            assert(dec_digits((mag as nat) / 10).add(seq![d] + rev@.reverse()) =~= dec_digits(
                (mag as nat) / 10,
            ).push(d).add(rev@.reverse()));
            assert((mag as nat) / 10 == (mag / 10) as nat);
        }
        rev.push(d);
        mag = mag / 10;
    }
    let mut out: Vec<u8> = Vec::new();
    if neg {
        out.push(45);
    }
    out.push(48 + (mag as u8));
    proof {
        assert(dec_digits(mag as nat) =~= seq![(48 + mag as nat) as u8]);
        assert(out@ =~= (if neg {
            seq![45u8]
        } else {
            Seq::<u8>::empty()
        }) + dec_digits(mag as nat));
    }
    let ghost head = out@;
    let mut k: usize = rev.len();
    while k > 0
        invariant
            k <= rev@.len(),
            out@ == head + rev@.reverse().take(rev@.len() - k),
        decreases k,
    {
        k -= 1;
        out.push(rev[k]);
        proof {
            assert(rev@.reverse().take(rev@.len() - k) =~= rev@.reverse().take(
                rev@.len() - (k + 1),
            ).push(rev@[k as int]));
        }
    }
    proof {
        assert(rev@.reverse().take(rev@.len() as int) =~= rev@.reverse());
        assert(out@ =~= (if neg {
            seq![45u8]
        } else {
            Seq::<u8>::empty()
        }) + dec_digits(mag as nat) + rev@.reverse());
        assert((if neg {
            seq![45u8]
        } else {
            Seq::<u8>::empty()
        }) + dec_digits(mag as nat) + rev@.reverse() =~= (if neg {
            seq![45u8]
        } else {
            Seq::<u8>::empty()
        }) + (dec_digits(mag as nat) + rev@.reverse()));
        assert(dec_digits(mag as nat) + rev@.reverse() =~= dec_digits(mag as nat).add(
            rev@.reverse(),
        ));
        if neg {
            assert(out@ =~= seq![45u8] + dec_digits(mag0 as nat));
            assert(mag0 == -(i as int));
        } else {
            assert(out@ =~= Seq::<u8>::empty() + dec_digits(mag0 as nat));
            assert(Seq::<u8>::empty() + dec_digits(mag0 as nat) =~= dec_digits(mag0 as nat));
        }
    }
    out
}

/// Whether the byte is a hexadecimal digit.
pub open spec fn is_hex_digit(c: u8) -> bool {
    (48 <= c && c <= 57) || (97 <= c && c <= 102) || (65 <= c && c <= 70)
}

/// The value of a hexadecimal digit.
pub open spec fn hex_val(c: u8) -> u8 {
    if 48 <= c && c <= 57 {
        (c - 48) as u8
    } else if 97 <= c && c <= 102 {
        (c - 87) as u8
    } else {
        (c - 55) as u8
    }
}

/// The character a token denotes, always in exactly three bytes: a
/// byte between two single quotes, or a number sign followed by a
/// two-hex-digit byte value; anything else is malformed.
pub open spec fn char_literal(s: Seq<u8>) -> Option<u8> {
    if s.len() != 3 {
        None
    } else if s[0] == 39 && s[2] == 39 {
        Some(s[1])
    } else if s[0] == 35 && is_hex_digit(s[1]) && is_hex_digit(s[2]) {
        Some((16 * hex_val(s[1]) + hex_val(s[2])) as u8)
    } else {
        None
    }
}

/// Parse a character literal.
pub fn parse_char_literal(s: &[u8]) -> (r: Option<u8>)
    ensures
        r == char_literal(s@),
{
    if s.len() != 3 {
        return None;
    }
    if s[0] == 39 && s[2] == 39 {
        return Some(s[1]);
    }
    if s[0] == 35 {
        let hi = s[1];
        let lo = s[2];
        let hv = if 48 <= hi && hi <= 57 {
            hi - 48
        } else if 97 <= hi && hi <= 102 {
            hi - 87
        } else if 65 <= hi && hi <= 70 {
            hi - 55
        } else {
            return None;
        };
        let lv = if 48 <= lo && lo <= 57 {
            lo - 48
        } else if 97 <= lo && lo <= 102 {
            lo - 87
        } else if 65 <= lo && lo <= 70 {
            lo - 55
        } else {
            return None;
        };
        return Some(16 * hv + lv);
    }
    None
}

} // verus!
