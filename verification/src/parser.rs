//! The two-pass parser: program text in, the resolved instruction
//! sequence out.
//!
//! The first pass walks every physical line and maps each label name
//! to the index of the next instruction; the second decodes the
//! instruction lines, resolving label operands through that table.
//! Parsing is all-or-nothing: the first defect aborts it with the
//! zero-based index of the offending line.

use vstd::prelude::*;
use crate::structures::Error;
use crate::structures::Instruction;
use crate::structures::Register;
use crate::structures::Type;
use crate::text::is_ascii_ws;
use crate::text::trim;
use crate::text::trim_bytes;

verus! {

/// The length of the whitespace-free run at the head of the text.
pub open spec fn token_end(s: Seq<u8>) -> nat
    decreases s.len(),
{
    if s.len() == 0 || is_ascii_ws(s[0]) {
        0
    } else {
        (1 + token_end(s.skip(1))) as nat
    }
}

proof fn lemma_token_end_le(s: Seq<u8>)
    ensures
        token_end(s) <= s.len(),
    decreases s.len(),
{
    if s.len() > 0 && !is_ascii_ws(s[0]) {
        lemma_token_end_le(s.skip(1));
    }
}

/// The maximal whitespace-free runs of the text, in order: how an
/// instruction line falls apart into words.
pub open spec fn tokens(s: Seq<u8>) -> Seq<Seq<u8>>
    decreases s.len(),
    via tokens_decreases
{
    if s.len() == 0 {
        Seq::empty()
    } else if is_ascii_ws(s[0]) {
        tokens(s.skip(1))
    } else {
        let k = token_end(s) as int;
        seq![s.take(k)] + tokens(s.skip(k))
    }
}

#[via_fn]
proof fn tokens_decreases(s: Seq<u8>) {
    lemma_token_end_le(s);
}

/// The head run of the text ends exactly where whitespace or the end
/// of the text first appears.
proof fn lemma_token_end_value(s: Seq<u8>, k: int)
    requires
        0 <= k <= s.len(),
        forall|i: int| 0 <= i < k ==> !is_ascii_ws(s[i]),
        k < s.len() ==> is_ascii_ws(s[k]),
    ensures
        token_end(s) == k,
    decreases k,
{
    if k == 0 {
    } else {
        let t = s.skip(1);
        assert(forall|i: int| 0 <= i < k - 1 ==> !is_ascii_ws(t[i]));
        lemma_token_end_value(t, k - 1);
    }
}

/// Split the text into its whitespace-separated tokens.
#[verifier::loop_isolation(false)]
pub fn tokenize(s: &[u8]) -> (toks: Vec<Vec<u8>>)
    ensures
        toks@.len() == tokens(s@).len(),
        forall|i: int| 0 <= i < toks@.len() ==> toks@[i]@ == tokens(s@)[i],
{
    let mut toks: Vec<Vec<u8>> = Vec::new();
    let mut i: usize = 0;
    proof {
        assert(s@.skip(0) =~= s@);
        assert(toks@.map_values(|t: Vec<u8>| t@) + tokens(s@) =~= tokens(s@));
    }
    while i < s.len()
        invariant
            0 <= i <= s.len(),
            tokens(s@) == toks@.map_values(|t: Vec<u8>| t@) + tokens(s@.skip(i as int)),
        decreases s.len() - i,
    {
        let c = s[i];
        if c == 32 || c == 9 || c == 10 || c == 12 || c == 13 {
            proof {
                assert(s@.skip(i as int).skip(1) =~= s@.skip(i + 1));
            }
            i += 1;
        } else {
            let start = i;
            let mut tok: Vec<u8> = Vec::new();
            while i < s.len() && !is_tok_ws(s[i])
                invariant
                    start <= i <= s.len(),
                    forall|j: int| start <= j < i ==> !is_ascii_ws(s@[j]),
                    tok@ == s@.subrange(start as int, i as int),
                decreases s.len() - i,
            {
                tok.push(s[i]);
                proof {
                    assert(s@.subrange(start as int, i + 1) =~= s@.subrange(
                        start as int,
                        i as int,
                    ).push(s@[i as int]));
                }
                i += 1;
            }
            proof {
                let rest = s@.skip(start as int);
                assert(forall|j: int|
                    0 <= j < i - start ==> rest[j] == s@[start + j] && !is_ascii_ws(rest[j]));
                lemma_token_end_value(rest, i - start);
                assert(rest.take(i - start) =~= s@.subrange(start as int, i as int));
                assert(rest.skip(i - start) =~= s@.skip(i as int));
                assert(tokens(rest) == seq![tok@] + tokens(s@.skip(i as int)));
                assert((toks@.push(tok)).map_values(|t: Vec<u8>| t@) =~= toks@.map_values(
                    |t: Vec<u8>| t@,
                ).push(tok@));
                assert(toks@.map_values(|t: Vec<u8>| t@).push(tok@) + tokens(s@.skip(i as int))
                    =~= toks@.map_values(|t: Vec<u8>| t@) + (seq![tok@] + tokens(
                    s@.skip(i as int),
                )));
            }
            toks.push(tok);
        }
    }
    proof {
        assert(s@.skip(i as int) =~= Seq::<u8>::empty());
        assert(tokens(Seq::<u8>::empty()) =~= Seq::<Seq<u8>>::empty());
        assert(tokens(s@) =~= toks@.map_values(|t: Vec<u8>| t@));
        assert(forall|k: int|
            0 <= k < toks@.len() ==> toks@.map_values(|t: Vec<u8>| t@)[k] == toks@[k]@);
    }
    toks
}

/// Whether the byte is ASCII whitespace.
fn is_tok_ws(c: u8) -> (b: bool)
    ensures
        b == is_ascii_ws(c),
{
    c == 32 || c == 9 || c == 10 || c == 12 || c == 13
}

/// The length of the text up to the first line feed, or all of it.
pub open spec fn line_end(s: Seq<u8>) -> nat
    decreases s.len(),
{
    if s.len() == 0 || s[0] == 10 {
        0
    } else {
        (1 + line_end(s.skip(1))) as nat
    }
}

proof fn lemma_line_end_le(s: Seq<u8>)
    ensures
        line_end(s) <= s.len(),
    decreases s.len(),
{
    if s.len() > 0 && s[0] != 10 {
        lemma_line_end_le(s.skip(1));
    }
}

/// A line without its trailing carriage return, if it carries one.
pub open spec fn strip_cr(s: Seq<u8>) -> Seq<u8> {
    if s.len() > 0 && s.last() == 13 {
        s.drop_last()
    } else {
        s
    }
}

/// The physical lines of the text: split at each line feed, each line
/// given without the line feed and without a trailing carriage
/// return; a final line feed ends the last line rather than opening
/// an empty one.
pub open spec fn lines(s: Seq<u8>) -> Seq<Seq<u8>>
    decreases s.len(),
    via lines_decreases
{
    if s.len() == 0 {
        Seq::empty()
    } else {
        let k = line_end(s) as int;
        let rest = if k == s.len() {
            Seq::empty()
        } else {
            lines(s.skip(k + 1))
        };
        seq![strip_cr(s.take(k))] + rest
    }
}

#[via_fn]
proof fn lines_decreases(s: Seq<u8>) {
    lemma_line_end_le(s);
}

/// The head line ends exactly at the first line feed, or at the end
/// of the text.
proof fn lemma_line_end_value(s: Seq<u8>, k: int)
    requires
        0 <= k <= s.len(),
        forall|i: int| 0 <= i < k ==> s[i] != 10,
        k < s.len() ==> s[k] == 10,
    ensures
        line_end(s) == k,
    decreases k,
{
    if k == 0 {
    } else {
        let t = s.skip(1);
        assert(forall|i: int| 0 <= i < k - 1 ==> t[i] != 10);
        lemma_line_end_value(t, k - 1);
    }
}

/// Split the text into its physical lines.
#[verifier::loop_isolation(false)]
pub fn split_lines(s: &[u8]) -> (ls: Vec<Vec<u8>>)
    ensures
        ls@.len() == lines(s@).len(),
        forall|i: int| 0 <= i < ls@.len() ==> ls@[i]@ == lines(s@)[i],
{
    let mut ls: Vec<Vec<u8>> = Vec::new();
    let mut i: usize = 0;
    proof {
        assert(s@.skip(0) =~= s@);
        assert(ls@.map_values(|t: Vec<u8>| t@) + lines(s@) =~= lines(s@));
    }
    while i < s.len()
        invariant
            0 <= i <= s.len(),
            lines(s@) == ls@.map_values(|t: Vec<u8>| t@) + lines(s@.skip(i as int)),
        decreases s.len() - i,
    {
        let start = i;
        let mut line: Vec<u8> = Vec::new();
        while i < s.len() && s[i] != 10
            invariant
                start <= i <= s.len(),
                forall|j: int| start <= j < i ==> s@[j] != 10,
                line@ == s@.subrange(start as int, i as int),
            decreases s.len() - i,
        {
            line.push(s[i]);
            proof {
                assert(s@.subrange(start as int, i + 1) =~= s@.subrange(start as int, i as int)
                    .push(s@[i as int]));
            }
            i += 1;
        }
        if line.len() > 0 && line[line.len() - 1] == 13 {
            line.pop();
        }
        proof {
            let rest = s@.skip(start as int);
            assert(forall|j: int| 0 <= j < i - start ==> rest[j] == s@[start + j] && rest[j] != 10);
            lemma_line_end_value(rest, i - start);
            assert(rest.take(i - start) =~= s@.subrange(start as int, i as int));
            let raw = s@.subrange(start as int, i as int);
            if raw.len() > 0 && raw.last() == 13 {
                assert(raw.drop_last() =~= s@.subrange(start as int, i - 1));
                assert(line@ == strip_cr(raw));
            } else {
                assert(line@ == strip_cr(raw));
            }
            if i < s.len() {
                assert(rest.skip(i - start + 1) =~= s@.skip(i + 1));
                assert(lines(rest) == seq![strip_cr(raw)] + lines(s@.skip(i + 1)));
            } else {
                assert(lines(rest) == seq![strip_cr(raw)] + Seq::<Seq<u8>>::empty());
            }
            assert((ls@.push(line)).map_values(|t: Vec<u8>| t@) =~= ls@.map_values(
                |t: Vec<u8>| t@,
            ).push(line@));
        }
        if i < s.len() {
            // Step over the line feed itself.
            proof {
                assert(ls@.map_values(|t: Vec<u8>| t@).push(line@) + lines(s@.skip(i + 1))
                    =~= ls@.map_values(|t: Vec<u8>| t@) + (seq![line@] + lines(s@.skip(i + 1))));
            }
            ls.push(line);
            i += 1;
        } else {
            proof {
                assert(ls@.map_values(|t: Vec<u8>| t@).push(line@) + Seq::<Seq<u8>>::empty()
                    =~= ls@.map_values(|t: Vec<u8>| t@) + (seq![line@] + Seq::<Seq<u8>>::empty()));
                assert(lines(s@.skip(i as int)) =~= Seq::<Seq<u8>>::empty());
            }
            ls.push(line);
        }
    }
    proof {
        assert(lines(s@.skip(i as int)) =~= Seq::<Seq<u8>>::empty());
        assert(lines(s@) =~= ls@.map_values(|t: Vec<u8>| t@));
        assert(forall|k: int|
            0 <= k < ls@.len() ==> ls@.map_values(|t: Vec<u8>| t@)[k] == ls@[k]@);
    }
    ls
}

// ---- the mnemonics, as byte sequences ----

/// The bytes of `push`.
pub open spec fn mn_push() -> Seq<u8> {
    seq![112u8, 117u8, 115u8, 104u8]
}

/// The bytes of `pop`.
pub open spec fn mn_pop() -> Seq<u8> {
    seq![112u8, 111u8, 112u8]
}

/// The bytes of `copy`.
pub open spec fn mn_copy() -> Seq<u8> {
    seq![99u8, 111u8, 112u8, 121u8]
}

/// The bytes of `swap`.
pub open spec fn mn_swap() -> Seq<u8> {
    seq![115u8, 119u8, 97u8, 112u8]
}

/// The bytes of `length`.
pub open spec fn mn_length() -> Seq<u8> {
    seq![108u8, 101u8, 110u8, 103u8, 116u8, 104u8]
}

/// The bytes of `branch`.
pub open spec fn mn_branch() -> Seq<u8> {
    seq![98u8, 114u8, 97u8, 110u8, 99u8, 104u8]
}

/// The bytes of `goto`.
pub open spec fn mn_goto() -> Seq<u8> {
    seq![103u8, 111u8, 116u8, 111u8]
}

/// The bytes of `call`.
pub open spec fn mn_call() -> Seq<u8> {
    seq![99u8, 97u8, 108u8, 108u8]
}

/// The bytes of `return`.
pub open spec fn mn_return() -> Seq<u8> {
    seq![114u8, 101u8, 116u8, 117u8, 114u8, 110u8]
}

/// The bytes of `compare`.
pub open spec fn mn_compare() -> Seq<u8> {
    seq![99u8, 111u8, 109u8, 112u8, 97u8, 114u8, 101u8]
}

/// The bytes of `add`.
pub open spec fn mn_add() -> Seq<u8> {
    seq![97u8, 100u8, 100u8]
}

/// The bytes of `subtract`.
pub open spec fn mn_subtract() -> Seq<u8> {
    seq![115u8, 117u8, 98u8, 116u8, 114u8, 97u8, 99u8, 116u8]
}

/// The bytes of `multiply`.
pub open spec fn mn_multiply() -> Seq<u8> {
    seq![109u8, 117u8, 108u8, 116u8, 105u8, 112u8, 108u8, 121u8]
}

/// The bytes of `divide`.
pub open spec fn mn_divide() -> Seq<u8> {
    seq![100u8, 105u8, 118u8, 105u8, 100u8, 101u8]
}

/// The bytes of `modulo`.
pub open spec fn mn_modulo() -> Seq<u8> {
    seq![109u8, 111u8, 100u8, 117u8, 108u8, 111u8]
}

/// The bytes of `negate`.
pub open spec fn mn_negate() -> Seq<u8> {
    seq![110u8, 101u8, 103u8, 97u8, 116u8, 101u8]
}

/// The bytes of `and`.
pub open spec fn mn_and() -> Seq<u8> {
    seq![97u8, 110u8, 100u8]
}

/// The bytes of `or`.
pub open spec fn mn_or() -> Seq<u8> {
    seq![111u8, 114u8]
}

/// The bytes of `xor`.
pub open spec fn mn_xor() -> Seq<u8> {
    seq![120u8, 111u8, 114u8]
}

/// The bytes of `not`.
pub open spec fn mn_not() -> Seq<u8> {
    seq![110u8, 111u8, 116u8]
}

/// The bytes of `shift`.
pub open spec fn mn_shift() -> Seq<u8> {
    seq![115u8, 104u8, 105u8, 102u8, 116u8]
}

/// The bytes of `rotate`.
pub open spec fn mn_rotate() -> Seq<u8> {
    seq![114u8, 111u8, 116u8, 97u8, 116u8, 101u8]
}

/// The bytes of `cast`.
pub open spec fn mn_cast() -> Seq<u8> {
    seq![99u8, 97u8, 115u8, 116u8]
}

/// The bytes of `reinterpret`.
pub open spec fn mn_reinterpret() -> Seq<u8> {
    seq![114u8, 101u8, 105u8, 110u8, 116u8, 101u8, 114u8, 112u8, 114u8, 101u8, 116u8]
}

/// The bytes of `input`.
pub open spec fn mn_input() -> Seq<u8> {
    seq![105u8, 110u8, 112u8, 117u8, 116u8]
}

/// The bytes of `read`.
pub open spec fn mn_read() -> Seq<u8> {
    seq![114u8, 101u8, 97u8, 100u8]
}

/// The bytes of `output`.
pub open spec fn mn_output() -> Seq<u8> {
    seq![111u8, 117u8, 116u8, 112u8, 117u8, 116u8]
}

/// The bytes of `write`.
pub open spec fn mn_write() -> Seq<u8> {
    seq![119u8, 114u8, 105u8, 116u8, 101u8]
}

/// The bytes of `random`.
pub open spec fn mn_random() -> Seq<u8> {
    seq![114u8, 97u8, 110u8, 100u8, 111u8, 109u8]
}

/// The bytes of `break`.
pub open spec fn mn_break() -> Seq<u8> {
    seq![98u8, 114u8, 101u8, 97u8, 107u8]
}

/// The bytes of `drop`.
pub open spec fn mn_drop() -> Seq<u8> {
    seq![100u8, 114u8, 111u8, 112u8]
}

/// The bytes of `jump`.
pub open spec fn mn_jump() -> Seq<u8> {
    seq![106u8, 117u8, 109u8, 112u8]
}

/// The bytes of `register`.
pub open spec fn mn_register() -> Seq<u8> {
    seq![114u8, 101u8, 103u8, 105u8, 115u8, 116u8, 101u8, 114u8]
}

/// The bytes of `integer`.
pub open spec fn mn_integer() -> Seq<u8> {
    seq![105u8, 110u8, 116u8, 101u8, 103u8, 101u8, 114u8]
}

/// The bytes of `float`.
pub open spec fn mn_float() -> Seq<u8> {
    seq![102u8, 108u8, 111u8, 97u8, 116u8]
}

/// The bytes of `boolean`.
pub open spec fn mn_boolean() -> Seq<u8> {
    seq![98u8, 111u8, 111u8, 108u8, 101u8, 97u8, 110u8]
}

/// The bytes of `character`.
pub open spec fn mn_character() -> Seq<u8> {
    seq![99u8, 104u8, 97u8, 114u8, 97u8, 99u8, 116u8, 101u8, 114u8]
}

/// The bytes of `equal`.
pub open spec fn mn_equal() -> Seq<u8> {
    seq![101u8, 113u8, 117u8, 97u8, 108u8]
}

/// The bytes of `unequal`.
pub open spec fn mn_unequal() -> Seq<u8> {
    seq![117u8, 110u8, 101u8, 113u8, 117u8, 97u8, 108u8]
}

/// The bytes of `less`.
pub open spec fn mn_less() -> Seq<u8> {
    seq![108u8, 101u8, 115u8, 115u8]
}

/// The bytes of `greater`.
pub open spec fn mn_greater() -> Seq<u8> {
    seq![103u8, 114u8, 101u8, 97u8, 116u8, 101u8, 114u8]
}

/// Whether the token is `push`.
fn tok_is_push(t: &[u8]) -> (r: bool)
    ensures
        r == (t@ == mn_push()),
{
    let r = t.len() == 4 && t[0] == 112 && t[1] == 117 && t[2] == 115 && t[3] == 104;
    proof {
        if r {
            assert(t@ =~= mn_push());
        }
    }
    r
}

/// Whether the token is `pop`.
fn tok_is_pop(t: &[u8]) -> (r: bool)
    ensures
        r == (t@ == mn_pop()),
{
    let r = t.len() == 3 && t[0] == 112 && t[1] == 111 && t[2] == 112;
    proof {
        if r {
            assert(t@ =~= mn_pop());
        }
    }
    r
}

/// Whether the token is `copy`.
fn tok_is_copy(t: &[u8]) -> (r: bool)
    ensures
        r == (t@ == mn_copy()),
{
    let r = t.len() == 4 && t[0] == 99 && t[1] == 111 && t[2] == 112 && t[3] == 121;
    proof {
        if r {
            assert(t@ =~= mn_copy());
        }
    }
    r
}

/// Whether the token is `swap`.
fn tok_is_swap(t: &[u8]) -> (r: bool)
    ensures
        r == (t@ == mn_swap()),
{
    let r = t.len() == 4 && t[0] == 115 && t[1] == 119 && t[2] == 97 && t[3] == 112;
    proof {
        if r {
            assert(t@ =~= mn_swap());
        }
    }
    r
}

/// Whether the token is `length`.
fn tok_is_length(t: &[u8]) -> (r: bool)
    ensures
        r == (t@ == mn_length()),
{
    let r = t.len() == 6 && t[0] == 108 && t[1] == 101 && t[2] == 110 && t[3] == 103 && t[4] == 116 && t[5] == 104;
    proof {
        if r {
            assert(t@ =~= mn_length());
        }
    }
    r
}

/// Whether the token is `branch`.
fn tok_is_branch(t: &[u8]) -> (r: bool)
    ensures
        r == (t@ == mn_branch()),
{
    let r = t.len() == 6 && t[0] == 98 && t[1] == 114 && t[2] == 97 && t[3] == 110 && t[4] == 99 && t[5] == 104;
    proof {
        if r {
            assert(t@ =~= mn_branch());
        }
    }
    r
}

/// Whether the token is `goto`.
fn tok_is_goto(t: &[u8]) -> (r: bool)
    ensures
        r == (t@ == mn_goto()),
{
    let r = t.len() == 4 && t[0] == 103 && t[1] == 111 && t[2] == 116 && t[3] == 111;
    proof {
        if r {
            assert(t@ =~= mn_goto());
        }
    }
    r
}

/// Whether the token is `call`.
fn tok_is_call(t: &[u8]) -> (r: bool)
    ensures
        r == (t@ == mn_call()),
{
    let r = t.len() == 4 && t[0] == 99 && t[1] == 97 && t[2] == 108 && t[3] == 108;
    proof {
        if r {
            assert(t@ =~= mn_call());
        }
    }
    r
}

/// Whether the token is `return`.
fn tok_is_return(t: &[u8]) -> (r: bool)
    ensures
        r == (t@ == mn_return()),
{
    let r = t.len() == 6 && t[0] == 114 && t[1] == 101 && t[2] == 116 && t[3] == 117 && t[4] == 114 && t[5] == 110;
    proof {
        if r {
            assert(t@ =~= mn_return());
        }
    }
    r
}

/// Whether the token is `compare`.
fn tok_is_compare(t: &[u8]) -> (r: bool)
    ensures
        r == (t@ == mn_compare()),
{
    let r = t.len() == 7 && t[0] == 99 && t[1] == 111 && t[2] == 109 && t[3] == 112 && t[4] == 97 && t[5] == 114 && t[6] == 101;
    proof {
        if r {
            assert(t@ =~= mn_compare());
        }
    }
    r
}

/// Whether the token is `add`.
fn tok_is_add(t: &[u8]) -> (r: bool)
    ensures
        r == (t@ == mn_add()),
{
    let r = t.len() == 3 && t[0] == 97 && t[1] == 100 && t[2] == 100;
    proof {
        if r {
            assert(t@ =~= mn_add());
        }
    }
    r
}

/// Whether the token is `subtract`.
fn tok_is_subtract(t: &[u8]) -> (r: bool)
    ensures
        r == (t@ == mn_subtract()),
{
    let r = t.len() == 8 && t[0] == 115 && t[1] == 117 && t[2] == 98 && t[3] == 116 && t[4] == 114 && t[5] == 97 && t[6] == 99 && t[7] == 116;
    proof {
        if r {
            assert(t@ =~= mn_subtract());
        }
    }
    r
}

/// Whether the token is `multiply`.
fn tok_is_multiply(t: &[u8]) -> (r: bool)
    ensures
        r == (t@ == mn_multiply()),
{
    let r = t.len() == 8 && t[0] == 109 && t[1] == 117 && t[2] == 108 && t[3] == 116 && t[4] == 105 && t[5] == 112 && t[6] == 108 && t[7] == 121;
    proof {
        if r {
            assert(t@ =~= mn_multiply());
        }
    }
    r
}

/// Whether the token is `divide`.
fn tok_is_divide(t: &[u8]) -> (r: bool)
    ensures
        r == (t@ == mn_divide()),
{
    let r = t.len() == 6 && t[0] == 100 && t[1] == 105 && t[2] == 118 && t[3] == 105 && t[4] == 100 && t[5] == 101;
    proof {
        if r {
            assert(t@ =~= mn_divide());
        }
    }
    r
}

/// Whether the token is `modulo`.
fn tok_is_modulo(t: &[u8]) -> (r: bool)
    ensures
        r == (t@ == mn_modulo()),
{
    let r = t.len() == 6 && t[0] == 109 && t[1] == 111 && t[2] == 100 && t[3] == 117 && t[4] == 108 && t[5] == 111;
    proof {
        if r {
            assert(t@ =~= mn_modulo());
        }
    }
    r
}

/// Whether the token is `negate`.
fn tok_is_negate(t: &[u8]) -> (r: bool)
    ensures
        r == (t@ == mn_negate()),
{
    let r = t.len() == 6 && t[0] == 110 && t[1] == 101 && t[2] == 103 && t[3] == 97 && t[4] == 116 && t[5] == 101;
    proof {
        if r {
            assert(t@ =~= mn_negate());
        }
    }
    r
}

/// Whether the token is `and`.
fn tok_is_and(t: &[u8]) -> (r: bool)
    ensures
        r == (t@ == mn_and()),
{
    let r = t.len() == 3 && t[0] == 97 && t[1] == 110 && t[2] == 100;
    proof {
        if r {
            assert(t@ =~= mn_and());
        }
    }
    r
}

/// Whether the token is `or`.
fn tok_is_or(t: &[u8]) -> (r: bool)
    ensures
        r == (t@ == mn_or()),
{
    let r = t.len() == 2 && t[0] == 111 && t[1] == 114;
    proof {
        if r {
            assert(t@ =~= mn_or());
        }
    }
    r
}

/// Whether the token is `xor`.
fn tok_is_xor(t: &[u8]) -> (r: bool)
    ensures
        r == (t@ == mn_xor()),
{
    let r = t.len() == 3 && t[0] == 120 && t[1] == 111 && t[2] == 114;
    proof {
        if r {
            assert(t@ =~= mn_xor());
        }
    }
    r
}

/// Whether the token is `not`.
fn tok_is_not(t: &[u8]) -> (r: bool)
    ensures
        r == (t@ == mn_not()),
{
    let r = t.len() == 3 && t[0] == 110 && t[1] == 111 && t[2] == 116;
    proof {
        if r {
            assert(t@ =~= mn_not());
        }
    }
    r
}

/// Whether the token is `shift`.
fn tok_is_shift(t: &[u8]) -> (r: bool)
    ensures
        r == (t@ == mn_shift()),
{
    let r = t.len() == 5 && t[0] == 115 && t[1] == 104 && t[2] == 105 && t[3] == 102 && t[4] == 116;
    proof {
        if r {
            assert(t@ =~= mn_shift());
        }
    }
    r
}

/// Whether the token is `rotate`.
fn tok_is_rotate(t: &[u8]) -> (r: bool)
    ensures
        r == (t@ == mn_rotate()),
{
    let r = t.len() == 6 && t[0] == 114 && t[1] == 111 && t[2] == 116 && t[3] == 97 && t[4] == 116 && t[5] == 101;
    proof {
        if r {
            assert(t@ =~= mn_rotate());
        }
    }
    r
}

/// Whether the token is `cast`.
fn tok_is_cast(t: &[u8]) -> (r: bool)
    ensures
        r == (t@ == mn_cast()),
{
    let r = t.len() == 4 && t[0] == 99 && t[1] == 97 && t[2] == 115 && t[3] == 116;
    proof {
        if r {
            assert(t@ =~= mn_cast());
        }
    }
    r
}

/// Whether the token is `reinterpret`.
fn tok_is_reinterpret(t: &[u8]) -> (r: bool)
    ensures
        r == (t@ == mn_reinterpret()),
{
    let r = t.len() == 11 && t[0] == 114 && t[1] == 101 && t[2] == 105 && t[3] == 110 && t[4] == 116 && t[5] == 101 && t[6] == 114 && t[7] == 112 && t[8] == 114 && t[9] == 101 && t[10] == 116;
    proof {
        if r {
            assert(t@ =~= mn_reinterpret());
        }
    }
    r
}

/// Whether the token is `input`.
fn tok_is_input(t: &[u8]) -> (r: bool)
    ensures
        r == (t@ == mn_input()),
{
    let r = t.len() == 5 && t[0] == 105 && t[1] == 110 && t[2] == 112 && t[3] == 117 && t[4] == 116;
    proof {
        if r {
            assert(t@ =~= mn_input());
        }
    }
    r
}

/// Whether the token is `read`.
fn tok_is_read(t: &[u8]) -> (r: bool)
    ensures
        r == (t@ == mn_read()),
{
    let r = t.len() == 4 && t[0] == 114 && t[1] == 101 && t[2] == 97 && t[3] == 100;
    proof {
        if r {
            assert(t@ =~= mn_read());
        }
    }
    r
}

/// Whether the token is `output`.
fn tok_is_output(t: &[u8]) -> (r: bool)
    ensures
        r == (t@ == mn_output()),
{
    let r = t.len() == 6 && t[0] == 111 && t[1] == 117 && t[2] == 116 && t[3] == 112 && t[4] == 117 && t[5] == 116;
    proof {
        if r {
            assert(t@ =~= mn_output());
        }
    }
    r
}

/// Whether the token is `write`.
fn tok_is_write(t: &[u8]) -> (r: bool)
    ensures
        r == (t@ == mn_write()),
{
    let r = t.len() == 5 && t[0] == 119 && t[1] == 114 && t[2] == 105 && t[3] == 116 && t[4] == 101;
    proof {
        if r {
            assert(t@ =~= mn_write());
        }
    }
    r
}

/// Whether the token is `random`.
fn tok_is_random(t: &[u8]) -> (r: bool)
    ensures
        r == (t@ == mn_random()),
{
    let r = t.len() == 6 && t[0] == 114 && t[1] == 97 && t[2] == 110 && t[3] == 100 && t[4] == 111 && t[5] == 109;
    proof {
        if r {
            assert(t@ =~= mn_random());
        }
    }
    r
}

/// Whether the token is `break`.
fn tok_is_break(t: &[u8]) -> (r: bool)
    ensures
        r == (t@ == mn_break()),
{
    let r = t.len() == 5 && t[0] == 98 && t[1] == 114 && t[2] == 101 && t[3] == 97 && t[4] == 107;
    proof {
        if r {
            assert(t@ =~= mn_break());
        }
    }
    r
}

/// Whether the token is `drop`.
fn tok_is_drop(t: &[u8]) -> (r: bool)
    ensures
        r == (t@ == mn_drop()),
{
    let r = t.len() == 4 && t[0] == 100 && t[1] == 114 && t[2] == 111 && t[3] == 112;
    proof {
        if r {
            assert(t@ =~= mn_drop());
        }
    }
    r
}

/// Whether the token is `jump`.
fn tok_is_jump(t: &[u8]) -> (r: bool)
    ensures
        r == (t@ == mn_jump()),
{
    let r = t.len() == 4 && t[0] == 106 && t[1] == 117 && t[2] == 109 && t[3] == 112;
    proof {
        if r {
            assert(t@ =~= mn_jump());
        }
    }
    r
}

/// Whether the token is `register`.
fn tok_is_register(t: &[u8]) -> (r: bool)
    ensures
        r == (t@ == mn_register()),
{
    let r = t.len() == 8 && t[0] == 114 && t[1] == 101 && t[2] == 103 && t[3] == 105 && t[4] == 115 && t[5] == 116 && t[6] == 101 && t[7] == 114;
    proof {
        if r {
            assert(t@ =~= mn_register());
        }
    }
    r
}

/// Whether the token is `integer`.
fn tok_is_integer(t: &[u8]) -> (r: bool)
    ensures
        r == (t@ == mn_integer()),
{
    let r = t.len() == 7 && t[0] == 105 && t[1] == 110 && t[2] == 116 && t[3] == 101 && t[4] == 103 && t[5] == 101 && t[6] == 114;
    proof {
        if r {
            assert(t@ =~= mn_integer());
        }
    }
    r
}

/// Whether the token is `float`.
fn tok_is_float(t: &[u8]) -> (r: bool)
    ensures
        r == (t@ == mn_float()),
{
    let r = t.len() == 5 && t[0] == 102 && t[1] == 108 && t[2] == 111 && t[3] == 97 && t[4] == 116;
    proof {
        if r {
            assert(t@ =~= mn_float());
        }
    }
    r
}

/// Whether the token is `boolean`.
fn tok_is_boolean(t: &[u8]) -> (r: bool)
    ensures
        r == (t@ == mn_boolean()),
{
    let r = t.len() == 7 && t[0] == 98 && t[1] == 111 && t[2] == 111 && t[3] == 108 && t[4] == 101 && t[5] == 97 && t[6] == 110;
    proof {
        if r {
            assert(t@ =~= mn_boolean());
        }
    }
    r
}

/// Whether the token is `character`.
fn tok_is_character(t: &[u8]) -> (r: bool)
    ensures
        r == (t@ == mn_character()),
{
    let r = t.len() == 9 && t[0] == 99 && t[1] == 104 && t[2] == 97 && t[3] == 114 && t[4] == 97 && t[5] == 99 && t[6] == 116 && t[7] == 101 && t[8] == 114;
    proof {
        if r {
            assert(t@ =~= mn_character());
        }
    }
    r
}

/// Whether the token is `equal`.
fn tok_is_equal(t: &[u8]) -> (r: bool)
    ensures
        r == (t@ == mn_equal()),
{
    let r = t.len() == 5 && t[0] == 101 && t[1] == 113 && t[2] == 117 && t[3] == 97 && t[4] == 108;
    proof {
        if r {
            assert(t@ =~= mn_equal());
        }
    }
    r
}

/// Whether the token is `unequal`.
fn tok_is_unequal(t: &[u8]) -> (r: bool)
    ensures
        r == (t@ == mn_unequal()),
{
    let r = t.len() == 7 && t[0] == 117 && t[1] == 110 && t[2] == 101 && t[3] == 113 && t[4] == 117 && t[5] == 97 && t[6] == 108;
    proof {
        if r {
            assert(t@ =~= mn_unequal());
        }
    }
    r
}

/// Whether the token is `less`.
fn tok_is_less(t: &[u8]) -> (r: bool)
    ensures
        r == (t@ == mn_less()),
{
    let r = t.len() == 4 && t[0] == 108 && t[1] == 101 && t[2] == 115 && t[3] == 115;
    proof {
        if r {
            assert(t@ =~= mn_less());
        }
    }
    r
}

/// Whether the token is `greater`.
fn tok_is_greater(t: &[u8]) -> (r: bool)
    ensures
        r == (t@ == mn_greater()),
{
    let r = t.len() == 7 && t[0] == 103 && t[1] == 114 && t[2] == 101 && t[3] == 97 && t[4] == 116 && t[5] == 101 && t[6] == 114;
    proof {
        if r {
            assert(t@ =~= mn_greater());
        }
    }
    r
}

/// Whether two byte strings are identical.
#[verifier::loop_isolation(false)]
pub fn bytes_eq(a: &[u8], b: &[u8]) -> (r: bool)
    ensures
        r == (a@ == b@),
{
    if a.len() != b.len() {
        return false;
    }
    let mut i: usize = 0;
    while i < a.len()
        invariant
            0 <= i <= a.len(),
            a@.len() == b@.len(),
            forall|j: int| 0 <= j < i ==> a@[j] == b@[j],
        decreases a.len() - i,
    {
        if a[i] != b[i] {
            return false;
        }
        i += 1;
    }
    proof {
        assert(a@ =~= b@);
    }
    true
}

/// The register a token names: exactly `X` or `Y`.
pub open spec fn reg_name(s: Seq<u8>) -> Option<Register> {
    if s == seq![88u8] {
        Some(Register::X)
    } else if s == seq![89u8] {
        Some(Register::Y)
    } else {
        None
    }
}

/// Parse a register name.
fn parse_register(t: &[u8]) -> (r: Option<Register>)
    ensures
        r == reg_name(t@),
{
    if t.len() == 1 && t[0] == 88 {
        proof {
            assert(t@ =~= seq![88u8]);
        }
        Some(Register::X)
    } else if t.len() == 1 && t[0] == 89 {
        proof {
            assert(t@ =~= seq![89u8]);
        }
        Some(Register::Y)
    } else {
        None
    }
}

/// The type a token names.
pub open spec fn name_of_type(s: Seq<u8>) -> Option<Type> {
    if s == mn_integer() {
        Some(Type::Integer)
    } else if s == mn_float() {
        Some(Type::Float)
    } else if s == mn_boolean() {
        Some(Type::Boolean)
    } else if s == mn_character() {
        Some(Type::Character)
    } else {
        None
    }
}

/// Parse a type name.
fn parse_type(t: &[u8]) -> (r: Option<Type>)
    ensures
        r == name_of_type(t@),
{
    if tok_is_integer(t) {
        Some(Type::Integer)
    } else if tok_is_float(t) {
        Some(Type::Float)
    } else if tok_is_boolean(t) {
        Some(Type::Boolean)
    } else if tok_is_character(t) {
        Some(Type::Character)
    } else {
        None
    }
}

/// The comparison a `compare` operand selects: an ordering to test
/// for, or the plain inequality test.
pub open spec fn compare_mode(s: Seq<u8>) -> Option<Option<core::cmp::Ordering>> {
    if s == mn_equal() {
        Some(Some(core::cmp::Ordering::Equal))
    } else if s == mn_unequal() {
        Some(None)
    } else if s == mn_greater() {
        Some(Some(core::cmp::Ordering::Greater))
    } else if s == mn_less() {
        Some(Some(core::cmp::Ordering::Less))
    } else {
        None
    }
}

/// Parse a comparison mode.
fn parse_compare_mode(t: &[u8]) -> (r: Option<Option<core::cmp::Ordering>>)
    ensures
        r == compare_mode(t@),
{
    if tok_is_equal(t) {
        Some(Some(core::cmp::Ordering::Equal))
    } else if tok_is_unequal(t) {
        Some(None)
    } else if tok_is_greater(t) {
        Some(Some(core::cmp::Ordering::Greater))
    } else if tok_is_less(t) {
        Some(Some(core::cmp::Ordering::Less))
    } else {
        None
    }
}

/// The instruction a `push` line denotes, from its two operands.
pub open spec fn push_instruction(kind: Seq<u8>, val: Seq<u8>) -> Result<Instruction, Error> {
    if kind == mn_integer() {
        match crate::text::int_literal(val) {
            Some(i) => Ok(Instruction::PushInteger(i)),
            None => Err(Error::InvalidInstruction),
        }
    } else if kind == mn_float() {
        match crate::float::float_literal(val) {
            Some(f) => Ok(Instruction::PushFloat(f)),
            None => Err(Error::InvalidInstruction),
        }
    } else if kind == mn_boolean() {
        match crate::text::bool_literal(val) {
            Some(b) => Ok(Instruction::PushBoolean(b)),
            None => Err(Error::InvalidInstruction),
        }
    } else if kind == mn_character() {
        match crate::text::char_literal(val) {
            Some(c) => Ok(Instruction::PushCharacter(c)),
            None => Err(Error::InvalidInstruction),
        }
    } else if kind == mn_register() {
        match reg_name(val) {
            Some(r) => Ok(Instruction::PushRegister(r)),
            None => Err(Error::InvalidInstruction),
        }
    } else {
        Err(Error::InvalidInstruction)
    }
}

/// The index a label operand resolves to.
pub open spec fn label_target(labels: Map<Seq<u8>, usize>, name: Seq<u8>) -> Result<usize, Error> {
    if labels.contains_key(name) {
        Ok(labels[name])
    } else {
        Err(Error::MissingLabel)
    }
}

/// The instruction a tokenized line denotes: the first token selects
/// the opcode, the rest are its operands (extra tokens are ignored).
/// A missing or malformed operand and an unknown opcode are invalid;
/// an unresolved label operand is a missing label; a first token
/// opening with an asterisk is a comment and denotes nothing.
pub open spec fn parse_words(ws: Seq<Seq<u8>>, labels: Map<Seq<u8>, usize>) -> Result<
    Option<Instruction>,
    Error,
> {
    let op = ws[0];
    if op == mn_push() {
        if ws.len() < 3 {
            Err(Error::InvalidInstruction)
        } else {
            match push_instruction(ws[1], ws[2]) {
                Ok(i) => Ok(Some(i)),
                Err(e) => Err(e),
            }
        }
    } else if op == mn_pop() {
        if ws.len() < 2 {
            Err(Error::InvalidInstruction)
        } else if ws[1] == seq![95u8] {
            Ok(Some(Instruction::Pop(None)))
        } else {
            match reg_name(ws[1]) {
                Some(r) => Ok(Some(Instruction::Pop(Some(r)))),
                None => Err(Error::InvalidInstruction),
            }
        }
    } else if op == mn_copy() {
        Ok(Some(Instruction::Copy))
    } else if op == mn_swap() {
        Ok(Some(Instruction::Swap))
    } else if op == mn_length() {
        match reg_operand(ws) {
            Ok(r) => Ok(Some(Instruction::Length(r))),
            Err(e) => Err(e),
        }
    } else if op == mn_branch() {
        match label_operand(ws, labels) {
            Ok(t) => Ok(Some(Instruction::Branch(t))),
            Err(e) => Err(e),
        }
    } else if op == mn_goto() {
        match reg_operand(ws) {
            Ok(r) => Ok(Some(Instruction::Goto(r))),
            Err(e) => Err(e),
        }
    } else if op == mn_call() {
        match label_operand(ws, labels) {
            Ok(t) => Ok(Some(Instruction::Call(t))),
            Err(e) => Err(e),
        }
    } else if op == mn_return() {
        Ok(Some(Instruction::Return))
    } else if op == mn_compare() {
        if ws.len() < 2 {
            Err(Error::InvalidInstruction)
        } else {
            match compare_mode(ws[1]) {
                Some(k) => Ok(Some(Instruction::Compare(k))),
                None => Err(Error::InvalidInstruction),
            }
        }
    } else if op == mn_add() {
        Ok(Some(Instruction::Add))
    } else if op == mn_subtract() {
        Ok(Some(Instruction::Subtract))
    } else if op == mn_multiply() {
        Ok(Some(Instruction::Multiply))
    } else if op == mn_divide() {
        Ok(Some(Instruction::Divide))
    } else if op == mn_modulo() {
        Ok(Some(Instruction::Modulo))
    } else if op == mn_negate() {
        match reg_operand(ws) {
            Ok(r) => Ok(Some(Instruction::Negate(r))),
            Err(e) => Err(e),
        }
    } else if op == mn_and() {
        Ok(Some(Instruction::And))
    } else if op == mn_or() {
        Ok(Some(Instruction::Or))
    } else if op == mn_xor() {
        Ok(Some(Instruction::Xor))
    } else if op == mn_not() {
        match reg_operand(ws) {
            Ok(r) => Ok(Some(Instruction::Not(r))),
            Err(e) => Err(e),
        }
    } else if op == mn_shift() {
        Ok(Some(Instruction::Shift))
    } else if op == mn_rotate() {
        Ok(Some(Instruction::Rotate))
    } else if op == mn_cast() {
        match typed_reg_operands(ws) {
            Ok((t, r)) => Ok(Some(Instruction::Cast(t, r))),
            Err(e) => Err(e),
        }
    } else if op == mn_reinterpret() {
        match typed_reg_operands(ws) {
            Ok((t, r)) => if t == Type::Integer || t == Type::Float {
                Ok(Some(Instruction::Reinterpret(t, r)))
            } else {
                Err(Error::InvalidInstruction)
            },
            Err(e) => Err(e),
        }
    } else if op == mn_input() {
        match typed_reg_operands(ws) {
            Ok((t, r)) => Ok(Some(Instruction::Input(t, r))),
            Err(e) => Err(e),
        }
    } else if op == mn_read() {
        match typed_reg_operands(ws) {
            Ok((t, r)) => Ok(Some(Instruction::Read(t, r))),
            Err(e) => Err(e),
        }
    } else if op == mn_output() {
        match reg_operand(ws) {
            Ok(r) => Ok(Some(Instruction::Output(r))),
            Err(e) => Err(e),
        }
    } else if op == mn_write() {
        match reg_operand(ws) {
            Ok(r) => Ok(Some(Instruction::Write(r))),
            Err(e) => Err(e),
        }
    } else if op == mn_random() {
        match typed_reg_operands(ws) {
            Ok((t, r)) => Ok(Some(Instruction::Random(t, r))),
            Err(e) => Err(e),
        }
    } else if op == mn_break() {
        Ok(Some(Instruction::Break))
    } else if op == mn_drop() {
        match reg_operand(ws) {
            Ok(r) => Ok(Some(Instruction::Drop(r))),
            Err(e) => Err(e),
        }
    } else if op == mn_jump() {
        match label_operand(ws, labels) {
            Ok(t) => Ok(Some(Instruction::Jump(t))),
            Err(e) => Err(e),
        }
    } else if op.len() > 0 && op[0] == 42 {
        Ok(None)
    } else {
        Err(Error::InvalidInstruction)
    }
}

/// The single register operand of a line.
pub open spec fn reg_operand(ws: Seq<Seq<u8>>) -> Result<Register, Error> {
    if ws.len() < 2 {
        Err(Error::InvalidInstruction)
    } else {
        match reg_name(ws[1]) {
            Some(r) => Ok(r),
            None => Err(Error::InvalidInstruction),
        }
    }
}

/// The single label operand of a line, resolved through the table.
pub open spec fn label_operand(ws: Seq<Seq<u8>>, labels: Map<Seq<u8>, usize>) -> Result<
    usize,
    Error,
> {
    if ws.len() < 2 {
        Err(Error::InvalidInstruction)
    } else {
        label_target(labels, ws[1])
    }
}

/// The type and register operands of a line.
pub open spec fn typed_reg_operands(ws: Seq<Seq<u8>>) -> Result<(Type, Register), Error> {
    if ws.len() < 3 {
        Err(Error::InvalidInstruction)
    } else {
        match name_of_type(ws[1]) {
            Some(t) => match reg_name(ws[2]) {
                Some(r) => Ok((t, r)),
                None => Err(Error::InvalidInstruction),
            },
            None => Err(Error::InvalidInstruction),
        }
    }
}

/// What one line of program text denotes: nothing for a blank or
/// comment line, an instruction, or the first defect on it.
pub open spec fn parse_line_spec(line: Seq<u8>, labels: Map<Seq<u8>, usize>) -> Result<
    Option<Instruction>,
    Error,
> {
    let ws = tokens(line);
    if ws.len() == 0 {
        Ok(None)
    } else {
        parse_words(ws, labels)
    }
}

/// Every token is a maximal run of non-whitespace, so none is empty.
proof fn lemma_tokens_nonempty(s: Seq<u8>)
    ensures
        forall|i: int| 0 <= i < tokens(s).len() ==> #[trigger] tokens(s)[i].len() > 0,
    decreases s.len(),
{
    if s.len() == 0 {
        assert(tokens(s).len() == 0);
    } else if is_ascii_ws(s[0]) {
        lemma_tokens_nonempty(s.skip(1));
        assert(tokens(s) == tokens(s.skip(1)));
        assert(forall|i: int|
            0 <= i < tokens(s).len() ==> tokens(s)[i] == #[trigger] tokens(s.skip(1))[i]);
    } else {
        let k = token_end(s) as int;
        lemma_token_end_le(s);
        lemma_tokens_nonempty(s.skip(k));
        assert(tokens(s) == seq![s.take(k)] + tokens(s.skip(k)));
        assert(tokens(s)[0] == s.take(k));
        assert(s.take(k).len() == k);
        assert(k >= 1);
        assert(forall|i: int|
            1 <= i < tokens(s).len() ==> tokens(s)[i] == #[trigger] tokens(s.skip(k))[i - 1]);
    }
}

/// The label table built by the first pass: each declared name,
/// with the absolute index of the instruction that follows its
/// declaration. A name declared twice keeps its later index.
pub struct LabelTable {
    entries: Vec<(Vec<u8>, usize)>,
}

/// The mapping an entry list denotes: later entries override earlier
/// ones.
pub open spec fn map_of_entries(entries: Seq<(Vec<u8>, usize)>) -> Map<Seq<u8>, usize>
    decreases entries.len(),
{
    if entries.len() == 0 {
        Map::empty()
    } else {
        map_of_entries(entries.drop_last()).insert(entries.last().0@, entries.last().1)
    }
}

impl View for LabelTable {
    type V = Map<Seq<u8>, usize>;

    closed spec fn view(&self) -> Map<Seq<u8>, usize> {
        map_of_entries(self.entries@)
    }
}

impl LabelTable {
    /// An empty table.
    pub fn new() -> (t: Self)
        ensures
            t@ == Map::<Seq<u8>, usize>::empty(),
    {
        LabelTable { entries: Vec::new() }
    }

    /// Declare a name at an instruction index; declaring it again
    /// replaces the index.
    pub fn insert(&mut self, name: Vec<u8>, index: usize)
        ensures
            final(self)@ == old(self)@.insert(name@, index),
    {
        let ghost old_entries = self.entries@;
        self.entries.push((name, index));
        proof {
            assert(self.entries@.drop_last() =~= old_entries);
        }
    }

    /// The index a name resolves to, if it was declared.
    pub fn get(&self, name: &[u8]) -> (r: Option<usize>)
        ensures
            r == if self@.contains_key(name@) {
                Some(self@[name@])
            } else {
                None::<usize>
            },
    {
        let ghost whole = self.entries@;
        proof {
            assert(whole.take(whole.len() as int) =~= whole);
        }
        let mut i: usize = self.entries.len();
        while i > 0
            invariant
                0 <= i <= self.entries@.len(),
                whole == self.entries@,
                self@ == map_of_entries(whole),
                self@.contains_key(name@) == map_of_entries(whole.take(i as int)).contains_key(
                    name@,
                ),
                self@.contains_key(name@) ==> self@[name@] == map_of_entries(
                    whole.take(i as int),
                )[name@],
            decreases i,
        {
            i -= 1;
            proof {
                assert(whole.take(i + 1).drop_last() =~= whole.take(i as int));
                assert(whole.take(i + 1).last() == whole[i as int]);
            }
            if bytes_eq(self.entries[i].0.as_slice(), name) {
                return Some(self.entries[i].1);
            }
        }
        proof {
            assert(whole.take(0) =~= Seq::<(Vec<u8>, usize)>::empty());
        }
        None
    }
}

/// The single register operand, taken from the second token.
fn reg_operand_exec(toks: &Vec<Vec<u8>>, Ghost(ws): Ghost<Seq<Seq<u8>>>) -> (r: Result<
    Register,
    Error,
>)
    requires
        toks@.len() == ws.len(),
        forall|i: int| 0 <= i < toks@.len() ==> toks@[i]@ == ws[i],
    ensures
        r == reg_operand(ws),
{
    if toks.len() < 2 {
        return Err(Error::InvalidInstruction);
    }
    match parse_register(toks[1].as_slice()) {
        Some(r) => Ok(r),
        None => Err(Error::InvalidInstruction),
    }
}

/// The single label operand, resolved through the table.
fn label_operand_exec(
    toks: &Vec<Vec<u8>>,
    labels: &LabelTable,
    Ghost(ws): Ghost<Seq<Seq<u8>>>,
) -> (r: Result<usize, Error>)
    requires
        toks@.len() == ws.len(),
        forall|i: int| 0 <= i < toks@.len() ==> toks@[i]@ == ws[i],
    ensures
        r == label_operand(ws, labels@),
{
    if toks.len() < 2 {
        return Err(Error::InvalidInstruction);
    }
    match labels.get(toks[1].as_slice()) {
        Some(t) => Ok(t),
        None => Err(Error::MissingLabel),
    }
}

/// The type and register operands, taken from the second and third
/// tokens.
fn typed_reg_operands_exec(toks: &Vec<Vec<u8>>, Ghost(ws): Ghost<Seq<Seq<u8>>>) -> (r: Result<
    (Type, Register),
    Error,
>)
    requires
        toks@.len() == ws.len(),
        forall|i: int| 0 <= i < toks@.len() ==> toks@[i]@ == ws[i],
    ensures
        r == typed_reg_operands(ws),
{
    if toks.len() < 3 {
        return Err(Error::InvalidInstruction);
    }
    match parse_type(toks[1].as_slice()) {
        Some(t) => match parse_register(toks[2].as_slice()) {
            Some(r) => Ok((t, r)),
            None => Err(Error::InvalidInstruction),
        },
        None => Err(Error::InvalidInstruction),
    }
}

impl Instruction {
    /// Parse one line of program text against the label table from
    /// the first pass: the instruction it denotes, nothing for a
    /// blank or comment line, or the line's first defect.
    #[verifier::rlimit(60)]
    pub fn parse(line: &[u8], labels: &LabelTable) -> (r: Result<Option<Instruction>, Error>)
        ensures
            r == parse_line_spec(line@, labels@),
    {
        let toks = tokenize(line);
        let ghost ws = tokens(line@);
        if toks.len() == 0 {
            return Ok(None);
        }
        proof {
            lemma_tokens_nonempty(line@);
        }
        let op = toks[0].as_slice();
        if tok_is_push(op) {
            if toks.len() < 3 {
                return Err(Error::InvalidInstruction);
            }
            let kind = toks[1].as_slice();
            let val = toks[2].as_slice();
            if tok_is_integer(kind) {
                match crate::text::parse_int_literal(val) {
                    Some(i) => Ok(Some(Instruction::PushInteger(i))),
                    None => Err(Error::InvalidInstruction),
                }
            } else if tok_is_float(kind) {
                match crate::float::parse_float_literal(val) {
                    Some(f) => Ok(Some(Instruction::PushFloat(f))),
                    None => Err(Error::InvalidInstruction),
                }
            } else if tok_is_boolean(kind) {
                match crate::text::parse_bool_literal(val) {
                    Some(b) => Ok(Some(Instruction::PushBoolean(b))),
                    None => Err(Error::InvalidInstruction),
                }
            } else if tok_is_character(kind) {
                match crate::text::parse_char_literal(val) {
                    Some(c) => Ok(Some(Instruction::PushCharacter(c))),
                    None => Err(Error::InvalidInstruction),
                }
            } else if tok_is_register(kind) {
                match parse_register(val) {
                    Some(r) => Ok(Some(Instruction::PushRegister(r))),
                    None => Err(Error::InvalidInstruction),
                }
            } else {
                Err(Error::InvalidInstruction)
            }
        } else if tok_is_pop(op) {
            if toks.len() < 2 {
                return Err(Error::InvalidInstruction);
            }
            let target = toks[1].as_slice();
            if target.len() == 1 && target[0] == 95 {
                proof {
                    assert(target@ =~= seq![95u8]);
                }
                Ok(Some(Instruction::Pop(None)))
            } else {
                match parse_register(target) {
                    Some(r) => Ok(Some(Instruction::Pop(Some(r)))),
                    None => Err(Error::InvalidInstruction),
                }
            }
        } else if tok_is_copy(op) {
            Ok(Some(Instruction::Copy))
        } else if tok_is_swap(op) {
            Ok(Some(Instruction::Swap))
        } else if tok_is_length(op) {
            match reg_operand_exec(&toks, Ghost(ws)) {
                Ok(r) => Ok(Some(Instruction::Length(r))),
                Err(e) => Err(e),
            }
        } else if tok_is_branch(op) {
            match label_operand_exec(&toks, labels, Ghost(ws)) {
                Ok(t) => Ok(Some(Instruction::Branch(t))),
                Err(e) => Err(e),
            }
        } else if tok_is_goto(op) {
            match reg_operand_exec(&toks, Ghost(ws)) {
                Ok(r) => Ok(Some(Instruction::Goto(r))),
                Err(e) => Err(e),
            }
        } else if tok_is_call(op) {
            match label_operand_exec(&toks, labels, Ghost(ws)) {
                Ok(t) => Ok(Some(Instruction::Call(t))),
                Err(e) => Err(e),
            }
        } else if tok_is_return(op) {
            Ok(Some(Instruction::Return))
        } else if tok_is_compare(op) {
            if toks.len() < 2 {
                return Err(Error::InvalidInstruction);
            }
            match parse_compare_mode(toks[1].as_slice()) {
                Some(k) => Ok(Some(Instruction::Compare(k))),
                None => Err(Error::InvalidInstruction),
            }
        } else if tok_is_add(op) {
            Ok(Some(Instruction::Add))
        } else if tok_is_subtract(op) {
            Ok(Some(Instruction::Subtract))
        } else if tok_is_multiply(op) {
            Ok(Some(Instruction::Multiply))
        } else if tok_is_divide(op) {
            Ok(Some(Instruction::Divide))
        } else if tok_is_modulo(op) {
            Ok(Some(Instruction::Modulo))
        } else if tok_is_negate(op) {
            match reg_operand_exec(&toks, Ghost(ws)) {
                Ok(r) => Ok(Some(Instruction::Negate(r))),
                Err(e) => Err(e),
            }
        } else if tok_is_and(op) {
            Ok(Some(Instruction::And))
        } else if tok_is_or(op) {
            Ok(Some(Instruction::Or))
        } else if tok_is_xor(op) {
            Ok(Some(Instruction::Xor))
        } else if tok_is_not(op) {
            match reg_operand_exec(&toks, Ghost(ws)) {
                Ok(r) => Ok(Some(Instruction::Not(r))),
                Err(e) => Err(e),
            }
        } else if tok_is_shift(op) {
            Ok(Some(Instruction::Shift))
        } else if tok_is_rotate(op) {
            Ok(Some(Instruction::Rotate))
        } else if tok_is_cast(op) {
            match typed_reg_operands_exec(&toks, Ghost(ws)) {
                Ok((t, r)) => Ok(Some(Instruction::Cast(t, r))),
                Err(e) => Err(e),
            }
        } else if tok_is_reinterpret(op) {
            match typed_reg_operands_exec(&toks, Ghost(ws)) {
                Ok((t, r)) => {
                    if t == Type::Integer || t == Type::Float {
                        Ok(Some(Instruction::Reinterpret(t, r)))
                    } else {
                        Err(Error::InvalidInstruction)
                    }
                },
                Err(e) => Err(e),
            }
        } else if tok_is_input(op) {
            match typed_reg_operands_exec(&toks, Ghost(ws)) {
                Ok((t, r)) => Ok(Some(Instruction::Input(t, r))),
                Err(e) => Err(e),
            }
        } else if tok_is_read(op) {
            match typed_reg_operands_exec(&toks, Ghost(ws)) {
                Ok((t, r)) => Ok(Some(Instruction::Read(t, r))),
                Err(e) => Err(e),
            }
        } else if tok_is_output(op) {
            match reg_operand_exec(&toks, Ghost(ws)) {
                Ok(r) => Ok(Some(Instruction::Output(r))),
                Err(e) => Err(e),
            }
        } else if tok_is_write(op) {
            match reg_operand_exec(&toks, Ghost(ws)) {
                Ok(r) => Ok(Some(Instruction::Write(r))),
                Err(e) => Err(e),
            }
        } else if tok_is_random(op) {
            match typed_reg_operands_exec(&toks, Ghost(ws)) {
                Ok((t, r)) => Ok(Some(Instruction::Random(t, r))),
                Err(e) => Err(e),
            }
        } else if tok_is_break(op) {
            Ok(Some(Instruction::Break))
        } else if tok_is_drop(op) {
            match reg_operand_exec(&toks, Ghost(ws)) {
                Ok(r) => Ok(Some(Instruction::Drop(r))),
                Err(e) => Err(e),
            }
        } else if tok_is_jump(op) {
            match label_operand_exec(&toks, labels, Ghost(ws)) {
                Ok(t) => Ok(Some(Instruction::Jump(t))),
                Err(e) => Err(e),
            }
        } else if op[0] == 42 {
            Ok(None)
        } else {
            Err(Error::InvalidInstruction)
        }
    }
}

/// Whether the line is an instruction line: it opens with a tab.
pub open spec fn is_instruction_line(line: Seq<u8>) -> bool {
    line.len() > 0 && line[0] == 9
}

/// Whether the line adds one instruction to the program: a tab line
/// that is neither blank nor a comment.
pub open spec fn counts_instruction(line: Seq<u8>) -> bool {
    is_instruction_line(line) && tokens(line).len() > 0 && tokens(line)[0][0] != 42
}

/// The label table and the instruction count after the first pass
/// over the lines: a line with no leading tab declares its trimmed
/// text as a label at the current count.
pub open spec fn label_pass(ls: Seq<Seq<u8>>) -> (Map<Seq<u8>, usize>, int)
    decreases ls.len(),
{
    if ls.len() == 0 {
        (Map::<Seq<u8>, usize>::empty(), 0int)
    } else {
        let pr = label_pass(ls.drop_last());
        let line = ls.last();
        if !is_instruction_line(line) {
            (pr.0.insert(trim(line), pr.1 as usize), pr.1)
        } else if counts_instruction(line) {
            (pr.0, pr.1 + 1)
        } else {
            pr
        }
    }
}

/// The instructions decoded from the lines at and after a position,
/// or the first defect: the index of its line, and its error.
pub open spec fn decode_pass(
    ls: Seq<Seq<u8>>,
    i: int,
    labels: Map<Seq<u8>, usize>,
) -> Result<Seq<Instruction>, (int, Error)>
    decreases ls.len() - i,
{
    if i < 0 || i >= ls.len() {
        Ok(Seq::empty())
    } else {
        let line = ls[i];
        if !is_instruction_line(line) {
            decode_pass(ls, i + 1, labels)
        } else {
            match parse_line_spec(line, labels) {
                Err(e) => Err((i, e)),
                Ok(None) => decode_pass(ls, i + 1, labels),
                Ok(Some(instr)) => match decode_pass(ls, i + 1, labels) {
                    Ok(rest) => Ok(seq![instr] + rest),
                    Err(e) => Err(e),
                },
            }
        }
    }
}

/// The instruction sequence of a whole program text, or the first
/// defect: the zero-based index of its line, and its error.
pub open spec fn program(src: Seq<u8>) -> Result<Seq<Instruction>, (int, Error)> {
    let ls = lines(src);
    decode_pass(ls, 0, label_pass(ls).0)
}

/// Run the first pass over the split lines.
#[verifier::loop_isolation(false)]
fn label_pass_exec(ls: &Vec<Vec<u8>>) -> (r: (LabelTable, usize))
    ensures
        r.0@ == label_pass(ls@.map_values(|l: Vec<u8>| l@)).0,
        r.1 == label_pass(ls@.map_values(|l: Vec<u8>| l@)).1,
{
    let ghost model = ls@.map_values(|l: Vec<u8>| l@);
    let mut table = LabelTable::new();
    let mut count: usize = 0;
    let mut i: usize = 0;
    proof {
        assert(model.take(0) =~= Seq::<Seq<u8>>::empty());
    }
    while i < ls.len()
        invariant
            0 <= i <= ls.len(),
            count <= i,
            model == ls@.map_values(|l: Vec<u8>| l@),
            table@ == label_pass(model.take(i as int)).0,
            count == label_pass(model.take(i as int)).1,
        decreases ls.len() - i,
    {
        let line = ls[i].as_slice();
        proof {
            assert(model.take(i + 1).drop_last() =~= model.take(i as int));
            assert(model.take(i + 1).last() == line@);
        }
        if !(line.len() > 0 && line[0] == 9) {
            let name = trim_bytes(line);
            table.insert(name, count);
        } else {
            let toks = tokenize(line);
            if toks.len() > 0 {
                proof {
                    lemma_tokens_nonempty(line@);
                }
                let first = toks[0].as_slice();
                proof {
                    assert(first@ == tokens(line@)[0]);
                    assert(tokens(line@)[0].len() > 0);
                }
                if first[0] != 42 {
                    count += 1;
                }
            }
        }
        i += 1;
    }
    proof {
        assert(model.take(ls@.len() as int) =~= model);
    }
    (table, count)
}

/// Parse an entire program: the full resolved instruction sequence,
/// or the first defect with the zero-based index of its line.
/// Parsing is all-or-nothing; no partial program is returned.
#[verifier::loop_isolation(false)]
pub fn parse_file(src: &[u8]) -> (r: Result<Vec<Instruction>, (usize, Error)>)
    ensures
        match r {
            Ok(v) => program(src@) == Ok::<Seq<Instruction>, (int, Error)>(v@),
            Err(ie) => program(src@) == Err::<Seq<Instruction>, (int, Error)>(
                (ie.0 as int, ie.1),
            ),
        },
{
    let ls = split_lines(src);
    let ghost model = ls@.map_values(|l: Vec<u8>| l@);
    proof {
        assert(model.len() == lines(src@).len());
        assert(forall|k: int| 0 <= k < model.len() ==> model[k] == lines(src@)[k]);
        assert(model =~= lines(src@));
    }
    let (table, _count) = label_pass_exec(&ls);
    let ghost labels = label_pass(model).0;
    let mut out: Vec<Instruction> = Vec::new();
    let mut i: usize = 0;
    proof {
        assert(Seq::<Instruction>::empty() + decode_pass(model, 0, labels)->Ok_0 =~= decode_pass(
            model,
            0,
            labels,
        )->Ok_0);
    }
    while i < ls.len()
        invariant
            0 <= i <= ls.len(),
            model == ls@.map_values(|l: Vec<u8>| l@),
            table@ == labels,
            match decode_pass(model, i as int, labels) {
                Ok(rest) => decode_pass(model, 0, labels) == Ok::<Seq<Instruction>, (int, Error)>(
                    out@ + rest,
                ),
                Err(e) => decode_pass(model, 0, labels) == Err::<Seq<Instruction>, (int, Error)>(
                    e,
                ),
            },
        decreases ls.len() - i,
    {
        let line = ls[i].as_slice();
        if line.len() > 0 && line[0] == 9 {
            match Instruction::parse(line, &table) {
                Err(e) => {
                    return Err((i, e));
                },
                Ok(None) => {},
                Ok(Some(instr)) => {
                    proof {
                        if decode_pass(model, i + 1, labels) is Ok {
                            assert(out@.push(instr) + decode_pass(model, i + 1, labels)->Ok_0
                                =~= out@ + (seq![instr] + decode_pass(
                                model,
                                i + 1,
                                labels,
                            )->Ok_0));
                        }
                    }
                    out.push(instr);
                },
            }
        }
        i += 1;
    }
    proof {
        assert(out@ + Seq::<Instruction>::empty() =~= out@);
    }
    Ok(out)
}

} // verus!
