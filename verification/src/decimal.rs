//! Decimal rendering and parsing of counters.
//!
//! The driver writes the outer-step count to a counter file as decimal
//! text, and the post-run tools parse it back to know how many snapshot
//! files to read. Rendering and parsing are exact inverses, which
//! [`lemma_counter_round_trip`] states.

use vstd::prelude::*;

verus! {

/// The value of a decimal digit character, if it is one.
pub open spec fn digit_of(c: char) -> Option<u8> {
    match c {
        '0' => Some(0u8),
        '1' => Some(1u8),
        '2' => Some(2u8),
        '3' => Some(3u8),
        '4' => Some(4u8),
        '5' => Some(5u8),
        '6' => Some(6u8),
        '7' => Some(7u8),
        '8' => Some(8u8),
        '9' => Some(9u8),
        _ => None,
    }
}

pub open spec fn is_digit(c: char) -> bool {
    digit_of(c) is Some
}

pub open spec fn all_digits(s: Seq<char>) -> bool {
    forall|i: int| 0 <= i < s.len() ==> is_digit(#[trigger] s[i])
}

/// The digit character for a value below ten.
pub open spec fn digit_char(d: nat) -> char {
    if d == 0 {
        '0'
    } else if d == 1 {
        '1'
    } else if d == 2 {
        '2'
    } else if d == 3 {
        '3'
    } else if d == 4 {
        '4'
    } else if d == 5 {
        '5'
    } else if d == 6 {
        '6'
    } else if d == 7 {
        '7'
    } else if d == 8 {
        '8'
    } else {
        '9'
    }
}

/// The value of a digit string, most significant digit first. Characters
/// that are not digits count as zero; `all_digits` rules them out where it
/// matters.
pub open spec fn dec_value(s: Seq<char>) -> nat
    decreases s.len(),
{
    if s.len() == 0 {
        0
    } else {
        dec_value(s.drop_last()) * 10 + (match digit_of(s.last()) {
            Some(d) => d as nat,
            None => 0,
        })
    }
}

/// The decimal rendering of a number: no sign, no leading zero except for
/// the number zero itself.
pub open spec fn dec_rep(n: nat) -> Seq<char>
    decreases n,
{
    if n < 10 {
        seq![digit_char(n)]
    } else {
        dec_rep(n / 10).push(digit_char(n % 10))
    }
}

/// What parsing an unsigned decimal accepts: an optional leading plus
/// sign, then one or more digits, and a value that fits the machine word.
pub open spec fn parse_dec(s: Seq<char>) -> Option<usize> {
    let body = if s.len() > 0 && s[0] == '+' {
        s.drop_first()
    } else {
        s
    };
    if body.len() > 0 && all_digits(body) && dec_value(body) <= usize::MAX {
        Some(dec_value(body) as usize)
    } else {
        None
    }
}

/// A prefix of a digit string never exceeds the whole string's value.
proof fn lemma_dec_value_prefix(s: Seq<char>, k: int)
    requires
        0 <= k <= s.len(),
    ensures
        dec_value(s.subrange(0, k)) <= dec_value(s),
    decreases s.len() - k,
{
    if k == s.len() {
        assert(s.subrange(0, k) =~= s);
    } else {
        let t = s.subrange(0, k + 1);
        assert(t.drop_last() =~= s.subrange(0, k));
        lemma_dec_value_prefix(s, k + 1);
    }
}

fn digit_value(c: char) -> (r: Option<u8>)
    ensures
        r == digit_of(c),
{
    if c == '0' {
        Some(0u8)
    } else if c == '1' {
        Some(1u8)
    } else if c == '2' {
        Some(2u8)
    } else if c == '3' {
        Some(3u8)
    } else if c == '4' {
        Some(4u8)
    } else if c == '5' {
        Some(5u8)
    } else if c == '6' {
        Some(6u8)
    } else if c == '7' {
        Some(7u8)
    } else if c == '8' {
        Some(8u8)
    } else if c == '9' {
        Some(9u8)
    } else {
        None
    }
}

/// Parse an unsigned decimal, exactly as `parse_dec` describes.
pub fn parse_usize(s: &str) -> (r: Option<usize>)
    ensures
        r == parse_dec(s@),
{
    let len: usize = s.unicode_len();
    let start: usize = if len > 0 && s.get_char(0) == '+' {
        1
    } else {
        0
    };
    let ghost body = if s@.len() > 0 && s@[0] == '+' {
        s@.drop_first()
    } else {
        s@
    };
    proof {
        assert(body =~= s@.subrange(start as int, len as int));
    }
    if start == len {
        return None;
    }
    let mut acc: usize = 0;
    let mut i: usize = start;
    while i < len
        invariant
            start <= i <= len,
            len == s@.len(),
            (s@.len() > 0 && s@[0] == '+') ==> start == 1,
            !(s@.len() > 0 && s@[0] == '+') ==> start == 0,
            body == s@.subrange(start as int, len as int),
            all_digits(body.subrange(0, i - start)),
            acc == dec_value(body.subrange(0, i - start)),
        decreases len - i,
    {
        let c = s.get_char(i);
        let ghost consumed = body.subrange(0, i - start);
        let ghost consumed_next = body.subrange(0, i + 1 - start);
        proof {
            assert(consumed_next.drop_last() =~= consumed);
            assert(consumed_next.last() == body[i - start]);
            assert(body[i - start] == s@[i as int]);
        }
        match digit_value(c) {
            None => {
                assert(!all_digits(body));
                return None;
            },
            Some(d) => {
                let shifted = match acc.checked_mul(10) {
                    Some(m) => m.checked_add(d as usize),
                    None => None,
                };
                match shifted {
                    None => {
                        proof {
                            assert(acc * 10 + d > usize::MAX);
                            assert(dec_value(consumed_next) == acc * 10 + d);
                            lemma_dec_value_prefix(body, i + 1 - start);
                            assert(dec_value(body) >= dec_value(consumed_next));
                            assert(s@.subrange(0, s@.len() as int) =~= s@);
                            assert(parse_dec(s@) is None);
                        }
                        return None;
                    },
                    Some(v) => {
                        proof {
                            assert(dec_value(consumed_next) == v);
                        }
                        acc = v;
                    },
                }
            },
        }
        i = i + 1;
    }
    proof {
        assert(body.subrange(0, len - start) =~= body);
    }
    Some(acc)
}

fn digit_str(d: usize) -> (r: &'static str)
    requires
        d < 10,
    ensures
        r@ =~= seq![digit_char(d as nat)],
{
    if d == 0 {
        proof {
            reveal_strlit("0");
        }
        "0"
    } else if d == 1 {
        proof {
            reveal_strlit("1");
        }
        "1"
    } else if d == 2 {
        proof {
            reveal_strlit("2");
        }
        "2"
    } else if d == 3 {
        proof {
            reveal_strlit("3");
        }
        "3"
    } else if d == 4 {
        proof {
            reveal_strlit("4");
        }
        "4"
    } else if d == 5 {
        proof {
            reveal_strlit("5");
        }
        "5"
    } else if d == 6 {
        proof {
            reveal_strlit("6");
        }
        "6"
    } else if d == 7 {
        proof {
            reveal_strlit("7");
        }
        "7"
    } else if d == 8 {
        proof {
            reveal_strlit("8");
        }
        "8"
    } else {
        proof {
            reveal_strlit("9");
        }
        "9"
    }
}

/// Render a number in decimal, exactly as `dec_rep` describes.
pub fn format_usize(n: usize) -> (r: String)
    ensures
        r@ == dec_rep(n as nat),
    decreases n,
{
    let d: usize = n % 10;
    let ds = digit_str(d);
    if n < 10 {
        let r = ds.to_owned();
        proof {
            assert(r@ =~= dec_rep(n as nat));
        }
        r
    } else {
        let prefix = format_usize(n / 10);
        let r = prefix.concat(ds);
        proof {
            assert(r@ =~= dec_rep(n as nat));
        }
        r
    }
}

proof fn lemma_dec_rep_all_digits(n: nat)
    ensures
        dec_rep(n).len() > 0,
        all_digits(dec_rep(n)),
    decreases n,
{
    if n >= 10 {
        lemma_dec_rep_all_digits(n / 10);
    }
}

proof fn lemma_digit_char_value(d: nat)
    requires
        d < 10,
    ensures
        digit_of(digit_char(d)) == Some(d as u8),
{
}

proof fn lemma_dec_rep_value(n: nat)
    ensures
        dec_value(dec_rep(n)) == n,
    decreases n,
{
    if n < 10 {
        lemma_digit_char_value(n);
        assert(dec_value(Seq::<char>::empty()) == 0);
        assert(dec_rep(n).drop_last() =~= Seq::<char>::empty());
        assert(dec_rep(n).last() == digit_char(n));
    } else {
        lemma_dec_rep_value(n / 10);
        lemma_digit_char_value(n % 10);
        assert(dec_rep(n).drop_last() =~= dec_rep(n / 10));
        assert(dec_rep(n).last() == digit_char(n % 10));
        assert(n / 10 * 10 + n % 10 == n);
    }
}

/// Rendering a counter and parsing the text back returns the counter: the
/// step count written at the end of a run is exactly what the post-run
/// tools read.
pub proof fn lemma_counter_round_trip(n: usize)
    ensures
        parse_dec(dec_rep(n as nat)) == Some(n),
{
    lemma_dec_rep_all_digits(n as nat);
    lemma_dec_rep_value(n as nat);
    assert(is_digit(dec_rep(n as nat)[0]));
}

} // verus!
