//! Cleaning of console input.
//!
//! Values typed on stdin arrive with a trailing newline, and on some
//! platforms a carriage return as well; every reader of user input strips
//! them before interpreting the text.

use vstd::prelude::*;

verus! {

/// A character that line-ends the console input.
pub open spec fn is_line_end(c: char) -> bool {
    c == '\n' || c == '\r'
}

/// The string with every trailing newline and carriage return removed.
pub open spec fn trim_line_ends(s: Seq<char>) -> Seq<char>
    decreases s.len(),
{
    if s.len() > 0 && is_line_end(s.last()) {
        trim_line_ends(s.drop_last())
    } else {
        s
    }
}

proof fn lemma_trim_line_ends_prefix(s: Seq<char>, k: int)
    requires
        0 <= k <= s.len(),
        forall|j: int| k <= j < s.len() ==> is_line_end(#[trigger] s[j]),
        k == 0 || !is_line_end(s[k - 1]),
    ensures
        trim_line_ends(s) == s.subrange(0, k),
    decreases s.len(),
{
    if k < s.len() {
        assert(is_line_end(s.last()));
        assert(s.drop_last() =~= s.subrange(0, s.len() - 1));
        lemma_trim_line_ends_prefix(s.drop_last(), k);
        assert(s.drop_last().subrange(0, k) =~= s.subrange(0, k));
    } else {
        if s.len() > 0 {
            assert(!is_line_end(s.last()));
        }
        assert(s.subrange(0, k) =~= s);
    }
}

/// Trimming a second time changes nothing: the result never ends in a
/// newline or carriage return.
pub proof fn lemma_trim_line_ends_idempotent(s: Seq<char>)
    ensures
        trim_line_ends(trim_line_ends(s)) == trim_line_ends(s),
    decreases s.len(),
{
    if s.len() > 0 && is_line_end(s.last()) {
        lemma_trim_line_ends_idempotent(s.drop_last());
    }
}

/// Remove potential '\r's and '\n's at the end of a `String`.
pub fn remove_end_characters(s: String) -> (r: String)
    ensures
        r@ == trim_line_ends(s@),
{
    let len: usize = s.as_str().unicode_len();
    let mut k: usize = len;
    loop
        invariant_except_break
            k <= s@.len(),
            len == s@.len(),
            forall|j: int| k <= j < s@.len() ==> is_line_end(#[trigger] s@[j]),
        ensures
            k <= s@.len(),
            forall|j: int| k <= j < s@.len() ==> is_line_end(#[trigger] s@[j]),
            k == 0 || !is_line_end(s@[k - 1]),
        decreases k,
    {
        if k == 0 {
            break;
        }
        let c = s.as_str().get_char(k - 1);
        if c != '\n' && c != '\r' {
            break;
        }
        k = k - 1;
    }
    proof {
        lemma_trim_line_ends_prefix(s@, k as int);
    }
    let r = s.as_str().substring_char(0, k);
    r.to_owned()
}

/// Character-for-character equality of two string slices.
pub fn str_eq(a: &str, b: &str) -> (r: bool)
    ensures
        r == (a@ == b@),
{
    let alen: usize = a.unicode_len();
    let blen: usize = b.unicode_len();
    if alen != blen {
        return false;
    }
    let mut i: usize = 0;
    while i < alen
        invariant
            i <= alen,
            alen == a@.len(),
            alen == b@.len(),
            forall|j: int| 0 <= j < i ==> a@[j] == b@[j],
        decreases alen - i,
    {
        if a.get_char(i) != b.get_char(i) {
            return false;
        }
        i = i + 1;
    }
    proof {
        assert(a@ =~= b@);
    }
    true
}

} // verus!
