//! Searching in sequences of characters, and the passage between strings and
//! vectors of characters.
//!
//! The parsers of this crate describe their results over `Seq<char>`, the view
//! of a string. This module holds the vocabulary they share: the first place
//! at which a character or a pattern stands, the parts of a text before and
//! after a delimiter, and the executable searches that compute them.

use vstd::prelude::*;
use vstd::string::*;
use vstd::utf8::*;

verus! {

/// The least index in `lo..hi` at which `s` holds `c`, or `hi` when there is none.
pub open spec fn first_in(s: Seq<char>, c: char, lo: int, hi: int) -> int
    decreases hi - lo,
{
    if lo >= hi {
        hi
    } else if s[lo] == c {
        lo
    } else {
        first_in(s, c, lo + 1, hi)
    }
}

/// The index of the first `c` in `s`, or `s.len()` when `s` holds no `c`.
pub open spec fn first(s: Seq<char>, c: char) -> int {
    first_in(s, c, 0, s.len() as int)
}

/// The part of `s` before its first `c`; all of `s` when it holds no `c`.
pub open spec fn before_first(s: Seq<char>, c: char) -> Seq<char> {
    s.take(first(s, c))
}

/// The part of `s` after its first `c`; empty when it holds no `c`.
pub open spec fn after_first(s: Seq<char>, c: char) -> Seq<char> {
    if first(s, c) < s.len() {
        s.skip(first(s, c) + 1)
    } else {
        Seq::empty()
    }
}

/// `pat` stands in `s` at index `at`.
pub open spec fn occurs_at(s: Seq<char>, pat: Seq<char>, at: int) -> bool {
    &&& 0 <= at
    &&& at + pat.len() <= s.len()
    &&& s.subrange(at, at + pat.len()) == pat
}

/// `pat` stands somewhere in `s`.
pub open spec fn occurs_in(s: Seq<char>, pat: Seq<char>) -> bool {
    exists|at: int| occurs_at(s, pat, at)
}

/// The least index in `lo..hi` at which `pat` stands in `s`, or `hi` when
/// there is none.
pub open spec fn first_occurrence(s: Seq<char>, pat: Seq<char>, lo: int, hi: int) -> int
    decreases hi - lo,
{
    if lo >= hi {
        hi
    } else if occurs_at(s, pat, lo) {
        lo
    } else {
        first_occurrence(s, pat, lo + 1, hi)
    }
}

/// `c` is one of the ten decimal digits.
pub open spec fn is_digit(c: char) -> bool {
    '0' <= c <= '9'
}

/// The number that the digit `c` stands for.
pub open spec fn digit_value(c: char) -> nat {
    (c as int - '0' as int) as nat
}

/// `s` is a decimal numeral: one digit or more, and nothing else.
pub open spec fn is_numeral(s: Seq<char>) -> bool {
    &&& s.len() > 0
    &&& forall|i: int| 0 <= i < s.len() ==> is_digit(#[trigger] s[i])
}

/// The number that the digits of `s` write in base ten.
pub open spec fn decimal(s: Seq<char>) -> nat
    decreases s.len(),
{
    if s.len() == 0 {
        0
    } else {
        decimal(s.drop_last()) * 10 + digit_value(s.last())
    }
}

/// What `first_in` finds: an index between the bounds, no `c` before it, and a
/// `c` at it unless it is the upper bound.
pub proof fn lemma_first_in(s: Seq<char>, c: char, lo: int, hi: int)
    requires
        lo <= hi,
    ensures
        lo <= first_in(s, c, lo, hi) <= hi,
        forall|i: int| lo <= i < first_in(s, c, lo, hi) ==> s[i] != c,
        first_in(s, c, lo, hi) < hi ==> s[first_in(s, c, lo, hi)] == c,
    decreases hi - lo,
{
    if lo < hi && s[lo] != c {
        lemma_first_in(s, c, lo + 1, hi);
    }
}

/// An index with the properties of `lemma_first_in` is the one `first_in` finds.
pub proof fn lemma_first_in_is(s: Seq<char>, c: char, lo: int, hi: int, at: int)
    requires
        lo <= at <= hi,
        forall|i: int| lo <= i < at ==> s[i] != c,
        at < hi ==> s[at] == c,
    ensures
        first_in(s, c, lo, hi) == at,
    decreases hi - lo,
{
    if lo < at {
        lemma_first_in_is(s, c, lo + 1, hi, at);
    }
}

/// Searching a piece of `s` is searching `s` between the ends of the piece.
pub proof fn lemma_first_in_piece(s: Seq<char>, c: char, from: int, to: int)
    requires
        0 <= from <= to <= s.len(),
    ensures
        first(s.subrange(from, to), c) == first_in(s, c, from, to) - from,
{
    let piece = s.subrange(from, to);
    lemma_first_in(s, c, from, to);
    lemma_first_in_is(piece, c, 0, piece.len() as int, first_in(s, c, from, to) - from);
}

/// `s` holds `c` exactly when `first` finds an index inside `s`.
pub proof fn lemma_first_contains(s: Seq<char>, c: char)
    ensures
        s.contains(c) <==> first(s, c) < s.len(),
        0 <= first(s, c) <= s.len(),
{
    lemma_first_in(s, c, 0, s.len() as int);
    if first(s, c) < s.len() {
        assert(s[first(s, c)] == c);
    }
}

/// What `first_occurrence` finds: an index between the bounds, no occurrence
/// before it, and an occurrence at it unless it is the upper bound.
pub proof fn lemma_first_occurrence(s: Seq<char>, pat: Seq<char>, lo: int, hi: int)
    requires
        lo <= hi,
    ensures
        lo <= first_occurrence(s, pat, lo, hi) <= hi,
        forall|i: int| lo <= i < first_occurrence(s, pat, lo, hi) ==> !occurs_at(s, pat, i),
        first_occurrence(s, pat, lo, hi) < hi ==> occurs_at(
            s,
            pat,
            first_occurrence(s, pat, lo, hi),
        ),
    decreases hi - lo,
{
    if lo < hi && !occurs_at(s, pat, lo) {
        lemma_first_occurrence(s, pat, lo + 1, hi);
    }
}

/// Searching a piece of `s` for a pattern is searching, between the ends of
/// the piece, the part of `s` that ends where the piece ends.
pub proof fn lemma_first_occurrence_piece(
    s: Seq<char>,
    pat: Seq<char>,
    from: int,
    lo: int,
    to: int,
)
    requires
        0 <= from <= lo <= to <= s.len(),
    ensures
        first_occurrence(s.subrange(from, to), pat, lo - from, to - from) == first_occurrence(
            s.take(to),
            pat,
            lo,
            to,
        ) - from,
    decreases to - lo,
{
    if lo < to {
        let piece = s.subrange(from, to);
        let head = s.take(to);
        if lo + pat.len() <= to {
            assert(piece.subrange(lo - from, lo - from + pat.len()) == head.subrange(
                lo,
                lo + pat.len(),
            ));
        }
        lemma_first_occurrence_piece(s, pat, from, lo + 1, to);
    }
}

/// A pattern of at least one character stands in `s` exactly when
/// `first_occurrence` finds an index inside `s`.
pub proof fn lemma_first_occurrence_occurs_in(s: Seq<char>, pat: Seq<char>)
    requires
        pat.len() > 0,
    ensures
        occurs_in(s, pat) <==> first_occurrence(s, pat, 0, s.len() as int) < s.len(),
{
    lemma_first_occurrence(s, pat, 0, s.len() as int);
    if occurs_in(s, pat) {
        let at = choose|at: int| occurs_at(s, pat, at);
        assert(0 <= at < s.len());
    }
}

/// The digits read so far never write more than the whole numeral does.
pub proof fn lemma_decimal_grows(s: Seq<char>, k: int)
    requires
        0 <= k <= s.len(),
    ensures
        decimal(s.take(k)) <= decimal(s),
    decreases s.len() - k,
{
    if k < s.len() {
        lemma_decimal_grows(s, k + 1);
        assert(s.take(k + 1).drop_last() == s.take(k));
    } else {
        assert(s.take(k) == s);
    }
}

/// The error of `core::str::from_utf8`, carried through and not looked into.
#[verifier::external_type_specification]
#[verifier::external_body]
pub struct ExUtf8Error(core::str::Utf8Error);

/// `core::str::from_utf8` accepts exactly the byte sequences that are
/// well-formed UTF-8, and the text it gives is made of the bytes it was given.
pub assume_specification[ core::str::from_utf8 ](v: &[u8]) -> (result: Result<
    &str,
    core::str::Utf8Error,
>)
    ensures
        result is Ok <==> valid_utf8(v@),
        result matches Ok(text) ==> text.spec_bytes() == v@,
;

/// The characters of `text`, in order.
pub fn chars_of(text: &str) -> (chars: Vec<char>)
    ensures
        chars@ == text@,
{
    let mut chars: Vec<char> = Vec::new();
    for c in it: text.chars()
        invariant
            chars@ == it.seq().take(it.index()),
            it.seq() == text@,
    {
        chars.push(c);
    }
    chars
}

/// The characters `from..to` of `text`, as a string of their own.
pub fn slice_of(text: &str, from: usize, to: usize) -> (piece: String)
    requires
        from <= to <= text@.len(),
    ensures
        piece@ == text@.subrange(from as int, to as int),
{
    text.substring_char(from, to).to_owned()
}

/// Finds the first `c` in `s[lo..hi]`.
pub fn find_char(s: &Vec<char>, c: char, lo: usize, hi: usize) -> (at: usize)
    requires
        lo <= hi <= s@.len(),
    ensures
        at == first_in(s@, c, lo as int, hi as int),
        lo <= at <= hi,
{
    let mut i: usize = lo;
    while i < hi && s[i] != c
        invariant
            lo <= i <= hi <= s@.len(),
            first_in(s@, c, lo as int, hi as int) == first_in(s@, c, i as int, hi as int),
        decreases hi - i,
    {
        i += 1;
    }
    i
}

/// Tells whether `pat` stands at index `at` in the first `end` characters of `s`.
pub fn stands_at(s: &Vec<char>, pat: &Vec<char>, at: usize, end: usize) -> (found: bool)
    requires
        end <= s@.len(),
    ensures
        found == occurs_at(s@.take(end as int), pat@, at as int),
{
    if at > end || pat.len() > end - at {
        return false;
    }
    let ghost head = s@.take(end as int);
    let mut j: usize = 0;
    while j < pat.len()
        invariant
            at + pat.len() <= end <= s.len(),
            j <= pat.len(),
            head == s@.take(end as int),
            head.subrange(at as int, at + j) == pat@.take(j as int),
        decreases pat.len() - j,
    {
        if s[at + j] != pat[j] {
            assert(head.subrange(at as int, at + pat@.len())[j as int] != pat@[j as int]);
            return false;
        }
        proof {
            assert(head.subrange(at as int, at + j + 1) == head.subrange(at as int, at + j).push(
                head[at + j],
            ));
            assert(pat@.take(j + 1) == pat@.take(j as int).push(pat@[j as int]));
        }
        j += 1;
    }
    assert(pat@.take(pat@.len() as int) == pat@);
    true
}

/// Finds the first place in `lo..hi` at which `pat` stands in the first `hi`
/// characters of `s`.
pub fn find_pattern(s: &Vec<char>, pat: &Vec<char>, lo: usize, hi: usize) -> (at: usize)
    requires
        lo <= hi <= s@.len(),
    ensures
        at == first_occurrence(s@.take(hi as int), pat@, lo as int, hi as int),
        lo <= at <= hi,
{
    let mut i: usize = lo;
    while i < hi
        invariant
            lo <= i <= hi <= s@.len(),
            first_occurrence(s@.take(hi as int), pat@, lo as int, hi as int) == first_occurrence(
                s@.take(hi as int),
                pat@,
                i as int,
                hi as int,
            ),
        decreases hi - i,
    {
        if stands_at(s, pat, i, hi) {
            return i;
        }
        i += 1;
    }
    i
}

/// Reads `s[lo..hi]` as a decimal numeral that writes `limit` at most.
pub fn read_decimal(s: &Vec<char>, lo: usize, hi: usize, limit: u32) -> (number: Option<u32>)
    requires
        lo <= hi <= s@.len(),
    ensures
        match number {
            Some(n) => {
                &&& is_numeral(s@.subrange(lo as int, hi as int))
                &&& decimal(s@.subrange(lo as int, hi as int)) == n
                &&& n <= limit
            },
            None => {
                ||| !is_numeral(s@.subrange(lo as int, hi as int))
                ||| decimal(s@.subrange(lo as int, hi as int)) > limit
            },
        },
{
    let ghost piece = s@.subrange(lo as int, hi as int);
    if lo == hi {
        return None;
    }
    let mut value: u32 = 0;
    let mut i: usize = lo;
    while i < hi
        invariant
            lo <= i <= hi <= s@.len(),
            piece == s@.subrange(lo as int, hi as int),
            forall|j: int| 0 <= j < i - lo ==> is_digit(#[trigger] piece[j]),
            value == decimal(piece.take(i - lo)),
            value <= limit,
        decreases hi - i,
    {
        let c: char = s[i];
        if c < '0' || c > '9' {
            assert(!is_digit(piece[i - lo]));
            return None;
        }
        let digit: u64 = (c as u64) - ('0' as u64);
        let next: u64 = (value as u64) * 10 + digit;
        proof {
            assert(piece.take(i - lo + 1).drop_last() == piece.take(i - lo));
            assert(piece.take(i - lo + 1).last() == c);
            assert(next == decimal(piece.take(i - lo + 1)));
        }
        if next > limit as u64 {
            proof {
                if is_numeral(piece) {
                    lemma_decimal_grows(piece, i - lo + 1);
                }
            }
            return None;
        }
        value = next as u32;
        i += 1;
    }
    assert(piece.take(hi - lo) == piece);
    Some(value)
}

} // verus!
