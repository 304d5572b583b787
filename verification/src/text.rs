//! Text helpers shared by the other modules: character access, decimal
//! numerals and substring search.

use vstd::prelude::*;
use vstd::std_specs::iter::IteratorSpec;
use vstd::string::StringExecFns;

verus! {

/// Whether `c` is a decimal digit.
pub open spec fn is_digit(c: char) -> bool {
    '0' <= c && c <= '9'
}

/// The character that stands for the digit `d`.
pub open spec fn digit_char(d: nat) -> char {
    if d == 0 {
        '0'
    } else if d == 1 {
        '1'
    } else if d == 2 {
        '2'
    } else if d == 3 {
        '3'
    } else if d == 4 {
        '4'
    } else if d == 5 {
        '5'
    } else if d == 6 {
        '6'
    } else if d == 7 {
        '7'
    } else if d == 8 {
        '8'
    } else {
        '9'
    }
}

/// The decimal numeral of `n`: most significant digit first, no leading
/// zeros, `"0"` for zero.
pub open spec fn decimal(n: nat) -> Seq<char>
    decreases n,
{
    if n < 10 {
        seq![digit_char(n)]
    } else {
        decimal(n / 10).push(digit_char(n % 10))
    }
}

/// The characters of `s`, in order.
pub fn chars_of(s: &str) -> (v: Vec<char>)
    ensures
        v@ == s@,
{
    broadcast use vstd::string::group_string_axioms;

    let mut it = s.chars();
    let mut v: Vec<char> = Vec::new();
    loop
        invariant
            it.obeys_prophetic_iter_laws(),
            it.decrease() is Some,
            v@ + it.remaining() == s@,
        ensures
            v@ == s@,
        decreases it.decrease()->0,
    {
        let ghost before = it.remaining();
        let ghost seen = v@;
        match it.next() {
            Some(c) => {
                v.push(c);
                assert(v@ + it.remaining() =~= seen + before) by {
                    assert(before =~= seq![c] + before.drop_first());
                }
            },
            None => {
                assert(v@ + before =~= v@);
                break ;
            },
        }
    }
    v
}

/// The one-character text of the digit `d`.
fn digit_text(d: u8) -> (r: &'static str)
    requires
        d < 10,
    ensures
        r@ == seq![digit_char(d as nat)],
{
    proof {
        reveal_strlit("0");
        reveal_strlit("1");
        reveal_strlit("2");
        reveal_strlit("3");
        reveal_strlit("4");
        reveal_strlit("5");
        reveal_strlit("6");
        reveal_strlit("7");
        reveal_strlit("8");
        reveal_strlit("9");
    }
    let r = if d == 0 {
        "0"
    } else if d == 1 {
        "1"
    } else if d == 2 {
        "2"
    } else if d == 3 {
        "3"
    } else if d == 4 {
        "4"
    } else if d == 5 {
        "5"
    } else if d == 6 {
        "6"
    } else if d == 7 {
        "7"
    } else if d == 8 {
        "8"
    } else {
        "9"
    };
    assert(r@ =~= seq![digit_char(d as nat)]);
    r
}

/// Writes `n` as a decimal numeral.
pub fn decimal_string(n: u128) -> (s: String)
    ensures
        s@ == decimal(n as nat),
    decreases n,
{
    if n < 10 {
        String::from_str(digit_text(n as u8))
    } else {
        let mut s = decimal_string(n / 10);
        s.append(digit_text((n % 10) as u8));
        assert(s@ =~= decimal(n as nat));
        s
    }
}

/// Whether two texts hold the same characters.
pub fn same_text(a: &str, b: &str) -> (r: bool)
    ensures
        r == (a@ == b@),
{
    let x = chars_of(a);
    let y = chars_of(b);
    if x.len() != y.len() {
        return false;
    }
    let mut i: usize = 0;
    while i < x.len()
        invariant
            i <= x.len(),
            x.len() == y.len(),
            x@ == a@,
            y@ == b@,
            x@.subrange(0, i as int) == y@.subrange(0, i as int),
        decreases x.len() - i,
    {
        if x[i] != y[i] {
            assert(a@[i as int] != b@[i as int]);
            return false;
        }
        assert(x@.subrange(0, i + 1) =~= x@.subrange(0, i as int).push(x@[i as int]));
        assert(y@.subrange(0, i + 1) =~= y@.subrange(0, i as int).push(y@[i as int]));
        i += 1;
    }
    assert(x@ =~= x@.subrange(0, x.len() as int));
    assert(y@ =~= y@.subrange(0, y.len() as int));
    true
}

/// Whether `text` holds `pattern` at position `at`.
pub open spec fn occurs_at(text: Seq<char>, pattern: Seq<char>, at: int) -> bool {
    0 <= at && at + pattern.len() <= text.len() && text.subrange(at, at + pattern.len())
        == pattern
}

/// Whether the characters of `text` from `at` on begin with `pattern`.
pub fn matches_at(text: &Vec<char>, pattern: &Vec<char>, at: usize) -> (r: bool)
    ensures
        r == occurs_at(text@, pattern@, at as int),
{
    let n = text.len();
    let m = pattern.len();
    if at > n || m > n - at {
        return false;
    }
    let mut k: usize = 0;
    while k < m
        invariant
            k <= m,
            m == pattern.len(),
            at + m <= text.len(),
            text@.subrange(at as int, at + k) == pattern@.subrange(0, k as int),
        decreases m - k,
    {
        if text[at + k] != pattern[k] {
            assert(text@.subrange(at as int, at + m)[k as int] != pattern@[k as int]);
            return false;
        }
        assert(text@.subrange(at as int, at + k + 1) =~= text@.subrange(at as int, at + k).push(
            text@[at + k],
        ));
        assert(pattern@.subrange(0, k + 1) =~= pattern@.subrange(0, k as int).push(
            pattern@[k as int],
        ));
        k += 1;
    }
    assert(pattern@ =~= pattern@.subrange(0, m as int));
    true
}

/// Whether `text` begins with `prefix`.
pub fn starts_with(text: &str, prefix: &str) -> (r: bool)
    ensures
        r == prefix@.is_prefix_of(text@),
{
    let t = chars_of(text);
    let p = chars_of(prefix);
    matches_at(&t, &p, 0)
}

/// Whether `text` ends with `suffix`.
pub fn ends_with(text: &str, suffix: &str) -> (r: bool)
    ensures
        r == suffix@.is_suffix_of(text@),
{
    let t = chars_of(text);
    let p = chars_of(suffix);
    if p.len() > t.len() {
        return false;
    }
    matches_at(&t, &p, t.len() - p.len())
}

/// How often `pattern` occurs in `text` when the text is read from the left
/// and a new occurrence may begin only where the last one has ended. The empty
/// pattern occurs nowhere.
pub open spec fn occurrences(text: Seq<char>, pattern: Seq<char>) -> nat
    decreases text.len(),
{
    if pattern.len() == 0 || text.len() < pattern.len() {
        0
    } else if pattern.is_prefix_of(text) {
        1 + occurrences(text.skip(pattern.len() as int), pattern)
    } else {
        occurrences(text.skip(1), pattern)
    }
}

/// Where the occurrences of `pattern` begin that are counted in `text` from
/// the position `from` on.
pub open spec fn occurrence_starts(text: Seq<char>, pattern: Seq<char>, from: int) -> Seq<int>
    decreases text.len() - from,
{
    if pattern.len() == 0 || from < 0 || text.len() - from < pattern.len() {
        Seq::empty()
    } else if occurs_at(text, pattern, from) {
        seq![from] + occurrence_starts(text, pattern, from + pattern.len())
    } else {
        occurrence_starts(text, pattern, from + 1)
    }
}

/// What is counted are occurrences that do not overlap: as many places as
/// the count says, each of which holds the pattern, and each of which begins
/// where the one before it has ended, or later.
pub proof fn lemma_occurrences_do_not_overlap(text: Seq<char>, pattern: Seq<char>, from: int)
    requires
        0 <= from <= text.len(),
    ensures
        ({
            let starts = occurrence_starts(text, pattern, from);
            &&& starts.len() == occurrences(text.skip(from), pattern)
            &&& forall|i: int|
                0 <= i < starts.len() ==> from <= #[trigger] starts[i] && occurs_at(
                    text,
                    pattern,
                    starts[i],
                )
            &&& forall|i: int, j: int|
                0 <= i < j < starts.len() ==> #[trigger] starts[i] + pattern.len()
                    <= #[trigger] starts[j]
        }),
    decreases text.len() - from,
{
    let starts = occurrence_starts(text, pattern, from);
    let rest = text.skip(from);
    let m = pattern.len() as int;
    if m == 0 || text.len() - from < m {
    } else {
        assert(rest.subrange(0, m) =~= text.subrange(from, from + m));
        if occurs_at(text, pattern, from) {
            let tail = occurrence_starts(text, pattern, from + m);
            lemma_occurrences_do_not_overlap(text, pattern, from + m);
            assert(rest.skip(m) =~= text.skip(from + m));
            assert forall|i: int| 0 <= i < starts.len() implies from <= #[trigger] starts[i]
                && occurs_at(text, pattern, starts[i]) by {
                if i > 0 {
                    assert(starts[i] == tail[i - 1]);
                }
            }
            assert forall|i: int, j: int| 0 <= i < j < starts.len() implies #[trigger] starts[i]
                + pattern.len() <= #[trigger] starts[j] by {
                assert(starts[j] == tail[j - 1]);
                if i > 0 {
                    assert(starts[i] == tail[i - 1]);
                }
            }
        } else {
            lemma_occurrences_do_not_overlap(text, pattern, from + 1);
            assert(rest.skip(1) =~= text.skip(from + 1));
        }
    }
}

/// No text holds more occurrences of a pattern than it has characters.
pub proof fn lemma_occurrences_bounded(text: Seq<char>, pattern: Seq<char>)
    ensures
        occurrences(text, pattern) <= text.len(),
    decreases text.len(),
{
    if pattern.len() == 0 || text.len() < pattern.len() {
    } else if pattern.is_prefix_of(text) {
        lemma_occurrences_bounded(text.skip(pattern.len() as int), pattern);
    } else {
        lemma_occurrences_bounded(text.skip(1), pattern);
    }
}

/// Counts the occurrences of `pattern` among the characters `text`.
pub fn count_in_chars(text: &Vec<char>, pattern: &Vec<char>) -> (count: usize)
    ensures
        count == occurrences(text@, pattern@),
{
    let n = text.len();
    let m = pattern.len();
    if m == 0 || n < m {
        return 0;
    }
    let mut count: usize = 0;
    let mut i: usize = 0;
    assert(text@.skip(0) =~= text@);
    while i <= n - m
        invariant
            0 < m <= n,
            n == text.len(),
            m == pattern.len(),
            i <= n,
            count + occurrences(text@.skip(i as int), pattern@) == occurrences(text@, pattern@),
        decreases n - i,
    {
        proof {
            lemma_occurrences_bounded(text@, pattern@);
            assert(text@.skip(i as int).subrange(0, m as int) =~= text@.subrange(
                i as int,
                i + m,
            ));
        }
        if matches_at(text, pattern, i) {
            assert(text@.skip(i as int).skip(m as int) =~= text@.skip(i + m));
            count += 1;
            i += m;
        } else {
            assert(text@.skip(i as int).skip(1) =~= text@.skip(i + 1));
            i += 1;
        }
    }
    count
}

/// Counts the occurrences of `pattern` in `text`.
pub fn count_occurrences(text: &str, pattern: &str) -> (count: usize)
    ensures
        count == occurrences(text@, pattern@),
{
    let t = chars_of(text);
    let p = chars_of(pattern);
    count_in_chars(&t, &p)
}

} // verus!
