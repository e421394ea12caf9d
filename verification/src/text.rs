//! Text operations, each stated over the characters of a string.

use vstd::prelude::*;

use crate::outside;

verus! {

// ── Characters ───────────────────────────────────────────────

/// The Unicode `White_Space` property, by code point.
pub open spec fn is_space(c: char) -> bool {
    let n = c as u32;
    ||| 0x09 <= n <= 0x0D
    ||| n == 0x20
    ||| n == 0x85
    ||| n == 0xA0
    ||| n == 0x1680
    ||| 0x2000 <= n <= 0x200A
    ||| n == 0x2028
    ||| n == 0x2029
    ||| n == 0x202F
    ||| n == 0x205F
    ||| n == 0x3000
}

/// Whether `c` separates words.
pub fn is_white_space(c: char) -> (b: bool)
    ensures
        b == is_space(c),
{
    let n: u32 = c as u32;
    (0x09 <= n && n <= 0x0D) || n == 0x20 || n == 0x85 || n == 0xA0 || n == 0x1680 || (0x2000 <= n
        && n <= 0x200A) || n == 0x2028 || n == 0x2029 || n == 0x202F || n == 0x205F || n == 0x3000
}

/// `A` to `Z` become `a` to `z`; every other character stays.
pub open spec fn ascii_lower_char(c: char) -> char {
    if 'A' <= c <= 'Z' {
        ((c as u32 + 32) as u32) as char
    } else {
        c
    }
}

/// The text with its ASCII letters in lower case.
pub open spec fn ascii_lower(s: Seq<char>) -> Seq<char> {
    s.map_values(|c: char| ascii_lower_char(c))
}

/// Letters and digits of ASCII.
pub open spec fn is_ascii_alnum(c: char) -> bool {
    ('a' <= c <= 'z') || ('A' <= c <= 'Z') || ('0' <= c <= '9')
}

// ── Views of string collections ──────────────────────────────

/// The texts of owned strings.
pub open spec fn strings(v: Seq<String>) -> Seq<Seq<char>> {
    v.map_values(|s: String| s@)
}

/// The texts of string slices.
pub open spec fn texts(v: Seq<&str>) -> Seq<Seq<char>> {
    v.map_values(|s: &str| s@)
}

/// The text of an optional string.
pub open spec fn opt_text(o: Option<String>) -> Option<Seq<char>> {
    match o {
        Some(s) => Some(s@),
        None => None,
    }
}

/// The text, or the other one where there is none.
pub open spec fn or_text(value: Option<Seq<char>>, other: Seq<char>) -> Seq<char> {
    match value {
        Some(v) => v,
        None => other,
    }
}

/// The texts of optional strings.
pub open spec fn opt_texts(v: Seq<Option<String>>) -> Seq<Option<Seq<char>>> {
    v.map_values(|o: Option<String>| opt_text(o))
}

// ── Substrings ───────────────────────────────────────────────

/// `part` occurs in `s` as a contiguous block.
pub open spec fn contains(s: Seq<char>, part: Seq<char>) -> bool {
    exists|i: int| #[trigger] occurs_at(s, part, i)
}

/// `part` occurs in `s` starting at position `i`.
pub open spec fn occurs_at(s: Seq<char>, part: Seq<char>, i: int) -> bool {
    0 <= i && i + part.len() <= s.len() && s.subrange(i, i + part.len()) == part
}

/// The characters of `s`, in order.
pub fn chars_of(s: &str) -> (r: Vec<char>)
    ensures
        r@ == s@,
{
    let mut it = s.chars();
    let mut out: Vec<char> = Vec::new();
    assert(out@ + vstd::std_specs::iter::IteratorSpec::remaining(&it) =~= s@);
    loop
        invariant
            out@ + vstd::std_specs::iter::IteratorSpec::remaining(&it) == s@,
        ensures
            out@ == s@,
        decreases s@.len() - out@.len(),
    {
        match it.next() {
            Some(c) => {
                out.push(c);
                assert(out@ + vstd::std_specs::iter::IteratorSpec::remaining(&it) =~= s@);
            },
            None => {
                assert(out@ =~= s@);
                break;
            },
        }
    }
    out
}

/// Whether `part` stands in `s` at position `i`.
fn matches_at(s: &Vec<char>, part: &Vec<char>, i: usize) -> (b: bool)
    ensures
        b == occurs_at(s@, part@, i as int),
{
    if i > s.len() || part.len() > s.len() - i {
        return false;
    }
    let mut k: usize = 0;
    while k < part.len()
        invariant
            k <= part.len(),
            i + part.len() <= s.len(),
            forall|j: int| 0 <= j < k ==> s@[i + j] == part@[j],
        decreases part.len() - k,
    {
        if s[i + k] != part[k] {
            assert(s@.subrange(i as int, i + part@.len())[k as int] != part@[k as int]);
            return false;
        }
        k += 1;
    }
    assert(s@.subrange(i as int, i + part@.len()) =~= part@);
    true
}

/// Whether two texts are the same.
pub fn str_eq(a: &str, b: &str) -> (r: bool)
    ensures
        r == (a@ == b@),
{
    let x = chars_of(a);
    let y = chars_of(b);
    if x.len() != y.len() {
        return false;
    }
    proof {
        assert(x@.subrange(0, y@.len() as int) =~= x@);
    }
    matches_at(&x, &y, 0)
}

/// Whether `s` begins with `part`.
pub fn has_prefix(s: &str, part: &str) -> (r: bool)
    ensures
        r == part@.is_prefix_of(s@),
{
    let x = chars_of(s);
    let y = chars_of(part);
    matches_at(&x, &y, 0)
}

/// Whether `s` ends with `part`.
pub fn has_suffix(s: &str, part: &str) -> (r: bool)
    ensures
        r == part@.is_suffix_of(s@),
{
    let x = chars_of(s);
    let y = chars_of(part);
    if y.len() > x.len() {
        return false;
    }
    matches_at(&x, &y, x.len() - y.len())
}

/// Whether `part` occurs anywhere in `s`.
pub fn has_substring(s: &str, part: &str) -> (r: bool)
    ensures
        r == contains(s@, part@),
{
    let x = chars_of(s);
    let y = chars_of(part);
    if y.len() > x.len() {
        return false;
    }
    let last: usize = x.len() - y.len();
    let mut i: usize = 0;
    while i <= last
        invariant
            i <= last + 1,
            last == x.len() - y.len(),
            x.len() >= y.len(),
            x@ == s@,
            y@ == part@,
            forall|j: int| 0 <= j < i ==> !#[trigger] occurs_at(s@, part@, j),
        decreases last + 1 - i,
    {
        if matches_at(&x, &y, i) {
            assert(occurs_at(s@, part@, i as int));
            return true;
        }
        if i == last {
            assert forall|j: int| !#[trigger] occurs_at(s@, part@, j) by {
                if 0 <= j <= last {
                } else if j > last {
                    assert(j + part@.len() > s@.len());
                }
            }
            return false;
        }
        i += 1;
    }
    false
}

/// Whether the character `c` occurs in `s`.
pub fn has_char(s: &str, c: char) -> (r: bool)
    ensures
        r == s@.contains(c),
{
    let x = chars_of(s);
    let mut i: usize = 0;
    while i < x.len()
        invariant
            i <= x.len(),
            x@ == s@,
            forall|j: int| 0 <= j < i ==> x@[j] != c,
        decreases x.len() - i,
    {
        if x[i] == c {
            return true;
        }
        i += 1;
    }
    false
}

// ── Words ────────────────────────────────────────────────────

/// Length of the longest leading run without white space.
pub open spec fn run_len(s: Seq<char>) -> nat
    decreases s.len(),
{
    if s.len() == 0 || is_space(s[0]) {
        0
    } else {
        1 + run_len(s.skip(1))
    }
}

/// The maximal runs without white space, from left to right.
pub open spec fn words(s: Seq<char>) -> Seq<Seq<char>>
    decreases s.len(),
{
    if s.len() == 0 {
        Seq::empty()
    } else if is_space(s[0]) {
        words(s.skip(1))
    } else {
        proof {
            lemma_run_len_bound(s);
        }
        seq![s.take(run_len(s) as int)] + words(s.skip(run_len(s) as int))
    }
}

pub proof fn lemma_run_len_bound(s: Seq<char>)
    ensures
        run_len(s) <= s.len(),
    decreases s.len(),
{
    if s.len() > 0 && !is_space(s[0]) {
        lemma_run_len_bound(s.skip(1));
    }
}

/// A run that ends at white space or at the end of the text is the longest one.
proof fn lemma_run_len_is(s: Seq<char>, k: int)
    requires
        0 <= k <= s.len(),
        forall|j: int| 0 <= j < k ==> !is_space(#[trigger] s[j]),
        k == s.len() || is_space(s[k]),
    ensures
        run_len(s) == k,
    decreases k,
{
    if k > 0 {
        assert(!is_space(s[0]));
        assert forall|j: int| 0 <= j < k - 1 implies !is_space(#[trigger] s.skip(1)[j]) by {
            assert(s.skip(1)[j] == s[j + 1]);
        }
        if k < s.len() {
            assert(s.skip(1)[k - 1] == s[k]);
        }
        lemma_run_len_is(s.skip(1), k - 1);
    }
}

/// The white-space separated words of `s`.
pub fn split_words<'a>(s: &'a str) -> (r: Vec<&'a str>)
    ensures
        texts(r@) == words(s@),
{
    let x = chars_of(s);
    let mut out: Vec<&'a str> = Vec::new();
    let mut i: usize = 0;
    assert(s@.skip(0) =~= s@);
    assert(texts(out@) + words(s@) =~= words(s@));
    while i < x.len()
        invariant
            i <= x.len(),
            x@ == s@,
            texts(out@) + words(s@.skip(i as int)) == words(s@),
        decreases x.len() - i,
    {
        let ghost rest = s@.skip(i as int);
        assert(rest[0] == x@[i as int]);
        if is_white_space(x[i]) {
            assert(rest.skip(1) =~= s@.skip(i + 1));
            i += 1;
        } else {
            let mut j: usize = i + 1;
            while j < x.len() && !is_white_space(x[j])
                invariant
                    i < j <= x.len(),
                    x@ == s@,
                    forall|k: int| i <= k < j ==> !is_space(#[trigger] x@[k]),
                decreases x.len() - j,
            {
                j += 1;
            }
            let word = s.substring_char(i, j);
            proof {
                assert forall|k: int| 0 <= k < j - i implies !is_space(#[trigger] rest[k]) by {
                    assert(rest[k] == x@[i + k]);
                }
                if j < x.len() {
                    assert(rest[j - i] == x@[j as int]);
                }
                lemma_run_len_is(rest, j - i);
                assert(rest.take(j - i) =~= word@);
                assert(rest.skip(j - i) =~= s@.skip(j as int));
                assert(texts(out@.push(word)) =~= texts(out@).push(word@));
                assert(texts(out@) + (seq![word@] + words(s@.skip(j as int))) =~= texts(
                    out@,
                ).push(word@) + words(s@.skip(j as int)));
            }
            out.push(word);
            i = j;
        }
    }
    assert(s@.skip(i as int) =~= Seq::<char>::empty());
    assert(texts(out@) + words(s@.skip(i as int)) =~= texts(out@));
    out
}

// ── Trimming ─────────────────────────────────────────────────

/// `s` without its leading characters that satisfy `strip`.
pub open spec fn trim_start(s: Seq<char>, strip: spec_fn(char) -> bool) -> Seq<char>
    decreases s.len(),
{
    if s.len() > 0 && strip(s[0]) {
        trim_start(s.skip(1), strip)
    } else {
        s
    }
}

/// `s` without its trailing characters that satisfy `strip`.
pub open spec fn trim_end(s: Seq<char>, strip: spec_fn(char) -> bool) -> Seq<char>
    decreases s.len(),
{
    if s.len() > 0 && strip(s.last()) {
        trim_end(s.drop_last(), strip)
    } else {
        s
    }
}

/// `s` without the characters at either end that satisfy `strip`.
pub open spec fn trim_by(s: Seq<char>, strip: spec_fn(char) -> bool) -> Seq<char> {
    trim_end(trim_start(s, strip), strip)
}

/// `s` without white space at either end.
pub open spec fn trim(s: Seq<char>) -> Seq<char> {
    trim_by(s, |c: char| is_space(c))
}

proof fn lemma_trim_start_is(s: Seq<char>, strip: spec_fn(char) -> bool, a: int)
    requires
        0 <= a <= s.len(),
        forall|j: int| 0 <= j < a ==> strip(#[trigger] s[j]),
        a == s.len() || !strip(s[a]),
    ensures
        trim_start(s, strip) == s.skip(a),
    decreases a,
{
    if a > 0 {
        assert(strip(s[0]));
        assert forall|j: int| 0 <= j < a - 1 implies strip(#[trigger] s.skip(1)[j]) by {
            assert(s.skip(1)[j] == s[j + 1]);
        }
        if a < s.len() {
            assert(s.skip(1)[a - 1] == s[a]);
        }
        lemma_trim_start_is(s.skip(1), strip, a - 1);
        assert(s.skip(1).skip(a - 1) =~= s.skip(a));
    } else {
        assert(s.skip(0) =~= s);
    }
}

proof fn lemma_trim_end_is(s: Seq<char>, strip: spec_fn(char) -> bool, b: int)
    requires
        0 <= b <= s.len(),
        forall|j: int| b <= j < s.len() ==> strip(#[trigger] s[j]),
        b == 0 || !strip(s[b - 1]),
    ensures
        trim_end(s, strip) == s.take(b),
    decreases s.len() - b,
{
    if b < s.len() {
        assert(strip(s[s.len() - 1]));
        lemma_trim_end_is(s.drop_last(), strip, b);
        assert(s.drop_last().take(b) =~= s.take(b));
    } else {
        assert(s.take(b) =~= s);
    }
}

/// The bounds that remain when the flagged ends are cut off.
fn trim_bounds(flags: &Vec<bool>) -> (r: (usize, usize))
    ensures
        r.0 <= r.1 <= flags@.len(),
        forall|j: int| 0 <= j < r.0 ==> #[trigger] flags@[j],
        r.0 == flags@.len() || !flags@[r.0 as int],
        forall|j: int| r.1 <= j < flags@.len() ==> #[trigger] flags@[j],
        r.1 == r.0 || !flags@[r.1 - 1],
{
    let mut a: usize = 0;
    while a < flags.len() && flags[a]
        invariant
            a <= flags.len(),
            forall|j: int| 0 <= j < a ==> #[trigger] flags@[j],
        decreases flags.len() - a,
    {
        a += 1;
    }
    let mut b: usize = flags.len();
    while b > a && flags[b - 1]
        invariant
            a <= b <= flags.len(),
            forall|j: int| b <= j < flags@.len() ==> #[trigger] flags@[j],
        decreases b,
    {
        b -= 1;
    }
    (a, b)
}

proof fn lemma_trim_is(s: Seq<char>, strip: spec_fn(char) -> bool, a: int, b: int)
    requires
        0 <= a <= b <= s.len(),
        forall|j: int| 0 <= j < a ==> strip(#[trigger] s[j]),
        a == s.len() || !strip(s[a]),
        forall|j: int| b <= j < s.len() ==> strip(#[trigger] s[j]),
        b == a || !strip(s[b - 1]),
    ensures
        trim_by(s, strip) == s.subrange(a, b),
{
    lemma_trim_start_is(s, strip, a);
    let t = s.skip(a);
    assert forall|j: int| b - a <= j < t.len() implies strip(#[trigger] t[j]) by {
        assert(t[j] == s[j + a]);
    }
    if b > a {
        assert(t[b - a - 1] == s[b - 1]);
    }
    lemma_trim_end_is(t, strip, b - a);
    assert(t.take(b - a) =~= s.subrange(a, b));
}

/// `s` without white space at either end.
pub fn trim_spaces<'a>(s: &'a str) -> (r: &'a str)
    ensures
        r@ == trim(s@),
{
    let x = chars_of(s);
    let mut flags: Vec<bool> = Vec::new();
    let mut i: usize = 0;
    while i < x.len()
        invariant
            i <= x.len(),
            flags.len() == i,
            forall|j: int| 0 <= j < i ==> #[trigger] flags@[j] == is_space(x@[j]),
        decreases x.len() - i,
    {
        flags.push(is_white_space(x[i]));
        i += 1;
    }
    let (a, b) = trim_bounds(&flags);
    proof {
        let strip = |c: char| is_space(c);
        assert forall|j: int| 0 <= j < a implies strip(#[trigger] s@[j]) by {
            assert(flags@[j]);
        }
        assert forall|j: int| b <= j < s@.len() implies strip(#[trigger] s@[j]) by {
            assert(flags@[j]);
        }
        lemma_trim_is(s@, strip, a as int, b as int);
    }
    s.substring_char(a, b)
}

/// `s` without the characters at either end that are neither letter nor digit.
pub open spec fn trim_punctuation(s: Seq<char>) -> Seq<char> {
    trim_by(s, |c: char| !outside::alphanumeric(c))
}

/// `s` without the characters at either end that are neither letter nor digit.
pub fn trim_to_alphanumeric<'a>(s: &'a str) -> (r: &'a str)
    ensures
        r@ == trim_punctuation(s@),
{
    let x = chars_of(s);
    let mut flags: Vec<bool> = Vec::new();
    let mut i: usize = 0;
    while i < x.len()
        invariant
            i <= x.len(),
            flags.len() == i,
            forall|j: int|
                0 <= j < i ==> #[trigger] flags@[j] == !outside::alphanumeric(x@[j]),
        decreases x.len() - i,
    {
        flags.push(!x[i].is_alphanumeric());
        i += 1;
    }
    let (a, b) = trim_bounds(&flags);
    proof {
        let strip = |c: char| !outside::alphanumeric(c);
        assert forall|j: int| 0 <= j < a implies strip(#[trigger] s@[j]) by {
            assert(flags@[j]);
        }
        assert forall|j: int| b <= j < s@.len() implies strip(#[trigger] s@[j]) by {
            assert(flags@[j]);
        }
        lemma_trim_is(s@, strip, a as int, b as int);
    }
    s.substring_char(a, b)
}

// ── Path components ──────────────────────────────────────────

/// `s[i..j]` lies between two separators, or the ends of the text, and holds no
/// separator itself.
pub open spec fn is_segment(s: Seq<char>, sep: char, i: int, j: int) -> bool {
    &&& 0 <= i <= j <= s.len()
    &&& i == 0 || s[i - 1] == sep
    &&& j == s.len() || s[j] == sep
    &&& forall|k: int| i <= k < j ==> s[k] != sep
}

/// `part` is one of the pieces into which `sep` divides `s`.
pub open spec fn has_segment(s: Seq<char>, sep: char, part: Seq<char>) -> bool {
    exists|i: int, j: int| #[trigger] is_segment(s, sep, i, j) && s.subrange(i, j) == part
}

/// Position just behind the last separator.
pub open spec fn after_last(s: Seq<char>, sep: char) -> int
    decreases s.len(),
{
    if s.len() == 0 {
        0
    } else if s.last() == sep {
        s.len() as int
    } else {
        after_last(s.drop_last(), sep)
    }
}

/// What follows the last separator, or the whole text where there is none.
pub open spec fn last_segment(s: Seq<char>, sep: char) -> Seq<char> {
    s.skip(after_last(s, sep))
}

proof fn lemma_after_last_is(s: Seq<char>, sep: char, a: int)
    requires
        0 <= a <= s.len(),
        a == 0 || s[a - 1] == sep,
        forall|j: int| a <= j < s.len() ==> s[j] != sep,
    ensures
        after_last(s, sep) == a,
    decreases s.len(),
{
    if s.len() > 0 && s.last() != sep {
        lemma_after_last_is(s.drop_last(), sep, a);
    }
}

/// What follows the last `sep` in `s`.
pub fn tail_after<'a>(s: &'a str, sep: char) -> (r: &'a str)
    ensures
        r@ == last_segment(s@, sep),
{
    let x = chars_of(s);
    let mut a: usize = x.len();
    while a > 0 && x[a - 1] != sep
        invariant
            a <= x.len(),
            forall|j: int| a <= j < x@.len() ==> x@[j] != sep,
        decreases a,
    {
        a -= 1;
    }
    proof {
        lemma_after_last_is(s@, sep, a as int);
    }
    s.substring_char(a, x.len())
}

/// Whether `part` is one of the pieces into which `sep` divides `s`.
pub fn any_segment_is(s: &str, sep: char, part: &str) -> (r: bool)
    ensures
        r == has_segment(s@, sep, part@),
{
    let x = chars_of(s);
    let mut i: usize = 0;
    loop
        invariant
            i <= x.len(),
            x@ == s@,
            i == 0 || x@[i - 1] == sep,
            forall|a: int, b: int|
                a < i && #[trigger] is_segment(s@, sep, a, b) ==> s@.subrange(a, b) != part@,
        decreases x.len() - i,
    {
        let mut j: usize = i;
        while j < x.len() && x[j] != sep
            invariant
                i <= j <= x.len(),
                forall|k: int| i <= k < j ==> x@[k] != sep,
            decreases x.len() - j,
        {
            j += 1;
        }
        assert(is_segment(s@, sep, i as int, j as int));
        if str_eq(s.substring_char(i, j), part) {
            return true;
        }
        assert forall|a: int, b: int| a <= j && #[trigger] is_segment(s@, sep, a, b) implies s@.subrange(
            a,
            b,
        ) != part@ by {
            if a == i {
                if b < j {
                    assert(s@[b] == sep);
                } else if b > j {
                    assert(s@[j as int] == sep);
                }
            } else if a > i {
                assert(s@[a - 1] == sep);
            }
        }
        if j == x.len() {
            return false;
        }
        i = j + 1;
    }
}

// ── Building text ────────────────────────────────────────────

/// The text with its ASCII letters in lower case.
pub fn to_ascii_lower(s: &str) -> (r: String)
    ensures
        r@ == ascii_lower(s@),
{
    let x = chars_of(s);
    let mut out = String::new();
    let mut i: usize = 0;
    while i < x.len()
        invariant
            i <= x.len(),
            x@ == s@,
            out@ == ascii_lower(s@.take(i as int)),
        decreases x.len() - i,
    {
        let c = x[i];
        let d = if 'A' <= c && c <= 'Z' {
            ((c as u8) + 32) as char
        } else {
            c
        };
        proof {
            assert(d == ascii_lower_char(c));
            assert(s@.take(i + 1) =~= s@.take(i as int).push(c));
            assert(ascii_lower(s@.take(i + 1)) =~= ascii_lower(s@.take(i as int)).push(d));
        }
        out.push(d);
        i += 1;
    }
    assert(s@.take(i as int) =~= s@);
    out
}

/// `s` with every `c` replaced by the text `by`.
pub open spec fn replaced(s: Seq<char>, c: char, by: Seq<char>) -> Seq<char>
    decreases s.len(),
{
    if s.len() == 0 {
        Seq::empty()
    } else {
        replaced(s.drop_last(), c, by) + (if s.last() == c {
            by
        } else {
            seq![s.last()]
        })
    }
}

/// `s` with every `c` replaced by the text `by`.
pub fn replace_char(s: &str, c: char, by: &str) -> (r: String)
    ensures
        r@ == replaced(s@, c, by@),
{
    let x = chars_of(s);
    let mut out = String::new();
    let mut i: usize = 0;
    while i < x.len()
        invariant
            i <= x.len(),
            x@ == s@,
            out@ == replaced(s@.take(i as int), c, by@),
        decreases x.len() - i,
    {
        proof {
            assert(s@.take(i + 1).drop_last() =~= s@.take(i as int));
            assert(s@.take(i + 1).last() == x@[i as int]);
        }
        if x[i] == c {
            out.append(by);
        } else {
            let ghost before = out@;
            out.push(x[i]);
            assert(out@ =~= before + seq![x@[i as int]]);
        }
        i += 1;
    }
    assert(s@.take(i as int) =~= s@);
    out
}

/// The parts in order, with `sep` between neighbours.
pub open spec fn joined(parts: Seq<Seq<char>>, sep: Seq<char>) -> Seq<char>
    decreases parts.len(),
{
    if parts.len() == 0 {
        Seq::empty()
    } else if parts.len() == 1 {
        parts[0]
    } else {
        joined(parts.drop_last(), sep) + sep + parts.last()
    }
}

/// The parts in order, with `sep` between neighbours.
pub fn join(parts: &Vec<String>, sep: &str) -> (r: String)
    ensures
        r@ == joined(strings(parts@), sep@),
{
    let mut out = String::new();
    let mut i: usize = 0;
    while i < parts.len()
        invariant
            i <= parts.len(),
            out@ == joined(strings(parts@).take(i as int), sep@),
        decreases parts.len() - i,
    {
        let ghost all = strings(parts@);
        proof {
            assert(all.take(i + 1).drop_last() =~= all.take(i as int));
            assert(all.take(i + 1).last() == parts@[i as int]@);
        }
        let ghost before = out@;
        if i > 0 {
            out.append(sep);
        }
        out.append(parts[i].as_str());
        proof {
            if i == 0 {
                assert(all.take(0) =~= Seq::<Seq<char>>::empty());
                assert(out@ =~= parts@[0]@);
            }
        }
        i += 1;
    }
    assert(strings(parts@).take(i as int) =~= strings(parts@));
    out
}

/// The decimal digit of a number below ten.
pub open spec fn digit(d: nat) -> char {
    if d == 0 {
        '0'
    } else if d == 1 {
        '1'
    } else if d == 2 {
        '2'
    } else if d == 3 {
        '3'
    } else if d == 4 {
        '4'
    } else if d == 5 {
        '5'
    } else if d == 6 {
        '6'
    } else if d == 7 {
        '7'
    } else if d == 8 {
        '8'
    } else {
        '9'
    }
}

/// A number in decimal notation, without leading zeros.
pub open spec fn decimal(n: nat) -> Seq<char>
    decreases n,
{
    if n < 10 {
        seq![digit(n)]
    } else {
        decimal(n / 10).push(digit(n % 10))
    }
}

/// A number in decimal notation.
pub fn to_decimal(n: u64) -> (r: String)
    ensures
        r@ == decimal(n as nat),
    decreases n,
{
    let last: u64 = n % 10;
    let c = if last == 0 {
        '0'
    } else if last == 1 {
        '1'
    } else if last == 2 {
        '2'
    } else if last == 3 {
        '3'
    } else if last == 4 {
        '4'
    } else if last == 5 {
        '5'
    } else if last == 6 {
        '6'
    } else if last == 7 {
        '7'
    } else if last == 8 {
        '8'
    } else {
        '9'
    };
    let mut s = if n < 10 {
        String::new()
    } else {
        to_decimal(n / 10)
    };
    let ghost before = s@;
    s.push(c);
    proof {
        if n < 10 {
            assert(s@ =~= seq![c]);
        }
    }
    s
}

/// An integer in decimal notation, with a minus sign where it is negative.
pub open spec fn signed_decimal(n: int) -> Seq<char> {
    if n < 0 {
        seq!['-'] + decimal((-n) as nat)
    } else {
        decimal(n as nat)
    }
}

/// An integer in decimal notation.
pub fn to_signed_decimal(n: i32) -> (r: String)
    ensures
        r@ == signed_decimal(n as int),
{
    if n < 0 {
        let mut out = "-".to_string();
        proof {
            reveal_strlit("-");
            assert(out@ =~= seq!['-']);
        }
        out.append(to_decimal((-(n as i64)) as u64).as_str());
        out
    } else {
        to_decimal(n as u64)
    }
}

/// `name` appended to the directory `dir`, with one `/` between them where `dir`
/// does not end in one.
pub open spec fn path_join(dir: Seq<char>, name: Seq<char>) -> Seq<char> {
    if dir.len() == 0 || dir.last() == '/' {
        dir + name
    } else {
        dir.push('/') + name
    }
}

/// `name` appended to the directory `dir`. `name` is a relative path.
pub fn join_path(dir: &str, name: &str) -> (r: String)
    ensures
        r@ == path_join(dir@, name@),
{
    let x = chars_of(dir);
    let mut out = dir.to_string();
    if x.len() > 0 && x[x.len() - 1] != '/' {
        out.push('/');
    }
    out.append(name);
    out
}

/// Owned copies of the listed texts.
pub fn owned(list: Vec<&str>) -> (r: Vec<String>)
    ensures
        strings(r@) == texts(list@),
{
    let mut out: Vec<String> = Vec::new();
    let mut i: usize = 0;
    while i < list.len()
        invariant
            i <= list.len(),
            out.len() == i,
            forall|j: int| 0 <= j < i ==> #[trigger] out@[j]@ == list@[j]@,
        decreases list.len() - i,
    {
        out.push(list[i].to_string());
        i += 1;
    }
    assert(strings(out@) =~= texts(list@));
    out
}

// ── Lists of texts ────────────────────────────────────────────

/// Whether `text` is in the list.
pub fn lists(list: &Vec<String>, text: &str) -> (b: bool)
    ensures
        b == strings(list@).contains(text@),
{
    let mut i: usize = 0;
    while i < list.len()
        invariant
            i <= list.len(),
            forall|j: int| 0 <= j < i ==> #[trigger] strings(list@)[j] != text@,
        decreases list.len() - i,
    {
        if str_eq(list[i].as_str(), text) {
            assert(strings(list@)[i as int] == text@);
            return true;
        }
        i += 1;
    }
    false
}

/// Whether `text` is among the slices.
pub fn any_is(list: &Vec<&str>, text: &str) -> (b: bool)
    ensures
        b == texts(list@).contains(text@),
{
    let mut i: usize = 0;
    while i < list.len()
        invariant
            i <= list.len(),
            forall|j: int| 0 <= j < i ==> #[trigger] texts(list@)[j] != text@,
        decreases list.len() - i,
    {
        if str_eq(list[i], text) {
            assert(texts(list@)[i as int] == text@);
            return true;
        }
        i += 1;
    }
    false
}

/// The slices without repetitions, in the order of their first occurrence.
pub fn distinct<'a>(list: &Vec<&'a str>) -> (r: Vec<&'a str>)
    ensures
        texts(r@).no_duplicates(),
        texts(r@).to_set() == texts(list@).to_set(),
{
    let mut out: Vec<&'a str> = Vec::new();
    let mut i: usize = 0;
    assert(texts(out@).to_set() =~= texts(list@).take(0).to_set());
    while i < list.len()
        invariant
            i <= list.len(),
            texts(out@).no_duplicates(),
            texts(out@).to_set() == texts(list@).take(i as int).to_set(),
        decreases list.len() - i,
    {
        let w = list[i];
        let ghost all = texts(list@);
        let ghost seen = all.take(i as int);
        let ghost before = texts(out@);
        assert(all.take(i + 1) =~= seen.push(w@));
        proof {
            assert(seen.push(w@).to_set() =~= seen.to_set().insert(w@)) by {
                assert(seen.push(w@)[seen.len() as int] == w@);
                assert forall|x: Seq<char>| seen.to_set().contains(x) implies seen.push(
                    w@,
                ).to_set().contains(x) by {
                    let k = choose|k: int| 0 <= k < seen.len() && seen[k] == x;
                    assert(seen.push(w@)[k] == x);
                }
            }
        }
        if !any_is(&out, w) {
            out.push(w);
            proof {
                assert(texts(out@) =~= before.push(w@));
                assert(before.push(w@).to_set() =~= before.to_set().insert(w@)) by {
                    assert(before.push(w@)[before.len() as int] == w@);
                    assert forall|x: Seq<char>| before.to_set().contains(x) implies before.push(
                        w@,
                    ).to_set().contains(x) by {
                        let k = choose|k: int| 0 <= k < before.len() && before[k] == x;
                        assert(before.push(w@)[k] == x);
                    }
                }
            }
        } else {
            proof {
                assert(before.to_set().contains(w@));
                assert(before.to_set() =~= before.to_set().insert(w@));
            }
        }
        i += 1;
    }
    assert(texts(list@).take(i as int) =~= texts(list@));
    out
}

/// How many texts two lists without repetitions have in common.
pub fn common_count(a: &Vec<&str>, b: &Vec<&str>) -> (n: usize)
    requires
        texts(a@).no_duplicates(),
        texts(b@).no_duplicates(),
    ensures
        n == texts(a@).to_set().intersect(texts(b@).to_set()).len(),
        n <= a@.len(),
{
    let mut n: usize = 0;
    let mut i: usize = 0;
    let ghost mut both: Seq<Seq<char>> = Seq::empty();
    while i < a.len()
        invariant
            i <= a.len(),
            n == both.len(),
            n <= i,
            texts(a@).no_duplicates(),
            both.no_duplicates(),
            forall|x: Seq<char>|
                both.contains(x) <==> texts(a@).take(i as int).contains(x) && texts(b@).contains(x),
        decreases a.len() - i,
    {
        let ghost all = texts(a@);
        let ghost w = a@[i as int]@;
        let ghost before = both;
        assert(all.take(i + 1) =~= all.take(i as int).push(w));
        proof {
            assert(!all.take(i as int).contains(w)) by {
                if all.take(i as int).contains(w) {
                    let k = choose|k: int|
                        0 <= k < all.take(i as int).len() && all.take(i as int)[k] == w;
                    assert(all[k] == all[i as int]);
                }
            }
            assert forall|x: Seq<char>| all.take(i + 1).contains(x) <==> (all.take(
                i as int,
            ).contains(x) || x == w) by {
                if all.take(i as int).contains(x) {
                    let k = choose|k: int|
                        0 <= k < all.take(i as int).len() && all.take(i as int)[k] == x;
                    assert(all.take(i + 1)[k] == x);
                }
                if x == w {
                    assert(all.take(i + 1)[i as int] == w);
                }
            }
        }
        if any_is(b, a[i]) {
            n += 1;
            proof {
                assert(!before.contains(w));
                both = both.push(w);
                assert forall|j: int, k: int|
                    0 <= j < both.len() && 0 <= k < both.len() && j != k implies both[j]
                    != both[k] by {
                    assert(forall|m: int| 0 <= m < before.len() ==> before.contains(before[m]));
                }
                assert forall|x: Seq<char>| both.contains(x) <==> (before.contains(x) || x == w) by {
                    if before.contains(x) {
                        let k = choose|k: int| 0 <= k < before.len() && before[k] == x;
                        assert(both[k] == x);
                    }
                    if x == w {
                        assert(both[before.len() as int] == w);
                    }
                }
            }
        }
        i += 1;
    }
    proof {
        assert(texts(a@).take(i as int) =~= texts(a@));
        both.unique_seq_to_set();
        assert(both.to_set() =~= texts(a@).to_set().intersect(texts(b@).to_set()));
    }
    n
}

}
