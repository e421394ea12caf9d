//! What holds of text operations.

use vstd::prelude::*;

use crate::text;

verus! {

// ── Characters ───────────────────────────────────────────────

/// ASCII letters in upper case become the letter 32 places on, and nothing else changes.
/// Doing so twice is doing so once.
pub proof fn law_ascii_lower(s: Seq<char>)
    ensures
        text::ascii_lower(s).len() == s.len(),
        forall|i: int|
            0 <= i < s.len() && 'A' <= s[i] && s[i] <= 'Z' ==> (#[trigger] text::ascii_lower(
                s,
            )[i]) as int == s[i] as int + 32,
        forall|i: int|
            0 <= i < s.len() && !('A' <= s[i] && s[i] <= 'Z') ==> #[trigger] text::ascii_lower(
                s,
            )[i] == s[i],
        text::ascii_lower(text::ascii_lower(s)) == text::ascii_lower(s),
{
    assert(text::ascii_lower(text::ascii_lower(s)) =~= text::ascii_lower(s));
}

/// Among the characters of ASCII those that separate words are the space and the five
/// control characters from the tabulator to the carriage return.
pub proof fn law_ascii_spaces(c: char)
    requires
        (c as u32) < 0x80,
    ensures
        text::is_space(c) <==> c == ' ' || (0x09 <= c as u32 && c as u32 <= 0x0D),
{
}

/// Beyond ASCII they are the other characters that Unicode calls white space.
pub proof fn law_wide_spaces(c: char)
    requires
        (c as u32) >= 0x80,
    ensures
        text::is_space(c) <==> c as u32 == 0x85 || c as u32 == 0xA0 || c as u32 == 0x1680 || (0x2000
            <= c as u32 && c as u32 <= 0x200A) || c as u32 == 0x2028 || c as u32 == 0x2029
            || c as u32 == 0x202F || c as u32 == 0x205F || c as u32 == 0x3000,
{
}

// ── Substrings ───────────────────────────────────────────────

/// A text occurs in another one where that is something before it, the text, and
/// something behind it.
pub proof fn law_contains(s: Seq<char>, part: Seq<char>)
    ensures
        text::contains(s, part) <==> exists|before: Seq<char>, after: Seq<char>|
            s == #[trigger] (before + part + after),
{
    if text::contains(s, part) {
        let i = choose|i: int| #[trigger] text::occurs_at(s, part, i);
        let before = s.take(i);
        let after = s.skip(i + part.len());
        assert(s =~= before + part + after);
    }
    if exists|before: Seq<char>, after: Seq<char>| s == #[trigger] (before + part + after) {
        let (before, after) = choose|before: Seq<char>, after: Seq<char>|
            s == #[trigger] (before + part + after);
        let i = before.len() as int;
        assert(s.subrange(i, i + part.len()) =~= part);
        assert(text::occurs_at(s, part, i));
    }
}

// ── Words ────────────────────────────────────────────────────

/// No character of the text is white space.
pub open spec fn is_solid(s: Seq<char>) -> bool {
    forall|i: int| 0 <= i < s.len() ==> !text::is_space(#[trigger] s[i])
}

proof fn lemma_run_len_solid(s: Seq<char>)
    requires
        is_solid(s),
    ensures
        text::run_len(s) == s.len(),
    decreases s.len(),
{
    if s.len() > 0 {
        assert(!text::is_space(s[0]));
        assert forall|i: int| 0 <= i < s.skip(1).len() implies !text::is_space(
            #[trigger] s.skip(1)[i],
        ) by {
            assert(s.skip(1)[i] == s[i + 1]);
        }
        lemma_run_len_solid(s.skip(1));
    }
}

proof fn lemma_run_len_stops(a: Seq<char>, c: char, b: Seq<char>)
    requires
        text::is_space(c),
    ensures
        text::run_len(a + seq![c] + b) == text::run_len(a),
    decreases a.len(),
{
    let s = a + seq![c] + b;
    if a.len() == 0 {
        assert(s[0] == c);
    } else {
        assert(s[0] == a[0]);
        if !text::is_space(a[0]) {
            assert(s.skip(1) =~= a.skip(1) + seq![c] + b);
            lemma_run_len_stops(a.skip(1), c, b);
        }
    }
}

/// Words are what white space leaves: a text without any is one word, nothing is none,
/// and white space between two texts keeps their words apart.
pub proof fn law_words(a: Seq<char>, c: char, b: Seq<char>)
    requires
        text::is_space(c),
    ensures
        text::words(a + seq![c] + b) == text::words(a) + text::words(b),
        a.len() > 0 && is_solid(a) ==> text::words(a) == seq![a],
        text::words(Seq::empty()) == Seq::<Seq<char>>::empty(),
    decreases a.len(),
{
    let s = a + seq![c] + b;
    if a.len() == 0 {
        assert(s[0] == c);
        assert(s.skip(1) =~= b);
        assert(text::words(a) + text::words(b) =~= text::words(b));
    } else if text::is_space(a[0]) {
        assert(s[0] == a[0]);
        assert(s.skip(1) =~= a.skip(1) + seq![c] + b);
        law_words(a.skip(1), c, b);
    } else {
        assert(s[0] == a[0]);
        lemma_run_len_stops(a, c, b);
        text::lemma_run_len_bound(a);
        let n = text::run_len(a) as int;
        assert(s.take(n) =~= a.take(n));
        assert(s.skip(n) =~= a.skip(n) + seq![c] + b);
        assert(n > 0);
        law_words(a.skip(n), c, b);
        assert(seq![a.take(n)] + (text::words(a.skip(n)) + text::words(b)) =~= (seq![a.take(n)]
            + text::words(a.skip(n))) + text::words(b));
    }
    if a.len() > 0 && is_solid(a) {
        assert(!text::is_space(a[0]));
        lemma_run_len_solid(a);
        assert(a.take(a.len() as int) =~= a);
        assert(a.skip(a.len() as int) =~= Seq::<char>::empty());
        assert(seq![a] + Seq::<Seq<char>>::empty() =~= seq![a]);
    }
}

// ── Trimming ─────────────────────────────────────────────────

proof fn lemma_trim_start_front(front: Seq<char>, s: Seq<char>, strip: spec_fn(char) -> bool)
    requires
        forall|i: int| 0 <= i < front.len() ==> strip(#[trigger] front[i]),
    ensures
        text::trim_start(front + s, strip) == text::trim_start(s, strip),
    decreases front.len(),
{
    if front.len() > 0 {
        let all = front + s;
        assert(strip(front[0]));
        assert(all[0] == front[0]);
        assert(all.skip(1) =~= front.skip(1) + s);
        assert forall|i: int| 0 <= i < front.skip(1).len() implies strip(
            #[trigger] front.skip(1)[i],
        ) by {
            assert(front.skip(1)[i] == front[i + 1]);
        }
        lemma_trim_start_front(front.skip(1), s, strip);
    } else {
        assert(front + s =~= s);
    }
}

proof fn lemma_trim_end_back(s: Seq<char>, back: Seq<char>, strip: spec_fn(char) -> bool)
    requires
        forall|i: int| 0 <= i < back.len() ==> strip(#[trigger] back[i]),
    ensures
        text::trim_end(s + back, strip) == text::trim_end(s, strip),
    decreases back.len(),
{
    if back.len() > 0 {
        let all = s + back;
        assert(strip(back[back.len() - 1]));
        assert(all.last() == back.last());
        assert(all.drop_last() =~= s + back.drop_last());
        assert forall|i: int| 0 <= i < back.drop_last().len() implies strip(
            #[trigger] back.drop_last()[i],
        ) by {
            assert(back.drop_last()[i] == back[i]);
        }
        lemma_trim_end_back(s, back.drop_last(), strip);
    } else {
        assert(s + back =~= s);
    }
}

/// Trimming takes off exactly what is to be stripped at either end: what is left between
/// stripped characters comes out as it is, where it neither begins nor ends with one.
pub proof fn law_trimming(
    front: Seq<char>,
    s: Seq<char>,
    back: Seq<char>,
    strip: spec_fn(char) -> bool,
)
    requires
        forall|i: int| 0 <= i < front.len() ==> strip(#[trigger] front[i]),
        forall|i: int| 0 <= i < back.len() ==> strip(#[trigger] back[i]),
        s.len() > 0 ==> !strip(s[0]) && !strip(s.last()),
    ensures
        text::trim_by(front + s + back, strip) == s,
{
    assert(front + s + back =~= front + (s + back));
    lemma_trim_start_front(front, s + back, strip);
    if s.len() > 0 {
        assert((s + back)[0] == s[0]);
        lemma_trim_end_back(s, back, strip);
    } else {
        assert(s + back =~= back + Seq::<char>::empty());
        lemma_trim_start_front(back, Seq::empty(), strip);
        assert(s =~= Seq::<char>::empty());
    }
}

/// White space around a text does not matter once it is trimmed.
pub proof fn law_trimmed_spaces(front: Seq<char>, s: Seq<char>, back: Seq<char>)
    requires
        forall|i: int| 0 <= i < front.len() ==> text::is_space(#[trigger] front[i]),
        forall|i: int| 0 <= i < back.len() ==> text::is_space(#[trigger] back[i]),
        s.len() > 0 ==> !text::is_space(s[0]) && !text::is_space(s.last()),
    ensures
        text::trim(front + s + back) == s,
{
    law_trimming(front, s, back, |c: char| text::is_space(c));
}

/// What is neither letter nor digit around a text does not matter once its punctuation
/// is trimmed.
pub proof fn law_trimmed_punctuation(front: Seq<char>, s: Seq<char>, back: Seq<char>)
    requires
        forall|i: int|
            0 <= i < front.len() ==> !crate::outside::alphanumeric(#[trigger] front[i]),
        forall|i: int| 0 <= i < back.len() ==> !crate::outside::alphanumeric(#[trigger] back[i]),
        s.len() > 0 ==> crate::outside::alphanumeric(s[0]) && crate::outside::alphanumeric(
            s.last(),
        ),
    ensures
        text::trim_punctuation(front + s + back) == s,
{
    law_trimming(front, s, back, |c: char| !crate::outside::alphanumeric(c));
}

// ── Numbers ──────────────────────────────────────────────────

/// The number that decimal digits stand for.
pub open spec fn value_of(digits: Seq<char>) -> int
    decreases digits.len(),
{
    if digits.len() == 0 {
        0
    } else {
        10 * value_of(digits.drop_last()) + (digits.last() as int - '0' as int)
    }
}

/// The decimal notation of a number stands for it, is made of digits, and does not begin
/// with a zero unless it is a single digit.
pub proof fn law_decimal(n: nat)
    ensures
        value_of(text::decimal(n)) == n,
        text::decimal(n).len() > 0,
        forall|i: int|
            0 <= i < text::decimal(n).len() ==> '0' <= #[trigger] text::decimal(n)[i]
                && text::decimal(n)[i] <= '9',
        text::decimal(n).len() > 1 ==> text::decimal(n)[0] != '0',
    decreases n,
{
    reveal_with_fuel(value_of, 2);
    let d = text::decimal(n);
    if n < 10 {
        assert(d.drop_last() =~= Seq::<char>::empty());
    } else {
        law_decimal(n / 10);
        assert(d.drop_last() =~= text::decimal(n / 10));
        assert(d[0] == text::decimal(n / 10)[0]);
        if n / 10 < 10 {
            assert(text::decimal(n / 10)[0] == text::digit(n / 10));
        }
    }
}

/// Numbers below zero have a sign before their decimal notation.
pub proof fn law_signed_decimal(n: int)
    ensures
        n >= 0 ==> text::signed_decimal(n) == text::decimal(n as nat),
        n < 0 ==> text::signed_decimal(n) == seq!['-'] + text::decimal((-n) as nat),
{
}

// ── Building ─────────────────────────────────────────────────

/// Joining puts the separator between neighbours and nowhere else.
pub proof fn law_joining(parts: Seq<Seq<char>>, part: Seq<char>, sep: Seq<char>)
    ensures
        text::joined(Seq::empty(), sep) == Seq::<char>::empty(),
        text::joined(seq![part], sep) == part,
        parts.len() > 0 ==> text::joined(parts.push(part), sep) == text::joined(parts, sep) + sep
            + part,
{
    assert(parts.push(part).drop_last() =~= parts);
}

/// A name goes into a directory behind exactly one slash. One that the directory ends
/// with is enough, and in no directory there is none.
pub proof fn law_path_join(dir: Seq<char>, name: Seq<char>)
    ensures
        dir.len() > 0 && dir.last() != '/' ==> text::path_join(dir, name) == dir + seq!['/'] + name,
        dir.len() > 0 && dir.last() == '/' ==> text::path_join(dir, name) == dir + name,
        text::path_join(Seq::empty(), name) == name,
{
    assert(dir.push('/') =~= dir + seq!['/']);
    assert(Seq::<char>::empty() + name =~= name);
}

/// Replacing a character replaces every one of it and leaves the others, from one end of
/// the text to the other.
pub proof fn law_replacing(a: Seq<char>, b: Seq<char>, c: char, by: Seq<char>)
    ensures
        text::replaced(a + b, c, by) == text::replaced(a, c, by) + text::replaced(b, c, by),
        text::replaced(seq![c], c, by) == by,
        !a.contains(c) ==> text::replaced(a, c, by) == a,
    decreases b.len(), a.len(),
{
    if b.len() == 0 {
        assert(a + b =~= a);
        assert(text::replaced(a, c, by) + text::replaced(b, c, by) =~= text::replaced(a, c, by));
    } else {
        assert((a + b).drop_last() =~= a + b.drop_last());
        assert((a + b).last() == b.last());
        law_replacing(a, b.drop_last(), c, by);
        assert(text::replaced(a + b, c, by) =~= text::replaced(a, c, by) + text::replaced(b, c, by));
    }
    let one = seq![c];
    assert(one.drop_last() =~= Seq::<char>::empty());
    assert(text::replaced(one.drop_last(), c, by) =~= Seq::<char>::empty());
    assert(text::replaced(one, c, by) =~= by);
    if !a.contains(c) {
        lemma_nothing_replaced(a, c, by);
    }
}

proof fn lemma_nothing_replaced(a: Seq<char>, c: char, by: Seq<char>)
    requires
        !a.contains(c),
    ensures
        text::replaced(a, c, by) == a,
    decreases a.len(),
{
    if a.len() > 0 {
        assert(a[a.len() - 1] == a.last());
        assert(!a.drop_last().contains(c)) by {
            if a.drop_last().contains(c) {
                let k = choose|k: int| 0 <= k < a.drop_last().len() && a.drop_last()[k] == c;
                assert(a[k] == c);
            }
        }
        lemma_nothing_replaced(a.drop_last(), c, by);
        assert(text::replaced(a, c, by) =~= a);
    } else {
        assert(text::replaced(a, c, by) =~= a);
    }
}

}
