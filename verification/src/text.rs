//! Text as sequences of characters: the string operations the rest of the crate is stated over.

use vstd::prelude::*;

verus! {

/// `String::push` appends one character to the end of the string.
pub assume_specification[ String::push ](text: &mut String, c: char)
    ensures
        final(text)@ == old(text)@.push(c),
;

/// The characters of `text`, in order.
pub fn chars_of(text: &str) -> (chars: Vec<char>)
    ensures
        chars@ == text@,
{
    let mut chars: Vec<char> = Vec::new();
    for c in it: text.chars()
        invariant
            it.seq() == text@,
            chars@ == text@.take(it.index() as int),
    {
        chars.push(c);
    }
    chars
}

/// The text made of `chars[from..to]`.
pub fn text_of(chars: &Vec<char>, from: usize, to: usize) -> (text: String)
    requires
        from <= to <= chars@.len(),
    ensures
        text@ == chars@.subrange(from as int, to as int),
{
    let mut text = String::new();
    let mut i: usize = from;
    while i < to
        invariant
            from <= i <= to <= chars@.len(),
            text@ == chars@.subrange(from as int, i as int),
        decreases to - i,
    {
        text.push(chars[i]);
        i += 1;
    }
    text
}

/// Whether two texts hold the same characters.
pub fn same_text(a: &str, b: &str) -> (same: bool)
    ensures
        same == (a@ == b@),
{
    let left = a.as_bytes();
    let right = b.as_bytes();
    proof {
        vstd::utf8::encode_utf8_decode_utf8(a@);
        vstd::utf8::encode_utf8_decode_utf8(b@);
    }
    if left.len() != right.len() {
        return false;
    }
    let mut i: usize = 0;
    while i < left.len()
        invariant
            i <= left@.len(),
            left@.len() == right@.len(),
            left@ == vstd::utf8::encode_utf8(a@),
            right@ == vstd::utf8::encode_utf8(b@),
            left@.take(i as int) == right@.take(i as int),
        decreases left@.len() - i,
    {
        if left[i] != right[i] {
            assert(left@ != right@);
            return false;
        }
        i += 1;
    }
    assert(left@.take(i as int) == left@);
    assert(right@.take(i as int) == right@);
    true
}

/// A text is empty exactly where its UTF-8 form is.
pub proof fn lemma_no_bytes(text: Seq<char>)
    ensures
        vstd::utf8::encode_utf8(text).len() == 0 <==> text.len() == 0,
{
    vstd::utf8::encode_utf8_decode_utf8(text);
    vstd::utf8::encode_utf8_decode_utf8(Seq::<char>::empty());
    assert(vstd::utf8::encode_utf8(Seq::<char>::empty()) =~= Seq::empty());
    if vstd::utf8::encode_utf8(text).len() == 0 {
        assert(vstd::utf8::encode_utf8(text) =~= Seq::empty());
    }
    if text.len() == 0 {
        assert(text =~= Seq::empty());
    }
}

/// Whether the text holds no character.
pub fn is_empty(text: &str) -> (empty: bool)
    ensures
        empty == (text@.len() == 0),
{
    proof {
        lemma_no_bytes(text@);
    }
    text.as_bytes().len() == 0
}

/// The characters with Unicode's `White_Space` property.
pub open spec fn white_space(c: char) -> bool {
    ||| '\u{9}' <= c <= '\u{d}'
    ||| c == '\u{20}'
    ||| c == '\u{85}'
    ||| c == '\u{a0}'
    ||| c == '\u{1680}'
    ||| '\u{2000}' <= c <= '\u{200a}'
    ||| c == '\u{2028}'
    ||| c == '\u{2029}'
    ||| c == '\u{202f}'
    ||| c == '\u{205f}'
    ||| c == '\u{3000}'
}

/// Whether `c` is white space.
pub fn is_white_space(c: char) -> (white: bool)
    ensures
        white == white_space(c),
{
    ('\u{9}' <= c && c <= '\u{d}') || c == '\u{20}' || c == '\u{85}' || c == '\u{a0}' || c
        == '\u{1680}' || ('\u{2000}' <= c && c <= '\u{200a}') || c == '\u{2028}' || c == '\u{2029}'
        || c == '\u{202f}' || c == '\u{205f}' || c == '\u{3000}'
}

/// The characters of Unicode's general category `Cc`.
pub open spec fn control(c: char) -> bool {
    c <= '\u{1f}' || '\u{7f}' <= c <= '\u{9f}'
}

/// Whether `c` is a control character.
pub fn is_control(c: char) -> (is: bool)
    ensures
        is == control(c),
{
    c <= '\u{1f}' || ('\u{7f}' <= c && c <= '\u{9f}')
}

/// `s` without its leading white space.
pub open spec fn trimmed_start(s: Seq<char>) -> Seq<char>
    decreases s.len(),
{
    if s.len() > 0 && white_space(s[0]) {
        trimmed_start(s.drop_first())
    } else {
        s
    }
}

/// `s` without its trailing white space.
pub open spec fn trimmed_end(s: Seq<char>) -> Seq<char>
    decreases s.len(),
{
    if s.len() > 0 && white_space(s.last()) {
        trimmed_end(s.drop_last())
    } else {
        s
    }
}

/// `s` without the white space around it.
pub open spec fn trimmed(s: Seq<char>) -> Seq<char> {
    trimmed_end(trimmed_start(s))
}

/// The text without the white space around it.
pub fn trim(text: &str) -> (inner: String)
    ensures
        inner@ == trimmed(text@),
{
    let chars = chars_of(text);
    let mut from: usize = 0;
    assert(chars@.subrange(0, chars@.len() as int) == chars@);
    while from < chars.len() && is_white_space(chars[from])
        invariant
            from <= chars@.len(),
            trimmed_start(chars@) == trimmed_start(chars@.subrange(from as int, chars@.len() as int)),
        decreases chars@.len() - from,
    {
        assert(chars@.subrange(from as int, chars@.len() as int).drop_first() == chars@.subrange(
            from + 1,
            chars@.len() as int,
        ));
        from += 1;
    }
    let ghost rest = chars@.subrange(from as int, chars@.len() as int);
    assert(trimmed_start(chars@) == rest);
    let mut to: usize = chars.len();
    while from < to && is_white_space(chars[to - 1])
        invariant
            from <= to <= chars@.len(),
            trimmed_end(rest) == trimmed_end(chars@.subrange(from as int, to as int)),
        decreases to - from,
    {
        assert(chars@.subrange(from as int, to as int).drop_last() == chars@.subrange(
            from as int,
            to - 1,
        ));
        to -= 1;
    }
    text_of(&chars, from, to)
}

/// Whether `s` has no white space at either end.
pub open spec fn tight(s: Seq<char>) -> bool {
    s.len() > 0 ==> !white_space(s[0]) && !white_space(s.last())
}

proof fn lemma_trimmed_start(s: Seq<char>)
    ensures
        trimmed_start(s).len() > 0 ==> !white_space(trimmed_start(s)[0]),
    decreases s.len(),
{
    if s.len() > 0 && white_space(s[0]) {
        lemma_trimmed_start(s.drop_first());
    }
}

proof fn lemma_trimmed_end(s: Seq<char>)
    requires
        s.len() > 0 ==> !white_space(s[0]),
    ensures
        tight(trimmed_end(s)),
    decreases s.len(),
{
    if s.len() > 0 && white_space(s.last()) {
        lemma_trimmed_end(s.drop_last());
    }
}

/// What is trimmed has no white space at either end, and is trimmed already.
pub proof fn trimming_is_idempotent(s: Seq<char>)
    ensures
        tight(trimmed(s)),
        trimmed(trimmed(s)) == trimmed(s),
{
    lemma_trimmed_start(s);
    lemma_trimmed_end(trimmed_start(s));
}

/// `c` with an ASCII capital letter made small.
pub open spec fn lower_char(c: char) -> char {
    if 'A' <= c <= 'Z' {
        ((c as u8) + 32) as char
    } else {
        c
    }
}

/// `s` with its ASCII capital letters made small.
pub open spec fn lowered(s: Seq<char>) -> Seq<char> {
    s.map_values(|c: char| lower_char(c))
}

/// Making letters small twice is making them small once, and leaves white space where it was.
pub proof fn lowering_is_idempotent(s: Seq<char>)
    ensures
        lowered(lowered(s)) == lowered(s),
        tight(s) ==> tight(lowered(s)),
{
    assert(lowered(lowered(s)) =~= lowered(s));
}

/// The text with its ASCII capital letters made small.
pub fn to_ascii_lowercase(text: &str) -> (lower: String)
    ensures
        lower@ == lowered(text@),
{
    let mut lower = String::new();
    for c in it: text.chars()
        invariant
            it.seq() == text@,
            lower@ == lowered(text@.take(it.index() as int)),
    {
        let small: char = if 'A' <= c && c <= 'Z' {
            ((c as u8) + 32) as char
        } else {
            c
        };
        lower.push(small);
        assert(lowered(text@.take(it.index() as int + 1)) == lowered(
            text@.take(it.index() as int),
        ).push(lower_char(c)));
    }
    assert(text@.take(text@.len() as int) == text@);
    lower
}

/// `s` without the run of `c` at its end.
pub open spec fn without_trailing(s: Seq<char>, c: char) -> Seq<char>
    decreases s.len(),
{
    if s.len() > 0 && s.last() == c {
        without_trailing(s.drop_last(), c)
    } else {
        s
    }
}

/// The text without the run of `c` at its end.
pub fn trim_trailing(text: &str, c: char) -> (rest: String)
    ensures
        rest@ == without_trailing(text@, c),
{
    let chars = chars_of(text);
    let mut to: usize = chars.len();
    assert(chars@.subrange(0, to as int) == chars@);
    while 0 < to && chars[to - 1] == c
        invariant
            to <= chars@.len(),
            without_trailing(chars@, c) == without_trailing(chars@.subrange(0, to as int), c),
        decreases to,
    {
        assert(chars@.subrange(0, to as int).drop_last() == chars@.subrange(0, to - 1));
        to -= 1;
    }
    text_of(&chars, 0, to)
}

/// Whether `s` ends with `suffix`.
pub open spec fn has_suffix(s: Seq<char>, suffix: Seq<char>) -> bool {
    suffix.len() <= s.len() && s.skip(s.len() - suffix.len()) == suffix
}

/// Whether `needle` stands somewhere inside `s`.
pub open spec fn has_infix(s: Seq<char>, needle: Seq<char>) -> bool {
    exists|at: int| #[trigger] stands_at(s, needle, at)
}

/// Whether `needle` stands in `s` at position `at`.
pub open spec fn stands_at(s: Seq<char>, needle: Seq<char>, at: int) -> bool {
    0 <= at && at + needle.len() <= s.len() && s.subrange(at, at + needle.len()) == needle
}

/// Whether `needle` stands in `chars` at position `at`.
fn matches_at(chars: &Vec<char>, needle: &Vec<char>, at: usize) -> (matches: bool)
    requires
        at + needle@.len() <= chars@.len(),
    ensures
        matches == stands_at(chars@, needle@, at as int),
{
    let n: usize = chars.len();
    let mut i: usize = 0;
    while i < needle.len()
        invariant
            i <= needle@.len(),
            at + needle@.len() <= chars@.len() == n,
            forall|j: int| 0 <= j < i ==> chars@[at + j] == needle@[j],
        decreases needle@.len() - i,
    {
        if chars[at + i] != needle[i] {
            assert(chars@.subrange(at as int, at + needle@.len())[i as int] != needle@[i as int]);
            return false;
        }
        i += 1;
    }
    assert(chars@.subrange(at as int, at + needle@.len()) == needle@);
    true
}

/// Whether the text ends with `suffix`.
pub fn ends_with(text: &str, suffix: &str) -> (ends: bool)
    ensures
        ends == has_suffix(text@, suffix@),
{
    let chars = chars_of(text);
    let needle = chars_of(suffix);
    if needle.len() > chars.len() {
        return false;
    }
    let at: usize = chars.len() - needle.len();
    assert(chars@.skip(at as int) == chars@.subrange(at as int, at + needle@.len()));
    matches_at(&chars, &needle, at)
}

/// Whether `needle` stands somewhere in the text.
pub fn contains_text(text: &str, needle: &str) -> (contains: bool)
    ensures
        contains == has_infix(text@, needle@),
{
    let chars = chars_of(text);
    let wanted = chars_of(needle);
    if wanted.len() > chars.len() {
        return false;
    }
    let last: usize = chars.len() - wanted.len();
    let mut at: usize = 0;
    while at < last
        invariant
            at <= last,
            chars@ == text@,
            wanted@ == needle@,
            last == chars@.len() - wanted@.len(),
            forall|j: int| 0 <= j < at ==> !#[trigger] stands_at(text@, needle@, j),
        decreases last - at,
    {
        if matches_at(&chars, &wanted, at) {
            return true;
        }
        at += 1;
    }
    matches_at(&chars, &wanted, last)
}

/// What follows the last `c` in `s`: all of `s` where there is none.
pub open spec fn after_last(s: Seq<char>, c: char) -> Seq<char>
    decreases s.len(),
{
    if s.len() == 0 || s.last() == c {
        Seq::empty()
    } else {
        after_last(s.drop_last(), c).push(s.last())
    }
}

/// What follows the last `c` in the text.
pub fn last_segment(text: &str, c: char) -> (segment: String)
    ensures
        segment@ == after_last(text@, c),
{
    let chars = chars_of(text);
    let n: usize = chars.len();
    let mut from: usize = n;
    assert(chars@.subrange(0, n as int) == chars@);
    assert(chars@.subrange(n as int, n as int) == Seq::<char>::empty());
    while 0 < from && chars[from - 1] != c
        invariant
            from <= n == chars@.len(),
            after_last(chars@, c) == after_last(chars@.subrange(0, from as int), c)
                + chars@.subrange(from as int, n as int),
        decreases from,
    {
        assert(chars@.subrange(0, from as int).drop_last() == chars@.subrange(0, from - 1));
        assert(chars@.subrange(from - 1, n as int) == seq![chars@[from - 1]] + chars@.subrange(
            from as int,
            n as int,
        ));
        from -= 1;
    }
    text_of(&chars, from, n)
}

/// What precedes the first `c` in `s`: all of `s` where there is none.
pub open spec fn before_first(s: Seq<char>, c: char) -> Seq<char>
    decreases s.len(),
{
    if s.len() == 0 || s[0] == c {
        Seq::empty()
    } else {
        seq![s[0]] + before_first(s.drop_first(), c)
    }
}

/// What precedes the first `c` in the text.
pub fn first_segment(text: &str, c: char) -> (segment: String)
    ensures
        segment@ == before_first(text@, c),
{
    let chars = chars_of(text);
    let mut to: usize = 0;
    assert(chars@.subrange(0, chars@.len() as int) == chars@);
    while to < chars.len() && chars[to] != c
        invariant
            to <= chars@.len(),
            before_first(chars@, c) == chars@.subrange(0, to as int) + before_first(
                chars@.subrange(to as int, chars@.len() as int),
                c,
            ),
        decreases chars@.len() - to,
    {
        assert(chars@.subrange(to as int, chars@.len() as int).drop_first() == chars@.subrange(
            to + 1,
            chars@.len() as int,
        ));
        assert(chars@.subrange(0, to + 1) == chars@.subrange(0, to as int) + seq![chars@[to as int]]);
        to += 1;
    }
    text_of(&chars, 0, to)
}

/// A text is cut in one way only at the first place where `c` stands.
pub proof fn lemma_cut_at_first(a: Seq<char>, x: Seq<char>, b: Seq<char>, y: Seq<char>, c: char)
    requires
        a + seq![c] + x == b + seq![c] + y,
        !a.contains(c),
        !b.contains(c),
    ensures
        a == b,
        x == y,
{
    let left = a + seq![c] + x;
    let right = b + seq![c] + y;
    assert(left[a.len() as int] == c);
    assert(right[b.len() as int] == c);
    if a.len() < b.len() {
        assert(right[a.len() as int] == b[a.len() as int]);
        assert(b.contains(c));
    }
    if b.len() < a.len() {
        assert(left[b.len() as int] == a[b.len() as int]);
        assert(a.contains(c));
    }
    assert(a =~= left.take(a.len() as int));
    assert(b =~= right.take(a.len() as int));
    assert(x =~= left.skip(a.len() as int + 1));
    assert(y =~= right.skip(a.len() as int + 1));
}

/// A text is cut in one way only at the last place where `c` stands.
pub proof fn lemma_cut_at_last(a: Seq<char>, x: Seq<char>, b: Seq<char>, y: Seq<char>, c: char)
    requires
        a + seq![c] + x == b + seq![c] + y,
        !x.contains(c),
        !y.contains(c),
    ensures
        a == b,
        x == y,
{
    let left = a + seq![c] + x;
    let right = b + seq![c] + y;
    assert(left[a.len() as int] == c);
    assert(right[b.len() as int] == c);
    if a.len() < b.len() {
        assert(b.len() < right.len());
        assert(left[b.len() as int] == x[b.len() - a.len() - 1]);
        assert(x.contains(c));
    }
    if b.len() < a.len() {
        assert(a.len() < left.len());
        assert(right[a.len() as int] == y[a.len() - b.len() - 1]);
        assert(y.contains(c));
    }
    assert(a =~= left.take(a.len() as int));
    assert(b =~= right.take(a.len() as int));
    assert(x =~= left.skip(a.len() as int + 1));
    assert(y =~= right.skip(a.len() as int + 1));
}

} // verus!
