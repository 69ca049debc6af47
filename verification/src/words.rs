//! Laws on texts and coordinates: what trimming, cutting and comparing come to, and which texts
//! may stand where.

use vstd::prelude::*;

verus! {

/// Whether all of a text is white space.
pub open spec fn blank(text: Seq<char>) -> bool {
    forall|i: int| 0 <= i < text.len() ==> is_blank(#[trigger] text[i])
}

/// White space by its code point.
pub open spec fn is_blank(c: char) -> bool {
    let n = c as int;
    ||| n == 0x20
    ||| n == 0x09
    ||| n == 0x0a
    ||| n == 0x0b
    ||| n == 0x0c
    ||| n == 0x0d
    ||| n == 0x85
    ||| n == 0xa0
    ||| n == 0x1680
    ||| 0x2000 <= n <= 0x200a
    ||| n == 0x2028
    ||| n == 0x2029
    ||| n == 0x202f
    ||| n == 0x205f
    ||| n == 0x3000
}

proof fn lemma_trimmed_start(s: Seq<char>)
    ensures
        ({
            let rest = crate::text::trimmed_start(s);
            &&& rest.len() <= s.len()
            &&& s.skip(s.len() - rest.len()) == rest
            &&& blank(s.take(s.len() - rest.len()))
            &&& rest.len() > 0 ==> !is_blank(rest[0])
        }),
    decreases s.len(),
{
    let rest = crate::text::trimmed_start(s);
    if s.len() > 0 && crate::text::white_space(s[0]) {
        let tail = s.drop_first();
        lemma_trimmed_start(tail);
        let n = s.len() - rest.len();
        assert(s.skip(n) =~= tail.skip(n - 1));
        assert forall|i: int| 0 <= i < n implies is_blank(#[trigger] s.take(n)[i]) by {
            if i > 0 {
                assert(tail.take(n - 1)[i - 1] == s[i]);
            }
        }
    } else {
        assert(s.skip(0) =~= s);
    }
}

proof fn lemma_trimmed_end(s: Seq<char>)
    ensures
        ({
            let rest = crate::text::trimmed_end(s);
            &&& rest.len() <= s.len()
            &&& s.take(rest.len() as int) == rest
            &&& blank(s.skip(rest.len() as int))
            &&& rest.len() > 0 ==> !is_blank(rest.last())
        }),
    decreases s.len(),
{
    let rest = crate::text::trimmed_end(s);
    if s.len() > 0 && crate::text::white_space(s.last()) {
        let front = s.drop_last();
        lemma_trimmed_end(front);
        let n = rest.len() as int;
        assert(s.take(n) =~= front.take(n));
        assert forall|i: int| 0 <= i < s.len() - n implies is_blank(#[trigger] s.skip(n)[i]) by {
            if n + i < front.len() {
                assert(front.skip(n)[i] == s[n + i]);
            }
        }
    } else {
        assert(s.take(s.len() as int) =~= s);
    }
}

/// Trimming takes exactly the white space at both ends: a text is white space, what is left of it,
/// and white space, and what is left neither starts nor ends with any.
pub proof fn trimming_takes_white_space_only(s: Seq<char>)
    ensures
        ({
            let inner = crate::text::trimmed(s);
            &&& exists|before: Seq<char>, after: Seq<char>|
                blank(before) && blank(after) && s == #[trigger] (before + inner + after)
            &&& inner.len() > 0 ==> !is_blank(inner[0]) && !is_blank(inner.last())
        }),
{
    let rest = crate::text::trimmed_start(s);
    let inner = crate::text::trimmed(s);
    lemma_trimmed_start(s);
    lemma_trimmed_end(rest);
    let before = s.take(s.len() - rest.len());
    let after = rest.skip(inner.len() as int);
    assert(s =~= before + inner + after);
    if inner.len() > 0 {
        assert(inner[0] == rest[0]);
    }
}

/// Making letters small changes the twenty-six capital letters and nothing else.
pub proof fn lowering_changes_capitals_only(s: Seq<char>)
    ensures
        crate::text::lowered(s).len() == s.len(),
        forall|i: int|
            0 <= i < s.len() ==> #[trigger] crate::text::lowered(s)[i] as int == (if 0x41
                <= s[i] as int <= 0x5a {
                s[i] as int + 32
            } else {
                s[i] as int
            }),
{
}

/// Taking a run of a character off the end leaves the rest: a text is what is left and that many
/// of the character, and what is left does not end with it.
pub proof fn only_the_run_at_the_end_is_taken(s: Seq<char>, c: char)
    ensures
        ({
            let rest = crate::text::without_trailing(s, c);
            &&& rest.len() <= s.len()
            &&& s.take(rest.len() as int) == rest
            &&& forall|i: int| rest.len() <= i < s.len() ==> #[trigger] s[i] == c
            &&& rest.len() > 0 ==> rest.last() != c
        }),
    decreases s.len(),
{
    let rest = crate::text::without_trailing(s, c);
    if s.len() > 0 && s.last() == c {
        let front = s.drop_last();
        only_the_run_at_the_end_is_taken(front, c);
        assert(s.take(rest.len() as int) =~= front.take(rest.len() as int));
        assert forall|i: int| rest.len() <= i < s.len() implies #[trigger] s[i] == c by {
            if i < front.len() {
                assert(front[i] == s[i]);
            }
        }
    } else {
        assert(s.take(s.len() as int) =~= s);
    }
}

/// A text ends with another exactly where something before it makes up the rest.
pub proof fn suffixes_end_a_text(s: Seq<char>, suffix: Seq<char>)
    ensures
        crate::text::has_suffix(s, suffix) <==> exists|before: Seq<char>|
            s == #[trigger] (before + suffix),
{
    if crate::text::has_suffix(s, suffix) {
        let before = s.take(s.len() - suffix.len());
        assert(s =~= before + suffix);
    }
    if exists|before: Seq<char>| s == #[trigger] (before + suffix) {
        let before = choose|before: Seq<char>| s == #[trigger] (before + suffix);
        assert(s.skip(s.len() - suffix.len()) =~= suffix);
    }
}

/// A text holds another exactly where something before it and something after it make up the rest.
pub proof fn infixes_stand_in_a_text(s: Seq<char>, needle: Seq<char>)
    ensures
        crate::text::has_infix(s, needle) <==> exists|before: Seq<char>, after: Seq<char>|
            s == #[trigger] (before + needle + after),
{
    if crate::text::has_infix(s, needle) {
        let at = choose|at: int| #[trigger] crate::text::stands_at(s, needle, at);
        let before = s.take(at);
        let after = s.skip(at + needle.len());
        assert(s =~= before + needle + after) by {
            assert forall|i: int| at <= i < at + needle.len() implies #[trigger] s[i]
                == needle[i - at] by {
                assert(s.subrange(at, at + needle.len())[i - at] == s[i]);
            }
        }
    }
    if exists|before: Seq<char>, after: Seq<char>| s == #[trigger] (before + needle + after) {
        let (before, after) = choose|before: Seq<char>, after: Seq<char>|
            s == #[trigger] (before + needle + after);
        assert(s.subrange(before.len() as int, (before.len() + needle.len()) as int) =~= needle);
        assert(crate::text::stands_at(s, needle, before.len() as int));
    }
}

/// The last segment of a text is what follows the last separator: it holds none, and it is all of
/// the text or stands behind one.
pub proof fn last_segments_follow_the_last_separator(s: Seq<char>, c: char)
    ensures
        ({
            let tail = crate::text::after_last(s, c);
            &&& tail.len() <= s.len()
            &&& s.skip(s.len() - tail.len()) == tail
            &&& forall|i: int| 0 <= i < tail.len() ==> #[trigger] tail[i] != c
            &&& tail.len() < s.len() ==> s[s.len() - tail.len() - 1] == c
        }),
    decreases s.len(),
{
    let tail = crate::text::after_last(s, c);
    if s.len() == 0 || s.last() == c {
        assert(s.skip(s.len() as int) =~= tail);
    } else {
        let front = s.drop_last();
        last_segments_follow_the_last_separator(front, c);
        let inner = crate::text::after_last(front, c);
        assert(tail =~= inner.push(s.last()));
        assert(s.skip(s.len() - tail.len()) =~= front.skip(front.len() - inner.len()).push(
            s.last(),
        ));
        assert forall|i: int| 0 <= i < tail.len() implies #[trigger] tail[i] != c by {
            if i < inner.len() {
                assert(inner[i] == tail[i]);
            }
        }
    }
}

/// The first segment of a text is what precedes the first separator.
pub proof fn first_segments_precede_the_first_separator(s: Seq<char>, c: char)
    ensures
        ({
            let head = crate::text::before_first(s, c);
            &&& head.len() <= s.len()
            &&& s.take(head.len() as int) == head
            &&& forall|i: int| 0 <= i < head.len() ==> #[trigger] head[i] != c
            &&& head.len() < s.len() ==> s[head.len() as int] == c
        }),
    decreases s.len(),
{
    let head = crate::text::before_first(s, c);
    if s.len() == 0 || s[0] == c {
        assert(s.take(0) =~= head);
    } else {
        let rest = s.drop_first();
        first_segments_precede_the_first_separator(rest, c);
        let inner = crate::text::before_first(rest, c);
        assert(head =~= seq![s[0]] + inner);
        assert(s.take(head.len() as int) =~= seq![s[0]] + rest.take(inner.len() as int));
        assert forall|i: int| 0 <= i < head.len() implies #[trigger] head[i] != c by {
            if i > 0 {
                assert(inner[i - 1] == head[i]);
            }
        }
        if head.len() < s.len() {
            assert(rest[inner.len() as int] == s[head.len() as int]);
        }
    }
}

/// Whether a character is a control character, by its code point.
pub open spec fn is_control_code(c: char) -> bool {
    c as int <= 0x1f || 0x7f <= c as int <= 0x9f
}

/// A text may stand as a path segment exactly where it has one to 255 bytes, is not `.` or `..`,
/// and holds neither `/`, `\`, `?`, `#` nor a control character.
pub proof fn segments_hold_nothing_that_breaks_a_path(value: Seq<char>)
    ensures
        crate::coordinate::safe_segment(value) <==> {
            &&& value.len() > 0
            &&& vstd::utf8::encode_utf8(value).len() <= 255
            &&& value != seq!['.']
            &&& value != seq!['.', '.']
            &&& !value.contains('/')
            &&& !value.contains('\\')
            &&& !value.contains('?')
            &&& !value.contains('#')
            &&& forall|i: int| 0 <= i < value.len() ==> !is_control_code(#[trigger] value[i])
        },
{
    reveal_strlit(".");
    reveal_strlit("..");
    assert("."@ =~= seq!['.']);
    assert(".."@ =~= seq!['.', '.']);
    if crate::coordinate::safe_segment(value) {
        assert forall|i: int| 0 <= i < value.len() implies !is_control_code(#[trigger] value[i])
            && value[i] != '/' && value[i] != '\\' && value[i] != '?' && value[i] != '#' by {
            assert(!crate::coordinate::segment_breaker(value[i]));
        }
    } else if value.len() > 0 && vstd::utf8::encode_utf8(value).len() <= 255 && value != "."@
        && value != ".."@ {
        let i = choose|i: int|
            0 <= i < value.len() && crate::coordinate::segment_breaker(#[trigger] value[i]);
        assert(value.contains(value[i]));
    }
}

/// A text may stand as a platform exactly where it has one to sixty-four characters, small letters,
/// digits, dots and hyphens, of which the first is a letter or a digit.
pub proof fn platforms_are_small_letters_and_digits(value: Seq<char>)
    ensures
        crate::coordinate::safe_platform(value) <==> {
            &&& 1 <= value.len() <= 64
            &&& ('a' <= value[0] <= 'z' || '0' <= value[0] <= '9')
            &&& forall|i: int|
                0 <= i < value.len() ==> ('a' <= #[trigger] value[i] <= 'z' || '0' <= value[i]
                    <= '9' || value[i] == '.' || value[i] == '-')
        },
{
    if crate::coordinate::safe_platform(value) {
        assert(crate::coordinate::platform_char(value[0]));
        assert forall|i: int| 0 <= i < value.len() implies ('a' <= #[trigger] value[i] <= 'z' || '0'
            <= value[i] <= '9' || value[i] == '.' || value[i] == '-') by {
            assert(crate::coordinate::platform_char(value[i]));
        }
    } else if 1 <= value.len() <= 64 && ('a' <= value[0] <= 'z' || '0' <= value[0] <= '9') {
        let i = choose|i: int|
            0 <= i < value.len() && !crate::coordinate::platform_char(#[trigger] value[i]);
        assert(!('a' <= value[i] <= 'z' || '0' <= value[i] <= '9' || value[i] == '.' || value[i]
            == '-'));
    }
}

/// The platform that is meant is what is left of the text without white space and capitals, and
/// `universal` where nothing is left or nothing was said.
pub proof fn platforms_are_meant_whatever_their_case(platform: Option<Seq<char>>)
    ensures
        crate::coordinate::platform_of(platform) == (match platform {
            Some(text) => if blank(text) {
                "universal"@
            } else {
                crate::text::lowered(crate::text::trimmed(text))
            },
            None => "universal"@,
        }),
{
    if let Some(text) = platform {
        trimming_takes_white_space_only(text);
        let inner = crate::text::trimmed(text);
        let (before, after) = choose|before: Seq<char>, after: Seq<char>|
            blank(before) && blank(after) && text == #[trigger] (before + inner + after);
        if inner.len() == 0 {
            assert forall|i: int| 0 <= i < text.len() implies is_blank(#[trigger] text[i]) by {
                if i < before.len() {
                    assert(before[i] == text[i]);
                } else {
                    assert(after[i - before.len()] == text[i]);
                }
            }
        } else {
            assert(text[before.len() as int] == inner[0]);
            assert(!is_blank(text[before.len() as int]));
        }
    }
}

/// A policy knows an extension by publisher, dot and name in small letters, and a version by its
/// name, an `@` and the platform that is meant.
pub proof fn policies_know_extensions_and_builds(
    publisher: Seq<char>,
    name: Seq<char>,
    version: Seq<char>,
    platform: Option<Seq<char>>,
)
    ensures
        crate::coordinate::package_of(publisher, name) == crate::text::lowered(publisher)
            + seq!['.'] + crate::text::lowered(name),
        crate::coordinate::coordinate_of(version, platform) == version + seq!['@']
            + crate::coordinate::platform_of(platform),
{
    reveal_strlit(".");
    reveal_strlit("@");
    assert("."@ =~= seq!['.']);
    assert("@"@ =~= seq!['@']);
    assert(crate::coordinate::package_of(publisher, name) =~= crate::text::lowered(publisher)
        + seq!['.'] + crate::text::lowered(name));
}

} // verus!
