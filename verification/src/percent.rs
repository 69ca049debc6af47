//! Percent-encoding of one path segment or query value, and paths made of such segments.

use vstd::prelude::*;

verus! {

/// The bytes that stand for themselves: letters, digits, `-`, `.`, `_` and `~`.
pub open spec fn unreserved(byte: u8) -> bool {
    ||| 0x30 <= byte <= 0x39
    ||| 0x41 <= byte <= 0x5a
    ||| 0x61 <= byte <= 0x7a
    ||| byte == 0x2d
    ||| byte == 0x2e
    ||| byte == 0x5f
    ||| byte == 0x7e
}

/// The hexadecimal digit of `n`, a capital letter from ten up.
pub open spec fn hex_digit(n: int) -> char {
    if n < 10 {
        (0x30 + n) as char
    } else {
        (0x41 + n - 10) as char
    }
}

/// How one byte is written.
pub open spec fn encoded_byte(byte: u8) -> Seq<char> {
    if unreserved(byte) {
        seq![byte as char]
    } else {
        seq!['%', hex_digit(byte as int / 16), hex_digit(byte as int % 16)]
    }
}

/// How a run of bytes is written.
pub open spec fn encoded_bytes(bytes: Seq<u8>) -> Seq<char>
    decreases bytes.len(),
{
    if bytes.len() == 0 {
        Seq::empty()
    } else {
        encoded_byte(bytes[0]) + encoded_bytes(bytes.drop_first())
    }
}

/// How a text is written: byte by byte, over its UTF-8 form.
pub open spec fn encoded(text: Seq<char>) -> Seq<char> {
    encoded_bytes(vstd::utf8::encode_utf8(text))
}

/// `urlencoding::encode`: every byte of the UTF-8 form becomes `%` and two capital hexadecimal
/// digits, except letters, digits and `-._~`, which are kept.
#[verifier::external_body]
pub(crate) fn encode(text: &str) -> (written: String)
    ensures
        written@ == encoded(text@),
{
    urlencoding::encode(text).into_owned()
}

/// The characters that an encoded text may hold.
pub open spec fn segment_char(c: char) -> bool {
    ||| '0' <= c <= '9'
    ||| 'A' <= c <= 'Z'
    ||| 'a' <= c <= 'z'
    ||| c == '-'
    ||| c == '.'
    ||| c == '_'
    ||| c == '~'
    ||| c == '%'
}

proof fn lemma_encoded_bytes_chars(bytes: Seq<u8>)
    ensures
        forall|i: int|
            0 <= i < encoded_bytes(bytes).len() ==> segment_char(
                #[trigger] encoded_bytes(bytes)[i],
            ),
        bytes.len() > 0 ==> encoded_bytes(bytes).len() > 0,
    decreases bytes.len(),
{
    if bytes.len() > 0 {
        lemma_encoded_bytes_chars(bytes.drop_first());
        let rest = encoded_bytes(bytes.drop_first());
        let first = encoded_byte(bytes[0]);
        assert forall|i: int| 0 <= i < encoded_bytes(bytes).len() implies segment_char(
            #[trigger] encoded_bytes(bytes)[i],
        ) by {
            if i < first.len() {
                assert(encoded_bytes(bytes)[i] == first[i]);
            } else {
                assert(encoded_bytes(bytes)[i] == rest[i - first.len()]);
            }
        }
    }
}

/// An encoded text is one path segment: it holds letters, digits and `-._~%` only, so no `/`,
/// `?`, `#`, `&`, `=` or `\` and no control character, and it is empty only for the empty text.
pub proof fn encoding_is_one_segment(text: Seq<char>)
    ensures
        forall|i: int| 0 <= i < encoded(text).len() ==> segment_char(#[trigger] encoded(text)[i]),
        !encoded(text).contains('/'),
        !encoded(text).contains('?'),
        encoded(text).len() == 0 ==> text.len() == 0,
{
    lemma_encoded_bytes_chars(vstd::utf8::encode_utf8(text));
    if text.len() > 0 {
        vstd::utf8::encode_utf8_decode_utf8(text);
        if vstd::utf8::encode_utf8(text).len() == 0 {
            assert(vstd::utf8::encode_utf8(text) =~= Seq::empty());
            vstd::utf8::encode_utf8_decode_utf8(Seq::<char>::empty());
            assert(vstd::utf8::encode_utf8(Seq::<char>::empty()) =~= Seq::empty());
        }
    }
}

proof fn lemma_encoded_bytes_injective(a: Seq<u8>, b: Seq<u8>)
    requires
        encoded_bytes(a) == encoded_bytes(b),
    ensures
        a == b,
    decreases a.len(),
{
    lemma_encoded_bytes_chars(a);
    lemma_encoded_bytes_chars(b);
    if a.len() > 0 && b.len() > 0 {
        let whole = encoded_bytes(a);
        assert(whole[0] == encoded_byte(a[0])[0]);
        assert(whole[0] == encoded_byte(b[0])[0]);
        if !unreserved(a[0]) {
            assert(whole[1] == encoded_byte(a[0])[1]);
            assert(whole[2] == encoded_byte(a[0])[2]);
        }
        if !unreserved(b[0]) {
            assert(whole[1] == encoded_byte(b[0])[1]);
            assert(whole[2] == encoded_byte(b[0])[2]);
        }
        assert(a[0] == b[0]);
        let n = encoded_byte(a[0]).len();
        assert(whole.skip(n as int) =~= encoded_bytes(a.drop_first()));
        assert(whole.skip(n as int) =~= encoded_bytes(b.drop_first()));
        lemma_encoded_bytes_injective(a.drop_first(), b.drop_first());
        assert(a =~= seq![a[0]] + a.drop_first());
        assert(b =~= seq![b[0]] + b.drop_first());
    } else {
        assert(a =~= b);
    }
}

/// Two texts that are written the same are the same.
pub proof fn encoding_is_injective(a: Seq<char>, b: Seq<char>)
    requires
        encoded(a) == encoded(b),
    ensures
        a == b,
{
    lemma_encoded_bytes_injective(vstd::utf8::encode_utf8(a), vstd::utf8::encode_utf8(b));
    vstd::utf8::encode_utf8_decode_utf8(a);
    vstd::utf8::encode_utf8_decode_utf8(b);
}

} // verus!
