//! The text form in which terms travel through the clipboard: a `welkin:`
//! prefix and the base91 encoding of the encoded term.
use vstd::prelude::*;

use crate::bindings::push_char;

verus! {

/// What `base91::slice_encode` returns for the given bytes.
pub uninterp spec fn base91_encoded(data: Seq<u8>) -> Seq<u8>;

/// What `base91::slice_decode` returns for the given bytes.
pub uninterp spec fn base91_decoded(data: Seq<u8>) -> Seq<u8>;

/// A character of the Unicode `White_Space` property.
pub open spec fn white_space(c: char) -> bool {
    let u = c as u32;
    (0x9 <= u <= 0xd) || u == 0x20 || u == 0x85 || u == 0xa0 || u == 0x1680 || (0x2000 <= u
        <= 0x200a) || u == 0x2028 || u == 0x2029 || u == 0x202f || u == 0x205f || u == 0x3000
}

/// The characters without their leading white space.
pub open spec fn trim_start(s: Seq<char>) -> Seq<char>
    decreases s.len(),
{
    if s.len() > 0 && white_space(s[0]) {
        trim_start(s.drop_first())
    } else {
        s
    }
}

/// The characters without their trailing white space.
pub open spec fn trim_end(s: Seq<char>) -> Seq<char>
    decreases s.len(),
{
    if s.len() > 0 && white_space(s.last()) {
        trim_end(s.drop_last())
    } else {
        s
    }
}

/// The characters without leading and trailing white space.
pub open spec fn trimmed(s: Seq<char>) -> Seq<char> {
    trim_end(trim_start(s))
}

/// `base91::slice_encode`, the canonical base91 encoding. The contract claims
/// that the result depends on the bytes alone, that each of its bytes is
/// taken from the canonical code map, whose 91 entries are printable ASCII
/// characters, and that `base91::slice_decode` gives the bytes back (the
/// crate's documented round trip); the capacity it reserves is the input
/// length times 13, which must not overflow.
#[verifier::external_body]
fn base91_encode(data: &[u8]) -> (res: Vec<u8>)
    requires
        data@.len() * 13 <= usize::MAX,
    ensures
        res@ == base91_encoded(data@),
        forall|i: int| 0 <= i < res@.len() ==> 33 <= #[trigger] res@[i] <= 126,
        base91_decoded(res@) == data@,
{
    base91::slice_encode(data)
}

/// `base91::slice_decode`; the contract claims only that the result depends
/// on the bytes alone.
#[verifier::external_body]
fn base91_decode(data: &[u8]) -> (res: Vec<u8>)
    ensures
        res@ == base91_decoded(data@),
{
    base91::slice_decode(data)
}

fn is_white_space(c: char) -> (res: bool)
    ensures
        res == white_space(c),
{
    let u = c as u32;
    (0x9 <= u && u <= 0xd) || u == 0x20 || u == 0x85 || u == 0xa0 || u == 0x1680 || (0x2000 <= u
        && u <= 0x200a) || u == 0x2028 || u == 0x2029 || u == 0x202f || u == 0x205f || u == 0x3000
}

/// The text without leading and trailing white space, as the Unicode
/// `White_Space` property defines it (what `str::trim` gives).
fn trim(s: &str) -> (res: &str)
    ensures
        res@ == trimmed(s@),
{
    let n = s.unicode_len();
    let mut i: usize = 0;
    assert(s@.skip(0) =~= s@);
    while i < n && is_white_space(s.get_char(i))
        invariant
            i <= n,
            n == s@.len(),
            trim_start(s@.skip(i as int)) == trim_start(s@),
        decreases n - i,
    {
        proof {
            let rest = s@.skip(i as int);
            assert(rest[0] == s@[i as int]);
            assert(rest.drop_first() =~= s@.skip(i + 1));
        }
        i = i + 1;
    }
    proof {
        let rest = s@.skip(i as int);
        if i < n {
            assert(rest[0] == s@[i as int]);
        } else {
            assert(rest.len() == 0);
        }
        assert(trim_start(s@) == rest);
        assert(rest =~= s@.subrange(i as int, n as int));
    }
    let mut j: usize = n;
    while j > i && is_white_space(s.get_char(j - 1))
        invariant
            i <= j <= n,
            n == s@.len(),
            trim_end(s@.subrange(i as int, j as int)) == trim_end(s@.subrange(i as int, n as int)),
        decreases j,
    {
        proof {
            let part = s@.subrange(i as int, j as int);
            assert(part.last() == s@[j - 1]);
            assert(part.drop_last() =~= s@.subrange(i as int, j - 1));
        }
        j = j - 1;
    }
    proof {
        let part = s@.subrange(i as int, j as int);
        if j > i {
            assert(part.last() == s@[j - 1]);
        }
        assert(trim_end(part) == part);
    }
    s.substring_char(i, j)
}

/// The prefix that marks clipboard text as a term.
pub open spec fn clipboard_prefix() -> Seq<char> {
    seq!['w', 'e', 'l', 'k', 'i', 'n', ':']
}

/// Bytes read as characters, one each.
pub open spec fn ascii_text(bytes: Seq<u8>) -> Seq<char> {
    Seq::new(bytes.len(), |i: int| bytes[i] as char)
}

/// The clipboard text of encoded term data.
pub fn clipboard_encode(data: &[u8]) -> (res: String)
    requires
        data@.len() * 13 <= usize::MAX,
    ensures
        res@ == clipboard_prefix() + ascii_text(base91_encoded(data@)),
        is_clipboard_term(res@),
        base91_decoded(vstd::utf8::encode_utf8(trimmed(res@).skip(7))) == data@,
{
    let encoded = base91_encode(data);
    let mut text = String::from_str("welkin:");
    proof {
        reveal_strlit("welkin:");
        assert(text@ =~= clipboard_prefix());
    }
    let mut i: usize = 0;
    while i < encoded.len()
        invariant
            i <= encoded@.len(),
            encoded@ == base91_encoded(data@),
            text@ == clipboard_prefix() + ascii_text(encoded@.subrange(0, i as int)),
        decreases encoded@.len() - i,
    {
        let byte = encoded[i];
        push_char(&mut text, byte as char);
        proof {
            assert(ascii_text(encoded@.subrange(0, i + 1)) =~= ascii_text(
                encoded@.subrange(0, i as int),
            ).push(byte as char));
            assert(clipboard_prefix() + ascii_text(encoded@.subrange(0, i + 1)) =~= (
            clipboard_prefix() + ascii_text(encoded@.subrange(0, i as int))).push(byte as char));
        }
        i = i + 1;
    }
    assert(encoded@.subrange(0, encoded@.len() as int) =~= encoded@);
    proof {
        lemma_clipboard_text_read_back(encoded@);
    }
    text
}

/// The clipboard text of base91 output is a term, and reading it gives back
/// that output: the text has no white space at its ends, and its characters
/// after the prefix are the output's bytes.
proof fn lemma_clipboard_text_read_back(encoded: Seq<u8>)
    requires
        forall|i: int| 0 <= i < encoded.len() ==> 33 <= #[trigger] encoded[i] <= 126,
    ensures
        is_clipboard_term(clipboard_prefix() + ascii_text(encoded)),
        vstd::utf8::encode_utf8(trimmed(clipboard_prefix() + ascii_text(encoded)).skip(7)) == encoded,
{
    let text = clipboard_prefix() + ascii_text(encoded);
    assert(text[0] == 'w');
    assert(trim_start(text) == text);
    if encoded.len() > 0 {
        assert(text.last() == encoded.last() as char);
    } else {
        assert(text.last() == ':');
    }
    assert(trim_end(text) == text);
    assert(text.subrange(0, 7) =~= clipboard_prefix());
    let rest = ascii_text(encoded);
    assert(text.skip(7) =~= rest);
    assert(vstd::utf8::is_ascii_chars(rest));
    vstd::utf8::is_ascii_chars_encode_utf8(rest);
    assert(vstd::utf8::encode_utf8(rest) =~= encoded);
}

/// Clipboard text is a term when, once trimmed, it starts with the prefix.
pub open spec fn is_clipboard_term(text: Seq<char>) -> bool {
    trimmed(text).len() >= 7 && trimmed(text).subrange(0, 7) == clipboard_prefix()
}

/// Reads clipboard text: the encoded term data after the prefix, or nothing
/// when the text does not start with it.
pub fn clipboard_decode(data: &str) -> (res: Option<Vec<u8>>)
    ensures
        res is Some <==> is_clipboard_term(data@),
        res is Some ==> res->0@ == base91_decoded(
            vstd::utf8::encode_utf8(trimmed(data@).skip(7)),
        ),
{
    let text = trim(data);
    let n = text.unicode_len();
    if n < 7 {
        return None;
    }
    let expected = ['w', 'e', 'l', 'k', 'i', 'n', ':'];
    let mut i: usize = 0;
    while i < 7
        invariant
            i <= 7,
            n == text@.len(),
            text@ == trimmed(data@),
            n >= 7,
            expected@ == clipboard_prefix(),
            forall|k: int| 0 <= k < i ==> text@[k] == clipboard_prefix()[k],
        decreases 7 - i,
    {
        if text.get_char(i) != expected[i] {
            proof {
                assert(text@.subrange(0, 7)[i as int] != clipboard_prefix()[i as int]);
            }
            return None;
        }
        i = i + 1;
    }
    assert(text@.subrange(0, 7) =~= clipboard_prefix());
    let rest = text.substring_char(7, n);
    assert(rest@ =~= text@.skip(7));
    let bytes = rest.as_bytes();
    Some(base91_decode(bytes))
}

} // verus!
