//! How the split of a key's bytes reads on its characters.

use vstd::prelude::*;
use vstd::utf8::{char_is_scalar, char_u32_cast, encode_scalar, encode_utf8};
use crate::segments::{
    key_bytes, lemma_last_slash_unique, lemma_no_slash, name_of, prefix_of, SEPARATOR,
};

verus! {

/// The separator as a character.
pub const SEPARATOR_CHAR: char = '/';

/// The bytes of `/` are the one separator byte, and the bytes of any other
/// character hold no separator byte.
pub proof fn lemma_char_bytes(c: char)
    ensures
        c == SEPARATOR_CHAR ==> encode_scalar(c as u32) =~= seq![SEPARATOR],
        c != SEPARATOR_CHAR ==> forall|i: int|
            0 <= i < encode_scalar(c as u32).len() ==> #[trigger] encode_scalar(c as u32)[i]
                != SEPARATOR,
        encode_scalar(c as u32).len() >= 1,
{
    let v = c as u32;
    char_is_scalar(c);
    if c != SEPARATOR_CHAR {
        if v == 0x2f {
            char_u32_cast(c, v);
            char_u32_cast(SEPARATOR_CHAR, v);
        }
        assert(v != 0x2f);
    }
    assert(v <= 0x7f ==> ((v & 0x7F) as u8 == 0x2fu8 <==> v == 0x2f)) by (bit_vector);
    assert((0xC0u8 | ((v >> 6) & 0x1F) as u8) != 0x2fu8) by (bit_vector);
    assert((0xE0u8 | ((v >> 12) & 0x0F) as u8) != 0x2fu8) by (bit_vector);
    assert((0xF0u8 | ((v >> 18) & 0x7) as u8) != 0x2fu8) by (bit_vector);
    assert((0x80u8 | (v & 0x3F) as u8) != 0x2fu8) by (bit_vector);
    assert((0x80u8 | ((v >> 6) & 0x3F) as u8) != 0x2fu8) by (bit_vector);
    assert((0x80u8 | ((v >> 12) & 0x3F) as u8) != 0x2fu8) by (bit_vector);
}

/// The bytes of two texts in a row are the bytes of the first, then those of
/// the second.
pub proof fn lemma_bytes_of_concat(a: Seq<char>, b: Seq<char>)
    ensures
        key_bytes(a + b) == key_bytes(a) + key_bytes(b),
    decreases a.len(),
{
    if a.len() == 0 {
        assert(a + b =~= b);
        assert(key_bytes(a) + key_bytes(b) =~= key_bytes(b));
    } else {
        let rest = a.drop_first();
        lemma_bytes_of_concat(rest, b);
        assert((a + b).drop_first() =~= rest + b);
        assert((a + b)[0] == a[0]);
        assert(key_bytes(a + b) =~= key_bytes(a) + key_bytes(b));
    }
}

/// A text without `/` has no separator among its bytes.
pub proof fn lemma_bytes_without_slash(s: Seq<char>)
    requires
        !s.contains(SEPARATOR_CHAR),
    ensures
        forall|i: int| 0 <= i < key_bytes(s).len() ==> #[trigger] key_bytes(s)[i] != SEPARATOR,
    decreases s.len(),
{
    if s.len() > 0 {
        let rest = s.drop_first();
        assert(s[0] != SEPARATOR_CHAR) by {
            assert(s.contains(s[0]));
        }
        if rest.contains(SEPARATOR_CHAR) {
            let i = choose|i: int| 0 <= i < rest.len() && rest[i] == SEPARATOR_CHAR;
            assert(s[i + 1] == SEPARATOR_CHAR);
            assert(s.contains(SEPARATOR_CHAR));
        }
        lemma_bytes_without_slash(rest);
        lemma_char_bytes(s[0]);
        let head = encode_scalar(s[0] as u32);
        let tail = key_bytes(rest);
        assert(key_bytes(s) == head + tail);
        assert forall|i: int| 0 <= i < key_bytes(s).len() implies key_bytes(s)[i]
            != SEPARATOR by {
            if i < head.len() {
                assert(key_bytes(s)[i] == head[i]);
            } else {
                assert(key_bytes(s)[i] == tail[i - head.len()]);
            }
        }
    }
}

/// A key written as some text, a `/` and a text without `/` has the first
/// text as its prefix and the last as its name: the key is split at its last
/// `/` and at no other.
pub proof fn text_is_split_at_last_slash(key: Seq<char>, prefix: Seq<char>, name: Seq<char>)
    requires
        key == prefix + seq![SEPARATOR_CHAR] + name,
        !name.contains(SEPARATOR_CHAR),
    ensures
        prefix_of(key_bytes(key)) == Some(key_bytes(prefix)),
        name_of(key_bytes(key)) == key_bytes(name),
{
    let mid = seq![SEPARATOR_CHAR];
    lemma_bytes_of_concat(prefix + mid, name);
    lemma_bytes_of_concat(prefix, mid);
    lemma_char_bytes(SEPARATOR_CHAR);
    assert(mid.len() == 1 && mid[0] == SEPARATOR_CHAR);
    assert(mid.drop_first().len() == 0);
    assert(encode_utf8(mid.drop_first()) =~= Seq::<u8>::empty());
    assert(encode_utf8(mid) == encode_scalar(mid[0] as u32) + encode_utf8(mid.drop_first()));
    assert(key_bytes(mid) =~= seq![SEPARATOR]);
    lemma_bytes_without_slash(name);
    let b = key_bytes(key);
    let p = key_bytes(prefix);
    let n = key_bytes(name);
    assert(b == p + seq![SEPARATOR] + n);
    let i = p.len() as int;
    assert(b[i] == SEPARATOR);
    assert forall|j: int| i < j < b.len() implies b[j] != SEPARATOR by {
        assert(b[j] == n[j - i - 1]);
    }
    lemma_last_slash_unique(b, i);
    assert(b.subrange(0, i) =~= p);
    assert(b.subrange(i + 1, b.len() as int) =~= n);
}

/// A key without `/` has no prefix: all of it is its name.
pub proof fn text_without_slash_is_all_name(key: Seq<char>)
    requires
        !key.contains(SEPARATOR_CHAR),
    ensures
        prefix_of(key_bytes(key)) is None,
        name_of(key_bytes(key)) == key_bytes(key),
{
    lemma_bytes_without_slash(key);
    lemma_no_slash(key_bytes(key));
}

} // verus!
