//! Splitting a key into its prefix and its name at the last `/`.

use vstd::prelude::*;
use vstd::slice::slice_subrange;
use vstd::string::*;
use vstd::utf8::encode_utf8;

verus! {

/// The byte that separates a prefix from a name.
pub const SEPARATOR: u8 = 0x2f;

/// The UTF-8 bytes of a key: every length and index of this crate counts them.
pub open spec fn key_bytes(key: Seq<char>) -> Seq<u8> {
    encode_utf8(key)
}

/// Index of the last separator in `b`, if `b` holds one.
pub open spec fn last_slash(b: Seq<u8>) -> Option<int>
    decreases b.len(),
{
    if b.len() == 0 {
        None
    } else if b.last() == SEPARATOR {
        Some(b.len() - 1)
    } else {
        last_slash(b.drop_last())
    }
}

/// The bytes before the last separator; `None` where there is no separator.
pub open spec fn prefix_of(b: Seq<u8>) -> Option<Seq<u8>> {
    match last_slash(b) {
        Some(i) => Some(b.subrange(0, i)),
        None => None,
    }
}

/// The bytes after the last separator; all of `b` where there is no separator.
pub open spec fn name_of(b: Seq<u8>) -> Seq<u8> {
    match last_slash(b) {
        Some(i) => b.subrange(i + 1, b.len() as int),
        None => b,
    }
}

/// `last_slash` is the greatest index that holds a separator.
pub proof fn lemma_last_slash(b: Seq<u8>)
    ensures
        match last_slash(b) {
            Some(i) => 0 <= i < b.len() && b[i] == SEPARATOR && forall|j: int|
                i < j < b.len() ==> b[j] != SEPARATOR,
            None => forall|j: int| 0 <= j < b.len() ==> b[j] != SEPARATOR,
        },
    decreases b.len(),
{
    if b.len() > 0 && b.last() != SEPARATOR {
        let front = b.drop_last();
        lemma_last_slash(front);
        assert(forall|j: int| 0 <= j < front.len() ==> front[j] == b[j]);
    }
}

/// Any index that holds a separator with none behind it is `last_slash`.
pub proof fn lemma_last_slash_unique(b: Seq<u8>, i: int)
    requires
        0 <= i < b.len(),
        b[i] == SEPARATOR,
        forall|j: int| i < j < b.len() ==> b[j] != SEPARATOR,
    ensures
        last_slash(b) == Some(i),
{
    lemma_last_slash(b);
}

/// A sequence without a separator has no last separator.
pub proof fn lemma_no_slash(b: Seq<u8>)
    requires
        forall|j: int| 0 <= j < b.len() ==> b[j] != SEPARATOR,
    ensures
        last_slash(b) is None,
{
    lemma_last_slash(b);
}

/// Finds the last `/` of `key`, as an index into its UTF-8 bytes.
pub fn find_last_slash(key: &str) -> (r: Option<usize>)
    ensures
        match r {
            Some(i) => last_slash(key_bytes(key@)) == Some(i as int),
            None => last_slash(key_bytes(key@)) is None,
        },
{
    let bytes = key.as_bytes();
    let mut i: usize = bytes.len();
    while i > 0
        invariant
            i <= bytes@.len(),
            bytes@ == key_bytes(key@),
            forall|j: int| i <= j < bytes@.len() ==> bytes@[j] != SEPARATOR,
        decreases i,
    {
        i = i - 1;
        if bytes[i] == SEPARATOR {
            proof {
                lemma_last_slash_unique(bytes@, i as int);
            }
            return Some(i);
        }
    }
    proof {
        lemma_no_slash(bytes@);
    }
    None
}

/// A key split at its last `/`, each part as UTF-8 bytes.
pub struct KeyParts<'a> {
    /// What stands before the last `/`; `None` for a key without `/`.
    pub prefix: Option<&'a [u8]>,
    /// What stands after the last `/`; the whole key where there is none.
    pub name: &'a [u8],
}

impl<'a> KeyParts<'a> {
    /// The prefix as a sequence of bytes.
    pub open spec fn prefix_bytes(&self) -> Option<Seq<u8>> {
        match self.prefix {
            Some(p) => Some(p@),
            None => None,
        }
    }
}

/// Splits `key` into prefix and name at its last `/`.
pub fn split_key<'a>(key: &'a str) -> (parts: KeyParts<'a>)
    ensures
        parts.prefix_bytes() == prefix_of(key_bytes(key@)),
        parts.name@ == name_of(key_bytes(key@)),
{
    let bytes = key.as_bytes();
    let len: usize = bytes.len();
    match find_last_slash(key) {
        Some(idx) => {
            proof {
                lemma_last_slash(bytes@);
            }
            KeyParts {
                prefix: Some(slice_subrange(bytes, 0, idx)),
                name: slice_subrange(bytes, idx + 1, len),
            }
        },
        None => KeyParts { prefix: None, name: bytes },
    }
}

} // verus!
