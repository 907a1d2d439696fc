//! The ways in which a key can be invalid, and the rule that picks the one
//! that is reported.

use vstd::prelude::*;
use vstd::string::*;
use crate::segments::{key_bytes, lemma_last_slash, name_of, prefix_of, split_key};

verus! {

/// Most bytes that a prefix may have.
pub const MAX_PREFIX_LEN: usize = 253;

/// Most bytes that a name may have.
pub const MAX_NAME_LEN: usize = 63;

/// Most bytes that a key with a prefix may have, separator included.
pub const MAX_KEY_LEN: usize = 253;

/// Why a key is refused.
#[derive(Clone, Copy, Debug, PartialEq, Eq, Structural)]
pub enum Defect {
    /// The part before the last `/` is longer than `MAX_PREFIX_LEN`.
    PrefixTooLong,
    /// The part after the last `/`, or a key without `/`, is longer than
    /// `MAX_NAME_LEN`.
    NameTooLong,
    /// A key with a prefix is longer than `MAX_KEY_LEN`.
    KeyTooLong,
    /// The key does not match the key grammar.
    Pattern,
}

/// The first length limit that the bytes `b` of a key exceed: the prefix's,
/// then the name's, then that of the whole key. The last one binds only a key
/// that has a prefix.
pub open spec fn length_defect(b: Seq<u8>) -> Option<Defect> {
    match prefix_of(b) {
        Some(prefix) => if prefix.len() > MAX_PREFIX_LEN {
            Some(Defect::PrefixTooLong)
        } else if name_of(b).len() > MAX_NAME_LEN {
            Some(Defect::NameTooLong)
        } else if b.len() > MAX_KEY_LEN {
            Some(Defect::KeyTooLong)
        } else {
            None
        },
        None => if b.len() > MAX_NAME_LEN {
            Some(Defect::NameTooLong)
        } else {
            None
        },
    }
}

/// The defect reported for a key with bytes `b`, where `pattern_ok` tells
/// whether the key matches the grammar: a length defect comes first, the
/// grammar is consulted only where every length is in bounds.
pub open spec fn key_defect(b: Seq<u8>, pattern_ok: bool) -> Option<Defect> {
    match length_defect(b) {
        Some(d) => Some(d),
        None => if pattern_ok {
            None
        } else {
            Some(Defect::Pattern)
        },
    }
}

/// Checks the lengths of the parts of `key`.
pub fn check_lengths(key: &str) -> (r: Option<Defect>)
    ensures
        r == length_defect(key_bytes(key@)),
{
    let parts = split_key(key);
    let key_len: usize = key.as_bytes().len();
    match parts.prefix {
        Some(prefix) => {
            proof {
                lemma_last_slash(key_bytes(key@));
            }
            if prefix.len() > MAX_PREFIX_LEN {
                Some(Defect::PrefixTooLong)
            } else if parts.name.len() > MAX_NAME_LEN {
                Some(Defect::NameTooLong)
            } else if key_len > MAX_KEY_LEN {
                Some(Defect::KeyTooLong)
            } else {
                None
            }
        },
        None => {
            if key_len > MAX_NAME_LEN {
                Some(Defect::NameTooLong)
            } else {
                None
            }
        },
    }
}

/// Decides what is reported for `key`, given whether it matches the grammar.
pub fn classify_key(key: &str, pattern_ok: bool) -> (r: Option<Defect>)
    ensures
        r == key_defect(key_bytes(key@), pattern_ok),
{
    match check_lengths(key) {
        Some(d) => Some(d),
        None => {
            if pattern_ok {
                None
            } else {
                Some(Defect::Pattern)
            }
        },
    }
}

} // verus!
