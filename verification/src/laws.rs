//! Laws that hold of validation as a whole.

use vstd::prelude::*;
use vstd::utf8::{is_ascii_chars, is_ascii_chars_encode_utf8};
use crate::defect::{key_defect, length_defect, Defect, MAX_KEY_LEN, MAX_NAME_LEN, MAX_PREFIX_LEN};
use crate::pattern::matches_grammar;
use crate::segments::{
    key_bytes, last_slash, lemma_last_slash, lemma_last_slash_unique, name_of, prefix_of,
    SEPARATOR,
};
use crate::validator::{
    accepted, key_verdict, key_views, lemma_no_violation_iff_all_accepted, outcome, result_view,
    violations_of,
};

verus! {

/// Validating the same keys twice gives the same result: two results that
/// both are the outcome of validating `keys` agree, message included.
pub proof fn validation_is_repeatable(
    keys: Seq<String>,
    first: Result<(), String>,
    second: Result<(), String>,
)
    requires
        result_view(first) == outcome(key_views(keys)),
        result_view(second) == outcome(key_views(keys)),
    ensures
        result_view(first) == result_view(second),
{
}

/// A key is listed with a defect exactly where it is one of the keys and
/// that defect is what checking the key alone gives. The keys around it have
/// no influence.
pub proof fn violation_listed_iff_refused(keys: Seq<Seq<char>>, key: Seq<char>, d: Defect)
    ensures
        violations_of(keys).contains((key, d)) <==> keys.contains(key) && key_verdict(key) == Some(
            d,
        ),
    decreases keys.len(),
{
    if keys.len() > 0 {
        let front = keys.drop_last();
        let last = keys.last();
        violation_listed_iff_refused(front, key, d);
        let found = violations_of(keys);
        let before = violations_of(front);
        assert(keys =~= front.push(last));
        if keys.contains(key) {
            let i = choose|i: int| 0 <= i < keys.len() && keys[i] == key;
            if i < front.len() {
                assert(front[i] == key);
            }
        }
        if front.contains(key) {
            let i = choose|i: int| 0 <= i < front.len() && front[i] == key;
            assert(keys[i] == key);
        }
        assert(keys[keys.len() - 1] == last);
        match key_verdict(last) {
            Some(ld) => {
                assert(found == before.push((last, ld)));
                if found.contains((key, d)) {
                    let i = choose|i: int| 0 <= i < found.len() && found[i] == (key, d);
                    if i < before.len() {
                        assert(before[i] == (key, d));
                    }
                }
                if before.contains((key, d)) {
                    let i = choose|i: int| 0 <= i < before.len() && before[i] == (key, d);
                    assert(found[i] == (key, d));
                }
                if key == last && ld == d {
                    assert(found[found.len() - 1] == (key, d));
                }
            },
            None => {},
        }
    }
}

/// Whether validation succeeds, and which keys are listed with which
/// defect, depends only on which keys are there, not on their order or on how
/// often one occurs.
pub proof fn validity_ignores_order(a: Seq<Seq<char>>, b: Seq<Seq<char>>)
    requires
        forall|k: Seq<char>| a.contains(k) <==> b.contains(k),
    ensures
        outcome(a) is Ok <==> outcome(b) is Ok,
        forall|k: Seq<char>, d: Defect| #[trigger]
            violations_of(a).contains((k, d)) <==> violations_of(b).contains((k, d)),
{
    assert forall|k: Seq<char>, d: Defect| #[trigger]
        violations_of(a).contains((k, d)) <==> violations_of(b).contains((k, d)) by {
        violation_listed_iff_refused(a, k, d);
        violation_listed_iff_refused(b, k, d);
    }
    lemma_no_violation_iff_all_accepted(a);
    lemma_no_violation_iff_all_accepted(b);
    if forall|i: int| 0 <= i < a.len() ==> accepted(#[trigger] a[i]) {
        assert forall|i: int| 0 <= i < b.len() implies accepted(#[trigger] b[i]) by {
            assert(b.contains(b[i]));
            let j = choose|j: int| 0 <= j < a.len() && a[j] == b[i];
            assert(accepted(a[j]));
        }
    }
    if forall|i: int| 0 <= i < b.len() ==> accepted(#[trigger] b[i]) {
        assert forall|i: int| 0 <= i < a.len() implies accepted(#[trigger] a[i]) by {
            assert(a.contains(a[i]));
            let j = choose|j: int| 0 <= j < b.len() && b[j] == a[i];
            assert(accepted(b[j]));
        }
    }
}

/// A key is split at its last `/` and at no other: however the bytes are
/// written as a prefix, a `/` and a rest without `/`, that prefix and that
/// rest are the key's prefix and name.
pub proof fn split_is_at_last_slash(b: Seq<u8>, prefix: Seq<u8>, name: Seq<u8>)
    requires
        b == prefix + seq![SEPARATOR] + name,
        !name.contains(SEPARATOR),
    ensures
        prefix_of(b) == Some(prefix),
        name_of(b) == name,
{
    let i = prefix.len() as int;
    assert(b[i] == SEPARATOR);
    assert forall|j: int| i < j < b.len() implies b[j] != SEPARATOR by {
        assert(b[j] == name[j - i - 1]);
        assert(name.contains(name[j - i - 1]));
    }
    lemma_last_slash_unique(b, i);
    assert(b.subrange(0, i) =~= prefix);
    assert(b.subrange(i + 1, b.len() as int) =~= name);
}

/// A key that holds a `/` has a prefix; prefix, `/` and name make up the
/// key, and the name holds no `/`. A key without `/` is all name.
pub proof fn parts_make_up_key(b: Seq<u8>)
    ensures
        b.contains(SEPARATOR) <==> prefix_of(b) is Some,
        prefix_of(b) matches Some(prefix) ==> b == prefix + seq![SEPARATOR] + name_of(b),
        prefix_of(b) is None ==> name_of(b) == b,
        !name_of(b).contains(SEPARATOR),
{
    lemma_last_slash(b);
    let name = name_of(b);
    match last_slash(b) {
        Some(i) => {
            assert(b.contains(SEPARATOR));
            assert(b =~= b.subrange(0, i) + seq![SEPARATOR] + name);
            if name.contains(SEPARATOR) {
                let j = choose|j: int| 0 <= j < name.len() && name[j] == SEPARATOR;
                assert(b[i + 1 + j] == SEPARATOR);
            }
        },
        None => {
            if b.contains(SEPARATOR) {
                let j = choose|j: int| 0 <= j < b.len() && b[j] == SEPARATOR;
                assert(b[j] != SEPARATOR);
            }
        },
    }
}

/// A key of ASCII characters has one byte for each character, so that for
/// such a key every limit on bytes is a limit on characters.
pub proof fn ascii_key_has_a_byte_per_character(key: Seq<char>)
    requires
        is_ascii_chars(key),
    ensures
        key_bytes(key).len() == key.len(),
        forall|i: int| 0 <= i < key.len() ==> key_bytes(key)[i] == key[i] as u8,
{
    is_ascii_chars_encode_utf8(key);
}

/// The whole rule of acceptance: a key is valid exactly where it matches the
/// grammar, its name has at most `MAX_NAME_LEN` bytes and, if it has a
/// prefix, the whole key has at most `MAX_KEY_LEN` bytes.
pub proof fn acceptance_rule(key: Seq<char>)
    ensures
        accepted(key) <==> {
            &&& matches_grammar(key)
            &&& name_of(key_bytes(key)).len() <= MAX_NAME_LEN
            &&& prefix_of(key_bytes(key)) is Some ==> key_bytes(key).len() <= MAX_KEY_LEN
        },
{
    lemma_last_slash(key_bytes(key));
}

/// The name's boundary: a key whose name has more than `MAX_NAME_LEN` bytes
/// is refused whatever else holds of it, and a key that matches the grammar
/// with a name of exactly `MAX_NAME_LEN` bytes is accepted, provided that
/// with a prefix the whole key stays within `MAX_KEY_LEN` bytes.
pub proof fn name_length_boundary(key: Seq<char>)
    ensures
        name_of(key_bytes(key)).len() > MAX_NAME_LEN ==> !accepted(key),
        prefix_of(key_bytes(key)) is None && key_bytes(key).len() > MAX_NAME_LEN ==> key_verdict(
            key,
        ) == Some(Defect::NameTooLong),
        ({
            &&& name_of(key_bytes(key)).len() == MAX_NAME_LEN
            &&& matches_grammar(key)
            &&& prefix_of(key_bytes(key)) is Some ==> key_bytes(key).len() <= MAX_KEY_LEN
        }) ==> accepted(key),
{
    lemma_last_slash(key_bytes(key));
}

/// The prefix's boundary: a prefix of more than `MAX_PREFIX_LEN` bytes is
/// reported as too long. A shorter prefix is no defect by itself: such a key
/// is accepted where it matches the grammar, its name is within bounds and
/// prefix, `/` and name together stay within `MAX_KEY_LEN` bytes. A prefix of
/// exactly `MAX_PREFIX_LEN` bytes makes a key of more than `MAX_KEY_LEN`, which
/// is refused for its length, though not for its prefix.
pub proof fn prefix_length_boundary(key: Seq<char>)
    requires
        prefix_of(key_bytes(key)) is Some,
    ensures
        prefix_of(key_bytes(key))->0.len() > MAX_PREFIX_LEN ==> key_verdict(key) == Some(
            Defect::PrefixTooLong,
        ),
        prefix_of(key_bytes(key))->0.len() <= MAX_PREFIX_LEN ==> key_verdict(key) != Some(
            Defect::PrefixTooLong,
        ),
        prefix_of(key_bytes(key))->0.len() == MAX_PREFIX_LEN ==> (key_verdict(key) == Some(
            Defect::NameTooLong,
        ) || key_verdict(key) == Some(Defect::KeyTooLong)),
        ({
            &&& prefix_of(key_bytes(key))->0.len() + 1 + name_of(key_bytes(key)).len()
                <= MAX_KEY_LEN
            &&& name_of(key_bytes(key)).len() <= MAX_NAME_LEN
            &&& matches_grammar(key)
        }) ==> accepted(key),
{
    lemma_last_slash(key_bytes(key));
}

/// Lengths come before the grammar: a key that exceeds a length limit is
/// reported with that limit, whether or not it matches the grammar.
pub proof fn length_defect_comes_first(b: Seq<u8>, pattern_ok: bool)
    ensures
        length_defect(b) is Some ==> key_defect(b, pattern_ok) == length_defect(b),
        length_defect(b) is None ==> (key_defect(b, pattern_ok) is None <==> pattern_ok),
{
}

} // verus!
