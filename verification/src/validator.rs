//! The validator: the compiled grammar and the pass over a collection of keys.

use vstd::prelude::*;
use vstd::string::*;
use crate::defect::{classify_key, key_defect, Defect};
use crate::pattern::{language_of, matched_by, matches_grammar, LABELS_NAME_REGEX};
use crate::report::{render, report_text, violation_views, Violation};
use crate::segments::key_bytes;

verus! {

/// What is reported for `key`: `None` where the key is valid.
pub open spec fn key_verdict(key: Seq<char>) -> Option<Defect> {
    key_defect(key_bytes(key), matches_grammar(key))
}

/// Whether `key` is a valid key.
pub open spec fn accepted(key: Seq<char>) -> bool {
    key_verdict(key) is None
}

/// The keys of a collection as sequences of characters, in the same order.
pub open spec fn key_views(keys: Seq<String>) -> Seq<Seq<char>> {
    Seq::new(keys.len(), |i: int| keys[i]@)
}

/// The refused keys among `keys`, each with its defect, in the order of `keys`.
pub open spec fn violations_of(keys: Seq<Seq<char>>) -> Seq<(Seq<char>, Defect)>
    decreases keys.len(),
{
    if keys.len() == 0 {
        Seq::empty()
    } else {
        let front = violations_of(keys.drop_last());
        match key_verdict(keys.last()) {
            Some(d) => front.push((keys.last(), d)),
            None => front,
        }
    }
}

/// What validating `keys` gives: success where no key is refused, else the
/// report on all that are.
pub open spec fn outcome(keys: Seq<Seq<char>>) -> Result<(), Seq<char>> {
    let found = violations_of(keys);
    if found.len() == 0 {
        Ok(())
    } else {
        Err(report_text(found))
    }
}

/// A validation result with its message as a sequence of characters.
pub open spec fn result_view(r: Result<(), String>) -> Result<(), Seq<char>> {
    match r {
        Ok(_) => Ok(()),
        Err(msg) => Err(msg@),
    }
}

/// The grammar could not be compiled.
#[derive(Debug)]
pub struct PatternError {
    pub cause: regex::Error,
}

/// A validator of keys. It holds the key grammar in compiled form, so that
/// the grammar is compiled once however many keys are checked.
pub struct KeyValidator {
    pattern: regex::Regex,
}

impl KeyValidator {
    #[verifier::type_invariant]
    spec fn holds_grammar(self) -> bool {
        matched_by(self.pattern) == language_of(LABELS_NAME_REGEX@)
    }

    /// The strings that this validator's compiled expression matches.
    pub closed spec fn language(&self) -> Set<Seq<char>> {
        matched_by(self.pattern)
    }

    /// Compiles the key grammar. Whether compiling succeeds is up to the
    /// regex engine; a validator that comes out holds the key grammar.
    pub fn new() -> (r: Result<KeyValidator, PatternError>)
        ensures
            r matches Ok(v) ==> v.language() == language_of(LABELS_NAME_REGEX@),
    {
        KeyValidator::from_compiled(regex::Regex::new(LABELS_NAME_REGEX))
    }

    /// Makes a validator of what compiling the key grammar gave: a validator
    /// around the compiled expression where there is one, else the engine's
    /// reason, kept as the cause of the error.
    pub fn from_compiled(compiled: Result<regex::Regex, regex::Error>) -> (r: Result<
        KeyValidator,
        PatternError,
    >)
        requires
            compiled matches Ok(re) ==> matched_by(re) == language_of(LABELS_NAME_REGEX@),
        ensures
            match compiled {
                Ok(re) => r matches Ok(v) && v.language() == matched_by(re),
                Err(e) => r matches Err(refused) && refused.cause == e,
            },
    {
        match compiled {
            Ok(pattern) => Ok(KeyValidator { pattern }),
            Err(cause) => Err(PatternError { cause }),
        }
    }

    /// Checks one key: its lengths, then the grammar.
    pub fn check_key(&self, key: &str) -> (r: Option<Defect>)
        ensures
            r == key_verdict(key@),
    {
        proof {
            use_type_invariant(self);
        }
        let pattern_ok = self.pattern.is_match(key);
        classify_key(key, pattern_ok)
    }

    /// Checks every key and gathers those that are refused, in the order of
    /// `keys`.
    pub fn violations(&self, keys: &Vec<String>) -> (found: Vec<Violation>)
        ensures
            violation_views(found@) == violations_of(key_views(keys@)),
    {
        let ghost all = key_views(keys@);
        let mut found: Vec<Violation> = Vec::new();
        let mut i: usize = 0;
        while i < keys.len()
            invariant
                i <= keys@.len(),
                all == key_views(keys@),
                violation_views(found@) == violations_of(all.subrange(0, i as int)),
            decreases keys@.len() - i,
        {
            let ghost before = found@;
            let key = &keys[i];
            match self.check_key(key.as_str()) {
                Some(defect) => {
                    found.push(Violation { key: key.clone(), defect });
                    proof {
                        assert(violation_views(found@) =~= violation_views(before).push(
                            (key@, defect),
                        ));
                    }
                },
                None => {},
            }
            proof {
                let next = all.subrange(0, i + 1);
                assert(next.drop_last() =~= all.subrange(0, i as int));
                assert(next.last() == key@);
            }
            i = i + 1;
        }
        proof {
            assert(all.subrange(0, i as int) =~= all);
        }
        found
    }

    /// Validates a collection of keys. Every key is checked; the result is
    /// `Ok` exactly where each one is valid, and else the report that names
    /// every refused key, in the order of `keys`.
    pub fn validate(&self, keys: &Vec<String>) -> (r: Result<(), String>)
        ensures
            result_view(r) == outcome(key_views(keys@)),
            r is Ok <==> forall|i: int| 0 <= i < keys@.len() ==> accepted(#[trigger] keys@[i]@),
    {
        let found = self.violations(keys);
        proof {
            lemma_no_violation_iff_all_accepted(key_views(keys@));
            assert(violation_views(found@).len() == found@.len());
            let views = key_views(keys@);
            if forall|i: int| 0 <= i < keys@.len() ==> accepted(#[trigger] keys@[i]@) {
                assert forall|i: int| 0 <= i < views.len() implies accepted(#[trigger] views[i]) by {
                    assert(accepted(keys@[i]@));
                }
            }
            if forall|i: int| 0 <= i < views.len() ==> accepted(#[trigger] views[i]) {
                assert forall|i: int| 0 <= i < keys@.len() implies accepted(
                    #[trigger] keys@[i]@,
                ) by {
                    assert(accepted(views[i]));
                }
            }
        }
        render(&found)
    }
}

/// No violation is found exactly where every key is accepted.
pub proof fn lemma_no_violation_iff_all_accepted(keys: Seq<Seq<char>>)
    ensures
        violations_of(keys).len() == 0 <==> forall|i: int|
            0 <= i < keys.len() ==> accepted(#[trigger] keys[i]),
    decreases keys.len(),
{
    if keys.len() > 0 {
        let front = keys.drop_last();
        lemma_no_violation_iff_all_accepted(front);
        assert(forall|i: int| 0 <= i < front.len() ==> front[i] == keys[i]);
        if violations_of(keys).len() == 0 {
            assert(accepted(keys.last()));
            assert(violations_of(front).len() == 0);
            assert forall|i: int| 0 <= i < keys.len() implies accepted(#[trigger] keys[i]) by {
                if i < front.len() {
                    assert(accepted(front[i]));
                }
            }
        } else {
            if accepted(keys.last()) {
                assert(violations_of(front).len() != 0);
                let i = choose|i: int| 0 <= i < front.len() && !accepted(#[trigger] front[i]);
                assert(!accepted(keys[i]));
            } else {
                assert(!accepted(keys[keys.len() - 1]));
            }
        }
    }
}

} // verus!
