//! Violations and the text of the report that lists them.

use vstd::prelude::*;
use vstd::string::*;
use crate::defect::Defect;

verus! {

/// One refused key with the reason for which it is refused.
#[derive(Debug)]
pub struct Violation {
    pub key: String,
    pub defect: Defect,
}

impl View for Violation {
    type V = (Seq<char>, Defect);

    open spec fn view(&self) -> (Seq<char>, Defect) {
        (self.key@, self.defect)
    }
}

/// The views of a sequence of violations, in the same order.
pub open spec fn violation_views(vs: Seq<Violation>) -> Seq<(Seq<char>, Defect)> {
    Seq::new(vs.len(), |i: int| vs[i]@)
}

/// What follows the key in a description: the defect in parentheses, and
/// nothing for a key that fails the grammar.
pub open spec fn suffix_text(d: Defect) -> Seq<char> {
    match d {
        Defect::PrefixTooLong => " (prefix too long)"@,
        Defect::NameTooLong => " (name too long)"@,
        Defect::KeyTooLong => " (key too long)"@,
        Defect::Pattern => Seq::empty(),
    }
}

/// The description of one violation: the key, then the defect's suffix.
pub open spec fn description(v: (Seq<char>, Defect)) -> Seq<char> {
    v.0 + suffix_text(v.1)
}

/// The descriptions of `vs` in order, with `", "` between neighbours.
pub open spec fn joined(vs: Seq<(Seq<char>, Defect)>) -> Seq<char>
    decreases vs.len(),
{
    if vs.len() == 0 {
        Seq::empty()
    } else if vs.len() == 1 {
        description(vs[0])
    } else {
        joined(vs.drop_last()) + ", "@ + description(vs.last())
    }
}

/// The whole report: a heading, then the joined descriptions.
pub open spec fn report_text(vs: Seq<(Seq<char>, Defect)>) -> Seq<char> {
    "Invalid annotation names: "@ + joined(vs)
}

impl Defect {
    /// The defect's suffix in a description.
    pub fn suffix(&self) -> (s: &'static str)
        ensures
            s@ == suffix_text(*self),
    {
        match self {
            Defect::PrefixTooLong => " (prefix too long)",
            Defect::NameTooLong => " (name too long)",
            Defect::KeyTooLong => " (key too long)",
            Defect::Pattern => {
                proof {
                    reveal_strlit("");
                    assert(""@ =~= Seq::<char>::empty());
                }
                ""
            },
        }
    }
}

impl Violation {
    /// The text that stands for this violation in a report.
    pub fn describe(&self) -> (s: String)
        ensures
            s@ == description(self@),
    {
        let mut s = self.key.clone();
        s.append(self.defect.suffix());
        s
    }
}

/// Turns the violations found into the result of a validation: success
/// where there is none, else the report that lists them all in order.
pub fn render(violations: &Vec<Violation>) -> (r: Result<(), String>)
    ensures
        r is Ok <==> violations@.len() == 0,
        r matches Err(msg) ==> msg@ == report_text(violation_views(violations@)),
{
    if violations.len() == 0 {
        return Ok(());
    }
    let ghost views = violation_views(violations@);
    let mut msg = String::from_str("Invalid annotation names: ");
    let mut i: usize = 0;
    while i < violations.len()
        invariant
            i <= violations@.len(),
            views == violation_views(violations@),
            msg@ == "Invalid annotation names: "@ + joined(views.subrange(0, i as int)),
        decreases violations@.len() - i,
    {
        let ghost before = views.subrange(0, i as int);
        let ghost after = views.subrange(0, i + 1);
        if i > 0 {
            msg.append(", ");
        }
        let text = violations[i].describe();
        msg.append(text.as_str());
        proof {
            assert(after.drop_last() =~= before);
            assert(after.last() == violations@[i as int]@);
            if i == 0 {
                assert(before =~= Seq::empty());
                assert(joined(before) =~= Seq::<char>::empty());
                assert(msg@ =~= "Invalid annotation names: "@ + joined(after));
            } else {
                assert(msg@ =~= "Invalid annotation names: "@ + joined(after));
            }
        }
        i = i + 1;
    }
    proof {
        assert(views.subrange(0, i as int) =~= views);
    }
    Err(msg)
}

} // verus!
