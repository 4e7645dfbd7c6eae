//! The getty units of sessions, and the calls that start and stop them.

use vstd::prelude::*;
use vstd::string::*;
use crate::text::{
    decimal, law_decimal_reads_back, lemma_decimal_injective, number_of, push_decimal,
};

verus! {

/// Name of the unit that serves the tty `dev_num`.
pub open spec fn unit_name(unit_template: Seq<char>, dev_num: i16) -> Seq<char> {
    unit_template + "rfcomm"@ + decimal(dev_num as int) + ".service"@
}

/// Name of the unit that serves the tty `dev_num`.
pub fn unit_name_for(unit_template: &str, dev_num: i16) -> (r: String)
    ensures
        r@ == unit_name(unit_template@, dev_num),
{
    let mut s = String::new();
    s.append(unit_template);
    s.append("rfcomm");
    push_decimal(&mut s, dev_num as i64);
    s.append(".service");
    s
}

/// Different ttys are served by different units.
pub proof fn law_each_tty_has_its_own_unit(unit_template: Seq<char>, a: i16, b: i16)
    requires
        a != b,
    ensures
        unit_name(unit_template, a) != unit_name(unit_template, b),
{
    let head = unit_template + "rfcomm"@;
    let tail = ".service"@;
    if unit_name(unit_template, a) == unit_name(unit_template, b) {
        let n = unit_name(unit_template, a);
        let m = unit_name(unit_template, b);
        assert(n.len() == m.len());
        assert(n.subrange(head.len() as int, n.len() - tail.len()) =~= decimal(a as int));
        assert(m.subrange(head.len() as int, m.len() - tail.len()) =~= decimal(b as int));
        lemma_decimal_injective(a as int, b as int);
    }
}

/// The name of a unit is the template as it is, `rfcomm`, the number of the tty,
/// which reads back as that number, and `.service`.
pub proof fn law_unit_name_tells_the_tty(unit_template: Seq<char>, dev_num: i16)
    ensures
        ({
            let name = unit_name(unit_template, dev_num);
            let at = unit_template.len() as int;
            let end = name.len() - 8;
            &&& at + 6 < end
            &&& name.take(at) == unit_template
            &&& name.subrange(at, at + 6) == seq!['r', 'f', 'c', 'o', 'm', 'm']
            &&& number_of(name.subrange(at + 6, end)) == dev_num
            &&& name.skip(end) == seq!['.', 's', 'e', 'r', 'v', 'i', 'c', 'e']
        }),
{
    reveal_strlit("rfcomm");
    reveal_strlit(".service");
    law_decimal_reads_back(dev_num as int);
    let name = unit_name(unit_template, dev_num);
    let at = unit_template.len() as int;
    let end = name.len() - 8;
    assert(name.take(at) =~= unit_template);
    assert(name.subrange(at, at + 6) =~= seq!['r', 'f', 'c', 'o', 'm', 'm']);
    assert(name.subrange(at + 6, end) =~= decimal(dev_num as int));
    assert(name.skip(end) =~= seq!['.', 's', 'e', 'r', 'v', 'i', 'c', 'e']);
}

/// Method of the systemd manager.
#[derive(Clone, Copy, Debug, PartialEq, Eq, Structural)]
pub enum UnitMethod {
    StartUnit,
    StopUnit,
}

/// A call of the systemd manager.
#[derive(Debug)]
pub struct UnitCall {
    pub method: UnitMethod,
    pub name: String,
    pub mode: String,
}

impl UnitCall {
    /// The call of `method` on the unit of the tty `dev_num`, which replaces
    /// a conflicting job.
    pub open spec fn is_for(
        &self,
        method: UnitMethod,
        unit_template: Seq<char>,
        dev_num: i16,
    ) -> bool {
        &&& self.method == method
        &&& self.name@ == unit_name(unit_template, dev_num)
        &&& self.mode@ == "replace"@
    }
}

/// A call for a tty goes to the method it is of, names the unit of that tty, and
/// replaces a conflicting job.
pub proof fn law_call_is_made_for_its_tty(
    call: UnitCall,
    method: UnitMethod,
    unit_template: Seq<char>,
    dev_num: i16,
)
    requires
        call.is_for(method, unit_template, dev_num),
    ensures
        call.method == method,
        call.name@ == unit_name(unit_template, dev_num),
        call.mode@ == "replace"@,
{
}

/// The call that starts the getty of the tty `dev_num`.
pub fn start_getty(unit_template: &str, dev_num: i16) -> (r: UnitCall)
    ensures
        r.is_for(UnitMethod::StartUnit, unit_template@, dev_num),
{
    UnitCall {
        method: UnitMethod::StartUnit,
        name: unit_name_for(unit_template, dev_num),
        mode: "replace".to_owned(),
    }
}

/// The call that stops the getty of the tty `dev_num`.
pub fn stop_getty(unit_template: &str, dev_num: i16) -> (r: UnitCall)
    ensures
        r.is_for(UnitMethod::StopUnit, unit_template@, dev_num),
{
    UnitCall {
        method: UnitMethod::StopUnit,
        name: unit_name_for(unit_template, dev_num),
        mode: "replace".to_owned(),
    }
}

/// A unit in the state `active_state` no longer runs.
pub fn is_inactive(active_state: &String) -> (r: bool)
    ensures
        r <==> active_state@ == "inactive"@ || active_state@ == "failed"@,
{
    *active_state == "inactive".to_owned() || *active_state == "failed".to_owned()
}

/// What is known of a unit that is watched.
#[derive(Clone, Copy, Debug, PartialEq, Eq, Structural)]
pub struct UnitProgress {
    /// It has been seen to run.
    pub has_run: bool,
    /// It has run, and no longer does.
    pub ended: bool,
}

/// Takes in a state of a unit that has been seen to run before or not
/// (`has_run`). A unit that has not run yet is not at its end: its start may
/// still be queued.
pub fn observe_unit(has_run: bool, active_state: &String) -> (r: UnitProgress)
    ensures
        ({
            let inactive = active_state@ == "inactive"@ || active_state@ == "failed"@;
            &&& r.has_run == (has_run || !inactive)
            &&& r.ended == (has_run && inactive)
        }),
{
    let inactive = is_inactive(active_state);
    UnitProgress { has_run: has_run || !inactive, ended: has_run && inactive }
}

} // verus!
