//! Fail points: the places in a target at which a trial may make it crash.

use vstd::prelude::*;

verus! {

/// What a target says when it crashes at the point `name`.
pub open spec fn flunk_text(name: Seq<char>) -> Seq<char> {
    "KAOS: Flunking at \""@ + name + "\""@
}

/// What a target says when it crashes at the point `name`.
pub fn flunk_message(name: &str) -> (text: String)
    ensures
        text@ == flunk_text(name@),
{
    let mut text = "KAOS: Flunking at \"".to_owned();
    text.append(name);
    text.append("\"");
    text
}

/// The actions that stand for one task without any argument, and that `fail`
/// therefore always reads: `panic` and `off`.
pub open spec fn is_plain_task(actions: Seq<char>) -> bool {
    actions == "panic"@ || actions == "off"@
}

/// Sets the actions of the fail point `name` with `fail::cfg`, which
/// replaces whatever was set for that point before. The outside crate
/// answers with an error only where it cannot read `actions`; it reads
/// `panic` and `off` as tasks of their own, so for these it answers `Ok`.
/// Of other actions nothing is claimed: `requires` leaves them out.
#[verifier::external_body]
fn configure_point(name: &str, actions: &str) -> (answer: Result<(), String>)
    requires
        is_plain_task(actions@),
    ensures
        answer is Ok,
{
    fail::cfg(name, actions)
}

/// Arms the point `name`, whatever the name: from now on a target that
/// reaches it crashes. The outside crate takes the action `panic` for every
/// point, so the answer is `Ok`.
pub fn arm(name: &str) -> (answer: Result<(), String>)
    ensures
        answer is Ok,
{
    configure_point(name, "panic")
}

/// Disarms the point `name`, whatever the name: a target that reaches it
/// goes on. The outside crate takes the action `off` for every point, so the
/// answer is `Ok`.
pub fn disarm(name: &str) -> (answer: Result<(), String>)
    ensures
        answer is Ok,
{
    configure_point(name, "off")
}

} // verus!
