//! The lines printed for a match and for each removal.
use vstd::prelude::*;

use byte_unit::{Byte, UnitType};

use crate::rule::views;

verus! {

/// The human-scaled text of a byte count, such as `12.3 MB`.
pub uninterp spec fn human_size(n: u64) -> Seq<char>;

/// Relies on byte_unit's `Byte::from_u64` and `Byte::get_appropriate_unit`
/// with decimal units, shown with `{:#.1}`: the value in the largest decimal
/// unit that it reaches, rounded to one decimal place, a space and the unit.
/// The text depends on the count alone.
#[verifier::external_body]
fn human_readable(n: u64) -> (r: String)
    ensures
        r@ == human_size(n),
{
    format!("{:#.1}", Byte::from_u64(n).get_appropriate_unit(UnitType::Decimal))
}

/// The report of a match: `<label> project found in <dir> (<size>)`.
pub open spec fn report_text(label: Seq<char>, dir: Seq<char>, size: u64) -> Seq<char> {
    label + " project found in "@ + dir + " ("@ + human_size(size) + ")"@
}

/// The line announcing a removal: `Attempting to remove <path>`.
pub open spec fn removal_text(path: Seq<char>) -> Seq<char> {
    "Attempting to remove "@ + path
}

/// The report of a match of the rule labelled `label` on `dir`, whose
/// contents take `size` bytes.
pub fn report_line(label: &str, dir: &str, size: u64) -> (r: String)
    ensures
        r@ == report_text(label@, dir@, size),
{
    let mut r = label.to_owned();
    r.append(" project found in ");
    r.append(dir);
    r.append(" (");
    let h = human_readable(size);
    r.append(h.as_str());
    r.append(")");
    r
}

/// The line printed before `path` is removed.
pub fn removal_line(path: &str) -> (r: String)
    ensures
        r@ == removal_text(path@),
{
    let mut r = String::from_str("Attempting to remove ");
    r.append(path);
    r
}

/// One thing to do once a rule has fired.
#[derive(Debug)]
pub enum Action {
    /// Print this line.
    Print(String),
    /// Remove this path, with all it holds.
    Remove(String),
}

/// An action as values.
pub enum ActionModel {
    Print(Seq<char>),
    Remove(Seq<char>),
}

/// The values an action holds.
pub open spec fn action_model(a: Action) -> ActionModel {
    match a {
        Action::Print(t) => ActionModel::Print(t@),
        Action::Remove(p) => ActionModel::Remove(p@),
    }
}

/// For each path of `removals`, in order: the line announcing it, then its removal.
pub open spec fn removal_steps(removals: Seq<Seq<char>>) -> Seq<ActionModel>
    decreases removals.len(),
{
    if removals.len() == 0 {
        Seq::empty()
    } else {
        removal_steps(removals.drop_last()) + seq![
            ActionModel::Print(removal_text(removals.last())),
            ActionModel::Remove(removals.last()),
        ]
    }
}

/// What follows a match of the rule labelled `label` on `dir`, whose
/// contents take `size` bytes, when `removals` are the paths to remove: the
/// report first, then each removal announced just before it is done. The
/// caller performs the actions in order and stops at the first failure.
pub fn cleaning_actions(label: &str, dir: &str, size: u64, removals: &Vec<String>) -> (r: Vec<Action>)
    ensures
        r@.map_values(|a: Action| action_model(a)) == seq![
            ActionModel::Print(report_text(label@, dir@, size)),
        ] + removal_steps(views(removals@)),
{
    let mut r: Vec<Action> = Vec::new();
    let ghost head = seq![ActionModel::Print(report_text(label@, dir@, size))];
    r.push(Action::Print(report_line(label, dir, size)));
    assert(r@.map_values(|a: Action| action_model(a)) =~= head);
    for i in 0..removals.len()
        invariant
            head == seq![ActionModel::Print(report_text(label@, dir@, size))],
            r@.map_values(|a: Action| action_model(a)) == head + removal_steps(
                views(removals@).take(i as int),
            ),
    {
        let ghost before = r@;
        let p = &removals[i];
        r.push(Action::Print(removal_line(p.as_str())));
        r.push(Action::Remove(p.clone()));
        proof {
            let vs = views(removals@);
            assert(vs.take(i + 1).drop_last() =~= vs.take(i as int));
            assert(vs.take(i + 1).last() == p@);
            assert(r@.map_values(|a: Action| action_model(a)) =~= before.map_values(
                |a: Action| action_model(a),
            ) + seq![ActionModel::Print(removal_text(p@)), ActionModel::Remove(p@)]);
            assert(r@.map_values(|a: Action| action_model(a)) =~= head + removal_steps(
                vs.take(i + 1),
            ));
        }
    }
    assert(views(removals@).take(removals.len() as int) =~= views(removals@));
    r
}

} // verus!
