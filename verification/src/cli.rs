//! The decisions of the command-line tool: which goals to render, and the
//! names of the files it writes.

use crate::models::{goals_view, Goal, GoalView};
use crate::text::same_text;
use vstd::prelude::*;

verus! {

/// The output format of a rendered map.
#[derive(Copy, Clone, PartialEq, Eq, PartialOrd, Ord, Debug, Structural)]
pub enum Format {
    Svg,
    Png,
    Dot,
}

/// The file extension of a format.
pub open spec fn extension_spec(f: Format) -> Seq<char> {
    match f {
        Format::Svg => "svg"@,
        Format::Png => "png"@,
        Format::Dot => "dot"@,
    }
}

impl Format {
    /// The file extension of the format: `svg`, `png` or `dot`.
    pub fn extension(&self) -> (r: &'static str)
        ensures
            r@ == extension_spec(*self),
    {
        match self {
            Format::Svg => "svg",
            Format::Png => "png",
            Format::Dot => "dot",
        }
    }
}

/// Whether a goal has the given identifier.
pub open spec fn has_id(id: Seq<char>) -> spec_fn(GoalView) -> bool {
    |g: GoalView| g.id == id
}

/// The goals to render: all of them, or, when a goal identifier is given,
/// those with that identifier, in their order.
pub fn select_goals(goals: Vec<Goal>, goal_id: Option<&str>) -> (r: Vec<Goal>)
    ensures
        match goal_id {
            None => goals_view(r@) == goals_view(goals@),
            Some(id) => goals_view(r@) == goals_view(goals@).filter(has_id(id@)),
        },
{
    match goal_id {
        None => goals,
        Some(id) => {
            let ghost all = goals_view(goals@);
            let ghost keep = has_id(id@);
            let mut selected: Vec<Goal> = Vec::new();
            for g in it: goals.into_iter()
                invariant
                    it.seq() == goals@,
                    all == goals_view(goals@),
                    keep == has_id(id@),
                    goals_view(selected@) == all.take(it.index() as int).filter(keep),
            {
                let ghost i = it.index() as int;
                assert(all.take(i + 1).drop_last() =~= all.take(i));
                assert(all.take(i + 1).last() == g@);
                proof {
                    reveal(Seq::filter);
                }
                let ghost before = selected@;
                if same_text(g.id.as_str(), id) {
                    selected.push(g);
                    assert(goals_view(selected@) =~= goals_view(before).push(selected@.last()@));
                }
            }
            assert(all.take(all.len() as int) =~= all);
            selected
        },
    }
}

/// Whether `--out` names the output file itself (without extension) rather
/// than a directory: when one goal was asked for and `--out` is not `.`.
pub fn out_names_file(goal_selected: bool, out: &str) -> (r: bool)
    ensures
        r == (goal_selected && out@ != "."@),
{
    goal_selected && !same_text(out, ".")
}

/// The names of the DOT file and of the target file written for the base
/// path `base`: `<base>.dot` and `<base>.<extension>`.
pub fn output_file_names(base: &str, format: Format) -> (r: (String, String))
    ensures
        r.0@ == base@ + ".dot"@,
        r.1@ == base@ + "."@ + extension_spec(format),
{
    let mut dot_file = String::from_str(base);
    dot_file.append(".dot");
    let mut target_file = String::from_str(base);
    target_file.append(".");
    target_file.append(format.extension());
    (dot_file, target_file)
}

/// Selecting by an identifier keeps exactly the goals with that identifier:
/// each kept goal has it, and each goal that has it is kept.
pub proof fn law_selection_keeps_exactly_the_goal(goals: Seq<GoalView>, id: Seq<char>)
    ensures
        forall|i: int|
            0 <= i < goals.filter(has_id(id)).len() ==> (#[trigger] goals.filter(has_id(id))[i]).id
                == id,
        forall|i: int|
            0 <= i < goals.len() && (#[trigger] goals[i]).id == id ==> goals.filter(
                has_id(id),
            ).contains(goals[i]),
{
    assert forall|i: int|
        0 <= i < goals.filter(has_id(id)).len() implies (#[trigger] goals.filter(
        has_id(id),
    )[i]).id == id by {
        goals.lemma_filter_pred(has_id(id), i);
    }
    assert forall|i: int| 0 <= i < goals.len() && (#[trigger] goals[i]).id == id implies goals.filter(
        has_id(id),
    ).contains(goals[i]) by {
        goals.lemma_filter_contains(has_id(id), i);
    }
}

} // verus!
