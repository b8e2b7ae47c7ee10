//! Rendering of one goal of an impact map as a Graphviz DOT digraph whose
//! nodes carry colour-coded HTML-like labels, with a legend on top.

use crate::models::{
    Actor, ActorView, Deliverable, DeliverableView, Goal, GoalView, Impact, ImpactView, Metric,
    MetricView,
};
use crate::text::{
    decimal, decimal_digits, is_infix, lacks, lemma_decimal_digits_injective, lemma_infix_framed,
    lemma_infix_grow, lemma_infix_self, lemma_infix_trans, lemma_replace_absent,
    lemma_no_straddle_pair, lemma_no_straddle_single, lemma_replace_concat, lemma_replace_first,
    lemma_differs_at, lemma_matches_prefix, lemma_replace_keeps_lacking, lemma_replace_last,
    lemma_replace_removes, lemma_replace_short, lemma_replace_whole, matches_at, push_decimal_i64, push_decimal_usize,
    replace_all, replace_seq,
};
use vstd::prelude::*;

verus! {

broadcast use vstd::string::group_string_axioms;

// Theme and layout.
pub const CELL_PAD: &'static str = "10";
pub const FONT_MAIN: &'static str = "Helvetica, Arial, sans-serif";
pub const C_GOAL_BG: &'static str = "#8b5cf6";
pub const C_GOAL_BORDER: &'static str = "#4c1d95";
pub const C_ACTOR_BG: &'static str = "#3b82f6";
pub const C_ACTOR_BORDER: &'static str = "#1e3a8a";
pub const C_IMPACT_BG: &'static str = "#10b981";
pub const C_IMPACT_BORDER: &'static str = "#064e3b";
pub const C_DELIV_BG: &'static str = "#f59e0b";
pub const C_DELIV_BORDER: &'static str = "#78350f";
pub const C_BG_LIGHT: &'static str = "#ffffff";
pub const C_BG_FOOTER: &'static str = "#f8fafc";
pub const C_LEGEND_BORDER: &'static str = "#cbd5e1";
pub const C_TEXT_MUTED: &'static str = "#475569";
pub const C_TEXT_LIGHT: &'static str = "#94a3b8";

/// HTML escaping of label text: `&`, then `>=`, `<=`, `<` and `>` are
/// replaced, in this order, by `&amp;`, `&ge;`, `&le;`, `&lt;` and `&gt;`.
pub open spec fn escape_html_spec(t: Seq<char>) -> Seq<char> {
    replace_seq(
        replace_seq(
            replace_seq(replace_seq(replace_seq(t, "&"@, "&amp;"@), ">="@, "&ge;"@), "<="@, "&le;"@),
            "<"@,
            "&lt;"@,
        ),
        ">"@,
        "&gt;"@,
    )
}

/// The identifier part of a node footer: empty without an identifier.
pub open spec fn footer_id_spec(id: Option<Seq<char>>) -> Seq<char> {
    match id {
        Some(i) => "<font color=\""@
            + C_TEXT_LIGHT@
            + "\">#"@
            + i
            + "</font>"@,
        None => Seq::empty(),
    }
}

/// The footer table of a node label: its statistics on the left and its
/// identifier, if any, on the right.
pub open spec fn footer_spec(stats: Seq<char>, id: Option<Seq<char>>) -> Seq<char> {
    "\n        <table border=\"0\" cellborder=\"0\" cellspacing=\"0\" cellpadding=\"0\">\n            <tr>\n                <td align=\"left\"><font point-size=\"10\" color=\""@
        + C_TEXT_MUTED@
        + "\">"@
        + stats
        + "</font></td>\n                <td align=\"right\"><font point-size=\"9\">"@
        + footer_id_spec(id)
        + footer_end()
}

/// What follows the identifier part in a node footer.
pub open spec fn footer_end() -> Seq<char> {
    "</font></td>\n            </tr>\n        </table>\n    "@
}

/// The three label rows of one metric in a goal node.
pub open spec fn metric_rows_spec(m: MetricView) -> Seq<char> {
    "\n            <tr><td align=\"left\" width=\"200\"><font point-size=\"11\"><b>"@
        + escape_html_spec(m.name)
        + "</b>: "@
        + escape_html_spec(m.target)
        + "</font></td></tr>\n            <tr><td align=\"left\" width=\"200\"><font point-size=\"9\" color=\""@
        + C_TEXT_MUTED@
        + "\"><i>"@
        + escape_html_spec(m.desc)
        + "</i></font></td></tr>\n            <tr><td><font point-size=\"4\">&nbsp;</font></td></tr>\n        "@
}

/// The rows of all metrics, in order.
pub open spec fn metrics_html_spec(ms: Seq<MetricView>) -> Seq<char>
    decreases ms.len(),
{
    if ms.len() == 0 {
        Seq::empty()
    } else {
        metrics_html_spec(ms.drop_last()) + metric_rows_spec(ms.last())
    }
}

/// The node of a goal: its escaped name, the rows of its metrics and its identifier.
pub open spec fn goal_node_spec(g: GoalView) -> Seq<char> {
    "\n    \""@
        + g.id
        + "\" [label=<\n        <table border=\"0\" cellborder=\"1\" cellspacing=\"0\" cellpadding=\"8\" color=\""@
        + C_GOAL_BORDER@
        + "\">\n            <tr><td bgcolor=\""@
        + C_GOAL_BG@
        + "\"><font color=\"white\"><b>"@
        + escape_html_spec(g.name)
        + "</b></font></td></tr>\n            <tr><td bgcolor=\""@
        + C_BG_LIGHT@
        + "\">\n                <table border=\"0\" cellborder=\"0\" cellspacing=\"0\" cellpadding=\"2\">\n                    "@
        + metrics_html_spec(g.metrics)
        + "\n                </table>\n            </td></tr>\n            <tr><td bgcolor=\""@
        + C_BG_FOOTER@
        + "\" align=\"right\"><font point-size=\"9\" color=\""@
        + C_TEXT_LIGHT@
        + "\">#"@
        + escape_html_spec(g.id)
        + "</font></td></tr>\n        </table>\n    >];\n    "@
}

/// The statistics of an actor: its priority.
pub open spec fn actor_stats_spec(prio: int) -> Seq<char> {
    "Prio: "@ + decimal(prio) + " &nbsp;&nbsp;&nbsp;"@
}

/// The statistics of an impact or a deliverable: priority and story points.
pub open spec fn prio_sp_stats_spec(prio: int, sp: int) -> Seq<char> {
    "Prio: "@ + decimal(prio) + " &nbsp;&bull;&nbsp; SP: "@ + decimal(sp)
}

/// The node of an actor under the given node identifier.
pub open spec fn actor_node_spec(a: ActorView, node_id: Seq<char>) -> Seq<char> {
    "\n    \""@
        + node_id
        + "\" [label=<\n        <table border=\"0\" cellborder=\"1\" cellspacing=\"0\" cellpadding=\""@
        + CELL_PAD@
        + "\" color=\""@
        + C_ACTOR_BORDER@
        + "\">\n            <tr><td bgcolor=\""@
        + C_ACTOR_BG@
        + "\" align=\"center\"><font color=\"white\"><b>"@
        + escape_html_spec(a.name)
        + "</b></font></td></tr>\n            <tr><td align=\"left\" bgcolor=\""@
        + C_BG_FOOTER@
        + "\">"@
        + footer_spec(actor_stats_spec(a.prio), a.id)
        + "</td></tr>\n        </table>\n    >];\n    "@
}

/// The node of an impact under the given node identifier.
pub open spec fn impact_node_spec(i: ImpactView, node_id: Seq<char>) -> Seq<char> {
    "\n    \""@
        + node_id
        + "\" [label=<\n        <table border=\"0\" cellborder=\"1\" cellspacing=\"0\" cellpadding=\"8\" color=\""@
        + C_IMPACT_BORDER@
        + "\">\n            <tr><td bgcolor=\""@
        + C_IMPACT_BG@
        + "\"><font color=\"white\"><b>"@
        + escape_html_spec(i.name)
        + "</b></font></td></tr>\n            <tr><td bgcolor=\""@
        + C_BG_LIGHT@
        + "\">\n                <table border=\"0\" cellborder=\"0\" cellspacing=\"0\" cellpadding=\"2\">\n                    <tr><td align=\"left\" width=\"200\"><font point-size=\"10\" color=\""@
        + C_TEXT_MUTED@
        + "\">Target:</font> <b>"@
        + escape_html_spec(i.targets)
        + "</b></td></tr>\n                </table>\n            </td></tr>\n            <tr><td bgcolor=\""@
        + C_BG_FOOTER@
        + "\" align=\"left\">"@
        + footer_spec(prio_sp_stats_spec(i.prio, i.sp), i.id)
        + "</td></tr>\n        </table>\n    >];\n    "@
}

/// The node of a deliverable, named by its own identifier.
pub open spec fn deliverable_node_spec(d: DeliverableView) -> Seq<char> {
    "\n    \""@
        + d.id
        + "\" [label=<\n        <table border=\"0\" cellborder=\"1\" cellspacing=\"0\" cellpadding=\""@
        + CELL_PAD@
        + "\" color=\""@
        + C_DELIV_BORDER@
        + "\">\n            <tr><td bgcolor=\""@
        + C_DELIV_BG@
        + "\" align=\"center\"><font color=\"white\"><b>"@
        + escape_html_spec(d.name)
        + "</b></font></td></tr>\n            <tr><td align=\"left\" bgcolor=\""@
        + C_BG_FOOTER@
        + "\">"@
        + footer_spec(prio_sp_stats_spec(d.prio, d.sp), Some(d.id))
        + "</td></tr>\n        </table>\n    >];\n    "@
}

/// The graph settings, the legend and its invisible edge to the goal node.
pub open spec fn dot_header_spec(gid: Seq<char>) -> Seq<char> {
    "digraph ImpactMap {\n rankdir=LR;\n nodesep=0.5;\n ranksep=0.8;\n splines=spline;\n node [shape=none, fontname=\""@
        + FONT_MAIN@
        + "\", margin=0];\n edge [color=\""@
        + C_TEXT_LIGHT@
        + "\", penwidth=1.5, arrowsize=0.8];\n\n\"Legend\" [label=<<table border=\"0\" cellborder=\"1\" cellspacing=\"0\" cellpadding=\"6\" color=\""@
        + C_LEGEND_BORDER@
        + "\"><tr><td bgcolor=\""@
        + C_BG_FOOTER@
        + "\"><b>Legende:</b></td><td bgcolor=\""@
        + C_GOAL_BG@
        + "\"><font color=\"white\">Goal</font></td><td bgcolor=\""@
        + C_ACTOR_BG@
        + "\"><font color=\"white\">Actor</font></td><td bgcolor=\""@
        + C_IMPACT_BG@
        + "\"><font color=\"white\">Impact</font></td><td bgcolor=\""@
        + C_DELIV_BG@
        + "\"><font color=\"white\">Deliverable</font></td></tr></table>>];\n\"Legend\" -> \""@
        + gid
        + "\" [style=invis]; { rank=same; \"Legend\"; \""@
        + gid
        + "\" }\n\n"@
}

/// An edge between two nodes.
pub open spec fn edge_spec(from: Seq<char>, to: Seq<char>) -> Seq<char> {
    " \""@ + from + "\" -> \""@ + to + "\";\n"@
}

/// The node identifier of the actor at position `a` of the goal `gid`.
pub open spec fn actor_node_id(gid: Seq<char>, a: int) -> Seq<char> {
    gid + "_A"@ + decimal(a)
}

/// The node identifier of the impact at position `i` of the actor `actor_id`.
pub open spec fn impact_node_id(actor_id: Seq<char>, i: int) -> Seq<char> {
    actor_id + "_I"@ + decimal(i)
}

/// The nodes of the deliverables of an impact, each followed by its edge
/// from the impact.
pub open spec fn deliverables_dot(dels: Seq<DeliverableView>, impact_id: Seq<char>) -> Seq<char>
    decreases dels.len(),
{
    if dels.len() == 0 {
        Seq::empty()
    } else {
        deliverables_dot(dels.drop_last(), impact_id) + deliverable_node_spec(dels.last())
            + edge_spec(impact_id, dels.last().id)
    }
}

/// An impact's node, its edge from the actor and its deliverables.
pub open spec fn impact_block(imp: ImpactView, actor_id: Seq<char>, i: int) -> Seq<char> {
    let id = impact_node_id(actor_id, i);
    impact_node_spec(imp, id) + edge_spec(actor_id, id) + deliverables_dot(imp.deliverables, id)
}

/// The blocks of the impacts of an actor, in order.
pub open spec fn impacts_dot(imps: Seq<ImpactView>, actor_id: Seq<char>) -> Seq<char>
    decreases imps.len(),
{
    if imps.len() == 0 {
        Seq::empty()
    } else {
        impacts_dot(imps.drop_last(), actor_id) + impact_block(
            imps.last(),
            actor_id,
            imps.len() - 1,
        )
    }
}

/// An actor's node, its edge from the goal and its impacts.
pub open spec fn actor_block(actor: ActorView, gid: Seq<char>, a: int) -> Seq<char> {
    let id = actor_node_id(gid, a);
    actor_node_spec(actor, id) + edge_spec(gid, id) + impacts_dot(actor.impacts, id)
}

/// The blocks of the actors of a goal, in order.
pub open spec fn actors_dot(actors: Seq<ActorView>, gid: Seq<char>) -> Seq<char>
    decreases actors.len(),
{
    if actors.len() == 0 {
        Seq::empty()
    } else {
        actors_dot(actors.drop_last(), gid) + actor_block(actors.last(), gid, actors.len() - 1)
    }
}

/// The whole DOT document of one goal.
pub open spec fn dot_spec(g: GoalView) -> Seq<char> {
    dot_header_spec(g.id) + goal_node_spec(g) + actors_dot(g.actors, g.id) + "}\n"@
}

/// Escapes the characters of `text` that HTML-like labels reserve.
pub fn escape_html(text: &str) -> (r: String)
    ensures
        r@ == escape_html_spec(text@),
{
    proof {
        reveal_strlit("&");
        reveal_strlit(">=");
        reveal_strlit("<=");
        reveal_strlit("<");
        reveal_strlit(">");
    }
    let a = replace_all(text, "&", "&amp;");
    let b = replace_all(a.as_str(), ">=", "&ge;");
    let c = replace_all(b.as_str(), "<=", "&le;");
    let d = replace_all(c.as_str(), "<", "&lt;");
    replace_all(d.as_str(), ">", "&gt;")
}

/// The footer table of a node label.
pub fn generate_footer(stats: &str, id_opt: Option<&String>) -> (r: String)
    ensures
        r@ == footer_spec(
            stats@,
            match id_opt {
                Some(i) => Some(i@),
                None => None,
            },
        ),
{
    let id_str = match id_opt {
        Some(id) => {
            let mut t = String::from_str("<font color=\"");
            t.append(C_TEXT_LIGHT);
            t.append("\">#");
            t.append(id.as_str());
            t.append("</font>");
            t
        },
        None => String::new(),
    };
    let mut s = String::from_str("\n        <table border=\"0\" cellborder=\"0\" cellspacing=\"0\" cellpadding=\"0\">\n            <tr>\n                <td align=\"left\"><font point-size=\"10\" color=\"");
    s.append(C_TEXT_MUTED);
    s.append("\">");
    s.append(stats);
    s.append("</font></td>\n                <td align=\"right\"><font point-size=\"9\">");
    s.append(id_str.as_str());
    s.append("</font></td>\n            </tr>\n        </table>\n    ");
    s
}

fn metric_rows(m: &Metric) -> (r: String)
    ensures
        r@ == metric_rows_spec(m@),
{
    let name = escape_html(m.name.as_str());
    let target = escape_html(m.target.as_str());
    let desc = escape_html(m.desc.as_str());
    let mut s = String::from_str("\n            <tr><td align=\"left\" width=\"200\"><font point-size=\"11\"><b>");
    s.append(name.as_str());
    s.append("</b>: ");
    s.append(target.as_str());
    s.append("</font></td></tr>\n            <tr><td align=\"left\" width=\"200\"><font point-size=\"9\" color=\"");
    s.append(C_TEXT_MUTED);
    s.append("\"><i>");
    s.append(desc.as_str());
    s.append("</i></font></td></tr>\n            <tr><td><font point-size=\"4\">&nbsp;</font></td></tr>\n        ");
    s
}

/// The node of a goal, listing its metrics.
pub fn generate_goal_node(goal: &Goal) -> (r: String)
    ensures
        r@ == goal_node_spec(goal@),
{
    let mut metrics_html = String::new();
    let ghost ms = goal@.metrics;
    let mut i: usize = 0;
    while i < goal.metrics.len()
        invariant
            i <= goal.metrics@.len(),
            ms == goal@.metrics,
            metrics_html@ == metrics_html_spec(ms.take(i as int)),
        decreases goal.metrics@.len() - i,
    {
        let rows = metric_rows(&goal.metrics[i]);
        metrics_html.append(rows.as_str());
        assert(ms.take(i + 1).drop_last() =~= ms.take(i as int));
        i = i + 1;
    }
    assert(ms.take(i as int) =~= ms);
    let name = escape_html(goal.name.as_str());
    let esc_id = escape_html(goal.id.as_str());
    let mut s = String::from_str("\n    \"");
    s.append(goal.id.as_str());
    s.append("\" [label=<\n        <table border=\"0\" cellborder=\"1\" cellspacing=\"0\" cellpadding=\"8\" color=\"");
    s.append(C_GOAL_BORDER);
    s.append("\">\n            <tr><td bgcolor=\"");
    s.append(C_GOAL_BG);
    s.append("\"><font color=\"white\"><b>");
    s.append(name.as_str());
    s.append("</b></font></td></tr>\n            <tr><td bgcolor=\"");
    s.append(C_BG_LIGHT);
    s.append("\">\n                <table border=\"0\" cellborder=\"0\" cellspacing=\"0\" cellpadding=\"2\">\n                    ");
    s.append(metrics_html.as_str());
    s.append("\n                </table>\n            </td></tr>\n            <tr><td bgcolor=\"");
    s.append(C_BG_FOOTER);
    s.append("\" align=\"right\"><font point-size=\"9\" color=\"");
    s.append(C_TEXT_LIGHT);
    s.append("\">#");
    s.append(esc_id.as_str());
    s.append("</font></td></tr>\n        </table>\n    >];\n    ");
    s
}

fn actor_stats(prio: i64) -> (r: String)
    ensures
        r@ == actor_stats_spec(prio as int),
{
    let mut s = String::from_str("Prio: ");
    push_decimal_i64(&mut s, prio);
    s.append(" &nbsp;&nbsp;&nbsp;");
    s
}

fn prio_sp_stats(prio: i64, sp: i64) -> (r: String)
    ensures
        r@ == prio_sp_stats_spec(prio as int, sp as int),
{
    let mut s = String::from_str("Prio: ");
    push_decimal_i64(&mut s, prio);
    s.append(" &nbsp;&bull;&nbsp; SP: ");
    push_decimal_i64(&mut s, sp);
    s
}

/// The node of an actor under the node identifier `node_id`.
pub fn generate_actor_node(actor: &Actor, node_id: &str) -> (r: String)
    ensures
        r@ == actor_node_spec(actor@, node_id@),
{
    let stats = actor_stats(actor.prio);
    let name = escape_html(actor.name.as_str());
    let footer = generate_footer(stats.as_str(), actor.id.as_ref());
    let mut s = String::from_str("\n    \"");
    s.append(node_id);
    s.append("\" [label=<\n        <table border=\"0\" cellborder=\"1\" cellspacing=\"0\" cellpadding=\"");
    s.append(CELL_PAD);
    s.append("\" color=\"");
    s.append(C_ACTOR_BORDER);
    s.append("\">\n            <tr><td bgcolor=\"");
    s.append(C_ACTOR_BG);
    s.append("\" align=\"center\"><font color=\"white\"><b>");
    s.append(name.as_str());
    s.append("</b></font></td></tr>\n            <tr><td align=\"left\" bgcolor=\"");
    s.append(C_BG_FOOTER);
    s.append("\">");
    s.append(footer.as_str());
    s.append("</td></tr>\n        </table>\n    >];\n    ");
    s
}

/// The node of an impact under the node identifier `node_id`.
pub fn generate_impact_node(impact: &Impact, node_id: &str) -> (r: String)
    ensures
        r@ == impact_node_spec(impact@, node_id@),
{
    let stats = prio_sp_stats(impact.prio, impact.sp);
    let name = escape_html(impact.name.as_str());
    let target = escape_html(impact.targets.as_str());
    let footer = generate_footer(stats.as_str(), impact.id.as_ref());
    let mut s = String::from_str("\n    \"");
    s.append(node_id);
    s.append("\" [label=<\n        <table border=\"0\" cellborder=\"1\" cellspacing=\"0\" cellpadding=\"8\" color=\"");
    s.append(C_IMPACT_BORDER);
    s.append("\">\n            <tr><td bgcolor=\"");
    s.append(C_IMPACT_BG);
    s.append("\"><font color=\"white\"><b>");
    s.append(name.as_str());
    s.append("</b></font></td></tr>\n            <tr><td bgcolor=\"");
    s.append(C_BG_LIGHT);
    s.append("\">\n                <table border=\"0\" cellborder=\"0\" cellspacing=\"0\" cellpadding=\"2\">\n                    <tr><td align=\"left\" width=\"200\"><font point-size=\"10\" color=\"");
    s.append(C_TEXT_MUTED);
    s.append("\">Target:</font> <b>");
    s.append(target.as_str());
    s.append("</b></td></tr>\n                </table>\n            </td></tr>\n            <tr><td bgcolor=\"");
    s.append(C_BG_FOOTER);
    s.append("\" align=\"left\">");
    s.append(footer.as_str());
    s.append("</td></tr>\n        </table>\n    >];\n    ");
    s
}

/// The node of a deliverable, named by its identifier.
pub fn generate_deliverable_node(del: &Deliverable) -> (r: String)
    ensures
        r@ == deliverable_node_spec(del@),
{
    let stats = prio_sp_stats(del.prio, del.sp);
    let name = escape_html(del.name.as_str());
    let footer = generate_footer(stats.as_str(), Some(&del.id));
    let mut s = String::from_str("\n    \"");
    s.append(del.id.as_str());
    s.append("\" [label=<\n        <table border=\"0\" cellborder=\"1\" cellspacing=\"0\" cellpadding=\"");
    s.append(CELL_PAD);
    s.append("\" color=\"");
    s.append(C_DELIV_BORDER);
    s.append("\">\n            <tr><td bgcolor=\"");
    s.append(C_DELIV_BG);
    s.append("\" align=\"center\"><font color=\"white\"><b>");
    s.append(name.as_str());
    s.append("</b></font></td></tr>\n            <tr><td align=\"left\" bgcolor=\"");
    s.append(C_BG_FOOTER);
    s.append("\">");
    s.append(footer.as_str());
    s.append("</td></tr>\n        </table>\n    >];\n    ");
    s
}

fn edge(from: &str, to: &str) -> (r: String)
    ensures
        r@ == edge_spec(from@, to@),
{
    let mut s = String::from_str(" \"");
    s.append(from);
    s.append("\" -> \"");
    s.append(to);
    s.append("\";\n");
    s
}

fn append_deliverables(dot: &mut String, dels: &Vec<Deliverable>, impact_id: &str)
    ensures
        final(dot)@ == old(dot)@ + deliverables_dot(
            dels@.map_values(|d: Deliverable| d@),
            impact_id@,
        ),
{
    let ghost ds = dels@.map_values(|d: Deliverable| d@);
    let mut i: usize = 0;
    assert(ds.take(0) =~= Seq::<DeliverableView>::empty());
    assert(dot@ =~= old(dot)@ + deliverables_dot(ds.take(0), impact_id@));
    while i < dels.len()
        invariant
            i <= dels@.len(),
            ds == dels@.map_values(|d: Deliverable| d@),
            dot@ == old(dot)@ + deliverables_dot(ds.take(i as int), impact_id@),
        decreases dels@.len() - i,
    {
        let del = &dels[i];
        let node = generate_deliverable_node(del);
        let e = edge(impact_id, del.id.as_str());
        dot.append(node.as_str());
        dot.append(e.as_str());
        assert(ds.take(i + 1).drop_last() =~= ds.take(i as int));
        assert(dot@ =~= old(dot)@ + deliverables_dot(ds.take(i + 1), impact_id@));
        i = i + 1;
    }
    assert(ds.take(i as int) =~= ds);
}

fn append_impacts(dot: &mut String, impacts: &Vec<Impact>, actor_id: &str)
    ensures
        final(dot)@ == old(dot)@ + impacts_dot(impacts@.map_values(|i: Impact| i@), actor_id@),
{
    let ghost is = impacts@.map_values(|i: Impact| i@);
    let mut i: usize = 0;
    assert(is.take(0) =~= Seq::<ImpactView>::empty());
    assert(dot@ =~= old(dot)@ + impacts_dot(is.take(0), actor_id@));
    while i < impacts.len()
        invariant
            i <= impacts@.len(),
            is == impacts@.map_values(|i: Impact| i@),
            dot@ == old(dot)@ + impacts_dot(is.take(i as int), actor_id@),
        decreases impacts@.len() - i,
    {
        let impact = &impacts[i];
        let mut impact_id = String::from_str(actor_id);
        impact_id.append("_I");
        push_decimal_usize(&mut impact_id, i);
        let node = generate_impact_node(impact, impact_id.as_str());
        let e = edge(actor_id, impact_id.as_str());
        dot.append(node.as_str());
        dot.append(e.as_str());
        append_deliverables(dot, &impact.deliverables, impact_id.as_str());
        assert(is.take(i + 1).drop_last() =~= is.take(i as int));
        assert(dot@ =~= old(dot)@ + impacts_dot(is.take(i + 1), actor_id@));
        i = i + 1;
    }
    assert(is.take(i as int) =~= is);
}

#[verifier::rlimit(30)]
fn append_actors(dot: &mut String, actors: &Vec<Actor>, gid: &str)
    ensures
        final(dot)@ == old(dot)@ + actors_dot(actors@.map_values(|a: Actor| a@), gid@),
{
    let ghost acts = actors@.map_values(|a: Actor| a@);
    let mut a: usize = 0;
    assert(acts.take(0) =~= Seq::<ActorView>::empty());
    assert(dot@ =~= old(dot)@ + actors_dot(acts.take(0), gid@));
    while a < actors.len()
        invariant
            a <= actors@.len(),
            acts == actors@.map_values(|a: Actor| a@),
            dot@ == old(dot)@ + actors_dot(acts.take(a as int), gid@),
        decreases actors@.len() - a,
    {
        let actor = &actors[a];
        let mut actor_id = String::from_str(gid);
        actor_id.append("_A");
        push_decimal_usize(&mut actor_id, a);
        let node = generate_actor_node(actor, actor_id.as_str());
        let e = edge(gid, actor_id.as_str());
        dot.append(node.as_str());
        dot.append(e.as_str());
        append_impacts(dot, &actor.impacts, actor_id.as_str());
        assert(acts.take(a + 1).drop_last() =~= acts.take(a as int));
        assert(dot@ =~= old(dot)@ + actors_dot(acts.take(a + 1), gid@));
        a = a + 1;
    }
    assert(acts.take(a as int) =~= acts);
}

/// The DOT document of one goal: graph settings, legend, the goal node, and
/// for each actor (numbered from 0) its node `<goal id>_A<n>`, the edge from the
/// goal, and for each of its impacts the node `<actor node>_I<m>`, the edge from
/// the actor, and each deliverable's node and edge from the impact.
pub fn generate_dot(goal: &Goal) -> (r: String)
    ensures
        r@ == dot_spec(goal@),
{
    let mut dot = String::from_str("digraph ImpactMap {\n rankdir=LR;\n nodesep=0.5;\n ranksep=0.8;\n splines=spline;\n node [shape=none, fontname=\"");
    dot.append(FONT_MAIN);
    dot.append("\", margin=0];\n edge [color=\"");
    dot.append(C_TEXT_LIGHT);
    dot.append("\", penwidth=1.5, arrowsize=0.8];\n\n\"Legend\" [label=<<table border=\"0\" cellborder=\"1\" cellspacing=\"0\" cellpadding=\"6\" color=\"");
    dot.append(C_LEGEND_BORDER);
    dot.append("\"><tr><td bgcolor=\"");
    dot.append(C_BG_FOOTER);
    dot.append("\"><b>Legende:</b></td><td bgcolor=\"");
    dot.append(C_GOAL_BG);
    dot.append("\"><font color=\"white\">Goal</font></td><td bgcolor=\"");
    dot.append(C_ACTOR_BG);
    dot.append("\"><font color=\"white\">Actor</font></td><td bgcolor=\"");
    dot.append(C_IMPACT_BG);
    dot.append("\"><font color=\"white\">Impact</font></td><td bgcolor=\"");
    dot.append(C_DELIV_BG);
    dot.append("\"><font color=\"white\">Deliverable</font></td></tr></table>>];\n\"Legend\" -> \"");
    dot.append(goal.id.as_str());
    dot.append("\" [style=invis]; { rank=same; \"Legend\"; \"");
    dot.append(goal.id.as_str());
    dot.append("\" }\n\n");
    let goal_node = generate_goal_node(goal);
    dot.append(goal_node.as_str());
    append_actors(&mut dot, &goal.actors, goal.id.as_str());
    dot.append("}\n");
    dot
}

/// Escaped label text holds no `<` and no `>`: whatever a name, target or
/// description says, it cannot open or close markup in an HTML-like label.
pub proof fn law_escaped_text_has_no_angle_brackets(t: Seq<char>)
    ensures
        lacks(escape_html_spec(t), '<'),
        lacks(escape_html_spec(t), '>'),
{
    reveal_strlit("<");
    reveal_strlit(">");
    reveal_strlit("&lt;");
    reveal_strlit("&gt;");
    assert("<"@ =~= seq!['<']);
    assert(">"@ =~= seq!['>']);
    let a = replace_seq(t, "&"@, "&amp;"@);
    let b = replace_seq(a, ">="@, "&ge;"@);
    let c = replace_seq(b, "<="@, "&le;"@);
    let d = replace_seq(c, "<"@, "&lt;"@);
    lemma_replace_removes(c, '<', "&lt;"@);
    lemma_replace_keeps_lacking(d, ">"@, "&gt;"@, '<');
    lemma_replace_removes(d, '>', "&gt;"@);
}

/// Text without `&`, `<` and `>` is not changed by escaping.
pub proof fn law_plain_text_is_not_escaped(t: Seq<char>)
    requires
        lacks(t, '&'),
        lacks(t, '<'),
        lacks(t, '>'),
    ensures
        escape_html_spec(t) == t,
{
    reveal_strlit("&");
    reveal_strlit(">=");
    reveal_strlit("<=");
    reveal_strlit("<");
    reveal_strlit(">");
    lemma_replace_absent(t, "&"@, "&amp;"@);
    lemma_replace_absent(t, ">="@, "&ge;"@);
    lemma_replace_absent(t, "<="@, "&le;"@);
    lemma_replace_absent(t, "<"@, "&lt;"@);
    lemma_replace_absent(t, ">"@, "&gt;"@);
}

/// Distinct actors of a goal get distinct node identifiers, and so do the
/// distinct impacts of an actor: no two of them are drawn as one node.
pub proof fn law_node_ids_are_distinct(parent: Seq<char>, a: nat, b: nat)
    requires
        a != b,
    ensures
        actor_node_id(parent, a as int) != actor_node_id(parent, b as int),
        impact_node_id(parent, a as int) != impact_node_id(parent, b as int),
{
    let pa = parent + "_A"@;
    let pi = parent + "_I"@;
    if actor_node_id(parent, a as int) == actor_node_id(parent, b as int) {
        assert((pa + decimal_digits(a)).skip(pa.len() as int) =~= decimal_digits(a));
        assert((pa + decimal_digits(b)).skip(pa.len() as int) =~= decimal_digits(b));
        lemma_decimal_digits_injective(a, b);
    }
    if impact_node_id(parent, a as int) == impact_node_id(parent, b as int) {
        assert((pi + decimal_digits(a)).skip(pi.len() as int) =~= decimal_digits(a));
        assert((pi + decimal_digits(b)).skip(pi.len() as int) =~= decimal_digits(b));
        lemma_decimal_digits_injective(a, b);
    }
}

/// Escaping a concatenation escapes each part, except where `a` ends with
/// `<` or `>` and `b` starts with `=` (escaping then sees `<=` or `>=` across
/// the seam).
pub proof fn law_escape_distributes(a: Seq<char>, b: Seq<char>)
    requires
        !(a.len() > 0 && (a.last() == '<' || a.last() == '>') && b.len() > 0 && b[0] == '='),
    ensures
        escape_html_spec(a + b) == escape_html_spec(a) + escape_html_spec(b),
{
    reveal_strlit("&");
    reveal_strlit(">=");
    reveal_strlit("<=");
    reveal_strlit("<");
    reveal_strlit(">");
    reveal_strlit("&amp;");
    reveal_strlit("&ge;");
    reveal_strlit("&le;");
    let a1 = replace_seq(a, "&"@, "&amp;"@);
    let b1 = replace_seq(b, "&"@, "&amp;"@);
    lemma_no_straddle_single(a, b, "&"@);
    lemma_replace_concat(a, b, "&"@, "&amp;"@);
    if a.len() > 0 {
        lemma_replace_last(a, "&"@, "&amp;"@);
    }
    if b.len() > 0 {
        lemma_replace_first(b, "&"@, "&amp;"@);
    }
    let a2 = replace_seq(a1, ">="@, "&ge;"@);
    let b2 = replace_seq(b1, ">="@, "&ge;"@);
    lemma_no_straddle_pair(a1, b1, ">="@);
    lemma_replace_concat(a1, b1, ">="@, "&ge;"@);
    if a1.len() > 0 {
        lemma_replace_last(a1, ">="@, "&ge;"@);
    }
    if b1.len() > 0 {
        lemma_replace_first(b1, ">="@, "&ge;"@);
    }
    let a3 = replace_seq(a2, "<="@, "&le;"@);
    let b3 = replace_seq(b2, "<="@, "&le;"@);
    lemma_no_straddle_pair(a2, b2, "<="@);
    lemma_replace_concat(a2, b2, "<="@, "&le;"@);
    let a4 = replace_seq(a3, "<"@, "&lt;"@);
    let b4 = replace_seq(b3, "<"@, "&lt;"@);
    lemma_no_straddle_single(a3, b3, "<"@);
    lemma_replace_concat(a3, b3, "<"@, "&lt;"@);
    lemma_no_straddle_single(a4, b4, ">"@);
    lemma_replace_concat(a4, b4, ">"@, "&gt;"@);
}

/// Reading escaped text back: scanning from the left, each `&amp;`, `&ge;`,
/// `&le;`, `&lt;` and `&gt;` becomes `&`, `>=`, `<=`, `<` and `>`; every other
/// character is kept.
pub open spec fn unescape_html_spec(s: Seq<char>) -> Seq<char>
    decreases s.len(),
{
    if s.len() == 0 {
        s
    } else if matches_at(s, 0, seq!['&', 'a', 'm', 'p', ';']) {
        seq!['&'] + unescape_html_spec(s.skip(5))
    } else if matches_at(s, 0, seq!['&', 'g', 'e', ';']) {
        seq!['>', '='] + unescape_html_spec(s.skip(4))
    } else if matches_at(s, 0, seq!['&', 'l', 'e', ';']) {
        seq!['<', '='] + unescape_html_spec(s.skip(4))
    } else if matches_at(s, 0, seq!['&', 'l', 't', ';']) {
        seq!['<'] + unescape_html_spec(s.skip(4))
    } else if matches_at(s, 0, seq!['&', 'g', 't', ';']) {
        seq!['>'] + unescape_html_spec(s.skip(4))
    } else {
        seq![s[0]] + unescape_html_spec(s.skip(1))
    }
}

/// A piece that escaping treats as a unit: `>=`, `<=`, or one character.
pub open spec fn escape_unit(h: Seq<char>) -> bool {
    ||| h.len() == 1
    ||| h.len() == 2 && (h[0] == '<' || h[0] == '>') && h[1] == '='
}

/// The escaping of one unit.
pub open spec fn escape_unit_spec(h: Seq<char>) -> Seq<char> {
    if h.len() == 2 {
        if h[0] == '>' {
            seq!['&', 'g', 'e', ';']
        } else {
            seq!['&', 'l', 'e', ';']
        }
    } else if h[0] == '&' {
        seq!['&', 'a', 'm', 'p', ';']
    } else if h[0] == '<' {
        seq!['&', 'l', 't', ';']
    } else if h[0] == '>' {
        seq!['&', 'g', 't', ';']
    } else {
        h
    }
}

proof fn lemma_escape_unit(h: Seq<char>)
    requires
        escape_unit(h),
    ensures
        escape_html_spec(h) == escape_unit_spec(h),
{
    reveal_strlit("&");
    reveal_strlit(">=");
    reveal_strlit("<=");
    reveal_strlit("<");
    reveal_strlit(">");
    reveal_strlit("&amp;");
    reveal_strlit("&ge;");
    reveal_strlit("&le;");
    reveal_strlit("&lt;");
    reveal_strlit("&gt;");
    let r1 = replace_seq(h, "&"@, "&amp;"@);
    let r2 = replace_seq(r1, ">="@, "&ge;"@);
    let r3 = replace_seq(r2, "<="@, "&le;"@);
    let r4 = replace_seq(r3, "<"@, "&lt;"@);
    if h.len() == 2 {
        lemma_replace_absent(h, "&"@, "&amp;"@);
        if h[0] == '>' {
            assert(h =~= ">="@);
            lemma_replace_whole(">="@, "&ge;"@);
            lemma_replace_absent(r2, "<="@, "&le;"@);
        } else {
            assert(h =~= "<="@);
            lemma_replace_absent(h, ">="@, "&ge;"@);
            lemma_replace_whole("<="@, "&le;"@);
        }
        lemma_replace_absent(r3, "<"@, "&lt;"@);
        lemma_replace_absent(r4, ">"@, "&gt;"@);
    } else if h[0] == '&' {
        assert(h =~= "&"@);
        lemma_replace_whole("&"@, "&amp;"@);
        lemma_replace_absent(r1, ">="@, "&ge;"@);
        lemma_replace_absent(r2, "<="@, "&le;"@);
        lemma_replace_absent(r3, "<"@, "&lt;"@);
        lemma_replace_absent(r4, ">"@, "&gt;"@);
    } else if h[0] == '<' {
        lemma_replace_absent(h, "&"@, "&amp;"@);
        lemma_replace_absent(r1, ">="@, "&ge;"@);
        lemma_replace_short(r2, "<="@, "&le;"@);
        assert(r3 =~= "<"@);
        lemma_replace_whole("<"@, "&lt;"@);
        lemma_replace_absent(r4, ">"@, "&gt;"@);
    } else if h[0] == '>' {
        lemma_replace_absent(h, "&"@, "&amp;"@);
        lemma_replace_short(r1, ">="@, "&ge;"@);
        lemma_replace_absent(r2, "<="@, "&le;"@);
        lemma_replace_absent(r3, "<"@, "&lt;"@);
        assert(r4 =~= ">"@);
        lemma_replace_whole(">"@, "&gt;"@);
    } else {
        lemma_replace_absent(h, "&"@, "&amp;"@);
        lemma_replace_absent(r1, ">="@, "&ge;"@);
        lemma_replace_absent(r2, "<="@, "&le;"@);
        lemma_replace_absent(r3, "<"@, "&lt;"@);
        lemma_replace_absent(r4, ">"@, "&gt;"@);
    }
}

proof fn lemma_unescape_unit(h: Seq<char>, x: Seq<char>)
    requires
        escape_unit(h),
    ensures
        unescape_html_spec(escape_unit_spec(h) + x) == h + unescape_html_spec(x),
{
    let amp = seq!['&', 'a', 'm', 'p', ';'];
    let ge = seq!['&', 'g', 'e', ';'];
    let le = seq!['&', 'l', 'e', ';'];
    let lt = seq!['&', 'l', 't', ';'];
    let gt = seq!['&', 'g', 't', ';'];
    let e = escape_unit_spec(h);
    let s = e + x;
    lemma_matches_prefix(e, x);
    assert(s.len() > 0);
    if e == amp {
        assert(h =~= seq!['&']);
    } else if e == ge {
        lemma_differs_at(s, amp, 1);
        assert(h =~= seq!['>', '=']);
    } else if e == le {
        lemma_differs_at(s, amp, 1);
        lemma_differs_at(s, ge, 1);
        assert(h =~= seq!['<', '=']);
    } else if e == lt {
        lemma_differs_at(s, amp, 1);
        lemma_differs_at(s, ge, 1);
        lemma_differs_at(s, le, 2);
        assert(h =~= seq!['<']);
    } else if e == gt {
        lemma_differs_at(s, amp, 1);
        lemma_differs_at(s, ge, 2);
        lemma_differs_at(s, le, 1);
        lemma_differs_at(s, lt, 1);
        assert(h =~= seq!['>']);
    } else {
        assert(e == h && h.len() == 1 && h[0] != '&');
        lemma_differs_at(s, amp, 0);
        lemma_differs_at(s, ge, 0);
        lemma_differs_at(s, le, 0);
        lemma_differs_at(s, lt, 0);
        lemma_differs_at(s, gt, 0);
    }
}

/// Escaping loses nothing: reading the escaped text back gives the text, so
/// two different texts never escape to the same label text.
pub proof fn law_unescape_inverts_escape(t: Seq<char>)
    ensures
        unescape_html_spec(escape_html_spec(t)) == t,
    decreases t.len(),
{
    if t.len() == 0 {
        assert(escape_html_spec(t) == t);
    } else {
        let k: int = if t.len() >= 2 && (t[0] == '<' || t[0] == '>') && t[1] == '=' {
            2
        } else {
            1
        };
        let head = t.take(k);
        let rest = t.skip(k);
        assert(head + rest =~= t);
        law_escape_distributes(head, rest);
        law_unescape_inverts_escape(rest);
        lemma_escape_unit(head);
        lemma_unescape_unit(head, escape_html_spec(rest));
    }
}

/// Where the identifier goes in a footer without one: before its closing part.
pub open spec fn footer_id_position(stats: Seq<char>) -> int {
    footer_spec(stats, None).len() - footer_end().len()
}

/// The footer of a node with an identifier is the footer without one with the
/// identifier part, `<font color="#94a3b8">#id</font>`, inserted before the
/// closing part of the right-hand cell. Statistics and identifier stand in it
/// verbatim, not escaped.
pub proof fn law_footer_id_is_inserted(stats: Seq<char>, id: Seq<char>)
    ensures
        footer_spec(stats, Some(id)) == footer_spec(stats, None).take(footer_id_position(stats))
            + footer_id_spec(Some(id)) + footer_spec(stats, None).skip(
            footer_id_position(stats),
        ),
        footer_id_spec(Some(id)) == "<font color=\""@ + C_TEXT_LIGHT@ + "\">#"@ + id + "</font>"@,
{
    let none = footer_spec(stats, None);
    assert(footer_id_spec(None) =~= Seq::<char>::empty());
    assert(none.take(footer_id_position(stats)) =~= footer_spec(stats, Some(id)).take(
        footer_id_position(stats),
    ));
    assert(none.skip(footer_id_position(stats)) =~= footer_end());
    assert(footer_spec(stats, Some(id)) =~= none.take(footer_id_position(stats)) + footer_id_spec(
        Some(id),
    ) + footer_end());
}

// ----------------------------------------------------------------------
// What the DOT document holds

/// Each deliverable's node and its edge from the impact stand in the text of
/// the deliverables.
proof fn lemma_deliverables_dot_holds(dels: Seq<DeliverableView>, impact_id: Seq<char>, k: int)
    requires
        0 <= k < dels.len(),
    ensures
        is_infix(
            deliverable_node_spec(dels[k]) + edge_spec(impact_id, dels[k].id),
            deliverables_dot(dels, impact_id),
        ),
    decreases dels.len(),
{
    let last = dels.last();
    let prev = deliverables_dot(dels.drop_last(), impact_id);
    let w = deliverable_node_spec(dels[k]) + edge_spec(impact_id, dels[k].id);
    let tail = deliverable_node_spec(last) + edge_spec(impact_id, last.id);
    assert(deliverables_dot(dels, impact_id) =~= prev + tail);
    if k == dels.len() - 1 {
        lemma_infix_self(w);
        lemma_infix_grow(w, w, prev, Seq::empty());
    } else {
        lemma_deliverables_dot_holds(dels.drop_last(), impact_id, k);
        assert(dels.drop_last()[k] == dels[k]);
        lemma_infix_grow(w, prev, Seq::empty(), tail);
    }
}

/// The block of each impact stands in the text of the impacts.
proof fn lemma_impacts_dot_holds(imps: Seq<ImpactView>, actor_id: Seq<char>, i: int)
    requires
        0 <= i < imps.len(),
    ensures
        is_infix(impact_block(imps[i], actor_id, i), impacts_dot(imps, actor_id)),
    decreases imps.len(),
{
    let prev = impacts_dot(imps.drop_last(), actor_id);
    let tail = impact_block(imps.last(), actor_id, imps.len() - 1);
    let w = impact_block(imps[i], actor_id, i);
    if i == imps.len() - 1 {
        lemma_infix_self(w);
        lemma_infix_grow(w, w, prev, Seq::empty());
    } else {
        lemma_impacts_dot_holds(imps.drop_last(), actor_id, i);
        assert(imps.drop_last()[i] == imps[i]);
        lemma_infix_grow(w, prev, Seq::empty(), tail);
    }
}

/// The block of each actor stands in the text of the actors.
proof fn lemma_actors_dot_holds(actors: Seq<ActorView>, gid: Seq<char>, a: int)
    requires
        0 <= a < actors.len(),
    ensures
        is_infix(actor_block(actors[a], gid, a), actors_dot(actors, gid)),
    decreases actors.len(),
{
    let prev = actors_dot(actors.drop_last(), gid);
    let tail = actor_block(actors.last(), gid, actors.len() - 1);
    let w = actor_block(actors[a], gid, a);
    if a == actors.len() - 1 {
        lemma_infix_self(w);
        lemma_infix_grow(w, w, prev, Seq::empty());
    } else {
        lemma_actors_dot_holds(actors.drop_last(), gid, a);
        assert(actors.drop_last()[a] == actors[a]);
        lemma_infix_grow(w, prev, Seq::empty(), tail);
    }
}

/// The block of each actor stands in the DOT document.
proof fn lemma_actor_block_in_dot(g: GoalView, a: int)
    requires
        0 <= a < g.actors.len(),
    ensures
        is_infix(actor_block(g.actors[a], g.id, a), dot_spec(g)),
{
    let body = actors_dot(g.actors, g.id);
    lemma_actors_dot_holds(g.actors, g.id, a);
    lemma_infix_self(body);
    lemma_infix_grow(body, body, dot_header_spec(g.id) + goal_node_spec(g), "}\n"@);
    lemma_infix_trans(actor_block(g.actors[a], g.id, a), body, dot_spec(g));
}

/// The block of each impact of each actor stands in the DOT document.
proof fn lemma_impact_block_in_dot(g: GoalView, a: int, i: int)
    requires
        0 <= a < g.actors.len(),
        0 <= i < g.actors[a].impacts.len(),
    ensures
        is_infix(
            impact_block(g.actors[a].impacts[i], actor_node_id(g.id, a), i),
            dot_spec(g),
        ),
{
    let actor = g.actors[a];
    let aid = actor_node_id(g.id, a);
    let imps = impacts_dot(actor.impacts, aid);
    let w = impact_block(actor.impacts[i], aid, i);
    lemma_impacts_dot_holds(actor.impacts, aid, i);
    lemma_infix_self(imps);
    lemma_infix_grow(imps, imps, actor_node_spec(actor, aid) + edge_spec(g.id, aid), Seq::empty());
    lemma_infix_trans(w, imps, actor_block(actor, g.id, a));
    lemma_actor_block_in_dot(g, a);
    lemma_infix_trans(w, actor_block(actor, g.id, a), dot_spec(g));
}

/// Every actor of the goal is drawn: the DOT document holds the actor's node
/// under the identifier `<goal id>_A<a>`, followed by the edge from the goal
/// node to it.
pub proof fn law_dot_draws_every_actor(g: GoalView, a: int)
    requires
        0 <= a < g.actors.len(),
    ensures
        is_infix(
            actor_node_spec(g.actors[a], g.id + "_A"@ + decimal(a)) + (" \""@ + g.id
                + "\" -> \""@ + (g.id + "_A"@ + decimal(a)) + "\";\n"@),
            dot_spec(g),
        ),
{
    let aid = actor_node_id(g.id, a);
    let w = actor_node_spec(g.actors[a], aid) + edge_spec(g.id, aid);
    lemma_infix_self(w);
    lemma_infix_grow(w, w, Seq::empty(), impacts_dot(g.actors[a].impacts, aid));
    lemma_actor_block_in_dot(g, a);
    lemma_infix_trans(w, actor_block(g.actors[a], g.id, a), dot_spec(g));
}

/// Every impact of every actor is drawn, whatever its priority: the DOT
/// document holds the node of impact `i` of actor `a` under the identifier
/// `<goal id>_A<a>_I<i>`, followed by the edge from the actor's node to it.
pub proof fn law_dot_draws_every_impact(g: GoalView, a: int, i: int)
    requires
        0 <= a < g.actors.len(),
        0 <= i < g.actors[a].impacts.len(),
    ensures
        is_infix(
            impact_node_spec(g.actors[a].impacts[i], g.id + "_A"@ + decimal(a) + "_I"@ + decimal(i))
                + (" \""@ + (g.id + "_A"@ + decimal(a)) + "\" -> \""@ + (g.id + "_A"@ + decimal(
                a,
            ) + "_I"@ + decimal(i)) + "\";\n"@),
            dot_spec(g),
        ),
{
    let aid = actor_node_id(g.id, a);
    let iid = impact_node_id(aid, i);
    let imp = g.actors[a].impacts[i];
    let w = impact_node_spec(imp, iid) + edge_spec(aid, iid);
    lemma_infix_self(w);
    lemma_infix_grow(w, w, Seq::empty(), deliverables_dot(imp.deliverables, iid));
    lemma_impact_block_in_dot(g, a, i);
    lemma_infix_trans(w, impact_block(imp, aid, i), dot_spec(g));
}

/// Every deliverable of every impact is drawn: the DOT document holds the
/// deliverable's node under its own identifier, followed by the edge to it
/// from the node `<goal id>_A<a>_I<i>` of its impact.
pub proof fn law_dot_draws_every_deliverable(g: GoalView, a: int, i: int, k: int)
    requires
        0 <= a < g.actors.len(),
        0 <= i < g.actors[a].impacts.len(),
        0 <= k < g.actors[a].impacts[i].deliverables.len(),
    ensures
        is_infix(
            deliverable_node_spec(g.actors[a].impacts[i].deliverables[k]) + (" \""@ + (g.id
                + "_A"@ + decimal(a) + "_I"@ + decimal(i)) + "\" -> \""@
                + g.actors[a].impacts[i].deliverables[k].id + "\";\n"@),
            dot_spec(g),
        ),
{
    let aid = actor_node_id(g.id, a);
    let iid = impact_node_id(aid, i);
    let imp = g.actors[a].impacts[i];
    let d = imp.deliverables[k];
    let w = deliverable_node_spec(d) + edge_spec(iid, d.id);
    let dels = deliverables_dot(imp.deliverables, iid);
    lemma_deliverables_dot_holds(imp.deliverables, iid, k);
    lemma_infix_self(dels);
    lemma_infix_grow(dels, dels, impact_node_spec(imp, iid) + edge_spec(aid, iid), Seq::empty());
    lemma_infix_trans(w, dels, impact_block(imp, aid, i));
    lemma_impact_block_in_dot(g, a, i);
    lemma_infix_trans(w, impact_block(imp, aid, i), dot_spec(g));
}

// ----------------------------------------------------------------------
// What the node labels hold

/// A text ends with `pre` where its last part does.
proof fn lemma_ends_with(a0: Seq<char>, l: Seq<char>, pre: Seq<char>)
    requires
        pre.len() <= l.len(),
        l.skip(l.len() - pre.len()) == pre,
    ensures
        pre.len() <= (a0 + l).len(),
        (a0 + l).skip((a0 + l).len() - pre.len()) == pre,
{
    assert((a0 + l).skip((a0 + l).len() - pre.len()) =~= l.skip(l.len() - pre.len()));
}

/// A text starts with `post` where its first part does.
proof fn lemma_starts_with(l: Seq<char>, b0: Seq<char>, post: Seq<char>)
    requires
        post.len() <= l.len(),
        l.take(post.len() as int) == post,
    ensures
        post.len() <= (l + b0).len(),
        (l + b0).take(post.len() as int) == post,
{
    assert((l + b0).take(post.len() as int) =~= l.take(post.len() as int));
}

/// The rows of each metric stand in the rows of all metrics.
proof fn lemma_metrics_html_holds(ms: Seq<MetricView>, k: int)
    requires
        0 <= k < ms.len(),
    ensures
        is_infix(metric_rows_spec(ms[k]), metrics_html_spec(ms)),
    decreases ms.len(),
{
    let prev = metrics_html_spec(ms.drop_last());
    let tail = metric_rows_spec(ms.last());
    let w = metric_rows_spec(ms[k]);
    if k == ms.len() - 1 {
        lemma_infix_self(w);
        lemma_infix_grow(w, w, prev, Seq::empty());
    } else {
        lemma_metrics_html_holds(ms.drop_last(), k);
        assert(ms.drop_last()[k] == ms[k]);
        lemma_infix_grow(w, prev, Seq::empty(), tail);
    }
}

/// The rows of a metric show its name in bold, its target after the name and
/// its description in italics, each escaped.
proof fn lemma_metric_rows_framing(m: MetricView)
    ensures
        is_infix("<b>"@ + escape_html_spec(m.name) + "</b>"@, metric_rows_spec(m)),
        is_infix("</b>: "@ + escape_html_spec(m.target) + "</font>"@, metric_rows_spec(m)),
        is_infix("<i>"@ + escape_html_spec(m.desc) + "</i>"@, metric_rows_spec(m)),
{
    let l1 = "\n            <tr><td align=\"left\" width=\"200\"><font point-size=\"11\"><b>"@;
    let l2 = "</b>: "@;
    let l3 = "</font></td></tr>\n            <tr><td align=\"left\" width=\"200\"><font point-size=\"9\" color=\""@;
    let l4 = "\"><i>"@;
    let l5 = "</i></font></td></tr>\n            <tr><td><font point-size=\"4\">&nbsp;</font></td></tr>\n        "@;
    let en = escape_html_spec(m.name);
    let et = escape_html_spec(m.target);
    let ed = escape_html_spec(m.desc);
    let muted = C_TEXT_MUTED@;
    reveal_strlit("\n            <tr><td align=\"left\" width=\"200\"><font point-size=\"11\"><b>");
    reveal_strlit("</b>: ");
    reveal_strlit("</font></td></tr>\n            <tr><td align=\"left\" width=\"200\"><font point-size=\"9\" color=\"");
    reveal_strlit("\"><i>");
    reveal_strlit("</i></font></td></tr>\n            <tr><td><font point-size=\"4\">&nbsp;</font></td></tr>\n        ");
    reveal_strlit("<b>");
    reveal_strlit("</b>");
    reveal_strlit("</font>");
    reveal_strlit("<i>");
    reveal_strlit("</i>");
    let all = metric_rows_spec(m);
    // The name.
    let b1 = l2 + et + l3 + muted + l4 + ed + l5;
    assert(all =~= l1 + en + b1);
    assert(l1.skip(l1.len() - 3) =~= "<b>"@);
    assert(l2.take(4) =~= "</b>"@);
    lemma_ends_with(Seq::empty(), l1, "<b>"@);
    assert(Seq::<char>::empty() + l1 =~= l1);
    lemma_starts_with(l2, et + l3 + muted + l4 + ed + l5, "</b>"@);
    assert(b1 =~= l2 + (et + l3 + muted + l4 + ed + l5));
    lemma_infix_framed(l1, en, b1, "<b>"@, "</b>"@);
    // The target.
    let a2 = l1 + en + l2;
    let b2 = l3 + muted + l4 + ed + l5;
    assert(all =~= a2 + et + b2);
    assert(l2.skip(0) =~= l2);
    lemma_ends_with(l1 + en, l2, l2);
    assert(l3.take(7) =~= "</font>"@);
    lemma_starts_with(l3, muted + l4 + ed + l5, "</font>"@);
    assert(b2 =~= l3 + (muted + l4 + ed + l5));
    lemma_infix_framed(a2, et, b2, l2, "</font>"@);
    // The description.
    let a3 = l1 + en + l2 + et + l3 + muted + l4;
    assert(l4.skip(2) =~= "<i>"@);
    lemma_ends_with(l1 + en + l2 + et + l3 + muted, l4, "<i>"@);
    assert(l5.take(4) =~= "</i>"@);
    lemma_infix_framed(a3, ed, l5, "<i>"@, "</i>"@);
}

/// A goal node shows each metric's name in bold, its target after the name
/// and its description in italics, each escaped: a `<`, `>` or `&` in them
/// reaches the label only as `&lt;`, `&gt;` or `&amp;`.
pub proof fn law_goal_node_shows_escaped_metrics(g: GoalView, k: int)
    requires
        0 <= k < g.metrics.len(),
    ensures
        is_infix("<b>"@ + escape_html_spec(g.metrics[k].name) + "</b>"@, goal_node_spec(g)),
        is_infix("</b>: "@ + escape_html_spec(g.metrics[k].target) + "</font>"@, goal_node_spec(g)),
        is_infix("<i>"@ + escape_html_spec(g.metrics[k].desc) + "</i>"@, goal_node_spec(g)),
        lacks(escape_html_spec(g.metrics[k].desc), '<'),
        lacks(escape_html_spec(g.metrics[k].desc), '>'),
{
    let m = g.metrics[k];
    let rows = metric_rows_spec(m);
    let html = metrics_html_spec(g.metrics);
    let pre = "\n    \""@ + g.id
        + "\" [label=<\n        <table border=\"0\" cellborder=\"1\" cellspacing=\"0\" cellpadding=\"8\" color=\""@
        + C_GOAL_BORDER@ + "\">\n            <tr><td bgcolor=\""@ + C_GOAL_BG@
        + "\"><font color=\"white\"><b>"@ + escape_html_spec(g.name)
        + "</b></font></td></tr>\n            <tr><td bgcolor=\""@ + C_BG_LIGHT@
        + "\">\n                <table border=\"0\" cellborder=\"0\" cellspacing=\"0\" cellpadding=\"2\">\n                    "@;
    let post = "\n                </table>\n            </td></tr>\n            <tr><td bgcolor=\""@
        + C_BG_FOOTER@ + "\" align=\"right\"><font point-size=\"9\" color=\""@ + C_TEXT_LIGHT@
        + "\">#"@ + escape_html_spec(g.id) + "</font></td></tr>\n        </table>\n    >];\n    "@;
    assert(goal_node_spec(g) =~= pre + html + post);
    lemma_infix_self(html);
    lemma_infix_grow(html, html, pre, post);
    lemma_metrics_html_holds(g.metrics, k);
    lemma_infix_trans(rows, html, goal_node_spec(g));
    lemma_metric_rows_framing(m);
    lemma_infix_trans("<b>"@ + escape_html_spec(m.name) + "</b>"@, rows, goal_node_spec(g));
    lemma_infix_trans("</b>: "@ + escape_html_spec(m.target) + "</font>"@, rows, goal_node_spec(g));
    lemma_infix_trans("<i>"@ + escape_html_spec(m.desc) + "</i>"@, rows, goal_node_spec(g));
    law_escaped_text_has_no_angle_brackets(m.desc);
}

/// Text between a part ending with `<b>` and a part starting with `</b>`
/// stands in bold.
proof fn lemma_bold(a0: Seq<char>, lb: Seq<char>, x: Seq<char>, la: Seq<char>, b0: Seq<char>)
    requires
        3 <= lb.len(),
        lb.skip(lb.len() - 3) == "<b>"@,
        4 <= la.len(),
        la.take(4) == "</b>"@,
    ensures
        is_infix("<b>"@ + x + "</b>"@, a0 + lb + x + (la + b0)),
{
    reveal_strlit("<b>");
    reveal_strlit("</b>");
    lemma_ends_with(a0, lb, "<b>"@);
    lemma_starts_with(la, b0, "</b>"@);
    lemma_infix_framed(a0 + lb, x, la + b0, "<b>"@, "</b>"@);
}

/// The goal node shows the goal's name in bold and its identifier after `#`
/// in the bottom row, each escaped.
pub proof fn law_goal_node_shows_escaped_name(g: GoalView)
    ensures
        is_infix("<b>"@ + escape_html_spec(g.name) + "</b>"@, goal_node_spec(g)),
        is_infix("\">#"@ + escape_html_spec(g.id) + "</font>"@, goal_node_spec(g)),
        lacks(escape_html_spec(g.name), '<'),
        lacks(escape_html_spec(g.name), '>'),
{
    let lb = "\"><font color=\"white\"><b>"@;
    let la = "</b></font></td></tr>\n            <tr><td bgcolor=\""@;
    reveal_strlit("\"><font color=\"white\"><b>");
    reveal_strlit("</b></font></td></tr>\n            <tr><td bgcolor=\"");
    reveal_strlit("<b>");
    reveal_strlit("</b>");
    assert(lb.skip(lb.len() - 3) =~= "<b>"@);
    assert(la.take(4) =~= "</b>"@);
    let a0 = "\n    \""@ + g.id
        + "\" [label=<\n        <table border=\"0\" cellborder=\"1\" cellspacing=\"0\" cellpadding=\"8\" color=\""@
        + C_GOAL_BORDER@ + "\">\n            <tr><td bgcolor=\""@ + C_GOAL_BG@;
    let b0 = C_BG_LIGHT@
        + "\">\n                <table border=\"0\" cellborder=\"0\" cellspacing=\"0\" cellpadding=\"2\">\n                    "@
        + metrics_html_spec(g.metrics)
        + "\n                </table>\n            </td></tr>\n            <tr><td bgcolor=\""@
        + C_BG_FOOTER@ + "\" align=\"right\"><font point-size=\"9\" color=\""@ + C_TEXT_LIGHT@
        + "\">#"@ + escape_html_spec(g.id) + "</font></td></tr>\n        </table>\n    >];\n    "@;
    assert(goal_node_spec(g) =~= a0 + lb + escape_html_spec(g.name) + (la + b0));
    lemma_bold(a0, lb, escape_html_spec(g.name), la, b0);
    let hash = "\">#"@;
    let last = "</font></td></tr>\n        </table>\n    >];\n    "@;
    reveal_strlit("\">#");
    reveal_strlit("</font></td></tr>\n        </table>\n    >];\n    ");
    reveal_strlit("</font>");
    let before_id = "\n    \""@ + g.id
        + "\" [label=<\n        <table border=\"0\" cellborder=\"1\" cellspacing=\"0\" cellpadding=\"8\" color=\""@
        + C_GOAL_BORDER@ + "\">\n            <tr><td bgcolor=\""@ + C_GOAL_BG@
        + "\"><font color=\"white\"><b>"@ + escape_html_spec(g.name)
        + "</b></font></td></tr>\n            <tr><td bgcolor=\""@ + C_BG_LIGHT@
        + "\">\n                <table border=\"0\" cellborder=\"0\" cellspacing=\"0\" cellpadding=\"2\">\n                    "@
        + metrics_html_spec(g.metrics)
        + "\n                </table>\n            </td></tr>\n            <tr><td bgcolor=\""@
        + C_BG_FOOTER@ + "\" align=\"right\"><font point-size=\"9\" color=\""@ + C_TEXT_LIGHT@;
    assert(hash.skip(0) =~= hash);
    lemma_ends_with(before_id, hash, hash);
    assert(last.take(7) =~= "</font>"@);
    lemma_infix_framed(before_id + hash, escape_html_spec(g.id), last, hash, "</font>"@);
    law_escaped_text_has_no_angle_brackets(g.name);
}

/// An actor node shows the actor's name in bold, escaped: a `<`, `>` or `&`
/// in the name reaches the label only as `&lt;`, `&gt;` or `&amp;`, and the
/// label text reads back to the name.
pub proof fn law_actor_node_shows_escaped_name(a: ActorView, node_id: Seq<char>)
    ensures
        is_infix("<b>"@ + escape_html_spec(a.name) + "</b>"@, actor_node_spec(a, node_id)),
        lacks(escape_html_spec(a.name), '<'),
        lacks(escape_html_spec(a.name), '>'),
        unescape_html_spec(escape_html_spec(a.name)) == a.name,
{
    let lb = "\" align=\"center\"><font color=\"white\"><b>"@;
    let la = "</b></font></td></tr>\n            <tr><td align=\"left\" bgcolor=\""@;
    reveal_strlit("\" align=\"center\"><font color=\"white\"><b>");
    reveal_strlit("</b></font></td></tr>\n            <tr><td align=\"left\" bgcolor=\"");
    reveal_strlit("<b>");
    reveal_strlit("</b>");
    assert(lb.skip(lb.len() - 3) =~= "<b>"@);
    assert(la.take(4) =~= "</b>"@);
    let a0 = "\n    \""@ + node_id
        + "\" [label=<\n        <table border=\"0\" cellborder=\"1\" cellspacing=\"0\" cellpadding=\""@
        + CELL_PAD@ + "\" color=\""@ + C_ACTOR_BORDER@ + "\">\n            <tr><td bgcolor=\""@
        + C_ACTOR_BG@;
    let b0 = C_BG_FOOTER@ + "\">"@ + footer_spec(actor_stats_spec(a.prio), a.id)
        + "</td></tr>\n        </table>\n    >];\n    "@;
    assert(actor_node_spec(a, node_id) =~= a0 + lb + escape_html_spec(a.name) + (la + b0));
    lemma_bold(a0, lb, escape_html_spec(a.name), la, b0);
    law_escaped_text_has_no_angle_brackets(a.name);
    law_unescape_inverts_escape(a.name);
}

/// An impact node shows the impact's name and the metric it targets in bold,
/// each escaped.
pub proof fn law_impact_node_shows_escaped_texts(i: ImpactView, node_id: Seq<char>)
    ensures
        is_infix("<b>"@ + escape_html_spec(i.name) + "</b>"@, impact_node_spec(i, node_id)),
        is_infix("<b>"@ + escape_html_spec(i.targets) + "</b>"@, impact_node_spec(i, node_id)),
        lacks(escape_html_spec(i.name), '<'),
        lacks(escape_html_spec(i.name), '>'),
        lacks(escape_html_spec(i.targets), '<'),
        lacks(escape_html_spec(i.targets), '>'),
{
    let lb = "\"><font color=\"white\"><b>"@;
    let la = "</b></font></td></tr>\n            <tr><td bgcolor=\""@;
    let tb = "\">Target:</font> <b>"@;
    let ta = "</b></td></tr>\n                </table>\n            </td></tr>\n            <tr><td bgcolor=\""@;
    reveal_strlit("\"><font color=\"white\"><b>");
    reveal_strlit("</b></font></td></tr>\n            <tr><td bgcolor=\"");
    reveal_strlit("\">Target:</font> <b>");
    reveal_strlit("</b></td></tr>\n                </table>\n            </td></tr>\n            <tr><td bgcolor=\"");
    reveal_strlit("<b>");
    reveal_strlit("</b>");
    assert(lb.skip(lb.len() - 3) =~= "<b>"@);
    assert(la.take(4) =~= "</b>"@);
    assert(tb.skip(tb.len() - 3) =~= "<b>"@);
    assert(ta.take(4) =~= "</b>"@);
    let en = escape_html_spec(i.name);
    let et = escape_html_spec(i.targets);
    let a0 = "\n    \""@ + node_id
        + "\" [label=<\n        <table border=\"0\" cellborder=\"1\" cellspacing=\"0\" cellpadding=\"8\" color=\""@
        + C_IMPACT_BORDER@ + "\">\n            <tr><td bgcolor=\""@ + C_IMPACT_BG@;
    let mid = C_BG_LIGHT@
        + "\">\n                <table border=\"0\" cellborder=\"0\" cellspacing=\"0\" cellpadding=\"2\">\n                    <tr><td align=\"left\" width=\"200\"><font point-size=\"10\" color=\""@
        + C_TEXT_MUTED@;
    let b0 = C_BG_FOOTER@ + "\" align=\"left\">"@ + footer_spec(prio_sp_stats_spec(i.prio, i.sp), i.id)
        + "</td></tr>\n        </table>\n    >];\n    "@;
    assert(impact_node_spec(i, node_id) =~= a0 + lb + en + (la + (mid + tb + et + ta + b0)));
    lemma_bold(a0, lb, en, la, mid + tb + et + ta + b0);
    assert(impact_node_spec(i, node_id) =~= (a0 + lb + en + la + mid) + tb + et + (ta + b0));
    lemma_bold(a0 + lb + en + la + mid, tb, et, ta, b0);
    law_escaped_text_has_no_angle_brackets(i.name);
    law_escaped_text_has_no_angle_brackets(i.targets);
}

/// A deliverable node shows the deliverable's name in bold, escaped.
pub proof fn law_deliverable_node_shows_escaped_name(d: DeliverableView)
    ensures
        is_infix("<b>"@ + escape_html_spec(d.name) + "</b>"@, deliverable_node_spec(d)),
        lacks(escape_html_spec(d.name), '<'),
        lacks(escape_html_spec(d.name), '>'),
{
    let lb = "\" align=\"center\"><font color=\"white\"><b>"@;
    let la = "</b></font></td></tr>\n            <tr><td align=\"left\" bgcolor=\""@;
    reveal_strlit("\" align=\"center\"><font color=\"white\"><b>");
    reveal_strlit("</b></font></td></tr>\n            <tr><td align=\"left\" bgcolor=\"");
    reveal_strlit("<b>");
    reveal_strlit("</b>");
    assert(lb.skip(lb.len() - 3) =~= "<b>"@);
    assert(la.take(4) =~= "</b>"@);
    let a0 = "\n    \""@ + d.id
        + "\" [label=<\n        <table border=\"0\" cellborder=\"1\" cellspacing=\"0\" cellpadding=\""@
        + CELL_PAD@ + "\" color=\""@ + C_DELIV_BORDER@ + "\">\n            <tr><td bgcolor=\""@
        + C_DELIV_BG@;
    let b0 = C_BG_FOOTER@ + "\">"@ + footer_spec(prio_sp_stats_spec(d.prio, d.sp), Some(d.id))
        + "</td></tr>\n        </table>\n    >];\n    "@;
    assert(deliverable_node_spec(d) =~= a0 + lb + escape_html_spec(d.name) + (la + b0));
    lemma_bold(a0, lb, escape_html_spec(d.name), la, b0);
    law_escaped_text_has_no_angle_brackets(d.name);
}

} // verus!
