use impact_map_cli::graphviz::{
    generate_actor_node, generate_deliverable_node, generate_footer, generate_goal_node,
    generate_impact_node,
};
use impact_map_cli::{escape_html, generate_dot, Actor, Deliverable, Goal, Impact, Metric};

// The expected renderings, written with `format!` after the DOT templates.

const CELL_PAD: &str = "10";
const FONT_MAIN: &str = "Helvetica, Arial, sans-serif";

const C_GOAL_BG: &str = "#8b5cf6";
const C_GOAL_BORDER: &str = "#4c1d95";
const C_ACTOR_BG: &str = "#3b82f6";
const C_ACTOR_BORDER: &str = "#1e3a8a";
const C_IMPACT_BG: &str = "#10b981";
const C_IMPACT_BORDER: &str = "#064e3b";
const C_DELIV_BG: &str = "#f59e0b";
const C_DELIV_BORDER: &str = "#78350f";

const C_BG_LIGHT: &str = "#ffffff";
const C_BG_FOOTER: &str = "#f8fafc";
const C_LEGEND_BORDER: &str = "#cbd5e1";
const C_TEXT_MUTED: &str = "#475569";
const C_TEXT_LIGHT: &str = "#94a3b8";

fn expected_escape_html(text: &str) -> String {
    text.replace("&", "&amp;")
        .replace(">=", "&ge;")
        .replace("<=", "&le;")
        .replace("<", "&lt;")
        .replace(">", "&gt;")
}

fn expected_generate_footer(stats: &str, id_opt: Option<&String>) -> String {
    let id_str = match id_opt {
        Some(id) => format!(r#"<font color="{C_TEXT_LIGHT}">#{id}</font>"#),
        None => String::from(""),
    };

    format!(r#"
        <table border="0" cellborder="0" cellspacing="0" cellpadding="0">
            <tr>
                <td align="left"><font point-size="10" color="{C_TEXT_MUTED}">{stats}</font></td>
                <td align="right"><font point-size="9">{id_str}</font></td>
            </tr>
        </table>
    "#)
}

fn expected_generate_goal_node(goal: &Goal) -> String {
    let mut metrics_html = String::new();
    for m in &goal.metrics {
        metrics_html.push_str(&format!(r#"
            <tr><td align="left" width="200"><font point-size="11"><b>{name}</b>: {target}</font></td></tr>
            <tr><td align="left" width="200"><font point-size="9" color="{C_TEXT_MUTED}"><i>{desc}</i></font></td></tr>
            <tr><td><font point-size="4">&nbsp;</font></td></tr>
        "#, name = expected_escape_html(&m.name), target = expected_escape_html(&m.target), desc = expected_escape_html(&m.desc)));
    }

    format!(r#"
    "{goal_id}" [label=<
        <table border="0" cellborder="1" cellspacing="0" cellpadding="8" color="{C_GOAL_BORDER}">
            <tr><td bgcolor="{C_GOAL_BG}"><font color="white"><b>{name}</b></font></td></tr>
            <tr><td bgcolor="{C_BG_LIGHT}">
                <table border="0" cellborder="0" cellspacing="0" cellpadding="2">
                    {metrics_html}
                </table>
            </td></tr>
            <tr><td bgcolor="{C_BG_FOOTER}" align="right"><font point-size="9" color="{C_TEXT_LIGHT}">#{esc_id}</font></td></tr>
        </table>
    >];
    "#, goal_id = goal.id, name = expected_escape_html(&goal.name), esc_id = expected_escape_html(&goal.id), metrics_html = metrics_html)
}

fn expected_generate_actor_node(actor: &Actor, node_id: &str) -> String {
    let stats = format!("Prio: {} &nbsp;&nbsp;&nbsp;", actor.prio);

    format!(r#"
    "{node_id}" [label=<
        <table border="0" cellborder="1" cellspacing="0" cellpadding="{CELL_PAD}" color="{C_ACTOR_BORDER}">
            <tr><td bgcolor="{C_ACTOR_BG}" align="center"><font color="white"><b>{name}</b></font></td></tr>
            <tr><td align="left" bgcolor="{C_BG_FOOTER}">{footer}</td></tr>
        </table>
    >];
    "#, name = expected_escape_html(&actor.name), footer = expected_generate_footer(&stats, actor.id.as_ref()))
}

fn expected_generate_impact_node(impact: &Impact, node_id: &str) -> String {
    let stats = format!("Prio: {} &nbsp;&bull;&nbsp; SP: {}", impact.prio, impact.sp);

    format!(r#"
    "{node_id}" [label=<
        <table border="0" cellborder="1" cellspacing="0" cellpadding="8" color="{C_IMPACT_BORDER}">
            <tr><td bgcolor="{C_IMPACT_BG}"><font color="white"><b>{name}</b></font></td></tr>
            <tr><td bgcolor="{C_BG_LIGHT}">
                <table border="0" cellborder="0" cellspacing="0" cellpadding="2">
                    <tr><td align="left" width="200"><font point-size="10" color="{C_TEXT_MUTED}">Target:</font> <b>{target}</b></td></tr>
                </table>
            </td></tr>
            <tr><td bgcolor="{C_BG_FOOTER}" align="left">{footer}</td></tr>
        </table>
    >];
    "#, name = expected_escape_html(&impact.name), target = expected_escape_html(&impact.targets), footer = expected_generate_footer(&stats, impact.id.as_ref()))
}

fn expected_generate_deliverable_node(del: &Deliverable) -> String {
    let stats = format!("Prio: {} &nbsp;&bull;&nbsp; SP: {}", del.prio, del.sp);
    format!(r#"
    "{del_id}" [label=<
        <table border="0" cellborder="1" cellspacing="0" cellpadding="{CELL_PAD}" color="{C_DELIV_BORDER}">
            <tr><td bgcolor="{C_DELIV_BG}" align="center"><font color="white"><b>{name}</b></font></td></tr>
            <tr><td align="left" bgcolor="{C_BG_FOOTER}">{footer}</td></tr>
        </table>
    >];
    "#, del_id = del.id, name = expected_escape_html(&del.name), footer = expected_generate_footer(&stats, Some(&del.id)))
}

fn expected_generate_dot(goal: &Goal) -> String {
    let mut dot = format!(
        "digraph ImpactMap {{\n rankdir=LR;\n nodesep=0.5;\n ranksep=0.8;\n splines=spline;\n \
         node [shape=none, fontname=\"{FONT_MAIN}\", margin=0];\n \
         edge [color=\"{C_TEXT_LIGHT}\", penwidth=1.5, arrowsize=0.8];\n\n\
         \"Legend\" [label=<<table border=\"0\" cellborder=\"1\" cellspacing=\"0\" cellpadding=\"6\" color=\"{C_LEGEND_BORDER}\">\
         <tr><td bgcolor=\"{C_BG_FOOTER}\"><b>Legende:</b></td><td bgcolor=\"{C_GOAL_BG}\"><font color=\"white\">Goal</font></td>\
         <td bgcolor=\"{C_ACTOR_BG}\"><font color=\"white\">Actor</font></td><td bgcolor=\"{C_IMPACT_BG}\"><font color=\"white\">Impact</font></td>\
         <td bgcolor=\"{C_DELIV_BG}\"><font color=\"white\">Deliverable</font></td></tr></table>>];\n\
         \"Legend\" -> \"{gid}\" [style=invis]; {{ rank=same; \"Legend\"; \"{gid}\" }}\n\n",
        gid = goal.id
    );

    dot.push_str(&expected_generate_goal_node(goal));

    for (a_idx, actor) in goal.actors.iter().enumerate() {
        let actor_node_id = format!("{}_A{}", goal.id, a_idx);
        dot.push_str(&expected_generate_actor_node(actor, &actor_node_id));
        dot.push_str(&format!(" \"{}\" -> \"{}\";\n", goal.id, actor_node_id));

        for (i_idx, impact) in actor.impacts.iter().enumerate() {
            let impact_node_id = format!("{}_I{}", actor_node_id, i_idx);
            dot.push_str(&expected_generate_impact_node(impact, &impact_node_id));
            dot.push_str(&format!(" \"{}\" -> \"{}\";\n", actor_node_id, impact_node_id));

            for del in &impact.deliverables {
                dot.push_str(&expected_generate_deliverable_node(del));
                dot.push_str(&format!(" \"{}\" -> \"{}\";\n", impact_node_id, del.id));
            }
        }
    }
    dot.push_str("}\n");
    dot
}

fn s(x: &str) -> String {
    x.to_string()
}

fn deliverable(name: &str, id: &str, prio: i64, sp: i64) -> Deliverable {
    Deliverable { name: s(name), id: s(id), prio, sp }
}

fn steam_goal() -> Goal {
    Goal {
        name: s("Umsatz +40% bei guten Steam-Reviews in Q3/Q4"),
        id: s("GOAL-02"),
        metrics: vec![
            Metric { name: s("mrr_growth"), target: s("+40%"), desc: s("Monatlicher Bruttoumsatz") },
            Metric {
                name: s("steam_rating"),
                target: s(">=85%"),
                desc: s("Positive Steam Reviews (Guardrail)"),
            },
        ],
        actors: vec![Actor {
            name: s("Whale"),
            id: Some(s("whale")),
            prio: 1,
            impacts: vec![Impact {
                name: s("Gibt Geld für prestigeträchtige Items aus"),
                id: Some(s("IP-3")),
                targets: s("mrr_growth"),
                prio: 1,
                sp: 13,
                deliverables: vec![deliverable("Limitierte animierte Skill-Effekte", "DEL-201", 1, 5)],
            }],
        }],
    }
}

fn wide_goal() -> Goal {
    let mut actors = Vec::new();
    for a in 0..12i64 {
        let mut impacts = Vec::new();
        for i in 0..3i64 {
            impacts.push(Impact {
                name: format!("Impact <{}> & {}", a, i),
                id: if i % 2 == 0 { None } else { Some(format!("I-{}", i)) },
                targets: s("m<=1"),
                prio: -i,
                sp: i64::MAX - i,
                deliverables: (0..i).map(|d| deliverable(&format!("D {}", d), &format!("DEL-{}-{}-{}", a, i, d), d, i64::MIN + d)).collect(),
            });
        }
        actors.push(Actor { name: format!("Actor {}", a), id: None, prio: a * 7 - 40, impacts });
    }
    Goal { name: s("Wide & <deep>"), id: s("G-W"), metrics: vec![], actors }
}

#[test]
fn escape_html_replaces_reserved_characters() {
    assert_eq!(escape_html("a & b <= c >= d < e > f"), "a &amp; b &le; c &ge; d &lt; e &gt; f");
    assert_eq!(escape_html(">>="), "&gt;&ge;");
    assert_eq!(escape_html("<=>="), "&le;&ge;");
    assert_eq!(escape_html("&lt;"), "&amp;lt;");
    assert_eq!(escape_html(""), "");
}

#[test]
fn escape_html_leaves_plain_text() {
    for t in ["Whale", "Übergröße 100% = gut", "", "a;b\"c'd"] {
        assert_eq!(escape_html(t), t);
    }
}

#[test]
fn escaped_text_has_no_angle_brackets() {
    for t in ["<<>>", "<=>", "a<b>c", ">=<=", "<script>alert(1)</script>"] {
        let e = escape_html(t);
        assert!(!e.contains('<') && !e.contains('>'), "{}", e);
        assert_eq!(e, expected_escape_html(t));
    }
}

#[test]
fn footer_with_and_without_id() {
    let id = s("whale");
    assert_eq!(generate_footer("Prio: 1", Some(&id)), expected_generate_footer("Prio: 1", Some(&id)));
    assert_eq!(generate_footer("Prio: 1", None), expected_generate_footer("Prio: 1", None));
    assert!(generate_footer("x", Some(&id)).contains("<font color=\"#94a3b8\">#whale</font>"));
    assert!(generate_footer("x", None).contains("<font point-size=\"9\"></font>"));
}

#[test]
fn node_renderings_match_their_templates() {
    let g = steam_goal();
    assert_eq!(generate_goal_node(&g), expected_generate_goal_node(&g));
    let a = &g.actors[0];
    assert_eq!(generate_actor_node(a, "GOAL-02_A0"), expected_generate_actor_node(a, "GOAL-02_A0"));
    let i = &a.impacts[0];
    assert_eq!(generate_impact_node(i, "GOAL-02_A0_I0"), expected_generate_impact_node(i, "GOAL-02_A0_I0"));
    let d = &i.deliverables[0];
    assert_eq!(generate_deliverable_node(d), expected_generate_deliverable_node(d));
}

#[test]
fn actor_stats_show_negative_and_extreme_priorities() {
    let a = Actor { name: s("A"), id: None, prio: i64::MIN, impacts: vec![] };
    assert!(generate_actor_node(&a, "n").contains("Prio: -9223372036854775808 &nbsp;&nbsp;&nbsp;"));
    let i = Impact { name: s("I"), id: None, targets: s("t"), prio: 0, sp: i64::MAX, deliverables: vec![] };
    assert!(generate_impact_node(&i, "n").contains("Prio: 0 &nbsp;&bull;&nbsp; SP: 9223372036854775807"));
}

#[test]
fn generate_dot_of_readme_example() {
    let g = steam_goal();
    let dot = generate_dot(&g);
    assert_eq!(dot, expected_generate_dot(&g));
    assert!(dot.starts_with("digraph ImpactMap {\n rankdir=LR;\n"));
    assert!(dot.ends_with("}\n"));
    assert!(dot.contains(" \"GOAL-02\" -> \"GOAL-02_A0\";\n"));
    assert!(dot.contains(" \"GOAL-02_A0\" -> \"GOAL-02_A0_I0\";\n"));
    assert!(dot.contains(" \"GOAL-02_A0_I0\" -> \"DEL-201\";\n"));
    assert!(dot.contains("&ge;85%"));
    assert!(dot.contains("\"Legend\" -> \"GOAL-02\" [style=invis]; { rank=same; \"Legend\"; \"GOAL-02\" }"));
}

#[test]
fn generate_dot_of_goal_without_actors() {
    let g = Goal { name: s("Empty"), id: s("G0"), metrics: vec![], actors: vec![] };
    let dot = generate_dot(&g);
    assert_eq!(dot, expected_generate_dot(&g));
    assert!(!dot.contains("->  \"G0_A"));
}

#[test]
fn generate_dot_of_wide_goal() {
    let g = wide_goal();
    let dot = generate_dot(&g);
    assert_eq!(dot, expected_generate_dot(&g));
    assert!(dot.contains("\"G-W_A10\" [label=<"));
    assert!(dot.contains("\"G-W_A1\" [label=<"));
    assert!(dot.contains(" \"G-W_A11\" -> \"G-W_A11_I2\";\n"));
}

#[test]
fn node_ids_of_distinct_actors_differ() {
    let g = wide_goal();
    let dot = generate_dot(&g);
    for a in 0..12 {
        let needle = format!("\n    \"G-W_A{}\" [label=<", a);
        assert_eq!(dot.matches(&needle).count(), 1, "{}", needle);
    }
}

fn unescape(s: &str) -> String {
    let mut out = String::new();
    let mut rest = s;
    while !rest.is_empty() {
        let mut done = false;
        for (entity, text) in [("&amp;", "&"), ("&ge;", ">="), ("&le;", "<="), ("&lt;", "<"), ("&gt;", ">")] {
            if rest.starts_with(entity) {
                out.push_str(text);
                rest = &rest[entity.len()..];
                done = true;
                break;
            }
        }
        if !done {
            let c = rest.chars().next().unwrap();
            out.push(c);
            rest = &rest[c.len_utf8()..];
        }
    }
    out
}

fn all_texts(alphabet: &[char], max_len: usize) -> Vec<String> {
    let mut texts = vec![String::new()];
    let mut layer = vec![String::new()];
    for _ in 0..max_len {
        let mut next = Vec::new();
        for t in &layer {
            for c in alphabet {
                let mut u = t.clone();
                u.push(*c);
                next.push(u);
            }
        }
        texts.extend(next.iter().cloned());
        layer = next;
    }
    texts
}

#[test]
fn unescaping_gives_back_the_text() {
    for t in all_texts(&['&', '<', '>', '=', 'a', ';'], 4) {
        assert_eq!(unescape(&escape_html(&t)), t, "{:?}", t);
    }
    for t in ["&amp;", "&lt;=", "a &ge; b", "Grüße <=> &gt;"] {
        assert_eq!(unescape(&escape_html(t)), t);
    }
}

#[test]
fn escaping_distributes_over_concatenation() {
    let texts = all_texts(&['&', '<', '>', '=', 'x'], 3);
    for a in &texts {
        for b in &texts {
            let seam = (a.ends_with('<') || a.ends_with('>')) && b.starts_with('=');
            let whole = escape_html(&format!("{}{}", a, b));
            let parts = format!("{}{}", escape_html(a), escape_html(b));
            if seam {
                assert_ne!(whole, parts, "{:?} {:?}", a, b);
            } else {
                assert_eq!(whole, parts, "{:?} {:?}", a, b);
            }
        }
    }
}

#[test]
fn footer_id_is_inserted_before_the_closing_part() {
    let id = s("DEL-7");
    let closing = "</font></td>\n            </tr>\n        </table>\n    ";
    for stats in ["Prio: 1", "<font point-size=\"9\">", "", "&nbsp;"] {
        let without = generate_footer(stats, None);
        let with = generate_footer(stats, Some(&id));
        let at = without.len() - closing.len();
        let expected = format!("{}<font color=\"#94a3b8\">#DEL-7</font>{}", &without[..at], &without[at..]);
        assert_eq!(with, expected);
    }
}
