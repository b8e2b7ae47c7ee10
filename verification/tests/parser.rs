use impact_map_cli::kdl_doc::{Entry, Node};
use impact_map_cli::parser::{document_is_well_formed, goals_from_tree};
use impact_map_cli::{parse_kdl, Goal, ImpactMapError};

const README_EXAMPLE: &str = r#"
goal "Umsatz +40% bei guten Steam-Reviews in Q3/Q4" id="GOAL-02" {
    metric "mrr_growth" target="+40%" desc="Monatlicher Bruttoumsatz"
    metric "steam_rating" target=">=85%" desc="Positive Steam Reviews (Guardrail)"

    actor "Whale" id="whale" prio=1 {
        impact "Gibt Geld für prestigeträchtige Items aus" id="IP-3" targets="mrr_growth" prio=1 sp=13 {
            deliverable "Limitierte animierte Skill-Effekte" id="DEL-201" prio=1 sp=5
        }
    }
}
"#;

fn goals(text: &str) -> Vec<Goal> {
    match parse_kdl(text) {
        Ok(g) => g,
        Err(e) => panic!("unexpected error: {:?}", e),
    }
}

fn is_malformed(text: &str) -> bool {
    matches!(parse_kdl(text), Err(ImpactMapError::MalformedNode))
}

#[test]
fn parse_readme_example() {
    let gs = goals(README_EXAMPLE);
    assert_eq!(gs.len(), 1);
    let g = &gs[0];
    assert_eq!(g.name, "Umsatz +40% bei guten Steam-Reviews in Q3/Q4");
    assert_eq!(g.id, "GOAL-02");
    assert_eq!(g.metrics.len(), 2);
    assert_eq!(g.metrics[1].name, "steam_rating");
    assert_eq!(g.metrics[1].target, ">=85%");
    assert_eq!(g.metrics[1].desc, "Positive Steam Reviews (Guardrail)");
    assert_eq!(g.actors.len(), 1);
    let a = &g.actors[0];
    assert_eq!(a.name, "Whale");
    assert_eq!(a.id.as_deref(), Some("whale"));
    assert_eq!(a.prio, 1);
    let i = &a.impacts[0];
    assert_eq!(i.name, "Gibt Geld für prestigeträchtige Items aus");
    assert_eq!(i.id.as_deref(), Some("IP-3"));
    assert_eq!(i.targets, "mrr_growth");
    assert_eq!((i.prio, i.sp), (1, 13));
    let d = &i.deliverables[0];
    assert_eq!(d.name, "Limitierte animierte Skill-Effekte");
    assert_eq!(d.id, "DEL-201");
    assert_eq!((d.prio, d.sp), (1, 5));
}

#[test]
fn parse_several_goals_in_document_order() {
    let gs = goals("note \"x\"\ngoal \"B\" id=\"G-B\"\nother 1\ngoal \"A\" id=\"G-A\"\n");
    let ids: Vec<&str> = gs.iter().map(|g| g.id.as_str()).collect();
    assert_eq!(ids, vec!["G-B", "G-A"]);
    assert!(gs.iter().all(|g| g.metrics.is_empty() && g.actors.is_empty()));
}

#[test]
fn parse_empty_document() {
    assert!(goals("").is_empty());
    assert!(goals("// nothing here\n").is_empty());
}

#[test]
fn parse_skips_unknown_children() {
    let text = "goal \"G\" id=\"g\" {\n note \"n\"\n actor \"A\" prio=2 {\n  comment \"c\"\n  impact \"I\" targets=\"m\" prio=1 sp=2 {\n   extra 1\n  }\n }\n}\n";
    let gs = goals(text);
    let a = &gs[0].actors[0];
    assert_eq!(a.id, None);
    assert_eq!(a.impacts.len(), 1);
    assert_eq!(a.impacts[0].id, None);
    assert!(a.impacts[0].deliverables.is_empty());
}

#[test]
fn parse_non_integer_numbers_become_zero() {
    let text = "goal \"G\" id=\"g\" {\n actor \"A\" prio=\"high\" {\n  impact \"I\" targets=\"m\" prio=1.5 sp=true\n }\n}\n";
    let gs = goals(text);
    let a = &gs[0].actors[0];
    assert_eq!(a.prio, 0);
    assert_eq!((a.impacts[0].prio, a.impacts[0].sp), (0, 0));
}

#[test]
fn parse_integers_in_other_bases() {
    let text = "goal \"G\" id=\"g\" {\n actor \"A\" prio=0x10 {\n  impact \"I\" targets=\"m\" prio=0b101 sp=0o17\n }\n}\n";
    let gs = goals(text);
    let a = &gs[0].actors[0];
    assert_eq!(a.prio, 16);
    assert_eq!((a.impacts[0].prio, a.impacts[0].sp), (5, 15));
}

#[test]
fn parse_last_property_wins_and_first_argument_is_the_name() {
    let text = "goal id=\"first\" \"Name\" \"Other\" id=\"second\"\n";
    let gs = goals(text);
    assert_eq!(gs[0].name, "Name");
    assert_eq!(gs[0].id, "second");
}

#[test]
fn parse_raw_strings() {
    let gs = goals("goal r\"raw \\ name\" id=r#\"R\"#\n");
    assert_eq!(gs[0].name, "raw \\ name");
    assert_eq!(gs[0].id, "R");
}

#[test]
fn parse_invalid_kdl_is_refused() {
    match parse_kdl("goal \"unterminated") {
        Err(ImpactMapError::InvalidKdl(message)) => assert!(!message.is_empty()),
        other => panic!("unexpected: {:?}", other),
    }
    assert!(matches!(parse_kdl("goal {"), Err(ImpactMapError::InvalidKdl(_))));
}

#[test]
fn parse_missing_attributes_are_malformed() {
    assert!(is_malformed("goal \"G\"\n"));
    assert!(is_malformed("goal id=\"g\"\n"));
    assert!(is_malformed("goal 1 id=\"g\"\n"));
    assert!(is_malformed("goal \"G\" id=2\n"));
    assert!(is_malformed("goal \"G\" id=\"g\" {\n metric \"m\" target=\"t\"\n}\n"));
    assert!(is_malformed("goal \"G\" id=\"g\" {\n metric \"m\" target=1 desc=\"d\"\n}\n"));
    assert!(is_malformed("goal \"G\" id=\"g\" {\n actor \"A\"\n}\n"));
    assert!(is_malformed("goal \"G\" id=\"g\" {\n actor \"A\" id=3 prio=1\n}\n"));
    assert!(is_malformed("goal \"G\" id=\"g\" {\n actor \"A\" prio=1 {\n  impact \"I\" prio=1 sp=1\n }\n}\n"));
    assert!(is_malformed("goal \"G\" id=\"g\" {\n actor \"A\" prio=1 {\n  impact \"I\" targets=\"m\" sp=1\n }\n}\n"));
    assert!(is_malformed("goal \"G\" id=\"g\" {\n actor \"A\" prio=1 {\n  impact \"I\" targets=\"m\" prio=1 sp=1 {\n   deliverable \"D\" prio=1 sp=1\n  }\n }\n}\n"));
    assert!(is_malformed("goal \"G\" id=\"g\" {\n actor \"A\" prio=1 {\n  impact \"I\" targets=\"m\" prio=1 sp=1 {\n   deliverable \"D\" id=\"d\" prio=1\n  }\n }\n}\n"));
}

#[test]
fn malformed_nodes_outside_the_map_do_not_matter() {
    assert_eq!(goals("metric\nactor\nimpact\ndeliverable\n").len(), 0);
    assert_eq!(goals("goal \"G\" id=\"g\" {\n impact\n deliverable\n actor \"A\" prio=1 {\n  deliverable\n  metric\n }\n}\n").len(), 1);
}

fn entry(name: Option<&str>, text: Option<&str>, integer: Option<i64>) -> Entry {
    Entry { name: name.map(|n| n.to_string()), text: text.map(|t| t.to_string()), integer }
}

fn node(name: &str, entries: Vec<Entry>, children: Option<Vec<Node>>) -> Node {
    Node { name: name.to_string(), entries, children }
}

#[test]
fn node_lookups_follow_kdl() {
    let n = node(
        "goal",
        vec![
            entry(Some("id"), Some("a"), None),
            entry(None, None, Some(7)),
            entry(None, Some("second"), None),
            entry(Some("id"), Some("b"), None),
        ],
        None,
    );
    assert_eq!(n.first_argument().unwrap().integer, Some(7));
    assert_eq!(n.property("id").unwrap().text.as_deref(), Some("b"));
    assert!(n.property("ID").is_none());
    let empty = node("x", vec![entry(Some("k"), None, None)], None);
    assert!(empty.first_argument().is_none());
}

#[test]
fn goals_from_a_built_tree() {
    let nodes = vec![
        node("goal", vec![entry(None, Some("G"), None), entry(Some("id"), Some("g"), None)], Some(vec![
            node("metric", vec![entry(None, Some("m"), None), entry(Some("target"), Some("t"), None), entry(Some("desc"), Some("d"), None)], None),
        ])),
        node("misc", vec![], None),
    ];
    assert!(document_is_well_formed(&nodes));
    let gs = goals_from_tree(&nodes);
    assert_eq!(gs.len(), 1);
    assert_eq!(gs[0].metrics[0].target, "t");
    let bad = vec![node("goal", vec![entry(None, Some("G"), None)], None)];
    assert!(!document_is_well_formed(&bad));
}

#[test]
fn error_texts() {
    let err = parse_kdl(r#"goal "G" id="G1" {"#).unwrap_err();
    assert!(matches!(err, ImpactMapError::InvalidKdl(_)));
    assert_eq!(err.to_string(), "Fehler beim Parsen der KDL-Datei");
    let err = parse_kdl("goal \"G\"\n").unwrap_err();
    assert_eq!(err.to_string(), "Ein Knoten der Impact Map hat ein Pflichtattribut nicht");
}
