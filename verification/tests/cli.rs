use impact_map_cli::{output_file_names, out_names_file, select_goals, Format, Goal};

fn goal(id: &str) -> Goal {
    Goal { name: format!("Goal {}", id), id: id.to_string(), metrics: vec![], actors: vec![] }
}

#[test]
fn format_extensions() {
    assert_eq!(Format::Svg.extension(), "svg");
    assert_eq!(Format::Png.extension(), "png");
    assert_eq!(Format::Dot.extension(), "dot");
}

#[test]
fn select_all_goals_without_id() {
    let gs = select_goals(vec![goal("A"), goal("B")], None);
    let ids: Vec<&str> = gs.iter().map(|g| g.id.as_str()).collect();
    assert_eq!(ids, vec!["A", "B"]);
}

#[test]
fn select_goals_by_id_keeps_exactly_matches() {
    let gs = select_goals(vec![goal("A"), goal("B"), goal("A"), goal("AB")], Some("A"));
    assert_eq!(gs.len(), 2);
    assert!(gs.iter().all(|g| g.id == "A"));
    assert!(select_goals(vec![goal("A")], Some("GOAL-99")).is_empty());
    assert!(select_goals(vec![], Some("A")).is_empty());
}

#[test]
fn out_is_a_file_name_only_with_a_goal_and_a_path() {
    assert!(out_names_file(true, "reports/q3"));
    assert!(!out_names_file(true, "."));
    assert!(!out_names_file(false, "reports/q3"));
    assert!(!out_names_file(false, "."));
    assert!(out_names_file(true, "./"));
}

#[test]
fn output_names_add_extensions() {
    let (dot, target) = output_file_names("reports/q3", Format::Png);
    assert_eq!(dot, "reports/q3.dot");
    assert_eq!(target, "reports/q3.png");
    let (dot, target) = output_file_names("./GOAL-02", Format::Dot);
    assert_eq!(dot, "./GOAL-02.dot");
    assert_eq!(target, "./GOAL-02.dot");
}
