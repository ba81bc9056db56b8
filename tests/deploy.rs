use tynkerbase_client::deploy::{merge_nodes, node_with_id, resolve_targets, Config, DeployError, Deployment, Node, Stage};

fn registry() -> Vec<Node> {
    vec![
        Node::new("id-a", "A", "10.0.0.1"),
        Node::new("id-b", "B", "10.0.0.2"),
        Node::new("id-c", "C", "10.0.0.3"),
    ]
}

fn config(names: &[&str]) -> Config {
    let mut c = Config::default();
    c.proj_name = "web".to_string();
    c.node_names = names.iter().map(|s| s.to_string()).collect();
    c
}

fn names(nodes: &[Node]) -> Vec<String> {
    nodes.iter().map(|n| n.name.clone()).collect()
}

/// Runs the pipeline with `fail(stage, node)` deciding each call, counting
/// the calls each node receives per stage.
fn run(d: &mut Deployment, fail: &dyn Fn(Stage, &str) -> bool, calls: &mut Vec<(Stage, String)>) {
    while let Some(stage) = d.stage {
        let outcomes: Vec<Result<(), String>> = d
            .candidates
            .iter()
            .map(|n| {
                calls.push((stage, n.name.clone()));
                if fail(stage, &n.name) { Err("connection refused".to_string()) } else { Ok(()) }
            })
            .collect();
        d.record(&outcomes);
    }
}

#[test]
fn healthy_deploy_twice_reports_nothing() {
    for _ in 0..2 {
        let mut d = Deployment::start(&config(&["A", "B", "C"]), &registry()).unwrap();
        let mut calls = vec![];
        run(&mut d, &|_, _| false, &mut calls);
        assert!(d.is_done());
        assert!(d.report.is_empty());
        assert_eq!(names(&d.candidates), vec!["A", "B", "C"]);
        assert_eq!(calls.len(), 9);
    }
}

#[test]
fn failed_transfer_is_contained_to_its_node() {
    let mut d = Deployment::start(&config(&["A", "B", "C"]), &registry()).unwrap();
    let mut calls = vec![];
    run(&mut d, &|s, n| s == Stage::Transfer && n == "B", &mut calls);
    assert_eq!(d.report.len(), 1);
    assert_eq!(d.report[0].stage, Stage::Transfer);
    assert_eq!(d.report[0].stage.name(), "transfer");
    assert_eq!(d.report[0].node_name, "B");
    assert_eq!(d.report[0].cause, "connection refused");
    let count = |stage: Stage, n: &str| calls.iter().filter(|(s, m)| *s == stage && m == n).count();
    for n in ["A", "C"] {
        assert_eq!(count(Stage::Build, n), 1);
        assert_eq!(count(Stage::Spawn, n), 1);
    }
    assert_eq!(count(Stage::Transfer, "B"), 1);
    assert_eq!(count(Stage::Build, "B"), 0);
    assert_eq!(count(Stage::Spawn, "B"), 0);
    assert_eq!(names(&d.candidates), vec!["A", "C"]);
}

#[test]
fn failures_at_each_stage_are_reported_in_order() {
    let mut d = Deployment::start(&config(&["A", "B", "C"]), &registry()).unwrap();
    let mut calls = vec![];
    run(&mut d, &|s, n| (s == Stage::Build && n == "A") || (s == Stage::Spawn && n == "C"), &mut calls);
    assert_eq!(d.report.len(), 2);
    assert_eq!(d.report[0].message(), "Failed to build image on node `A` -> connection refused");
    assert_eq!(d.report[1].message(), "Failed to spawn container on node `C` -> connection refused");
    assert_eq!(names(&d.candidates), vec!["B"]);
}

#[test]
fn empty_candidate_set_aborts_before_any_stage() {
    let r = Deployment::start(&config(&["X", "Y"]), &registry());
    assert_eq!(r.err(), Some(DeployError::NoValidNodes));
    let r = Deployment::start(&config(&[]), &registry());
    assert_eq!(r.err(), Some(DeployError::NoValidNodes));
}

#[test]
fn unknown_names_are_dropped_with_a_warning() {
    let d = Deployment::start(&config(&["C", "X", "A"]), &registry()).unwrap();
    assert_eq!(d.stage, Some(Stage::Transfer));
    assert_eq!(names(&d.candidates), vec!["C", "A"]);
    assert_eq!(d.unresolved, vec!["X"]);
    let (found, missing) = resolve_targets(&vec!["B".to_string(), "Q".to_string()], &registry());
    assert_eq!(found[0].node_id, "id-b");
    assert_eq!(missing, vec!["Q"]);
}

#[test]
fn first_registered_node_of_a_name_is_used() {
    let mut reg = registry();
    reg.push(Node::new("id-a2", "A", "10.0.0.9"));
    let d = Deployment::start(&config(&["A"]), &reg).unwrap();
    assert_eq!(d.candidates[0].node_id, "id-a");
}

#[test]
fn lookup_by_identifier() {
    assert_eq!(node_with_id(&registry(), "id-c"), Some(2));
    assert_eq!(node_with_id(&registry(), "id-z"), None);
}

#[test]
fn add_upstream_once() {
    let mut c = config(&["A"]);
    assert!(c.add_upstream("B".to_string()));
    assert!(!c.add_upstream("A".to_string()));
    assert_eq!(c.node_names, vec!["A", "B"]);
}

#[test]
fn registry_merge_keeps_identifiers_unique() {
    let mut reg = registry();
    let incoming = vec![Node::new("id-b", "B", "10.9.9.9"), Node::new("id-d", "D", "10.0.0.4"), Node::new("id-d", "D2", "10.0.0.5")];
    merge_nodes(&mut reg, &incoming);
    assert_eq!(reg.len(), 4);
    assert_eq!(reg[1].addr, "10.9.9.9");
    assert_eq!(reg[3].node_id, "id-d");
    assert_eq!(reg[3].name, "D2");
    let again = reg.clone();
    merge_nodes(&mut reg, &again);
    assert_eq!(reg.len(), 4);
}
