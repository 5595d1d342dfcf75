use shipcat::graph::{DependencyGraph, GraphError};
use shipcat::manifest::Manifest;
use shipcat::structs::Dependency;

fn service(name: &str, deps: Vec<&str>) -> Manifest {
    let mut m = Manifest::default();
    m.name = name.to_string();
    m.dependencies = deps
        .iter()
        .map(|d| Dependency { name: d.to_string() })
        .collect();
    m
}

#[test]
fn cycle_is_detected_never_silently_ordered() {
    let manifests = vec![service("alpha", vec!["beta"]), service("beta", vec!["alpha"])];
    let g = DependencyGraph::build(&manifests);
    assert!(g.has_cycle());
    assert_eq!(g.verify_acyclic(), Err(GraphError::CycleDetected));
}

#[test]
fn acyclic_set_passes() {
    let manifests = vec![
        service("alpha", vec!["beta", "gamma"]),
        service("beta", vec!["gamma"]),
        service("gamma", vec![]),
    ];
    let g = DependencyGraph::build(&manifests);
    assert!(!g.has_cycle());
    assert!(g.verify_acyclic().is_ok());
    assert_eq!(g.edges, vec![(0, 1), (0, 2), (1, 2)]);
}

#[test]
fn self_dependency_is_a_cycle() {
    let manifests = vec![service("alpha", vec!["alpha"])];
    let g = DependencyGraph::build(&manifests);
    assert!(g.has_cycle());
}

#[test]
fn dependencies_outside_the_set_are_skipped() {
    let manifests = vec![service("alpha", vec!["elsewhere"])];
    let g = DependencyGraph::build(&manifests);
    assert_eq!(g.edges.len(), 0);
    assert!(!g.has_cycle());
}
