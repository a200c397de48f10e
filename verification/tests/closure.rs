use std::collections::{HashMap, HashSet};

use cedar_policy_core::ast::{Entity, EntityUID};
use cedar_policy_core::transitive_closure;
use cedar_schema::transitive_closure::{compute_tc, TcError};

fn uid(id: usize) -> EntityUID {
    EntityUID::with_eid_and_type("Node", &id.to_string()).unwrap()
}

fn eid(uid: &EntityUID) -> String {
    let text: &str = uid.eid().as_ref();
    text.to_string()
}

/// Graphs of up to six nodes, with edges among them and to two keys that are no nodes.
fn graphs() -> Vec<Vec<(String, Vec<String>)>> {
    let mut state: u64 = 0x2545_f491_4f6c_dd1d;
    let mut next = move |bound: u64| -> u64 {
        state = state.wrapping_mul(6364136223846793005).wrapping_add(1442695040888963407);
        (state >> 33) % bound
    };
    let mut out = Vec::new();
    for _ in 0..300 {
        let nodes = next(6) as usize + 1;
        let mut graph = Vec::new();
        for node in 0..nodes {
            let mut edges = Vec::new();
            for _ in 0..next(4) {
                edges.push(next(nodes as u64 + 2).to_string());
            }
            graph.push((node.to_string(), edges));
        }
        out.push(graph);
    }
    out
}

fn closed_by_the_parser_crate(
    graph: &[(String, Vec<String>)],
    enforce_dag: bool,
) -> Option<Vec<HashSet<String>>> {
    let mut nodes: HashMap<EntityUID, Entity> = HashMap::new();
    for (key, edges) in graph {
        let key: usize = key.parse().unwrap();
        let targets = edges.iter().map(|e| uid(e.parse().unwrap())).collect();
        nodes.insert(uid(key), Entity::new(uid(key), HashMap::new(), targets));
    }
    transitive_closure::compute_tc(&mut nodes, enforce_dag).ok()?;
    Some(
        graph
            .iter()
            .map(|(key, _)| nodes[&uid(key.parse().unwrap())].ancestors().map(eid).collect())
            .collect(),
    )
}

#[test]
fn the_closure_is_that_of_the_parser_crate() {
    for graph in graphs() {
        for enforce_dag in [false, true] {
            let expected = closed_by_the_parser_crate(&graph, enforce_dag);
            match compute_tc(&graph, enforce_dag) {
                Ok(rows) => {
                    let sets: Vec<HashSet<String>> =
                        rows.iter().map(|r| r.iter().cloned().collect()).collect();
                    assert_eq!(Some(sets), expected, "graph {:?}", graph);
                    for row in &rows {
                        assert_eq!(row.len(), row.iter().collect::<HashSet<_>>().len());
                    }
                }
                Err(TcError::HasCycle) => {
                    assert!(enforce_dag);
                    assert_eq!(None, expected, "graph {:?}", graph);
                }
            }
        }
    }
}

#[test]
fn the_closure_of_a_chain_reaches_every_later_node() {
    let graph: Vec<(String, Vec<String>)> =
        (0..5).map(|i: usize| (i.to_string(), vec![(i + 1).to_string()])).collect();
    let rows = compute_tc(&graph, true).unwrap();
    for (i, row) in rows.iter().enumerate() {
        let expected: HashSet<String> = (i + 1..6).map(|j| j.to_string()).collect();
        assert_eq!(row.iter().cloned().collect::<HashSet<_>>(), expected);
    }
}
