use cathedral::partition::{create_ring_partition, create_split_brain_partition, node_name_of, QuorumPlan, QuorumError};

fn names(v: &[&str]) -> Vec<String> {
    v.iter().map(|s| s.to_string()).collect()
}

#[test]
fn ring_partition_reaches_neighbours() {
    let table = create_ring_partition(4);
    assert_eq!(table.len(), 4);
    assert_eq!(table.get("node1").unwrap(), &names(&["node1", "node2", "node4"]));
    assert_eq!(table.get("node4").unwrap(), &names(&["node4", "node1", "node3"]));
    assert_eq!(table.get("node2").unwrap(), &names(&["node2", "node3", "node1"]));
    assert!(table.get("node5").is_none());
}

#[test]
fn ring_reach_is_mutual_on_five_nodes() {
    let table = create_ring_partition(5);
    for a in 1..=5u64 {
        for b in 1..=5u64 {
            let an = node_name_of(a);
            let bn = node_name_of(b);
            let a_sees_b = table.get(an.as_str()).unwrap().contains(&bn);
            let b_sees_a = table.get(bn.as_str()).unwrap().contains(&an);
            assert_eq!(a_sees_b, b_sees_a);
        }
    }
}

#[test]
fn split_brain_isolates_one_node() {
    let table = create_split_brain_partition(3, 2);
    assert_eq!(table.get("node2").unwrap(), &names(&["node2"]));
    assert_eq!(table.get("node1").unwrap(), &names(&["node1", "node3"]));
    assert_eq!(table.get("node3").unwrap(), &names(&["node1", "node3"]));
}

#[test]
fn quorum_plan_majorities() {
    let plan = QuorumPlan::new(5, names(&["node1", "node2", "node3", "node4", "node5"]), "node1", false);
    assert_eq!((plan.read_quorum, plan.write_quorum), (3, 3));
    let four = QuorumPlan::new(4, names(&["a", "b", "c", "d"]), "a", false);
    assert_eq!(four.write_quorum, 3);
}

#[test]
fn visible_replicas_follow_the_table() {
    let ids = names(&["node1", "node2", "node3", "node4", "node5"]);
    let table = create_ring_partition(5);
    let plan = QuorumPlan::new(5, ids.clone(), "node1", false);
    assert_eq!(plan.visible_replicas(&table).ok().unwrap(), vec![0, 1, 4]);
    let outside = QuorumPlan::new(5, ids.clone(), "node9", false);
    assert!(matches!(outside.visible_replicas(&table), Err(QuorumError::NodeNotInTable)));
    let permissive = QuorumPlan::new(5, ids, "node9", true);
    assert_eq!(permissive.visible_replicas(&table).ok().unwrap(), vec![0, 1, 2, 3, 4]);
}

#[test]
fn quorum_checks_and_errors() {
    let plan = QuorumPlan::new(5, names(&["a", "b", "c", "d", "e"]), "a", false);
    assert!(plan.check_write_reachable(3).is_ok());
    assert!(matches!(
        plan.check_write_reachable(2),
        Err(QuorumError::WriteQuorumUnreachable { visible: 2, total: 5, needed: 3 })
    ));
    assert!(plan.write_outcome(3, 4).is_ok());
    assert!(matches!(plan.write_outcome(2, 4), Err(QuorumError::WriteQuorumFailed { successes: 2, total: 5, visible: 4 })));
    assert!(plan.check_read_reachable(5).is_ok());
    assert!(matches!(
        plan.check_read_reachable(1),
        Err(QuorumError::ReadQuorumUnreachable { visible: 1, total: 5, needed: 3 })
    ));
}
