use cathedral::zk::{
    ZkProof, ZkBackend, Risc0Backend, MockBackend, PhysicalConstraintType, PhysicalConstraintProofGenerator,
    ReputationWitness, circuit_siblings, reputation_witness, ZkProofJob, ZkProofResult, job_result, cancelled_result,
    process_job, sail_jobs, batch_results,
};

fn sample_proof() -> ZkProof {
    ZkProof { proof_bytes: vec![9], public_inputs: vec![5, 6], circuit_id: "c".to_string(), verification_key_hash: "k".to_string() }
}

#[test]
fn generator_gives_the_constraint_proof() {
    let g = PhysicalConstraintProofGenerator::new(Risc0Backend::new().ok().unwrap());
    let p = g.generate_proof(PhysicalConstraintType::SafetyFactor, "h", "{}").ok().unwrap();
    assert_eq!(p.proof_bytes, vec![1, 2, 3]);
    assert_eq!(p.public_inputs, vec![42]);
    assert_eq!(p.circuit_id, "mock");
    assert_eq!(p.verification_key_hash, "mock_vk");
}

#[test]
fn backends_answer() {
    let r = Risc0Backend::new().ok().unwrap();
    let p = r.generate_proof("c", &[], &[]).ok().unwrap();
    assert!(p.proof_bytes.is_empty());
    assert_eq!(r.verify_proof(&p).ok(), Some(true));
    let m = MockBackend {};
    let q = m.generate_proof("c", &[], &[]).ok().unwrap();
    assert_eq!((q.proof_bytes.clone(), q.public_inputs.clone()), (vec![1, 2, 3], vec![42]));
    assert_eq!(q.verification_key_hash, "0xMock");
    assert_eq!(m.verify_proof(&q).ok(), Some(true));
}

#[test]
fn witness_siblings_padded_and_cut() {
    let w = reputation_witness([1, 2, 3, 4], vec![[5, 5, 5, 5], [6, 6, 6, 6]], 3, [0, 0, 0, 9]);
    let padded = circuit_siblings(&w, 4);
    assert_eq!(padded, vec![[5, 5, 5, 5], [6, 6, 6, 6], [0, 0, 0, 0], [0, 0, 0, 0]]);
    let cut = circuit_siblings(&w, 1);
    assert_eq!(cut, vec![[5, 5, 5, 5]]);
    let ReputationWitness { leaf_index, expected_root, .. } = w;
    assert_eq!((leaf_index, expected_root), (3, [0, 0, 0, 9]));
}

#[test]
fn job_results_for_success_and_failure() {
    let ok = job_result("j1".to_string(), Ok(sample_proof()), 12);
    assert!(ok.verified);
    assert_eq!(ok.public_inputs, vec![5, 6]);
    assert_eq!(ok.proving_time_ms, 12);
    assert!(ok.error.is_none());
    let failed = job_result("j2".to_string(), Err("boom".to_string()), 3);
    assert!(!failed.verified);
    assert_eq!(failed.proof.circuit_id, "error");
    assert_eq!(failed.error.as_deref(), Some("boom"));
    let cancelled = cancelled_result("j3".to_string(), "channel closed");
    assert_eq!(cancelled.error.as_deref(), Some("Oneshot cancelado: channel closed"));
    assert_eq!(cancelled.proving_time_ms, 0);
}

#[test]
fn process_job_runs_the_generator() {
    let g = PhysicalConstraintProofGenerator::new(MockBackend {});
    let job = ZkProofJob {
        job_id: "j".to_string(),
        design_hash: "d".to_string(),
        constraint_type: PhysicalConstraintType::MaterialStress,
        parameters: "{}".to_string(),
        sail_query_id: None,
    };
    assert_eq!(process_job(&g, &job).ok().unwrap().circuit_id, "mock");
}

#[test]
fn sail_rows_become_jobs() {
    let rows = vec!["{\"design_hash\":\"abc\",\"x\":1}".to_string(), "{\"x\":2}".to_string(), "not json".to_string()];
    let jobs = sail_jobs(rows.clone(), PhysicalConstraintType::SafetyFactor);
    assert_eq!(jobs.len(), 3);
    assert_eq!(jobs[0].design_hash, "abc");
    assert_eq!(jobs[1].design_hash, "unknown");
    assert_eq!(jobs[2].design_hash, "unknown");
    assert_eq!(jobs[0].parameters, rows[0]);
    assert!(jobs[0].sail_query_id.as_ref().unwrap().starts_with("sail-query-"));
    assert_eq!(jobs[0].job_id.len(), 36);
    assert_ne!(jobs[0].job_id, jobs[1].job_id);
}

#[test]
fn batch_results_keep_job_order() {
    let answered: ZkProofResult = job_result("a".to_string(), Ok(sample_proof()), 1);
    let out = batch_results(vec!["a".to_string(), "b".to_string()], vec![Ok(answered), Err("dropped".to_string())]);
    assert_eq!(out.len(), 2);
    assert_eq!(out[0].job_id, "a");
    assert!(out[0].verified);
    assert_eq!(out[1].job_id, "b");
    assert_eq!(out[1].error.as_deref(), Some("Oneshot cancelado: dropped"));
    assert!(batch_results(vec![], vec![]).is_empty());
}
