use zk_email::circuit::{CircuitError, RegexSha2Base64Config};
use zk_email::pattern::{MatchError, StatePair, SubstrDef, Transition};
use zk_email::pipeline::{
    aggregate, downsize_param, gen_keys, gen_param, prove, verify, CircuitShape, PipelineError,
};

fn any_text_table() -> Vec<Transition> {
    (0u16..256).map(|c| Transition { from: 0, byte: c as u8, to: 0 }).collect()
}

fn config(capacity: usize) -> RegexSha2Base64Config {
    let mut c = RegexSha2Base64Config::construct(capacity, 0);
    c.load(&any_text_table(), &[0]);
    c
}

fn defs(max_length: usize) -> Vec<SubstrDef> {
    vec![SubstrDef {
        max_length,
        min_position: 0,
        max_position: 127,
        transitions: vec![StatePair { from: 0, to: 0 }],
    }]
}

fn subs() -> Vec<Vec<u8>> {
    vec![b"alice".to_vec()]
}

const INPUT: &[u8] = b"From: alice@zkemail.com\r\n";

fn app_shape(capacity: usize, degree: u32) -> CircuitShape {
    CircuitShape::of_config(&config(capacity), &defs(32), degree)
}

fn agg_shape() -> CircuitShape {
    CircuitShape::of_config(&config(0), &[], 22)
}

#[test]
fn downsizing_params() {
    let p = gen_param(22);
    assert_eq!(p.degree, 22);
    assert_eq!(downsize_param(&p, 13).unwrap().degree, 13);
    assert_eq!(downsize_param(&p, 22).unwrap().degree, 22);
    assert!(matches!(downsize_param(&p, 23), Err(PipelineError::DegreeTooLarge)));
}

#[test]
fn downsized_params_fail_at_keygen() {
    let p = downsize_param(&gen_param(22), 13).unwrap();
    assert!(matches!(gen_keys(&p, &app_shape(128, 14)), Err(PipelineError::ParamsTooSmall)));
    assert!(gen_keys(&p, &app_shape(128, 13)).is_ok());
}

#[test]
fn proof_verifies_against_its_keys() {
    let (pk, vk) = gen_keys(&gen_param(13), &app_shape(128, 13)).unwrap();
    let proof = prove(&pk, &config(128), &defs(32), INPUT, &subs(), &vec![7, 9]).unwrap();
    assert!(verify(&vk, &proof, &vec![7, 9]));
    assert!(!verify(&vk, &proof, &vec![7, 8]));
}

#[test]
fn proving_unsatisfiable_witness_fails() {
    let (pk, _) = gen_keys(&gen_param(13), &app_shape(128, 13)).unwrap();
    let r = prove(&pk, &config(128), &defs(32), b"From: bob\r\n", &subs(), &vec![]);
    assert!(matches!(
        r,
        Err(PipelineError::Unsatisfiable(CircuitError::Match(MatchError::NotFound)))
    ));
}

#[test]
fn proving_with_other_shape_is_refused() {
    let (pk, _) = gen_keys(&gen_param(13), &app_shape(128, 13)).unwrap();
    let other_capacity = prove(&pk, &config(64), &defs(32), INPUT, &subs(), &vec![]);
    assert!(matches!(other_capacity, Err(PipelineError::ShapeMismatch)));
    let other_patterns = prove(&pk, &config(128), &defs(16), INPUT, &subs(), &vec![]);
    assert!(matches!(other_patterns, Err(PipelineError::ShapeMismatch)));
    let mut other_tables = RegexSha2Base64Config::construct(128, 0);
    let mut table = any_text_table();
    table.reverse();
    other_tables.load(&table, &[0]);
    let r = prove(&pk, &other_tables, &defs(32), INPUT, &subs(), &vec![]);
    assert!(matches!(r, Err(PipelineError::ShapeMismatch)));
    let mut other_accepting = RegexSha2Base64Config::construct(128, 0);
    other_accepting.load(&any_text_table(), &[0, 1]);
    let r2 = prove(&pk, &other_accepting, &defs(32), INPUT, &subs(), &vec![]);
    assert!(matches!(r2, Err(PipelineError::ShapeMismatch)));
}

#[test]
fn aggregation_of_compatible_proofs() {
    let p = gen_param(22);
    let (pk, vk) = gen_keys(&p, &app_shape(128, 13)).unwrap();
    let (agg_pk, agg_vk) = gen_keys(&p, &agg_shape()).unwrap();
    for k in 1..4usize {
        let proofs: Vec<_> = (0..k)
            .map(|i| prove(&pk, &config(128), &defs(32), INPUT, &subs(), &vec![i as u64]).unwrap())
            .collect();
        let agg = aggregate(&agg_pk, &vk, &proofs, &vec![42]).unwrap();
        assert_eq!(agg.inner_count, k);
        assert!(verify(&agg_vk, &agg, &vec![42]));
        assert!(!verify(&vk, &agg, &vec![42]));
    }
}

#[test]
fn aggregation_refuses_mixed_or_empty() {
    let p = gen_param(22);
    let (pk, vk) = gen_keys(&p, &app_shape(128, 13)).unwrap();
    let mut other_tables = RegexSha2Base64Config::construct(128, 0);
    let mut table = any_text_table();
    table.reverse();
    other_tables.load(&table, &[0]);
    let (pk2, _) = gen_keys(&p, &CircuitShape::of_config(&other_tables, &defs(32), 13)).unwrap();
    let (agg_pk, _) = gen_keys(&p, &agg_shape()).unwrap();
    let good = prove(&pk, &config(128), &defs(32), INPUT, &subs(), &vec![]).unwrap();
    let bad = prove(&pk2, &other_tables, &defs(32), INPUT, &subs(), &vec![]).unwrap();
    let mixed = vec![good, bad];
    assert!(matches!(
        aggregate(&agg_pk, &vk, &mixed, &vec![]),
        Err(PipelineError::AggregationIncompatible)
    ));
    assert!(matches!(aggregate(&agg_pk, &vk, &[], &vec![]), Err(PipelineError::NoProofs)));
}
