use nixpkgs_hashes::extract::{derivation_hashes_from_fields, hashes_for_derivation, parse_derivations, ExtractError};
use nixpkgs_hashes::harvest::{Aggregator, DerivationHashes, HashRecord, Statistic};
use nixpkgs_hashes::json::{member_scalar, JsonScalar};
use nixpkgs_hashes::pipeline::{
    check_status, classify_line, hashes_from_query_output, line_outcome, path_source_step, Dispatch, Dispatcher, ExitState,
    FatalError, LineOutcome, PermitPool, SourceEvent, SourceItem, SourceStep, Tool,
};
use nixpkgs_hashes::timing::{RateReporter, TimingBucket};

fn record(hash: &str, algo: Option<&str>) -> HashRecord {
    HashRecord { hash: hash.to_string(), algo: algo.map(|a| a.to_string()) }
}

fn env_only(h: HashRecord) -> (String, DerivationHashes) {
    ("/nix/store/a.drv".to_string(), DerivationHashes { env: Some(h), outputs: vec![] })
}

fn keys(v: &[HashRecord]) -> Vec<(String, Option<String>)> {
    v.iter().map(|h| (h.hash.clone(), h.algo.clone())).collect()
}

#[test]
fn dedup_same_record_twice_keeps_one() {
    let mut agg = Aggregator::new();
    let batch = vec![env_only(record("abc", Some("sha256"))), env_only(record("abc", Some("sha256")))];
    let (fresh, stat) = agg.absorb_batch(&batch);
    assert_eq!(keys(&fresh), vec![("abc".to_string(), Some("sha256".to_string()))]);
    let Statistic::Progress { drvs, hashes, total_unique } = stat;
    assert_eq!((drvs, hashes, total_unique), (2, 2, 1));
}

#[test]
fn dedup_across_batches() {
    let mut agg = Aggregator::new();
    let (fresh, _) = agg.absorb_batch(&vec![env_only(record("abc", Some("sha256")))]);
    assert_eq!(fresh.len(), 1);
    let (fresh, stat) = agg.absorb_batch(&vec![env_only(record("abc", Some("sha256")))]);
    assert!(fresh.is_empty());
    let Statistic::Progress { drvs, hashes, total_unique } = stat;
    assert_eq!((drvs, hashes, total_unique), (1, 1, 1));
}

#[test]
fn dedup_distinguishes_algorithms() {
    let mut agg = Aggregator::new();
    let batch = vec![
        env_only(record("abc", Some("sha256"))),
        env_only(record("abc", None)),
        env_only(record("abc", Some("sha1"))),
    ];
    let (fresh, stat) = agg.absorb_batch(&batch);
    assert_eq!(fresh.len(), 3);
    assert_eq!(fresh[1].algo, None);
    let Statistic::Progress { total_unique, .. } = stat;
    assert_eq!(total_unique, 3);
    assert_eq!(agg.unique_count(), 3);
}

#[test]
fn aggregator_orders_env_before_outputs() {
    let mut agg = Aggregator::new();
    let d = DerivationHashes {
        env: Some(record("e", None)),
        outputs: vec![
            ("out".to_string(), record("o1", Some("sha256"))),
            ("dev".to_string(), record("e", None)),
            ("doc".to_string(), record("o2", Some("sha512"))),
        ],
    };
    let (fresh, stat) = agg.absorb_batch(&vec![("/nix/store/x.drv".to_string(), d)]);
    assert_eq!(
        keys(&fresh),
        vec![
            ("e".to_string(), None),
            ("o1".to_string(), Some("sha256".to_string())),
            ("o2".to_string(), Some("sha512".to_string())),
        ]
    );
    let Statistic::Progress { drvs, hashes, total_unique } = stat;
    assert_eq!((drvs, hashes, total_unique), (1, 4, 3));
}

#[test]
fn empty_batch_reports_zero() {
    let mut agg = Aggregator::new();
    let (fresh, stat) = agg.absorb_batch(&vec![]);
    assert!(fresh.is_empty());
    let Statistic::Progress { drvs, hashes, total_unique } = stat;
    assert_eq!((drvs, hashes, total_unique), (0, 0, 0));
}

#[test]
fn observe_reports_newness() {
    let mut agg = Aggregator::new();
    assert!(agg.observe(&record("x", None)));
    assert!(!agg.observe(&record("x", None)));
    assert!(agg.observe(&record("x", Some("md5"))));
}

#[test]
fn csv_record_with_algorithm() {
    assert_eq!(record("abc", Some("sha256")).to_csv_record(), "\"abc\", \"sha256\"");
}

#[test]
fn csv_record_without_algorithm() {
    assert_eq!(record("abc", None).to_csv_record(), "\"abc\", null");
}

#[test]
fn with_algo_sets_algorithm() {
    let h = HashRecord::with_algo("xyz".to_string(), "sha1".to_string());
    assert_eq!(h.hash, "xyz");
    assert_eq!(h.algo.as_deref(), Some("sha1"));
}

const DRV: &str = r#"{"env":{"outputHash":"abc","outputHashAlgo":"sha256"},"outputs":{"out":{"hash":"xyz","hashAlgo":"sha256"},"dev":{}}}"#;

#[test]
fn extraction_of_fixed_output_and_outputs() {
    let d = hashes_for_derivation(DRV).unwrap();
    let env = d.env.unwrap();
    assert_eq!((env.hash.as_str(), env.algo.as_deref()), ("abc", Some("sha256")));
    assert_eq!(d.outputs.len(), 1);
    assert_eq!(d.outputs[0].0, "out");
    assert_eq!((d.outputs[0].1.hash.as_str(), d.outputs[0].1.algo.as_deref()), ("xyz", Some("sha256")));
}

#[test]
fn extraction_null_env_algorithm() {
    let d = hashes_for_derivation(r#"{"env":{"outputHash":"h","outputHashAlgo":null},"outputs":{}}"#).unwrap();
    let env = d.env.unwrap();
    assert_eq!((env.hash.as_str(), env.algo), ("h", None));
    assert!(d.outputs.is_empty());
}

#[test]
fn extraction_without_env_hash() {
    let d = hashes_for_derivation(r#"{"env":{"name":"x"},"outputs":{"out":{"path":"/nix/store/x"}}}"#).unwrap();
    assert!(d.env.is_none());
    assert!(d.outputs.is_empty());
}

#[test]
fn extraction_unescapes_strings() {
    let d = hashes_for_derivation(r#"{"outputs":{"out":{"hash":"a\"b","hashAlgo":"sha1"}}}"#).unwrap();
    assert_eq!(d.outputs[0].0, "out");
    assert_eq!(d.outputs[0].1.hash, "a\"b");
}

#[test]
fn extraction_errors() {
    assert_eq!(hashes_for_derivation(r#"{"env":{}}"#).err(), Some(ExtractError::MissingOutputs));
    assert_eq!(hashes_for_derivation(r#"{"outputs":[1]}"#).err(), Some(ExtractError::NotAnObject));
    assert_eq!(
        hashes_for_derivation(r#"{"env":{"outputHash":1},"outputs":{}}"#).err(),
        Some(ExtractError::EnvHash)
    );
    assert_eq!(
        hashes_for_derivation(r#"{"env":{"outputHash":"a","outputHashAlgo":7},"outputs":{}}"#).err(),
        Some(ExtractError::EnvHashAlgo)
    );
    assert_eq!(
        hashes_for_derivation(r#"{"outputs":{"out":{"hash":null}}}"#).err(),
        Some(ExtractError::OutputHash)
    );
    assert_eq!(
        hashes_for_derivation(r#"{"outputs":{"out":{"hash":"a"}}}"#).err(),
        Some(ExtractError::OutputHashAlgo)
    );
}

#[test]
fn fields_build_derivation() {
    let rows = vec![
        ("out".to_string(), JsonScalar::Str("xyz".to_string()), JsonScalar::Str("sha256".to_string())),
        ("dev".to_string(), JsonScalar::Missing, JsonScalar::Missing),
    ];
    let d = derivation_hashes_from_fields(
        JsonScalar::Str("abc".to_string()),
        JsonScalar::Null,
        &rows,
    )
    .unwrap();
    assert_eq!(d.env.unwrap().algo, None);
    assert_eq!(d.outputs.len(), 1);
    assert_eq!(
        derivation_hashes_from_fields(JsonScalar::Null, JsonScalar::Missing, &vec![]).err(),
        Some(ExtractError::EnvHash)
    );
}

#[test]
fn metadata_output_in_text_order() {
    let text = format!(r#"{{"/nix/store/b.drv": {DRV}, "/nix/store/a.drv": {{"outputs":{{}}}}}}"#);
    let b = parse_derivations(&text).unwrap();
    assert_eq!(b.len(), 2);
    assert_eq!(b[0].0, "/nix/store/b.drv");
    assert_eq!(b[1].0, "/nix/store/a.drv");
    assert!(b[1].1.env.is_none());
    assert_eq!(parse_derivations("[]").err(), Some(ExtractError::NotAnObject));
    assert_eq!(
        parse_derivations(r#"{"/nix/store/a.drv": {"env":{}}}"#).err(),
        Some(ExtractError::MissingOutputs)
    );
}

#[test]
fn member_scalar_kinds() {
    let j = r#"{"a":"x","b":null,"c":3}"#;
    assert!(matches!(member_scalar(j, "a"), JsonScalar::Str(s) if s == "x"));
    assert!(matches!(member_scalar(j, "b"), JsonScalar::Null));
    assert!(matches!(member_scalar(j, "c"), JsonScalar::Other));
    assert!(matches!(member_scalar(j, "d"), JsonScalar::Missing));
}

fn launch_sizes(n: usize) -> Vec<usize> {
    let mut d = Dispatcher::new(8);
    let mut sizes = vec![];
    for i in 0..n {
        match d.on_item(SourceItem::Path(format!("/nix/store/{i}.drv"))) {
            Dispatch::Launch(g) => sizes.push(g.len()),
            Dispatch::Wait => {}
            _ => panic!("unexpected request"),
        }
    }
    loop {
        match d.on_item(SourceItem::End) {
            Dispatch::Launch(g) => sizes.push(g.len()),
            Dispatch::Done => break,
            _ => panic!("unexpected request"),
        }
    }
    sizes
}

#[test]
fn group_boundary_exactly_full() {
    assert_eq!(launch_sizes(8), vec![8]);
}

#[test]
fn group_boundary_one_over() {
    assert_eq!(launch_sizes(9), vec![8, 1]);
}

#[test]
fn group_boundary_empty() {
    assert_eq!(launch_sizes(0), Vec::<usize>::new());
}

#[test]
fn groups_keep_path_order() {
    let mut d = Dispatcher::new(2);
    assert!(matches!(d.on_item(SourceItem::Path("a".into())), Dispatch::Wait));
    match d.on_item(SourceItem::Path("b".into())) {
        Dispatch::Launch(g) => assert_eq!(g, vec!["a".to_string(), "b".to_string()]),
        _ => panic!("expected a launch"),
    }
}

#[test]
fn permit_bound() {
    let mut pool = PermitPool::new(3);
    assert!(pool.try_acquire());
    assert!(pool.try_acquire());
    assert!(pool.try_acquire());
    assert!(!pool.try_acquire());
    assert_eq!(pool.outstanding, 3);
    pool.release();
    assert!(pool.try_acquire());
    assert!(!pool.try_acquire());
    assert_eq!(pool.outstanding, 3);
}

#[test]
fn error_line_is_skipped_then_path_produced() {
    let steps: Vec<SourceStep> = [r#"{"error": "evaluation failed", "attr": "x"}"#, r#"{"drvPath": "/nix/store/y.drv", "attr": "y"}"#]
        .iter()
        .map(|l| path_source_step(SourceEvent::Line(l.to_string())))
        .collect();
    assert!(matches!(steps[0], SourceStep::Skip));
    assert!(matches!(&steps[1], SourceStep::Yield(p) if p == "/nix/store/y.drv"));
}

#[test]
fn invalid_line_is_fatal() {
    assert!(matches!(classify_line(r#"{"attr": "x"}"#), LineOutcome::Invalid));
    assert!(matches!(classify_line(r#"{"drvPath": 3}"#), LineOutcome::Invalid));
    assert!(matches!(
        path_source_step(SourceEvent::Line("not json".to_string())),
        SourceStep::Fail(FatalError::Protocol)
    ));
    assert!(matches!(line_outcome(JsonScalar::Missing, true), LineOutcome::Skip));
    assert!(matches!(line_outcome(JsonScalar::Null, false), LineOutcome::Invalid));
}

#[test]
fn error_line_with_other_drv_path_is_skipped() {
    assert!(matches!(line_outcome(JsonScalar::Null, true), LineOutcome::Skip));
    assert!(matches!(line_outcome(JsonScalar::Other, true), LineOutcome::Skip));
    assert!(matches!(
        path_source_step(SourceEvent::Line(r#"{"error": "boom", "drvPath": null}"#.to_string())),
        SourceStep::Skip
    ));
    assert!(matches!(classify_line(r#"{"error": "boom", "drvPath": 7}"#), LineOutcome::Skip));
    assert!(matches!(
        classify_line(r#"{"error": "boom", "drvPath": "/nix/store/z.drv"}"#),
        LineOutcome::Path(p) if p == "/nix/store/z.drv"
    ));
}

#[test]
fn evaluator_exit_statuses() {
    assert!(matches!(path_source_step(SourceEvent::Exited(ExitState::Code(0))), SourceStep::End));
    assert!(matches!(
        path_source_step(SourceEvent::Exited(ExitState::Code(2))),
        SourceStep::Fail(FatalError::Exited { tool: Tool::PathEvaluator, code: 2 })
    ));
    assert_eq!(
        check_status(Tool::MetadataQuery, ExitState::Signal(9)),
        Err(FatalError::Killed { tool: Tool::MetadataQuery, signal: 9 })
    );
    assert_eq!(
        check_status(Tool::MetadataQuery, ExitState::Unknown),
        Err(FatalError::Failed { tool: Tool::MetadataQuery })
    );
    assert_eq!(check_status(Tool::MetadataQuery, ExitState::Code(0)), Ok(()));
}

#[test]
fn fatal_exit_after_paths_halts_dispatch() {
    let mut d = Dispatcher::new(8);
    let mut launched = vec![];
    for i in 0..10 {
        let step = path_source_step(SourceEvent::Line(format!(r#"{{"drvPath": "/nix/store/{i}.drv"}}"#)));
        let SourceStep::Yield(p) = step else { panic!("expected a path") };
        if let Dispatch::Launch(g) = d.on_item(SourceItem::Path(p)) {
            launched.push(g);
        }
    }
    let SourceStep::Fail(e) = path_source_step(SourceEvent::Exited(ExitState::Code(1))) else {
        panic!("expected a failure")
    };
    assert!(matches!(d.on_item(SourceItem::Failed(e)), Dispatch::Abort(FatalError::Exited { code: 1, .. })));
    assert!(matches!(d.on_item(SourceItem::Path("/nix/store/late.drv".into())), Dispatch::Done));
    assert!(matches!(d.on_item(SourceItem::End), Dispatch::Done));
    assert_eq!(launched.len(), 1);
    assert_eq!(launched[0].len(), 8);
}

const SEC: u64 = 1_000_000_000;

#[test]
fn rate_estimator_boundary_crossing() {
    let mut b = TimingBucket::<1000>::new(0);
    b.update(0, 950);
    b.update(SEC, 1050);
    assert_eq!(b.since_mark, SEC / 2);
    assert_eq!(b.since_start, SEC);
    assert_eq!(b.marks_passed(), 1);
    assert_eq!(b.average_rate(), Some(SEC / 2));
    assert_eq!(b.average_rate_predictive(), Some((SEC as u128) * 1000 / 1050));
}

#[test]
fn rate_estimator_before_marks() {
    let mut b = TimingBucket::<1000>::new(5);
    assert_eq!(b.average_rate(), None);
    assert_eq!(b.average_rate_predictive(), None);
    b.update(5 + 2 * SEC, 500);
    assert_eq!(b.marks_passed(), 0);
    assert_eq!(b.average_rate(), None);
    assert_eq!(b.since_mark, 2 * SEC);
    assert_eq!(b.average_rate_predictive(), Some(4 * SEC as u128));
}

#[test]
fn rate_estimator_crosses_several_marks() {
    let mut b = TimingBucket::<1000>::new(0);
    b.update(4 * SEC, 2500);
    assert_eq!(b.marks_passed(), 2);
    assert_eq!(b.since_mark, 4 * SEC - 4 * SEC * 2000 / 2500);
    assert_eq!(b.average_rate(), Some((4 * SEC - b.since_mark) / 2));
}

#[test]
fn reporter_accumulates() {
    let mut r = RateReporter::new(0);
    r.on_progress(8, 1200, SEC);
    r.on_progress(8, 10, 2 * SEC);
    assert_eq!((r.total_drvs, r.total_hashes), (16, 1210));
    assert_eq!(r.per_1k.last_total, 1210);
    assert_eq!(r.per_10k.average_rate(), None);
    assert_eq!(r.per_1k.marks_passed(), 1);
}

#[test]
fn query_output_is_read_after_a_good_exit() {
    let text = format!(r#"{{"/nix/store/b.drv": {DRV}}}"#);
    let b = hashes_from_query_output(ExitState::Code(0), &text).unwrap();
    assert_eq!(b.len(), 1);
    assert_eq!(b[0].1.outputs.len(), 1);
}

#[test]
fn query_failures_are_fatal() {
    assert_eq!(
        hashes_from_query_output(ExitState::Code(1), "{}").err(),
        Some(FatalError::Exited { tool: Tool::MetadataQuery, code: 1 })
    );
    assert_eq!(
        hashes_from_query_output(ExitState::Code(0), "not json").err(),
        Some(FatalError::Metadata(ExtractError::NotAnObject))
    );
    assert_eq!(
        hashes_from_query_output(ExitState::Code(0), r#"{"/nix/store/a.drv": {}}"#).err(),
        Some(FatalError::Metadata(ExtractError::MissingOutputs))
    );
}
