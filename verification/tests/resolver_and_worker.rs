use pg_hierarchy_bench::config::BenchmarkConfig;
use pg_hierarchy_bench::errors::BenchError;
use pg_hierarchy_bench::orchestrator::{merge_results, report};
use pg_hierarchy_bench::record::MantaObject;
use pg_hierarchy_bench::resolver::{parse_mode, resolve, HierarchyTarget, Mode};
use pg_hierarchy_bench::rng::RandomSource;
use pg_hierarchy_bench::teardown::teardown_statements;
use pg_hierarchy_bench::worker::{WorkerResult, WorkerTask};
use std::str::FromStr;

#[test]
fn baseline_always_resolves_to_the_same_target() {
    let mut rng = RandomSource::from_entropy();
    let t1 = resolve(Mode::Baseline, 0, &mut rng).unwrap();
    let t2 = resolve(Mode::Baseline, 10_000, &mut rng).unwrap();
    assert_eq!(t1, t2);
    assert_eq!(t1.relation_name(), "manta_bucket_object");
}

#[test]
fn unit_modes_resolve_inside_the_unit_range() {
    let mut rng = RandomSource::from_entropy();
    for _ in 0..200 {
        let t = resolve(Mode::Table, 37, &mut rng).unwrap();
        assert_eq!(t.mode, Mode::Table);
        assert!(t.unit < 37);
        let name = t.relation_name();
        assert!(name.starts_with("manta_bucket_object_"));
    }
}

#[test]
fn zero_units_fail_resolution_before_any_worker() {
    let mut rng = RandomSource::from_entropy();
    assert_eq!(
        resolve(Mode::Table, 0, &mut rng),
        Err(BenchError::InvalidConfiguration)
    );
    assert_eq!(
        resolve(Mode::Schema, 0, &mut rng),
        Err(BenchError::InvalidConfiguration)
    );
    let config = BenchmarkConfig {
        url: "postgresql://localhost:5432/test".to_string(),
        worker_count: 4,
        iterations: 10,
        mode: Mode::Table,
        unit_count: 0,
    };
    assert_eq!(config.validate(), Err(BenchError::InvalidConfiguration));
}

#[test]
fn relation_names_follow_the_mode() {
    let table = HierarchyTarget { mode: Mode::Table, unit: 7 };
    assert_eq!(table.relation_name(), "manta_bucket_object_7");
    let database = HierarchyTarget { mode: Mode::Database, unit: 9999 };
    assert_eq!(database.relation_name(), "manta_bucket_object_9999");
    let schema = HierarchyTarget { mode: Mode::Schema, unit: 120 };
    assert_eq!(schema.relation_name(), "manta_bucket_120.manta_bucket_object");
    let baseline = HierarchyTarget { mode: Mode::Baseline, unit: 55 };
    assert_eq!(baseline.relation_name(), "manta_bucket_object");
}

#[test]
fn mode_names_parse_exactly() {
    assert_eq!(parse_mode("baseline"), Ok(Mode::Baseline));
    assert_eq!(parse_mode("database"), Ok(Mode::Database));
    assert_eq!(parse_mode("schema"), Ok(Mode::Schema));
    assert_eq!(parse_mode("table"), Ok(Mode::Table));
    assert_eq!(parse_mode("Table"), Err(BenchError::InvalidConfiguration));
    assert_eq!(parse_mode(""), Err(BenchError::InvalidConfiguration));
    assert_eq!(Mode::from_str("schema"), Ok(Mode::Schema));
    assert_eq!(Mode::from_str("nonsense"), Err("invalid mode"));
}

#[test]
fn generated_records_carry_the_fixed_fields() {
    let mut rng = RandomSource::from_entropy();
    let o = MantaObject::new(&mut rng);
    assert_eq!(o.name.len(), 10);
    assert!(o.name.chars().all(|c| c.is_ascii_alphanumeric()));
    assert_eq!(o.vnode, 1000);
    assert_eq!(o.content_length, 1024);
    assert_eq!(o.content_md5, "deadbeef");
    assert_eq!(o.content_type, "text/plain");
    assert_eq!(
        o.headers.get("m-custom-header-1"),
        Some(&Some("header-value1".to_string()))
    );
    assert_eq!(
        o.sharks.get("us-east-1"),
        Some(&Some("1.stor.us-east.joyent.com".to_string()))
    );
    assert_eq!(o.headers.len(), 2);
    assert_eq!(o.sharks.len(), 2);
}

#[test]
fn seeded_workers_generate_reproducible_workloads() {
    // The same seed replays the same records and the same resolved target.
    let mut rng1 = RandomSource::from_seed(42);
    let mut rng2 = RandomSource::from_seed(42);
    let t1 = resolve(Mode::Schema, 5000, &mut rng1).unwrap();
    let t2 = resolve(Mode::Schema, 5000, &mut rng2).unwrap();
    assert_eq!(t1, t2);
    for _ in 0..10 {
        let a = MantaObject::new(&mut rng1);
        let b = MantaObject::new(&mut rng2);
        assert_eq!(a.name, b.name);
        assert_eq!(a.id, b.id);
        assert_eq!(a.owner, b.owner);
        assert_eq!(a.bucket_id, b.bucket_id);
    }
    // A different seed diverges.
    let mut rng3 = RandomSource::from_seed(43);
    let a = MantaObject::new(&mut rng1);
    let b = MantaObject::new(&mut rng3);
    assert_ne!((a.name.clone(), a.id), (b.name.clone(), b.id));
}

/// Drives one worker to completion with synthetic latencies.
fn run_worker(iterations: u32, write_ns: u64, read_ns: u64) -> Result<WorkerResult, BenchError> {
    let mut rng = RandomSource::from_entropy();
    let target = HierarchyTarget { mode: Mode::Baseline, unit: 0 };
    let mut task = WorkerTask::new(iterations, target);
    while !task.is_finished() {
        task.begin_iteration(&mut rng);
        let record = task.current_record();
        assert_eq!(record.name.len(), 10);
        task.complete_write(write_ns);
        task.complete_read(read_ns);
    }
    task.into_result()
}

#[test]
fn four_baseline_workers_merge_to_forty_samples() {
    // Four workers, ten iterations each: exactly 40 write and 40 read
    // samples, and the median lies between the extremes of what was fed in.
    let durations = [(1_000u64, 2_000u64), (5_000, 1_500), (800, 9_000), (20_000, 4_000)];
    let mut results = Vec::new();
    for (w, r) in durations {
        results.push(run_worker(10, w, r));
    }
    let outcome = merge_results(results);
    assert_eq!(outcome.succeeded, 4);
    assert_eq!(outcome.failed, 0);
    assert_eq!(outcome.write_hist.total_count(), 40);
    assert_eq!(outcome.read_hist.total_count(), 40);
    let w50 = outcome.write_hist.percentile(500).unwrap();
    assert!(w50 >= 800 && w50 <= 20_000 + 20_000 / 1024 + 1);
    let r50 = outcome.read_hist.percentile(500).unwrap();
    assert!(r50 >= 1_500 && r50 <= 9_000 + 9_000 / 1024 + 1);
    let rep = report(&outcome).unwrap();
    assert_eq!(rep.failed_workers, 0);
    assert_eq!(rep.succeeded_workers, 4);
    assert_eq!(rep.write.p50, w50);
}

#[test]
fn one_failed_worker_leaves_thirty_samples_and_a_failure_count() {
    // One of four workers loses its connection before its first iteration.
    let mut results = Vec::new();
    for _ in 0..3 {
        results.push(run_worker(10, 1_000, 2_000));
    }
    let target = HierarchyTarget { mode: Mode::Baseline, unit: 0 };
    let mut broken = WorkerTask::new(10, target);
    broken.fail(BenchError::Connection);
    results.push(broken.into_result());
    assert!(matches!(results[3], Err(BenchError::Connection)));
    let outcome = merge_results(results);
    assert_eq!(outcome.succeeded, 3);
    assert_eq!(outcome.failed, 1);
    assert_eq!(outcome.write_hist.total_count(), 30);
    assert_eq!(outcome.read_hist.total_count(), 30);
    let rep = report(&outcome).unwrap();
    assert_eq!(rep.failed_workers, 1);
    assert_eq!(rep.succeeded_workers, 3);
}

#[test]
fn a_run_with_no_survivors_reports_no_results() {
    let target = HierarchyTarget { mode: Mode::Baseline, unit: 0 };
    let mut results = Vec::new();
    for _ in 0..2 {
        let mut broken = WorkerTask::new(10, target);
        broken.fail(BenchError::Transaction);
        results.push(broken.into_result());
    }
    let outcome = merge_results(results);
    assert_eq!(outcome.succeeded, 0);
    assert_eq!(outcome.failed, 2);
    assert_eq!(report(&outcome), Err(BenchError::NoResults));
}

#[test]
fn worker_statements_name_the_resolved_relation() {
    let target = HierarchyTarget { mode: Mode::Table, unit: 3 };
    let task = WorkerTask::new(1, target);
    assert_eq!(
        task.insert_sql(),
        "INSERT INTO manta_bucket_object_3 (id, owner, bucket_id, name, vnode, \
         content_length, content_md5, content_type, headers, sharks) \
         VALUES ($1, $2, $3, $4, $5, $6, $7, $8, $9, $10)"
    );
    assert_eq!(
        task.lookup_sql(),
        "SELECT * FROM manta_bucket_object_3 WHERE owner = $1 AND bucket_id = $2 AND name = $3"
    );
}

#[test]
fn teardown_is_scoped_to_the_mode_that_ran() {
    let baseline = teardown_statements(Mode::Baseline, 10_000);
    assert_eq!(baseline, vec!["DELETE FROM manta_bucket_object".to_string()]);
    let tables = teardown_statements(Mode::Table, 3);
    assert_eq!(
        tables,
        vec![
            "DELETE FROM manta_bucket_object_0".to_string(),
            "DELETE FROM manta_bucket_object_1".to_string(),
            "DELETE FROM manta_bucket_object_2".to_string(),
        ]
    );
    let schemas = teardown_statements(Mode::Schema, 2);
    assert_eq!(
        schemas,
        vec![
            "DELETE FROM manta_bucket_0.manta_bucket_object".to_string(),
            "DELETE FROM manta_bucket_1.manta_bucket_object".to_string(),
        ]
    );
    // Running the generator twice yields the same statements: teardown is
    // deterministic, and row deletion itself is idempotent.
    assert_eq!(teardown_statements(Mode::Table, 3), tables);
}

#[test]
fn a_worker_with_zero_iterations_finishes_empty() {
    let target = HierarchyTarget { mode: Mode::Baseline, unit: 0 };
    let task = WorkerTask::new(0, target);
    assert!(task.is_finished());
    let result = task.into_result().unwrap();
    assert_eq!(result.read_hist.total_count(), 0);
    assert_eq!(result.write_hist.total_count(), 0);
}

#[test]
fn survivors_without_samples_report_an_empty_histogram() {
    // Workers that succeed with zero iterations leave nothing to summarize.
    let mut results = Vec::new();
    for _ in 0..2 {
        results.push(run_worker(0, 1, 1));
    }
    let outcome = merge_results(results);
    assert_eq!(outcome.succeeded, 2);
    assert_eq!(outcome.failed, 0);
    assert_eq!(report(&outcome), Err(BenchError::EmptyHistogram));
}
