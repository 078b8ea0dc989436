use pg_hierarchy_bench::contention::{
    batch_plan, bucketed_update_sql, choose_bucket, person_record, person_teardown_statements,
    single_cell_update_sql, ContentionStrategy, ContentionTask,
};
use pg_hierarchy_bench::errors::BenchError;
use pg_hierarchy_bench::orchestrator::merge_results;
use pg_hierarchy_bench::rng::RandomSource;
use pg_hierarchy_bench::text::u32_to_dec;

#[test]
fn decimal_rendering_matches_the_standard_form() {
    assert_eq!(u32_to_dec(0), "0");
    assert_eq!(u32_to_dec(7), "7");
    assert_eq!(u32_to_dec(10), "10");
    assert_eq!(u32_to_dec(12345), "12345");
    assert_eq!(u32_to_dec(u32::MAX), "4294967295");
}

#[test]
fn batch_plans_cover_every_insert() {
    assert_eq!(batch_plan(10, 3), vec![3, 3, 3, 1]);
    assert_eq!(batch_plan(10, 5), vec![5, 5]);
    assert_eq!(batch_plan(4, 100), vec![4]);
    assert_eq!(batch_plan(0, 5), Vec::<u32>::new());
    let plan = batch_plan(10_000, 100);
    assert_eq!(plan.len(), 100);
    assert_eq!(plan.iter().map(|&b| b as u64).sum::<u64>(), 10_000);
}

#[test]
fn bucket_choice_stays_in_range_or_rejects_the_config() {
    let mut rng = RandomSource::from_entropy();
    for _ in 0..100 {
        let b = choose_bucket(&mut rng, 100).unwrap();
        assert!((1..100).contains(&b));
    }
    assert_eq!(choose_bucket(&mut rng, 1), Err(BenchError::InvalidConfiguration));
    assert_eq!(choose_bucket(&mut rng, 0), Err(BenchError::InvalidConfiguration));
}

#[test]
fn person_rows_carry_the_fixed_name_and_filler() {
    let mut rng = RandomSource::from_entropy();
    let p = person_record(&mut rng);
    assert_eq!(p.name, "Steven");
    assert_eq!(p.data.len(), 999);
    assert!(p.data.chars().all(|c| c == 'a'));
}

#[test]
fn contention_statements_match_the_schema() {
    assert_eq!(
        single_cell_update_sql(),
        "INSERT INTO person_count (name, count) VALUES ($1, 1) ON CONFLICT (name) \
         DO UPDATE SET count = person_count.count + 1 WHERE person_count.name = $1"
    );
    assert!(bucketed_update_sql().contains("person_count.bucket = $2"));
    assert_eq!(
        person_teardown_statements(),
        vec!["DELETE FROM person;".to_string(), "DELETE FROM person_count;".to_string()]
    );
}

#[test]
fn a_sharded_run_needs_at_least_two_buckets() {
    assert!(matches!(
        ContentionTask::new(10, ContentionStrategy::Bucketed, 1),
        Err(BenchError::InvalidConfiguration)
    ));
    assert!(ContentionTask::new(10, ContentionStrategy::Bucketed, 2).is_ok());
    assert!(ContentionTask::new(10, ContentionStrategy::SingleCell, 0).is_ok());
}

#[test]
fn contention_workers_measure_one_read_and_one_write_per_iteration() {
    let mut rng = RandomSource::from_entropy();
    let mut results = Vec::new();
    for _ in 0..3 {
        let mut task = ContentionTask::new(5, ContentionStrategy::Bucketed, 100).unwrap();
        while !task.is_finished() {
            task.begin_iteration(&mut rng);
            assert_eq!(task.current_person().name, "Steven");
            assert!(task.read_sql().starts_with("SELECT sum(count)"));
            task.complete_read(1_000, &mut rng);
            let bucket = task.current_bucket();
            assert!((1..100).contains(&bucket));
            assert!(task.write_sql().contains("bucket"));
            task.complete_write(3_000);
        }
        results.push(task.into_result());
    }
    let outcome = merge_results(results);
    assert_eq!(outcome.succeeded, 3);
    assert_eq!(outcome.read_hist.total_count(), 15);
    assert_eq!(outcome.write_hist.total_count(), 15);
}

#[test]
fn a_failed_contention_worker_reports_its_error() {
    let mut rng = RandomSource::from_entropy();
    let mut task = ContentionTask::new(5, ContentionStrategy::SingleCell, 0).unwrap();
    task.begin_iteration(&mut rng);
    assert!(task.read_sql().starts_with("SELECT count"));
    task.complete_read(500, &mut rng);
    task.fail(BenchError::Transaction);
    assert!(task.is_finished());
    assert_eq!(task.into_result().err(), Some(BenchError::Transaction));
}
