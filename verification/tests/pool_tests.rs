use fuzzcheck::args::{
    simplest_input_file, CommandLineArguments, FuzzerCommand, command_line_arguments_string,
};
use fuzzcheck::pool::{AndPool, CorpusDelta, Either, Pool, UnitPool, UnitPoolIndex};
use fuzzcheck::sensors::{AndSensor, ArrayOfCounters, Sensor};
use fuzzcheck::simplest_to_activate_counter_pool::SimplestToActivateCounterPool;
use fuzzcheck::stats::{AndStats, CSVField, EmptyStats, Stats};

#[test]
fn unit_pool_holds_exactly_one_case() {
    let mut pool: UnitPool<u8> = UnitPool::new(42);
    assert_eq!(pool.len(), 1);
    let idx = pool.get_random_index().unwrap();
    assert_eq!(*pool.get(idx), 42);
    let deltas: Vec<CorpusDelta<u8, UnitPoolIndex>> =
        pool.process(Either::Right(&7), 8, &());
    assert!(deltas.is_empty());
    assert_eq!(*pool.get(UnitPoolIndex), 42);
    assert!(pool.retrieve_after_processing(UnitPoolIndex, 0).is_some());
}

#[test]
fn unit_pool_never_selects_a_dead_end_again() {
    let mut pool: UnitPool<u8> = UnitPool::new(3);
    let idx = pool.get_random_index().unwrap();
    pool.mark_test_case_as_dead_end(idx);
    assert!(pool.get_random_index().is_none());
    // The case itself stays accessible.
    assert_eq!(*pool.get(UnitPoolIndex), 3);
    assert_eq!(pool.len(), 1);
}

#[test]
fn and_pool_length_is_the_sum_of_its_parts() {
    let pool = AndPool {
        p1: UnitPool::new(1u8),
        p2: UnitPool::new(2u8),
        percent_choose_first: 50,
        rng: fastrand::Rng::new(),
    };
    assert_eq!(pool.len(), pool.p1.len() + pool.p2.len());
    assert_eq!(pool.len(), 2);
}

#[test]
fn and_pool_random_index_is_immediately_usable() {
    let pool = AndPool {
        p1: UnitPool::new(10u8),
        p2: UnitPool::new(20u8),
        percent_choose_first: 50,
        rng: fastrand::Rng::new(),
    };
    for _ in 0..100 {
        let idx = pool.get_random_index().unwrap();
        let v = *pool.get(idx);
        assert!(v == 10 || v == 20);
    }
}

#[test]
fn and_pool_prefers_the_first_pool_with_full_bias() {
    let pool = AndPool {
        p1: UnitPool::new(10u8),
        p2: UnitPool::new(20u8),
        percent_choose_first: 100,
        rng: fastrand::Rng::new(),
    };
    for _ in 0..50 {
        let idx = pool.get_random_index().unwrap();
        assert_eq!(*pool.get(idx), 10);
    }
}

#[test]
fn and_pool_falls_back_to_the_other_pool() {
    let mut pool = AndPool {
        p1: UnitPool::new(10u8),
        p2: UnitPool::new(20u8),
        percent_choose_first: 100,
        rng: fastrand::Rng::new(),
    };
    // With the only case of the favored pool dead-ended, sampling falls
    // back to the second pool.
    pool.p1.mark_test_case_as_dead_end(UnitPoolIndex);
    for _ in 0..50 {
        let idx = pool.get_random_index().unwrap();
        assert_eq!(*pool.get(idx), 20);
    }
}

#[test]
fn and_pool_process_feeds_both_subpools() {
    let mut pool = AndPool {
        p1: UnitPool::new(10u8),
        p2: UnitPool::new(20u8),
        percent_choose_first: 50,
        rng: fastrand::Rng::new(),
    };
    let deltas = pool.process(Either::Right(&5), 8, &((), ()));
    assert!(deltas.is_empty());
    let idx = pool.get_random_index().unwrap();
    let deltas = pool.process(Either::Left(idx), 8, &((), ()));
    assert!(deltas.is_empty());
    let deltas = pool.minify(1);
    assert!(deltas.is_empty());
}

#[test]
fn counter_pool_keeps_the_simplest_case_per_counter() {
    let mut pool: SimplestToActivateCounterPool<u8> =
        SimplestToActivateCounterPool::new(2, fastrand::Rng::new());
    assert_eq!(pool.len(), 0);
    assert!(pool.get_random_index().is_none());

    // A first case activates counter 0.
    let deltas = pool.process(Either::Right(&100), 10, &vec![(0, 1)]);
    assert_eq!(deltas.len(), 1);
    let first_idx = deltas[0].add.as_ref().unwrap().1;
    assert_eq!(deltas[0].add.as_ref().unwrap().0, 100);
    assert!(deltas[0].remove.is_empty());
    assert_eq!(pool.len(), 1);

    // A more complex case on the same counter is not admitted.
    let deltas = pool.process(Either::Right(&200), 20, &vec![(0, 1)]);
    assert!(deltas.is_empty());
    assert_eq!(pool.len(), 1);

    // A simpler case takes the counter over and evicts the incumbent.
    let deltas = pool.process(Either::Right(&50), 5, &vec![(0, 1)]);
    assert_eq!(deltas.len(), 1);
    assert_eq!(deltas[0].remove, vec![first_idx]);
    assert_eq!(pool.len(), 1);
    let idx = pool.get_random_index().unwrap();
    assert_eq!(*pool.get(idx), 50);
}

#[test]
fn counter_pool_settles_with_one_case_per_counter() {
    let mut pool: SimplestToActivateCounterPool<u8> =
        SimplestToActivateCounterPool::new(2, fastrand::Rng::new());
    let deltas = pool.process(Either::Right(&1), 3, &vec![(0, 1)]);
    assert_eq!(deltas.len(), 1);
    let deltas = pool.process(Either::Right(&2), 7, &vec![(1, 4)]);
    assert_eq!(deltas.len(), 1);
    assert_eq!(pool.len(), 2);
    // A case covering both counters but more complex than either owner
    // changes nothing.
    let deltas = pool.process(Either::Right(&3), 9, &vec![(0, 1), (1, 1)]);
    assert!(deltas.is_empty());
    assert_eq!(pool.len(), 2);
    // A case simpler than both owners takes over both counters at once.
    let deltas = pool.process(Either::Right(&4), 1, &vec![(0, 1), (1, 1)]);
    assert_eq!(deltas.len(), 1);
    assert_eq!(deltas[0].remove.len(), 2);
    assert_eq!(pool.len(), 1);
}

#[test]
fn counter_pool_dead_end_is_not_selected() {
    let mut pool: SimplestToActivateCounterPool<u8> =
        SimplestToActivateCounterPool::new(1, fastrand::Rng::new());
    pool.process(Either::Right(&9), 4, &vec![(0, 2)]);
    let idx = pool.get_random_index().unwrap();
    pool.mark_test_case_as_dead_end(idx);
    assert!(pool.get_random_index().is_none());
    assert_eq!(*pool.get(idx), 9);
}

#[test]
fn pools_replace_a_retained_case_in_place() {
    let mut unit: UnitPool<u8> = UnitPool::new(5);
    let idx = unit.get_random_index().unwrap();
    let previous = unit.replace(idx, 9);
    assert_eq!(previous, 5);
    assert_eq!(*unit.get(idx), 9);

    let mut pool: SimplestToActivateCounterPool<u8> =
        SimplestToActivateCounterPool::new(1, fastrand::Rng::new());
    pool.process(Either::Right(&7), 3, &vec![(0, 1)]);
    let idx = pool.get_random_index().unwrap();
    let previous = pool.replace(idx, 8);
    assert_eq!(previous, 7);
    assert_eq!(*pool.get(idx), 8);
    assert_eq!(pool.len(), 1);

    let mut and_pool = AndPool {
        p1: UnitPool::new(1u8),
        p2: UnitPool::new(2u8),
        percent_choose_first: 100,
        rng: fastrand::Rng::new(),
    };
    let idx = and_pool.get_random_index().unwrap();
    let previous = and_pool.replace(idx, 3);
    assert_eq!(previous, 1);
    assert_eq!(*and_pool.get(idx), 3);
}

#[test]
fn counter_pool_minify_shrinks_to_the_target() {
    let mut pool: SimplestToActivateCounterPool<u8> =
        SimplestToActivateCounterPool::new(3, fastrand::Rng::new());
    pool.process(Either::Right(&1), 3, &vec![(0, 1)]);
    pool.process(Either::Right(&2), 4, &vec![(1, 1)]);
    pool.process(Either::Right(&3), 5, &vec![(2, 1)]);
    assert_eq!(pool.len(), 3);
    // Nothing shrinks while the corpus is within the target.
    let deltas = pool.minify(3);
    assert!(deltas.is_empty());
    assert_eq!(pool.len(), 3);
    // Shrinking to one keeps exactly one case and reports the rest removed.
    let deltas = pool.minify(1);
    assert_eq!(deltas.len(), 1);
    assert!(deltas[0].add.is_none());
    assert_eq!(deltas[0].remove.len(), 2);
    assert_eq!(pool.len(), 1);
    // The youngest cases are given up first, so the oldest one survives.
    let idx = pool.get_random_index().unwrap();
    assert_eq!(*pool.get(idx), 1);
}

#[test]
fn array_of_counters_yields_nonzero_observations() {
    let mut sensor = ArrayOfCounters::new(vec![0; 4]);
    sensor.start_recording();
    sensor.set_counter(1, 5);
    sensor.set_counter(3, 7);
    sensor.stop_recording();
    let obs = sensor.iterate_over_observations();
    assert_eq!(obs, vec![(1, 5), (3, 7)]);
    // Recording again clears the counters.
    sensor.start_recording();
    sensor.stop_recording();
    let obs = sensor.iterate_over_observations();
    assert!(obs.is_empty());
    assert!(sensor.serialized().is_empty());
}

#[test]
fn and_sensor_pairs_the_observations() {
    let mut sensor = AndSensor {
        s1: ArrayOfCounters::new(vec![0; 2]),
        s2: ArrayOfCounters::new(vec![0; 2]),
    };
    sensor.start_recording();
    sensor.s1.set_counter(0, 1);
    sensor.s2.set_counter(1, 9);
    sensor.stop_recording();
    let (o1, o2) = sensor.iterate_over_observations();
    assert_eq!(o1, vec![(0, 1)]);
    assert_eq!(o2, vec![(1, 9)]);
}

#[test]
fn stats_display_and_csv() {
    let empty = EmptyStats;
    assert_eq!(empty.display(), "");
    assert!(empty.csv_headers().is_empty());
    assert!(empty.to_csv_record().is_empty());
    let and = AndStats { stats1: EmptyStats, stats2: EmptyStats };
    assert_eq!(and.display(), "\t");
    assert!(matches!(CSVField::Integer(3), CSVField::Integer(3)));
}

#[test]
fn command_line_arguments_render_with_all_paths() {
    let args = CommandLineArguments {
        command: FuzzerCommand::Fuzz,
        input_file: Some("seed.json".to_string()),
        corpus_in: Some("corpus".to_string()),
        corpus_out: Some("corpus".to_string()),
        artifacts_folder: Some("artifacts".to_string()),
        corpus_size: 100,
        max_input_cplx: 4096,
        max_nbr_of_runs: 200000,
        timeout: 1000,
    };
    let rendered = command_line_arguments_string(&args);
    assert_eq!(
        rendered,
        vec![
            "fuzz",
            "--input-file",
            "seed.json",
            "--corpus-size",
            "100",
            "--corpus-in",
            "corpus",
            "--corpus-out",
            "corpus",
            "--artifacts",
            "artifacts",
            "--max-input-cplx",
            "4096",
            "--max-nbr-of-runs",
            "200000",
            "--timeout",
            "1000",
        ],
    );
}

#[test]
fn command_line_arguments_render_with_no_paths() {
    let args = CommandLineArguments {
        command: FuzzerCommand::MinifyCorpus,
        input_file: None,
        corpus_in: None,
        corpus_out: None,
        artifacts_folder: None,
        corpus_size: 0,
        max_input_cplx: 25,
        max_nbr_of_runs: 1,
        timeout: 0,
    };
    let rendered = command_line_arguments_string(&args);
    assert_eq!(
        rendered,
        vec![
            "minify-corpus",
            "--corpus-size",
            "0",
            "--no-in-corpus",
            "--no-out-corpus",
            "--no-artifacts",
            "--max-input-cplx",
            "25",
            "--max-nbr-of-runs",
            "1",
            "--timeout",
            "0",
        ],
    );
}

#[test]
fn command_line_arguments_render_the_largest_numbers() {
    let args = CommandLineArguments {
        command: FuzzerCommand::Read,
        input_file: None,
        corpus_in: None,
        corpus_out: None,
        artifacts_folder: None,
        corpus_size: usize::MAX,
        max_input_cplx: u64::MAX,
        max_nbr_of_runs: u64::MAX,
        timeout: u64::MAX,
    };
    let rendered = command_line_arguments_string(&args);
    assert_eq!(rendered[2], "18446744073709551615");
    assert_eq!(rendered[rendered.len() - 1], "18446744073709551615");
}

#[test]
fn simplest_input_file_picks_the_smallest_complexity() {
    let names = vec![
        "12--abc".to_string(),
        "3--first".to_string(),
        "nope".to_string(),
        "3--last".to_string(),
        "100--big".to_string(),
    ];
    // Ties go to the last of the equally simple names.
    assert_eq!(simplest_input_file(&names), Some(3));
}

#[test]
fn simplest_input_file_ignores_unreadable_names() {
    assert_eq!(simplest_input_file(&vec![]), None);
    let names = vec![
        "nope".to_string(),
        "1.5--frac".to_string(),
        "--nothing".to_string(),
        "99999999999999999999999--huge".to_string(),
    ];
    assert_eq!(simplest_input_file(&names), None);
    let names = vec!["nope".to_string(), "7--ok.bin".to_string()];
    assert_eq!(simplest_input_file(&names), Some(1));
}
