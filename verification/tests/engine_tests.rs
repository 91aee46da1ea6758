use tron_vanity::engine::Counters;
use tron_vanity::engine::format_record_line;
use tron_vanity::engine::run_batch_step;
use tron_vanity::hybrid::CpuGenerator;
use tron_vanity::hybrid::MatchRecord;
use tron_vanity::pattern::PatternChecker;
use tron_vanity::pattern::PatternConfig;

fn generator(words: Vec<&str>) -> CpuGenerator {
    CpuGenerator::new(PatternChecker::from_config(PatternConfig {
        words: words.into_iter().map(|w| w.to_string()).collect(),
        same_four: false,
        same_five: false,
        same_six: false,
    }))
}

#[test]
fn record_line_format() {
    let record = MatchRecord {
        address: "Tzzzz".to_string(),
        label: "4SAME(zzzz)".to_string(),
        secret_key: [0xab; 32],
    };
    let expected = format!("Tzzzz | 4SAME(zzzz) | {}\n", "ab".repeat(32));
    assert_eq!(format_record_line(&record), expected);
}

#[test]
fn record_line_hex_covers_all_nibbles() {
    let mut sk = [0u8; 32];
    for (i, b) in sk.iter_mut().enumerate() {
        *b = i as u8;
    }
    let record = MatchRecord {
        address: "a".to_string(),
        label: "b".to_string(),
        secret_key: sk,
    };
    let line = format_record_line(&record);
    let hex_part = line.trim_end().rsplit(" | ").next().unwrap().to_string();
    assert_eq!(hex_part, hex::encode(sk));
    assert!(hex_part.starts_with("000102030405"));
}

#[test]
fn counters_accumulate_requested_work_and_hits() {
    let mut counters = Counters::new();
    assert_eq!(counters.total_attempts, 0);
    assert_eq!(counters.found_count, 0);

    let batch_size: u64 = 1000;
    let hits = [2u64, 0, 3, 1];
    for h in hits {
        counters.record_batch(batch_size, h);
    }
    assert_eq!(counters.total_attempts, hits.len() as u64 * batch_size);
    assert_eq!(counters.found_count, hits.iter().sum::<u64>());
}

#[test]
fn batch_step_counts_requested_size_not_valid_keys() {
    let g = generator(vec!["*"]);
    let keypairs = g.generate_keypairs_cpu(8);
    let mut counters = Counters::new();

    let hits = run_batch_step(&g, true, &keypairs, 100, &mut counters).expect("running");
    assert_eq!(hits.len(), keypairs.len());
    assert_eq!(counters.total_attempts, 100);
    assert_eq!(counters.found_count, hits.len() as u64);
}

#[test]
fn batch_step_skips_an_empty_batch_without_counting() {
    let g = generator(vec!["*"]);
    let mut counters = Counters::new();
    let hits = run_batch_step(&g, true, &Vec::new(), 100, &mut counters).expect("running");
    assert!(hits.is_empty());
    assert_eq!(counters.total_attempts, 0);
    assert_eq!(counters.found_count, 0);
}

#[test]
fn batch_step_does_nothing_once_stopped() {
    let g = generator(vec!["*"]);
    let keypairs = g.generate_keypairs_cpu(8);
    let mut counters = Counters::new();
    counters.record_batch(100, 1);

    assert!(run_batch_step(&g, false, &keypairs, 100, &mut counters).is_none());
    assert_eq!(counters.total_attempts, 100);
    assert_eq!(counters.found_count, 1);
}
