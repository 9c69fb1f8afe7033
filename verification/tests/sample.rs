use remap_lang::event::LogEvent;
use remap_lang::sample::{Condition, DataType, Sample, SampleConfig};
use remap_lang::value::Value;

const MESSAGE_KEY: &str = "message";
const TIMESTAMP_KEY: &str = "timestamp";

fn bytes(text: &str) -> Value {
    Value::Bytes(text.as_bytes().to_vec())
}

fn condition_contains(pre: &str) -> Condition {
    condition(MESSAGE_KEY, "contains", pre)
}

fn condition(field: &str, condition: &str, value: &str) -> Condition {
    match condition {
        "contains" => Condition::Contains {
            field: field.to_string(),
            value: value.to_string(),
        },
        "eq" => Condition::Equals {
            field: field.to_string(),
            value: value.to_string(),
        },
        _ => Condition::Exists {
            field: field.to_string(),
        },
    }
}

fn log_event(message: &str, nanos: i64) -> LogEvent {
    let mut event = LogEvent::new();
    event.insert(MESSAGE_KEY.to_string(), bytes(message));
    event.insert(TIMESTAMP_KEY.to_string(), Value::Timestamp(nanos));
    event
}

fn random_lines(len: usize, n: usize) -> Vec<String> {
    let alphabet = b"ABCDEFGHIJKLMNOPQRSTUVWXYZabcdefghijklmnopqrstuvwxyz0123456789";
    let mut state: u64 = 0x2545_F491_4F6C_DD1D;
    let mut lines = Vec::new();
    for _ in 0..n {
        let mut line = String::new();
        for _ in 0..len {
            state ^= state << 13;
            state ^= state >> 7;
            state ^= state << 17;
            line.push(alphabet[(state % 62) as usize] as char);
        }
        lines.push(line);
    }
    lines
}

fn random_events(n: usize) -> Vec<LogEvent> {
    random_lines(10, n)
        .into_iter()
        .enumerate()
        .map(|(i, v)| log_event(&v, 1_600_000_000_000_000_000 + i as i64))
        .collect()
}

fn transform_one(sampler: &mut Sample, event: LogEvent) -> Option<LogEvent> {
    let mut output = Vec::new();
    if sampler.try_transform(&mut output, event).is_some() {
        panic!("attempt to calculate the remainder with a divisor of zero");
    }
    assert!(output.len() <= 1);
    output.pop()
}

#[test]
fn genreate_config() {
    let config = SampleConfig::generate_config();
    assert_eq!(config.rate, 10);
    assert_eq!(config.key_field, None);
    assert_eq!(config.exclude, None);
    assert_eq!(config.input_type(), DataType::Log);
    assert_eq!(config.output_type(), DataType::Log);
    assert_eq!(config.transform_type(), "sample");
    let sampler = config.build();
    assert_eq!(sampler.rate(), 10);
}

#[test]
fn hash_samples_at_roughly_the_configured_rate() {
    let num_events = 10000;

    let events = random_events(num_events);
    let mut sampler = Sample::new(
        2,
        Some(MESSAGE_KEY.to_string()),
        Some(condition_contains("na")),
    );
    let total_passed = events
        .into_iter()
        .filter_map(|event| transform_one(&mut sampler, event))
        .count();
    let ideal = 1.0f64 / 2.0f64;
    let actual = total_passed as f64 / num_events as f64;
    assert!((ideal - actual).abs() <= ideal * 0.5);

    let events = random_events(num_events);
    let mut sampler = Sample::new(
        25,
        Some(MESSAGE_KEY.to_string()),
        Some(condition_contains("na")),
    );
    let total_passed = events
        .into_iter()
        .filter_map(|event| transform_one(&mut sampler, event))
        .count();
    let ideal = 1.0f64 / 25.0f64;
    let actual = total_passed as f64 / num_events as f64;
    assert!((ideal - actual).abs() <= ideal * 0.5);
}

#[test]
fn hash_consistently_samples_the_same_events() {
    let events = random_events(1000);
    let mut sampler = Sample::new(
        2,
        Some(MESSAGE_KEY.to_string()),
        Some(condition_contains("na")),
    );

    let first_run = events
        .clone()
        .into_iter()
        .filter_map(|event| transform_one(&mut sampler, event))
        .collect::<Vec<_>>();
    let second_run = events
        .into_iter()
        .filter_map(|event| transform_one(&mut sampler, event))
        .collect::<Vec<_>>();

    assert_eq!(first_run, second_run);
}

#[test]
fn always_passes_events_matching_pass_list() {
    for key_field in &[None, Some(MESSAGE_KEY.to_string())] {
        let event = log_event("i am important", 1_600_000_000_000_000_000);
        let mut sampler = Sample::new(0, key_field.clone(), Some(condition_contains("important")));
        let iterations = 0..1000;
        let total_passed = iterations
            .filter_map(|_| transform_one(&mut sampler, event.clone()))
            .count();
        assert_eq!(total_passed, 1000);
    }
}

#[test]
fn handles_key_field() {
    for key_field in &[None, Some(TIMESTAMP_KEY.to_string())] {
        let event = log_event("nananana", 1_600_000_000_123_000_000);
        let mut sampler = Sample::new(
            0,
            key_field.clone(),
            Some(condition(TIMESTAMP_KEY, "contains", ":")),
        );
        let iterations = 0..1000;
        let total_passed = iterations
            .filter_map(|_| transform_one(&mut sampler, event.clone()))
            .count();
        assert_eq!(total_passed, 1000);
    }
}

#[test]
fn sampler_adds_sampling_rate_to_event() {
    for key_field in &[None, Some(MESSAGE_KEY.to_string())] {
        let events = random_events(10000);
        let mut sampler = Sample::new(10, key_field.clone(), Some(condition_contains("na")));
        let passing = events
            .into_iter()
            .filter(|s| {
                !s.get(MESSAGE_KEY)
                    .unwrap()
                    .to_string_lossy()
                    .unwrap()
                    .contains("na")
            })
            .find_map(|event| transform_one(&mut sampler, event))
            .unwrap();
        assert_eq!(passing.get("sample_rate"), Some(&bytes("10")));

        let events = random_events(10000);
        let mut sampler = Sample::new(25, key_field.clone(), Some(condition_contains("na")));
        let passing = events
            .into_iter()
            .filter(|s| {
                !s.get(MESSAGE_KEY)
                    .unwrap()
                    .to_string_lossy()
                    .unwrap()
                    .contains("na")
            })
            .find_map(|event| transform_one(&mut sampler, event))
            .unwrap();
        assert_eq!(passing.get("sample_rate"), Some(&bytes("25")));

        // If the event passed the regex check, don't include the sampling rate
        let mut sampler = Sample::new(25, key_field.clone(), Some(condition_contains("na")));
        let event = log_event("nananana", 1_600_000_000_000_000_000);

        let passing = transform_one(&mut sampler, event).unwrap();
        assert!(passing.get("sample_rate").is_none());
    }
}

#[test]
fn sample_by_turn_hands_on_the_first_of_each_rate_events() {
    let mut sampler = Sample::new(3, None, None);
    let mut kept = Vec::new();
    for i in 0..9 {
        let event = log_event(&format!("event {}", i), i);
        if let Some(event) = transform_one(&mut sampler, event) {
            assert_eq!(event.get("sample_rate"), Some(&bytes("3")));
            kept.push(event.get(MESSAGE_KEY).unwrap().to_string_lossy().unwrap());
        }
    }
    assert_eq!(kept, vec!["event 0", "event 3", "event 6"]);
}

#[test]
fn sample_by_key_goes_by_the_seahash_of_the_text() {
    // the hashes are those of seahash::hash, which the crate gives with its tests
    assert_eq!(seahash::hash(b"to be or not to be"), 1988685042348123509);
    for text in ["to be or not to be", "a", "ab", "abc", "key", "another key"] {
        for rate in [1u64, 2, 3, 5, 7, 10] {
            let mut sampler = Sample::new(rate, Some(MESSAGE_KEY.to_string()), None);
            let passed = transform_one(&mut sampler, log_event(text, 0)).is_some();
            assert_eq!(passed, seahash::hash(text.as_bytes()) % rate == 0, "{:?}", (text, rate));
            assert_ne!(seahash::hash(text.as_bytes()), text.len() as u64);
        }
    }
}

#[test]
fn sample_counts_an_event_that_is_chosen_by_its_key() {
    // with a key the count still advances, and decides for events without the key
    let mut sampler = Sample::new(2, Some("key".to_string()), None);
    let mut keyed = LogEvent::new();
    keyed.insert("key".to_string(), bytes("a"));
    let mut plain = LogEvent::new();
    plain.insert("other".to_string(), bytes("a"));

    transform_one(&mut sampler, keyed.clone());
    // one event was counted: the turn is 1, which 2 does not divide
    assert!(transform_one(&mut sampler, plain.clone()).is_none());
    // two events were counted: the turn is 0 again
    assert!(transform_one(&mut sampler, plain.clone()).is_some());
}

#[test]
fn sample_with_rate_zero_hands_back_what_is_not_excluded() {
    let mut sampler = Sample::new(0, None, Some(condition_contains("important")));
    let event = log_event("of no interest", 0);
    let mut output = Vec::new();
    assert_eq!(sampler.try_transform(&mut output, event.clone()), Some(event));
    assert!(output.is_empty());
}

#[test]
fn sample_excluded_events_are_not_counted() {
    let mut sampler = Sample::new(2, None, Some(condition_contains("skip")));
    assert!(transform_one(&mut sampler, log_event("a", 0)).is_some());
    assert!(transform_one(&mut sampler, log_event("skip", 0)).is_some());
    assert!(transform_one(&mut sampler, log_event("skip", 0)).is_some());
    assert!(transform_one(&mut sampler, log_event("b", 0)).is_none());
    assert!(transform_one(&mut sampler, log_event("c", 0)).is_some());
}

#[test]
fn condition_checks() {
    let event = log_event("hello world", 0);
    assert!(condition(MESSAGE_KEY, "exists", "").check(&event));
    assert!(!condition("missing", "exists", "").check(&event));
    assert!(condition(MESSAGE_KEY, "eq", "hello world").check(&event));
    assert!(!condition(MESSAGE_KEY, "eq", "hello").check(&event));
    assert!(!condition("missing", "eq", "").check(&event));
    assert!(condition(MESSAGE_KEY, "contains", "lo wo").check(&event));
    assert!(!condition(MESSAGE_KEY, "contains", "low").check(&event));
    assert!(!condition("missing", "contains", "").check(&event));
}
