use modality_ros_hook::config::{
    ModalityRosHookConfig, parse_setting, parse_unsigned, split_commas, topics_from_list,
};

fn some(s: &str) -> Option<String> {
    Some(s.to_string())
}

#[test]
fn defaults_when_nothing_is_set() {
    let c = ModalityRosHookConfig::from_values(None, None, None, None, None);
    assert_eq!(c.connect_timeout_secs, 20);
    assert_eq!(c.max_array_len, 12);
    assert_eq!(c.buffer_size, 1024);
    assert_eq!(c.ignored_topics, vec!["/parameter_events".to_string()]);
    assert!(c.is_ignored_topic("/parameter_events"));
    assert!(!c.is_ignored_topic("/chatter"));
}

#[test]
fn default_run_id_is_a_random_uuid() {
    let a = ModalityRosHookConfig::from_values(None, None, None, None, None);
    let b = ModalityRosHookConfig::from_values(None, None, None, None, None);
    assert_eq!(a.run_id.len(), 36);
    for (i, c) in a.run_id.chars().enumerate() {
        if i == 8 || i == 13 || i == 18 || i == 23 {
            assert_eq!(c, '-');
        } else {
            assert!(c.is_ascii_digit() || ('a'..='f').contains(&c));
        }
    }
    assert_eq!(a.run_id.chars().nth(14), Some('4'));
    assert_ne!(a.run_id, b.run_id);
}

#[test]
fn values_override_defaults() {
    let c = ModalityRosHookConfig::from_values(
        some(" 5 "),
        some("/a, /b ,/a"),
        some("+3"),
        some("64"),
        some("my-run"),
    );
    assert_eq!(c.connect_timeout_secs, 5);
    assert_eq!(c.max_array_len, 3);
    assert_eq!(c.buffer_size, 64);
    assert_eq!(c.run_id, "my-run");
    assert_eq!(c.ignored_topics, vec!["/a".to_string(), "/b".to_string()]);
    assert!(c.is_ignored_topic("/b"));
    assert!(!c.is_ignored_topic("/parameter_events"));
}

#[test]
fn invalid_numbers_keep_defaults() {
    let c = ModalityRosHookConfig::from_values(some("soon"), None, some("-1"), some("1e3"), None);
    assert_eq!(c.connect_timeout_secs, 20);
    assert_eq!(c.max_array_len, 12);
    assert_eq!(c.buffer_size, 1024);
}

#[test]
fn empty_ignored_topics_ignores_no_real_topic() {
    let c = ModalityRosHookConfig::from_values(None, some(""), None, None, None);
    assert!(!c.is_ignored_topic("/parameter_events"));
    assert!(!c.is_ignored_topic("/rosout"));
}

#[test]
fn parsing_unsigned_numbers() {
    assert_eq!(parse_unsigned("0", u64::MAX), Some(0));
    assert_eq!(parse_unsigned("+42", u64::MAX), Some(42));
    assert_eq!(parse_unsigned("18446744073709551615", u64::MAX), Some(u64::MAX));
    assert_eq!(parse_unsigned("18446744073709551616", u64::MAX), None);
    assert_eq!(parse_unsigned("256", 255), None);
    assert_eq!(parse_unsigned("", u64::MAX), None);
    assert_eq!(parse_unsigned("+", u64::MAX), None);
    assert_eq!(parse_unsigned("1 2", u64::MAX), None);
    assert_eq!(parse_setting("\t7\n", u64::MAX), Some(7));
}

#[test]
fn splitting_topic_lists() {
    assert_eq!(split_commas("a,,b"), vec!["a", "", "b"]);
    assert_eq!(split_commas(""), vec![""]);
    assert_eq!(topics_from_list(" /x , /y"), vec!["/x".to_string(), "/y".to_string()]);
}
