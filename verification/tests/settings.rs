use autoclicker::config::{
    config_dir_path, hotkey_config_text, interval_config_text, parse_hotkey_config,
    parse_interval_config, sort_codes,
};

#[test]
fn config_directory() {
    assert_eq!(config_dir_path(Some("/x/cfg".to_string()), Some("/home/u".to_string())), "/x/cfg");
    assert_eq!(config_dir_path(None, Some("/home/u".to_string())), "/home/u/.config");
    assert_eq!(config_dir_path(None, None), "/tmp/.config");
}

#[test]
fn interval_file_values() {
    assert_eq!(parse_interval_config(None), 15);
    assert_eq!(parse_interval_config(Some("250")), 250);
    assert_eq!(parse_interval_config(Some(" 250\n")), 250);
    assert_eq!(parse_interval_config(Some("+7")), 7);
    assert_eq!(parse_interval_config(Some("0")), 15);
    assert_eq!(parse_interval_config(Some("60000")), 60000);
    assert_eq!(parse_interval_config(Some("60001")), 15);
    assert_eq!(parse_interval_config(Some("1")), 1);
    assert_eq!(parse_interval_config(Some("abc")), 15);
    assert_eq!(parse_interval_config(Some("")), 15);
    assert_eq!(parse_interval_config(Some("99999999999999999999999")), 15);
}

#[test]
fn interval_round_trip() {
    for ms in [0u64, 1, 15, 100, 60000, 60001, u64::MAX] {
        let expected = if (1..=60000).contains(&ms) { ms } else { 15 };
        assert_eq!(parse_interval_config(Some(&interval_config_text(ms))), expected);
    }
}

#[test]
fn hotkey_file_values() {
    assert_eq!(parse_hotkey_config(None), Vec::<u16>::new());
    assert_eq!(parse_hotkey_config(Some("")), Vec::<u16>::new());
    assert_eq!(parse_hotkey_config(Some("29,18")), vec![18, 29]);
    assert_eq!(parse_hotkey_config(Some(" 42 , 29,18\n")), vec![18, 29, 42]);
    assert_eq!(parse_hotkey_config(Some("29,,x,70000,18")), vec![18, 29]);
    assert_eq!(parse_hotkey_config(Some("5,5,1")), vec![1, 5, 5]);
    assert_eq!(parse_hotkey_config(Some("junk")), Vec::<u16>::new());
}

#[test]
fn hotkey_text() {
    assert_eq!(hotkey_config_text(&vec![]), "");
    assert_eq!(hotkey_config_text(&vec![29, 18]), "29,18");
    assert_eq!(hotkey_config_text(&vec![65535]), "65535");
}

#[test]
fn hotkey_round_trip() {
    for combo in [vec![], vec![18], vec![29, 42, 18], vec![7, 7, 3, 65535, 0]] {
        let mut sorted = combo.clone();
        sorted.sort();
        assert_eq!(parse_hotkey_config(Some(&hotkey_config_text(&combo))), sorted);
    }
}

#[test]
fn sorts_codes() {
    assert_eq!(sort_codes(&vec![3, 1, 2, 1]), vec![1, 1, 2, 3]);
    assert_eq!(sort_codes(&vec![]), Vec::<u16>::new());
}
