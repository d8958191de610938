use wifi_ctrl::config::{flatten, to_entries, to_map, ConfigError, Entry};

fn entry(key: &str, value: &str) -> Entry {
    Entry { key: key.to_string(), value: value.to_string() }
}

fn value<'a>(map: &'a vstd::hash_map::StringHashMap<String>, key: &str) -> Option<&'a str> {
    map.get(key).map(|v| v.as_str())
}

#[test]
fn line_without_delimiter_fails() {
    assert_eq!(to_map("novalue").err(), Some(ConfigError::MissingDelimterEqual));
    assert_eq!(to_map("a=1\nnovalue\nb=2").err(), Some(ConfigError::MissingDelimterEqual));
    assert_eq!(to_entries("a=1\nb").err(), Some(ConfigError::MissingDelimterEqual));
    assert_eq!(to_entries("a=1\n  \nb=2").err(), Some(ConfigError::MissingDelimterEqual));
}

#[test]
fn last_value_of_a_key_stays() {
    let map = to_map("a=1\nb=2\na=3\n").unwrap();
    assert_eq!(value(&map, "a"), Some("3"));
    assert_eq!(value(&map, "b"), Some("2"));
    assert_eq!(map.len(), 2);
}

#[test]
fn entries_keep_every_line_in_order() {
    let entries = to_entries("a=1\nb=2\na=3\n").unwrap();
    assert_eq!(entries, vec![entry("a", "1"), entry("b", "2"), entry("a", "3")]);
}

#[test]
fn line_splits_at_first_delimiter() {
    let entries = to_entries("a=b=c").unwrap();
    assert_eq!(entries, vec![entry("a", "b=c")]);
    assert_eq!(to_entries("=x").unwrap(), vec![entry("", "x")]);
    assert_eq!(to_entries("k=").unwrap(), vec![entry("k", "")]);
    assert_eq!(to_entries("=").unwrap(), vec![entry("", "")]);
}

#[test]
fn white_space_around_the_response_is_dropped() {
    let entries = to_entries("\n\n  a=1\nb=2 \t\r\n\n").unwrap();
    assert_eq!(entries, vec![entry("a", "1"), entry("b", "2")]);
    let entries = to_entries("\u{3000}a=1\u{a0}").unwrap();
    assert_eq!(entries, vec![entry("a", "1")]);
}

#[test]
fn white_space_inside_a_line_is_kept() {
    let entries = to_entries("a = 1 \nb=2").unwrap();
    assert_eq!(entries, vec![entry("a ", " 1 "), entry("b", "2")]);
    let entries = to_entries("a=1\n b=2").unwrap();
    assert_eq!(entries, vec![entry("a", "1"), entry(" b", "2")]);
}

#[test]
fn empty_lines_are_skipped() {
    let entries = to_entries("a=1\n\n\nb=2").unwrap();
    assert_eq!(entries, vec![entry("a", "1"), entry("b", "2")]);
    let entries = to_entries("a=1\r\n\r\nb=2").unwrap();
    assert_eq!(entries, vec![entry("a", "1"), entry("b", "2")]);
}

#[test]
fn empty_response_has_no_entries() {
    assert_eq!(to_entries("").unwrap(), vec![]);
    assert_eq!(to_entries(" \n\t\r\n ").unwrap(), vec![]);
    assert_eq!(to_map("").unwrap().len(), 0);
}

#[test]
fn carriage_return_before_line_feed_ends_the_line() {
    let entries = to_entries("a=1\r\nb=2\r\n").unwrap();
    assert_eq!(entries, vec![entry("a", "1"), entry("b", "2")]);
    let entries = to_entries("a=1\r\r\nb=2").unwrap();
    assert_eq!(entries, vec![entry("a", "1\r"), entry("b", "2")]);
    let entries = to_entries("a=1\rb=2\nc=3").unwrap();
    assert_eq!(entries, vec![entry("a", "1\rb=2"), entry("c", "3")]);
}

#[test]
fn keys_are_not_unescaped() {
    let entries = to_entries(r"k\x41=v\x41").unwrap();
    assert_eq!(entries, vec![entry(r"k\x41", "vA")]);
    let map = to_map(r"k\n=\n").unwrap();
    assert_eq!(value(&map, r"k\n"), Some("\n"));
    assert_eq!(to_entries(r"k\=v").unwrap(), vec![entry(r"k\", "v")]);
}

#[test]
fn values_are_unescaped() {
    let map = to_map("ssid=\\xc2\\xaf\\\\_(\\xe3\\x83\\x84)_/\\xc2\\xaf\nwpa=12").unwrap();
    assert_eq!(value(&map, "ssid"), Some(r"¯\_(ツ)_/¯"));
    assert_eq!(value(&map, "wpa"), Some("12"));
    assert_eq!(value(&map, "absent"), None);
}

#[test]
fn escape_failure_fails_the_response() {
    assert_eq!(to_map("a=1\nb=\\x\nc=3").err(), Some(ConfigError::IncompleteEscape));
    assert_eq!(to_map("a=1\nb=\\xzz").err(), Some(ConfigError::InvalidEscape));
    assert_eq!(to_map("b=\\xff").err(), Some(ConfigError::NonUtf8Escape));
    assert_eq!(to_entries("b=\\").err(), Some(ConfigError::IncompleteEscape));
}

#[test]
fn first_failing_line_decides() {
    assert_eq!(to_map("a=\\x\nb").err(), Some(ConfigError::IncompleteEscape));
    assert_eq!(to_map("b\na=\\x").err(), Some(ConfigError::MissingDelimterEqual));
    assert_eq!(to_map("a=\\xff\nb=\\xzz").err(), Some(ConfigError::NonUtf8Escape));
}

#[test]
fn non_ascii_text_is_kept() {
    let entries = to_entries("clé=valeur é\nssid=ツ=ツ").unwrap();
    assert_eq!(entries, vec![entry("clé", "valeur é"), entry("ssid", "ツ=ツ")]);
}

#[test]
fn flatten_agrees_with_a_hash_map() {
    let entries = to_entries("a=1\nb=2\nc=3\nb=4\na=5\nd=6\nb=7").unwrap();
    let map = flatten(&entries);
    let mut expected = std::collections::HashMap::new();
    for e in &entries {
        expected.insert(e.key.clone(), e.value.clone());
    }
    assert_eq!(map.len(), expected.len());
    for (k, v) in &expected {
        assert_eq!(value(&map, k), Some(v.as_str()));
    }
}

#[test]
fn entries_agree_with_std_lines() {
    let responses = [
        "a=1\nb=2",
        "  a=1\r\nb=2\r\n  ",
        "a=1\n\nb=2\n",
        "x=\\x41\ny=\\n\nz==\n",
        "\u{2028}a=1\nb= 2\u{2029}",
        "a=1\r\r\nb=2",
    ];
    for response in responses {
        let mut expected = Vec::new();
        for line in response.trim().lines() {
            if line.is_empty() {
                continue;
            }
            let (k, v) = line.split_once('=').unwrap();
            expected.push(entry(k, &wifi_ctrl::config::unprintf(v).unwrap()));
        }
        assert_eq!(to_entries(response).unwrap(), expected);
    }
}
