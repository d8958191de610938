use wifi_ctrl::ap::{Config, Status};
use wifi_ctrl::config::{to_entries, to_map, ConfigError};
use wifi_ctrl::error::Error;
use wifi_ctrl::record::{
    deserialize_enabled_bool, deserialize_i32, deserialize_str, has_base_name, read_flag,
    read_int, read_list, read_text,
};

const CONFIG: &str = "bssid=e0:91:f5:7d:11:c0\nssid=foo\nwps_state=enabled\nwpa=12\nkey_mgmt=WPA2-PSK\ngroup_cipher=CCMP\nrsn_pairwise_cipher=foo\nwpa_pairwise_cipher=bar\n";

const CONFIG_KEYS: [&str; 8] = [
    "bssid",
    "ssid",
    "wps_state",
    "wpa",
    "key_mgmt",
    "group_cipher",
    "rsn_pairwise_cipher",
    "wpa_pairwise_cipher",
];

const STATUS_KEYS: [&str; 26] = [
    "state",
    "phy",
    "freq",
    "num_sta_non_erp",
    "num_sta_no_short_slot_time",
    "num_sta_no_short_preamble",
    "olbc",
    "num_sta_ht_no_gf",
    "num_sta_no_ht",
    "num_sta_ht_20_mhz",
    "num_sta_ht40_intolerant",
    "olbc_ht",
    "ht_op_mode",
    "cac_time_seconds",
    "cac_time_left_seconds",
    "channel",
    "secondary_channel",
    "ieee80211n",
    "ieee80211ac",
    "ieee80211ax",
    "beacon_int",
    "dtim_period",
    "ht_caps_info",
    "ht_mcs_bitmask",
    "supported_rates",
    "max_txpower",
];

const STATUS_LISTS: [&str; 4] = ["bss", "bssid", "ssid", "num_sta"];

fn status_response() -> String {
    let mut text = String::new();
    for key in STATUS_KEYS {
        text.push_str(&format!("{}=value of {}\n", key, key));
    }
    for index in 0..2 {
        for name in STATUS_LISTS {
            text.push_str(&format!("{}[{}]={} {}\n", name, index, name, index));
        }
    }
    text
}

fn without_line(response: &str, key: &str) -> String {
    let prefix = format!("{}=", key);
    let indexed = format!("{}[", key);
    response
        .lines()
        .filter(|line| !line.starts_with(&prefix) && !line.starts_with(&indexed))
        .map(|line| format!("{}\n", line))
        .collect()
}

fn serde_error(text: &str) -> ConfigError {
    ConfigError::SerdeError(text.to_string())
}

fn config_failure(response: &str) -> ConfigError {
    match Config::from_response(response) {
        Err(Error::ParsingWifiConfig { e, s }) => {
            assert_eq!(s, response);
            e
        }
        other => panic!("unexpected result: {:?}", other),
    }
}

fn status_failure(response: &str) -> ConfigError {
    match Status::from_response(response) {
        Err(Error::ParsingWifiStatus { e, s }) => {
            assert_eq!(s, response);
            e
        }
        other => panic!("unexpected result: {:?}", other),
    }
}

#[test]
fn flag_tokens() {
    assert_eq!(deserialize_enabled_bool("enabled"), Ok(true));
    assert_eq!(deserialize_enabled_bool("disabled"), Ok(false));
    assert_eq!(
        deserialize_enabled_bool("maybe"),
        Err(serde_error("unknown variant `maybe`, expected `enabled` or `disabled`"))
    );
    assert_eq!(
        deserialize_enabled_bool(""),
        Err(serde_error("unknown variant ``, expected `enabled` or `disabled`"))
    );
    assert!(deserialize_enabled_bool("Enabled").is_err());
    assert!(deserialize_enabled_bool("enabled ").is_err());
    assert!(deserialize_enabled_bool("1").is_err());
}

#[test]
fn wps_state_from_a_response() {
    let enabled = CONFIG;
    let disabled = CONFIG.replace("wps_state=enabled", "wps_state=disabled");
    let maybe = CONFIG.replace("wps_state=enabled", "wps_state=maybe");
    assert_eq!(Config::from_response(enabled).unwrap().wps_state, true);
    assert_eq!(Config::from_response(&disabled).unwrap().wps_state, false);
    assert_eq!(
        config_failure(&maybe),
        serde_error("unknown variant `maybe`, expected `enabled` or `disabled`")
    );
}

#[test]
fn integer_tokens() {
    assert_eq!(deserialize_i32("12"), Ok(12));
    assert_eq!(deserialize_i32("-12"), Ok(-12));
    assert_eq!(deserialize_i32("+12"), Ok(12));
    assert_eq!(deserialize_i32("0"), Ok(0));
    assert_eq!(deserialize_i32("2147483647"), Ok(i32::MAX));
    assert_eq!(deserialize_i32("-2147483648"), Ok(i32::MIN));
    for token in ["abc", "", "12a", " 12", "12 ", "1_2", "0x10", "2147483648", "-2147483649", "+", "-", "+-1", "１２"] {
        assert_eq!(deserialize_i32(token), Err(serde_error("invalid int")), "{:?}", token);
    }
}

#[test]
fn wpa_from_a_response() {
    assert_eq!(Config::from_response(CONFIG).unwrap().wpa, 12);
    let bad = CONFIG.replace("wpa=12", "wpa=abc");
    assert_eq!(config_failure(&bad), serde_error("invalid int"));
    let negative = CONFIG.replace("wpa=12", "wpa=-3");
    assert_eq!(Config::from_response(&negative).unwrap().wpa, -3);
}

#[test]
fn config_end_to_end() {
    let config = Config::from_response(CONFIG).unwrap();
    assert_eq!(
        config,
        Config {
            bssid: "e0:91:f5:7d:11:c0".to_string(),
            ssid: "foo".to_string(),
            wps_state: true,
            wpa: 12,
            key_mgmt: "WPA2-PSK".to_string(),
            group_cipher: "CCMP".to_string(),
            rsn_pairwise_cipher: "foo".to_string(),
            wpa_pairwise_cipher: "bar".to_string(),
        }
    );
}

#[test]
fn config_with_escaped_ssid_and_unknown_keys() {
    let resp = r#"
bssid=e0:91:f5:7d:11:c0
ssid=\xc2\xaf\\_(\xe3\x83\x84)_/\xc2\xaf
wps_state=enabled
wpa=12
group_cipher=CCMP
key_mgmt=WPA2-PSK
wpa_state=COMPLETED
rsn_pairwise_cipher=foo
wpa_pairwise_cipher=bar
"#;
    let config = Config::from_response(resp).unwrap();
    assert_eq!(config.wps_state, true);
    assert_eq!(config.wpa, 12);
    assert_eq!(config.ssid, r#"¯\_(ツ)_/¯"#);
}

#[test]
fn config_missing_any_key_fails() {
    for key in CONFIG_KEYS {
        let response = without_line(CONFIG, key);
        assert_eq!(
            config_failure(&response),
            serde_error(&format!("missing field `{}`", key))
        );
    }
    assert_eq!(config_failure(""), serde_error("missing field `bssid`"));
}

#[test]
fn config_first_field_in_order_decides() {
    let response = without_line(&CONFIG.replace("wps_state=enabled", "wps_state=maybe"), "ssid");
    assert_eq!(config_failure(&response), serde_error("missing field `ssid`"));
    let response = without_line(&CONFIG.replace("wps_state=enabled", "wps_state=maybe"), "key_mgmt");
    assert_eq!(
        config_failure(&response),
        serde_error("unknown variant `maybe`, expected `enabled` or `disabled`")
    );
    let response = CONFIG.replace("wps_state=enabled", "wps_state=on").replace("wpa=12", "wpa=x");
    assert_eq!(
        config_failure(&response),
        serde_error("unknown variant `on`, expected `enabled` or `disabled`")
    );
}

#[test]
fn config_decoding_failure_keeps_its_kind() {
    assert_eq!(config_failure("bssid"), ConfigError::MissingDelimterEqual);
    assert_eq!(config_failure("bssid=\\x"), ConfigError::IncompleteEscape);
    assert_eq!(config_failure("bssid=\\xzz"), ConfigError::InvalidEscape);
    assert_eq!(config_failure("bssid=\\xff"), ConfigError::NonUtf8Escape);
    let response = format!("{}oops\n", CONFIG);
    assert_eq!(config_failure(&response), ConfigError::MissingDelimterEqual);
}

#[test]
fn config_takes_the_last_of_repeated_keys() {
    let response = format!("{}ssid=bar\nwpa=7\n", CONFIG);
    let config = Config::from_response(&response).unwrap();
    assert_eq!(config.ssid, "bar");
    assert_eq!(config.wpa, 7);
}

#[test]
fn status_end_to_end() {
    let response = status_response();
    let status = Status::from_response(&response).unwrap();
    assert_eq!(status.state, "value of state");
    assert_eq!(status.phy, "value of phy");
    assert_eq!(status.freq, "value of freq");
    assert_eq!(status.num_sta_non_erp, "value of num_sta_non_erp");
    assert_eq!(status.num_sta_no_short_slot_time, "value of num_sta_no_short_slot_time");
    assert_eq!(status.num_sta_no_short_preamble, "value of num_sta_no_short_preamble");
    assert_eq!(status.olbc, "value of olbc");
    assert_eq!(status.num_sta_ht_no_gf, "value of num_sta_ht_no_gf");
    assert_eq!(status.num_sta_no_ht, "value of num_sta_no_ht");
    assert_eq!(status.num_sta_ht_20_mhz, "value of num_sta_ht_20_mhz");
    assert_eq!(status.num_sta_ht40_intolerant, "value of num_sta_ht40_intolerant");
    assert_eq!(status.olbc_ht, "value of olbc_ht");
    assert_eq!(status.ht_op_mode, "value of ht_op_mode");
    assert_eq!(status.cac_time_seconds, "value of cac_time_seconds");
    assert_eq!(status.cac_time_left_seconds, "value of cac_time_left_seconds");
    assert_eq!(status.channel, "value of channel");
    assert_eq!(status.secondary_channel, "value of secondary_channel");
    assert_eq!(status.ieee80211n, "value of ieee80211n");
    assert_eq!(status.ieee80211ac, "value of ieee80211ac");
    assert_eq!(status.ieee80211ax, "value of ieee80211ax");
    assert_eq!(status.beacon_int, "value of beacon_int");
    assert_eq!(status.dtim_period, "value of dtim_period");
    assert_eq!(status.ht_caps_info, "value of ht_caps_info");
    assert_eq!(status.ht_mcs_bitmask, "value of ht_mcs_bitmask");
    assert_eq!(status.supported_rates, "value of supported_rates");
    assert_eq!(status.max_txpower, "value of max_txpower");
    assert_eq!(status.bss, vec!["bss 0", "bss 1"]);
    assert_eq!(status.bssid, vec!["bssid 0", "bssid 1"]);
    assert_eq!(status.ssid, vec!["ssid 0", "ssid 1"]);
    assert_eq!(status.num_sta, vec!["num_sta 0", "num_sta 1"]);
}

#[test]
fn status_as_the_daemon_prints_it() {
    let response = "state=ENABLED\nphy=phy0\nfreq=2437\nnum_sta_non_erp=0\nnum_sta_no_short_slot_time=0\nnum_sta_no_short_preamble=0\nolbc=0\nnum_sta_ht_no_gf=0\nnum_sta_no_ht=0\nnum_sta_ht_20_mhz=0\nnum_sta_ht40_intolerant=0\nolbc_ht=0\nht_op_mode=0x0\ncac_time_seconds=0\ncac_time_left_seconds=N/A\nchannel=6\nsecondary_channel=0\nieee80211n=1\nieee80211ac=0\nieee80211ax=0\nbeacon_int=100\ndtim_period=2\nht_caps_info=000c\nht_mcs_bitmask=ffff0000000000000000\nsupported_rates=02 04 0b 16 0c 12 18 24 30 48 60 6c\nmax_txpower=20\nbss[0]=wlan0\nbssid[0]=e4:5f:01:aa:bb:cc\nssid[0]=caf\\xc3\\xa9\nnum_sta[0]=3\n";
    let status = Status::from_response(response).unwrap();
    assert_eq!(status.state, "ENABLED");
    assert_eq!(status.freq, "2437");
    assert_eq!(status.cac_time_left_seconds, "N/A");
    assert_eq!(status.supported_rates, "02 04 0b 16 0c 12 18 24 30 48 60 6c");
    assert_eq!(status.max_txpower, "20");
    assert_eq!(status.bss, vec!["wlan0"]);
    assert_eq!(status.bssid, vec!["e4:5f:01:aa:bb:cc"]);
    assert_eq!(status.ssid, vec!["café"]);
    assert_eq!(status.num_sta, vec!["3"]);
}

#[test]
fn status_lists_keep_line_order_and_plain_keys() {
    let mut response = String::new();
    for key in STATUS_KEYS {
        response.push_str(&format!("{}=x\n", key));
    }
    response.push_str("bss[1]=b\nbss[0]=a\nbss=c\nbss[0]=a\nbssid=m\nssid[7]=s\nnum_sta[0]=0\nnum_sta[x]=1\n");
    let status = Status::from_response(&response).unwrap();
    assert_eq!(status.bss, vec!["b", "a", "c", "a"]);
    assert_eq!(status.bssid, vec!["m"]);
    assert_eq!(status.ssid, vec!["s"]);
    assert_eq!(status.num_sta, vec!["0", "1"]);
}

#[test]
fn status_single_fields_take_the_last_value() {
    let response = format!("{}state=DISABLED\nchannel=11\n", status_response());
    let status = Status::from_response(&response).unwrap();
    assert_eq!(status.state, "DISABLED");
    assert_eq!(status.channel, "11");
    assert_eq!(status.phy, "value of phy");
}

#[test]
fn status_missing_any_field_fails() {
    let full = status_response();
    for key in STATUS_KEYS.iter().chain(STATUS_LISTS.iter()) {
        let response = without_line(&full, key);
        assert_eq!(
            status_failure(&response),
            serde_error(&format!("missing field `{}`", key)),
            "{}",
            key
        );
    }
    assert_eq!(status_failure(""), serde_error("missing field `state`"));
}

#[test]
fn status_first_missing_field_in_order_decides() {
    let full = status_response();
    let response = without_line(&without_line(&full, "channel"), "phy");
    assert_eq!(status_failure(&response), serde_error("missing field `phy`"));
    let response = without_line(&without_line(&full, "num_sta"), "max_txpower");
    assert_eq!(status_failure(&response), serde_error("missing field `max_txpower`"));
    let response = without_line(&without_line(&full, "num_sta"), "bssid");
    assert_eq!(status_failure(&response), serde_error("missing field `bssid`"));
}

#[test]
fn status_decoding_failure_keeps_its_kind() {
    let full = status_response();
    assert_eq!(status_failure(&format!("{}oops", full)), ConfigError::MissingDelimterEqual);
    assert_eq!(status_failure(&format!("{}a=\\", full)), ConfigError::IncompleteEscape);
    assert_eq!(status_failure(&format!("a=\\xq0\n{}", full)), ConfigError::InvalidEscape);
    assert_eq!(status_failure(&format!("{}a=\\xfe", full)), ConfigError::NonUtf8Escape);
}

#[test]
fn base_names() {
    assert!(has_base_name("bss", "bss"));
    assert!(has_base_name("bss[0]", "bss"));
    assert!(has_base_name("bss[12]", "bss"));
    assert!(has_base_name("bss[]", "bss"));
    assert!(has_base_name("bss[0][1]", "bss"));
    assert!(!has_base_name("bssid[0]", "bss"));
    assert!(!has_base_name("bss[0", "bss"));
    assert!(!has_base_name("bss[0]x", "bss"));
    assert!(!has_base_name("bss0]", "bss"));
    assert!(has_base_name("bss0]", "bss0]"));
    assert!(has_base_name("bss[0", "bss[0"));
    assert!(has_base_name("[0]", ""));
    assert!(!has_base_name("", "bss"));
    assert!(has_base_name("", ""));
}

#[test]
fn field_readers() {
    let map = to_map("a=text\nf=enabled\ng=disabled\nn=-42\n").unwrap();
    assert_eq!(read_text(&map, "a"), Ok("text".to_string()));
    assert_eq!(read_text(&map, "f"), Ok("enabled".to_string()));
    assert_eq!(read_text(&map, "zz"), Err(serde_error("missing field `zz`")));
    assert_eq!(read_flag(&map, "f"), Ok(true));
    assert_eq!(read_flag(&map, "g"), Ok(false));
    assert_eq!(
        read_flag(&map, "a"),
        Err(serde_error("unknown variant `text`, expected `enabled` or `disabled`"))
    );
    assert_eq!(read_flag(&map, "zz"), Err(serde_error("missing field `zz`")));
    assert_eq!(read_int(&map, "n"), Ok(-42));
    assert_eq!(read_int(&map, "a"), Err(serde_error("invalid int")));
    assert_eq!(read_int(&map, "zz"), Err(serde_error("missing field `zz`")));
}

#[test]
fn list_reader() {
    let entries = to_entries("x[0]=a\ny=b\nx[1]=c\nx=d\n").unwrap();
    assert_eq!(read_list(&entries, "x"), Ok(vec!["a".to_string(), "c".to_string(), "d".to_string()]));
    assert_eq!(read_list(&entries, "y"), Ok(vec!["b".to_string()]));
    assert_eq!(read_list(&entries, "z"), Err(serde_error("missing field `z`")));
}

#[test]
fn generic_decoding_names_the_record() {
    let config: Config = deserialize_str(CONFIG).unwrap();
    assert_eq!(config.ssid, "foo");
    let status: Result<Status, ConfigError> = deserialize_str(CONFIG);
    assert_eq!(status, Err(serde_error("missing field `state`")));
    let config: Result<Config, ConfigError> = deserialize_str("x");
    assert_eq!(config, Err(ConfigError::MissingDelimterEqual));
}

#[test]
fn decoding_twice_gives_the_same_record() {
    assert_eq!(Config::from_response(CONFIG), Config::from_response(CONFIG));
    let response = status_response();
    assert_eq!(Status::from_response(&response), Status::from_response(&response));
}
