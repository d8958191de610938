//! The status and the configuration of an access point, decoded from the
//! daemon's answers.

use crate::config::{entries_of, flat_map, flatten, ConfigError, ConfigErrorView, Entry};
use crate::error::Error;
use crate::record::{
    deserialize_str, flag_field, int_field, list_field, read_flag, read_int, read_list, read_text,
    record_of, string_views, text_field, values_named, Record,
};
use vstd::prelude::*;

verus! {

/// Status of an access point. The first fields are single values; the
/// last four hold one value for each virtual network, in the order in
/// which the daemon reports them.
#[derive(Debug, PartialEq, Eq)]
pub struct Status {
    pub state: String,
    pub phy: String,
    pub freq: String,
    pub num_sta_non_erp: String,
    pub num_sta_no_short_slot_time: String,
    pub num_sta_no_short_preamble: String,
    pub olbc: String,
    pub num_sta_ht_no_gf: String,
    pub num_sta_no_ht: String,
    pub num_sta_ht_20_mhz: String,
    pub num_sta_ht40_intolerant: String,
    pub olbc_ht: String,
    pub ht_op_mode: String,
    pub cac_time_seconds: String,
    pub cac_time_left_seconds: String,
    pub channel: String,
    pub secondary_channel: String,
    pub ieee80211n: String,
    pub ieee80211ac: String,
    pub ieee80211ax: String,
    pub beacon_int: String,
    pub dtim_period: String,
    pub ht_caps_info: String,
    pub ht_mcs_bitmask: String,
    pub supported_rates: String,
    pub max_txpower: String,
    pub bss: Vec<String>,
    pub bssid: Vec<String>,
    pub ssid: Vec<String>,
    pub num_sta: Vec<String>,
}

/// The mathematical value of a [`Status`].
pub struct StatusView {
    pub state: Seq<char>,
    pub phy: Seq<char>,
    pub freq: Seq<char>,
    pub num_sta_non_erp: Seq<char>,
    pub num_sta_no_short_slot_time: Seq<char>,
    pub num_sta_no_short_preamble: Seq<char>,
    pub olbc: Seq<char>,
    pub num_sta_ht_no_gf: Seq<char>,
    pub num_sta_no_ht: Seq<char>,
    pub num_sta_ht_20_mhz: Seq<char>,
    pub num_sta_ht40_intolerant: Seq<char>,
    pub olbc_ht: Seq<char>,
    pub ht_op_mode: Seq<char>,
    pub cac_time_seconds: Seq<char>,
    pub cac_time_left_seconds: Seq<char>,
    pub channel: Seq<char>,
    pub secondary_channel: Seq<char>,
    pub ieee80211n: Seq<char>,
    pub ieee80211ac: Seq<char>,
    pub ieee80211ax: Seq<char>,
    pub beacon_int: Seq<char>,
    pub dtim_period: Seq<char>,
    pub ht_caps_info: Seq<char>,
    pub ht_mcs_bitmask: Seq<char>,
    pub supported_rates: Seq<char>,
    pub max_txpower: Seq<char>,
    pub bss: Seq<Seq<char>>,
    pub bssid: Seq<Seq<char>>,
    pub ssid: Seq<Seq<char>>,
    pub num_sta: Seq<Seq<char>>,
}

impl View for Status {
    type V = StatusView;

    open spec fn view(&self) -> StatusView {
        StatusView {
            state: self.state@,
            phy: self.phy@,
            freq: self.freq@,
            num_sta_non_erp: self.num_sta_non_erp@,
            num_sta_no_short_slot_time: self.num_sta_no_short_slot_time@,
            num_sta_no_short_preamble: self.num_sta_no_short_preamble@,
            olbc: self.olbc@,
            num_sta_ht_no_gf: self.num_sta_ht_no_gf@,
            num_sta_no_ht: self.num_sta_no_ht@,
            num_sta_ht_20_mhz: self.num_sta_ht_20_mhz@,
            num_sta_ht40_intolerant: self.num_sta_ht40_intolerant@,
            olbc_ht: self.olbc_ht@,
            ht_op_mode: self.ht_op_mode@,
            cac_time_seconds: self.cac_time_seconds@,
            cac_time_left_seconds: self.cac_time_left_seconds@,
            channel: self.channel@,
            secondary_channel: self.secondary_channel@,
            ieee80211n: self.ieee80211n@,
            ieee80211ac: self.ieee80211ac@,
            ieee80211ax: self.ieee80211ax@,
            beacon_int: self.beacon_int@,
            dtim_period: self.dtim_period@,
            ht_caps_info: self.ht_caps_info@,
            ht_mcs_bitmask: self.ht_mcs_bitmask@,
            supported_rates: self.supported_rates@,
            max_txpower: self.max_txpower@,
            bss: string_views(self.bss@),
            bssid: string_views(self.bssid@),
            ssid: string_views(self.ssid@),
            num_sta: string_views(self.num_sta@),
        }
    }
}

/// The status that a list of entries gives: each single field from the
/// last entry under the key of its name, each list from all entries under
/// its base name; the fields taken in their order, the first one that
/// cannot be read deciding the failure.
pub open spec fn status_of_entries(entries: Seq<(Seq<char>, Seq<char>)>) -> Result<
    StatusView,
    ConfigErrorView,
> {
    let map = flat_map(entries);
    let state = text_field(map, "state"@);
    let phy = text_field(map, "phy"@);
    let freq = text_field(map, "freq"@);
    let num_sta_non_erp = text_field(map, "num_sta_non_erp"@);
    let num_sta_no_short_slot_time = text_field(map, "num_sta_no_short_slot_time"@);
    let num_sta_no_short_preamble = text_field(map, "num_sta_no_short_preamble"@);
    let olbc = text_field(map, "olbc"@);
    let num_sta_ht_no_gf = text_field(map, "num_sta_ht_no_gf"@);
    let num_sta_no_ht = text_field(map, "num_sta_no_ht"@);
    let num_sta_ht_20_mhz = text_field(map, "num_sta_ht_20_mhz"@);
    let num_sta_ht40_intolerant = text_field(map, "num_sta_ht40_intolerant"@);
    let olbc_ht = text_field(map, "olbc_ht"@);
    let ht_op_mode = text_field(map, "ht_op_mode"@);
    let cac_time_seconds = text_field(map, "cac_time_seconds"@);
    let cac_time_left_seconds = text_field(map, "cac_time_left_seconds"@);
    let channel = text_field(map, "channel"@);
    let secondary_channel = text_field(map, "secondary_channel"@);
    let ieee80211n = text_field(map, "ieee80211n"@);
    let ieee80211ac = text_field(map, "ieee80211ac"@);
    let ieee80211ax = text_field(map, "ieee80211ax"@);
    let beacon_int = text_field(map, "beacon_int"@);
    let dtim_period = text_field(map, "dtim_period"@);
    let ht_caps_info = text_field(map, "ht_caps_info"@);
    let ht_mcs_bitmask = text_field(map, "ht_mcs_bitmask"@);
    let supported_rates = text_field(map, "supported_rates"@);
    let max_txpower = text_field(map, "max_txpower"@);
    let bss = list_field(entries, "bss"@);
    let bssid = list_field(entries, "bssid"@);
    let ssid = list_field(entries, "ssid"@);
    let num_sta = list_field(entries, "num_sta"@);
    if state is Err {
        Err(state->Err_0)
    } else if phy is Err {
        Err(phy->Err_0)
    } else if freq is Err {
        Err(freq->Err_0)
    } else if num_sta_non_erp is Err {
        Err(num_sta_non_erp->Err_0)
    } else if num_sta_no_short_slot_time is Err {
        Err(num_sta_no_short_slot_time->Err_0)
    } else if num_sta_no_short_preamble is Err {
        Err(num_sta_no_short_preamble->Err_0)
    } else if olbc is Err {
        Err(olbc->Err_0)
    } else if num_sta_ht_no_gf is Err {
        Err(num_sta_ht_no_gf->Err_0)
    } else if num_sta_no_ht is Err {
        Err(num_sta_no_ht->Err_0)
    } else if num_sta_ht_20_mhz is Err {
        Err(num_sta_ht_20_mhz->Err_0)
    } else if num_sta_ht40_intolerant is Err {
        Err(num_sta_ht40_intolerant->Err_0)
    } else if olbc_ht is Err {
        Err(olbc_ht->Err_0)
    } else if ht_op_mode is Err {
        Err(ht_op_mode->Err_0)
    } else if cac_time_seconds is Err {
        Err(cac_time_seconds->Err_0)
    } else if cac_time_left_seconds is Err {
        Err(cac_time_left_seconds->Err_0)
    } else if channel is Err {
        Err(channel->Err_0)
    } else if secondary_channel is Err {
        Err(secondary_channel->Err_0)
    } else if ieee80211n is Err {
        Err(ieee80211n->Err_0)
    } else if ieee80211ac is Err {
        Err(ieee80211ac->Err_0)
    } else if ieee80211ax is Err {
        Err(ieee80211ax->Err_0)
    } else if beacon_int is Err {
        Err(beacon_int->Err_0)
    } else if dtim_period is Err {
        Err(dtim_period->Err_0)
    } else if ht_caps_info is Err {
        Err(ht_caps_info->Err_0)
    } else if ht_mcs_bitmask is Err {
        Err(ht_mcs_bitmask->Err_0)
    } else if supported_rates is Err {
        Err(supported_rates->Err_0)
    } else if max_txpower is Err {
        Err(max_txpower->Err_0)
    } else if bss is Err {
        Err(bss->Err_0)
    } else if bssid is Err {
        Err(bssid->Err_0)
    } else if ssid is Err {
        Err(ssid->Err_0)
    } else if num_sta is Err {
        Err(num_sta->Err_0)
    } else {
        Ok(
            StatusView {
                state: state->Ok_0,
                phy: phy->Ok_0,
                freq: freq->Ok_0,
                num_sta_non_erp: num_sta_non_erp->Ok_0,
                num_sta_no_short_slot_time: num_sta_no_short_slot_time->Ok_0,
                num_sta_no_short_preamble: num_sta_no_short_preamble->Ok_0,
                olbc: olbc->Ok_0,
                num_sta_ht_no_gf: num_sta_ht_no_gf->Ok_0,
                num_sta_no_ht: num_sta_no_ht->Ok_0,
                num_sta_ht_20_mhz: num_sta_ht_20_mhz->Ok_0,
                num_sta_ht40_intolerant: num_sta_ht40_intolerant->Ok_0,
                olbc_ht: olbc_ht->Ok_0,
                ht_op_mode: ht_op_mode->Ok_0,
                cac_time_seconds: cac_time_seconds->Ok_0,
                cac_time_left_seconds: cac_time_left_seconds->Ok_0,
                channel: channel->Ok_0,
                secondary_channel: secondary_channel->Ok_0,
                ieee80211n: ieee80211n->Ok_0,
                ieee80211ac: ieee80211ac->Ok_0,
                ieee80211ax: ieee80211ax->Ok_0,
                beacon_int: beacon_int->Ok_0,
                dtim_period: dtim_period->Ok_0,
                ht_caps_info: ht_caps_info->Ok_0,
                ht_mcs_bitmask: ht_mcs_bitmask->Ok_0,
                supported_rates: supported_rates->Ok_0,
                max_txpower: max_txpower->Ok_0,
                bss: bss->Ok_0,
                bssid: bssid->Ok_0,
                ssid: ssid->Ok_0,
                num_sta: num_sta->Ok_0,
            },
        )
    }
}

/// The status that a response stands for.
pub open spec fn status_of(response: Seq<char>) -> Result<StatusView, ConfigErrorView> {
    record_of::<Status>(response)
}

/// The keys that a status reads a single value from.
pub open spec fn status_keys() -> Set<Seq<char>> {
    set![
        "state"@, "phy"@, "freq"@, "num_sta_non_erp"@, "num_sta_no_short_slot_time"@,
        "num_sta_no_short_preamble"@, "olbc"@, "num_sta_ht_no_gf"@, "num_sta_no_ht"@,
        "num_sta_ht_20_mhz"@, "num_sta_ht40_intolerant"@, "olbc_ht"@, "ht_op_mode"@,
        "cac_time_seconds"@, "cac_time_left_seconds"@, "channel"@, "secondary_channel"@,
        "ieee80211n"@, "ieee80211ac"@, "ieee80211ax"@, "beacon_int"@, "dtim_period"@,
        "ht_caps_info"@, "ht_mcs_bitmask"@, "supported_rates"@, "max_txpower"@,
    ]
}

/// The base names that a status reads a list from.
pub open spec fn status_list_names() -> Set<Seq<char>> {
    set!["bss"@, "bssid"@, "ssid"@, "num_sta"@]
}

/// A response that lacks a key of a single field, or every key of a list,
/// stands for no status.
pub proof fn lemma_status_needs_every_field(response: Seq<char>, name: Seq<char>)
    requires
        entries_of(response) matches Ok(entries) ==> {
            ||| status_keys().contains(name) && !flat_map(entries).contains_key(name)
            ||| status_list_names().contains(name) && values_named(entries, name).len() == 0
        },
    ensures
        status_of(response) is Err,
{
}

impl Record for Status {
    open spec fn of_entries(entries: Seq<(Seq<char>, Seq<char>)>) -> Result<
        StatusView,
        ConfigErrorView,
    > {
        status_of_entries(entries)
    }

    fn from_entries(entries: &Vec<Entry>) -> (res: Result<Status, ConfigError>) {
        let map = flatten(entries);
        let state = read_text(&map, "state")?;
        let phy = read_text(&map, "phy")?;
        let freq = read_text(&map, "freq")?;
        let num_sta_non_erp = read_text(&map, "num_sta_non_erp")?;
        let num_sta_no_short_slot_time = read_text(&map, "num_sta_no_short_slot_time")?;
        let num_sta_no_short_preamble = read_text(&map, "num_sta_no_short_preamble")?;
        let olbc = read_text(&map, "olbc")?;
        let num_sta_ht_no_gf = read_text(&map, "num_sta_ht_no_gf")?;
        let num_sta_no_ht = read_text(&map, "num_sta_no_ht")?;
        let num_sta_ht_20_mhz = read_text(&map, "num_sta_ht_20_mhz")?;
        let num_sta_ht40_intolerant = read_text(&map, "num_sta_ht40_intolerant")?;
        let olbc_ht = read_text(&map, "olbc_ht")?;
        let ht_op_mode = read_text(&map, "ht_op_mode")?;
        let cac_time_seconds = read_text(&map, "cac_time_seconds")?;
        let cac_time_left_seconds = read_text(&map, "cac_time_left_seconds")?;
        let channel = read_text(&map, "channel")?;
        let secondary_channel = read_text(&map, "secondary_channel")?;
        let ieee80211n = read_text(&map, "ieee80211n")?;
        let ieee80211ac = read_text(&map, "ieee80211ac")?;
        let ieee80211ax = read_text(&map, "ieee80211ax")?;
        let beacon_int = read_text(&map, "beacon_int")?;
        let dtim_period = read_text(&map, "dtim_period")?;
        let ht_caps_info = read_text(&map, "ht_caps_info")?;
        let ht_mcs_bitmask = read_text(&map, "ht_mcs_bitmask")?;
        let supported_rates = read_text(&map, "supported_rates")?;
        let max_txpower = read_text(&map, "max_txpower")?;
        let bss = read_list(entries, "bss")?;
        let bssid = read_list(entries, "bssid")?;
        let ssid = read_list(entries, "ssid")?;
        let num_sta = read_list(entries, "num_sta")?;
        Ok(
            Status {
                state,
                phy,
                freq,
                num_sta_non_erp,
                num_sta_no_short_slot_time,
                num_sta_no_short_preamble,
                olbc,
                num_sta_ht_no_gf,
                num_sta_no_ht,
                num_sta_ht_20_mhz,
                num_sta_ht40_intolerant,
                olbc_ht,
                ht_op_mode,
                cac_time_seconds,
                cac_time_left_seconds,
                channel,
                secondary_channel,
                ieee80211n,
                ieee80211ac,
                ieee80211ax,
                beacon_int,
                dtim_period,
                ht_caps_info,
                ht_mcs_bitmask,
                supported_rates,
                max_txpower,
                bss,
                bssid,
                ssid,
                num_sta,
            },
        )
    }
}

impl Status {
    /// Decodes a status from the daemon's answer. A failure carries its
    /// cause and the whole answer.
    pub fn from_response(response: &str) -> (res: Result<Status, Error>)
        ensures
            match res {
                Ok(status) => status_of(response@) == Ok::<StatusView, ConfigErrorView>(status@),
                Err(Error::ParsingWifiStatus { e, s }) => status_of(response@) == Err::<
                    StatusView,
                    ConfigErrorView,
                >(e@) && s@ == response@,
                Err(_) => false,
            },
    {
        match deserialize_str::<Status>(response) {
            Ok(status) => Ok(status),
            Err(e) => Err(Error::ParsingWifiStatus { e, s: response.to_owned() }),
        }
    }
}

/// Configuration of an access point.
#[derive(Debug, PartialEq, Eq)]
pub struct Config {
    pub bssid: String,
    pub ssid: String,
    pub wps_state: bool,
    pub wpa: i32,
    pub key_mgmt: String,
    pub group_cipher: String,
    pub rsn_pairwise_cipher: String,
    pub wpa_pairwise_cipher: String,
}

/// The mathematical value of a [`Config`].
pub struct ConfigView {
    pub bssid: Seq<char>,
    pub ssid: Seq<char>,
    pub wps_state: bool,
    pub wpa: i32,
    pub key_mgmt: Seq<char>,
    pub group_cipher: Seq<char>,
    pub rsn_pairwise_cipher: Seq<char>,
    pub wpa_pairwise_cipher: Seq<char>,
}

impl View for Config {
    type V = ConfigView;

    open spec fn view(&self) -> ConfigView {
        ConfigView {
            bssid: self.bssid@,
            ssid: self.ssid@,
            wps_state: self.wps_state,
            wpa: self.wpa,
            key_mgmt: self.key_mgmt@,
            group_cipher: self.group_cipher@,
            rsn_pairwise_cipher: self.rsn_pairwise_cipher@,
            wpa_pairwise_cipher: self.wpa_pairwise_cipher@,
        }
    }
}

/// The configuration that a map gives: each field from the key of its
/// name, the fields taken in their order, the first one that cannot be read
/// deciding the failure.
pub open spec fn config_of_map(map: Map<Seq<char>, Seq<char>>) -> Result<
    ConfigView,
    ConfigErrorView,
> {
    let bssid = text_field(map, "bssid"@);
    let ssid = text_field(map, "ssid"@);
    let wps_state = flag_field(map, "wps_state"@);
    let wpa = int_field(map, "wpa"@);
    let key_mgmt = text_field(map, "key_mgmt"@);
    let group_cipher = text_field(map, "group_cipher"@);
    let rsn_pairwise_cipher = text_field(map, "rsn_pairwise_cipher"@);
    let wpa_pairwise_cipher = text_field(map, "wpa_pairwise_cipher"@);
    if bssid is Err {
        Err(bssid->Err_0)
    } else if ssid is Err {
        Err(ssid->Err_0)
    } else if wps_state is Err {
        Err(wps_state->Err_0)
    } else if wpa is Err {
        Err(wpa->Err_0)
    } else if key_mgmt is Err {
        Err(key_mgmt->Err_0)
    } else if group_cipher is Err {
        Err(group_cipher->Err_0)
    } else if rsn_pairwise_cipher is Err {
        Err(rsn_pairwise_cipher->Err_0)
    } else if wpa_pairwise_cipher is Err {
        Err(wpa_pairwise_cipher->Err_0)
    } else {
        Ok(
            ConfigView {
                bssid: bssid->Ok_0,
                ssid: ssid->Ok_0,
                wps_state: wps_state->Ok_0,
                wpa: wpa->Ok_0,
                key_mgmt: key_mgmt->Ok_0,
                group_cipher: group_cipher->Ok_0,
                rsn_pairwise_cipher: rsn_pairwise_cipher->Ok_0,
                wpa_pairwise_cipher: wpa_pairwise_cipher->Ok_0,
            },
        )
    }
}

/// The configuration that a response stands for.
pub open spec fn config_of(response: Seq<char>) -> Result<ConfigView, ConfigErrorView> {
    record_of::<Config>(response)
}

/// The keys that a configuration reads.
pub open spec fn config_keys() -> Set<Seq<char>> {
    set![
        "bssid"@, "ssid"@, "wps_state"@, "wpa"@, "key_mgmt"@, "group_cipher"@,
        "rsn_pairwise_cipher"@, "wpa_pairwise_cipher"@,
    ]
}

/// A response that lacks a key of a configuration stands for none.
pub proof fn lemma_config_needs_every_key(response: Seq<char>, name: Seq<char>)
    requires
        config_keys().contains(name),
        entries_of(response) matches Ok(entries) ==> !flat_map(entries).contains_key(name),
    ensures
        config_of(response) is Err,
{
}

impl Record for Config {
    open spec fn of_entries(entries: Seq<(Seq<char>, Seq<char>)>) -> Result<
        ConfigView,
        ConfigErrorView,
    > {
        config_of_map(flat_map(entries))
    }

    fn from_entries(entries: &Vec<Entry>) -> (res: Result<Config, ConfigError>) {
        let map = flatten(entries);
        let bssid = read_text(&map, "bssid")?;
        let ssid = read_text(&map, "ssid")?;
        let wps_state = read_flag(&map, "wps_state")?;
        let wpa = read_int(&map, "wpa")?;
        let key_mgmt = read_text(&map, "key_mgmt")?;
        let group_cipher = read_text(&map, "group_cipher")?;
        let rsn_pairwise_cipher = read_text(&map, "rsn_pairwise_cipher")?;
        let wpa_pairwise_cipher = read_text(&map, "wpa_pairwise_cipher")?;
        Ok(
            Config {
                bssid,
                ssid,
                wps_state,
                wpa,
                key_mgmt,
                group_cipher,
                rsn_pairwise_cipher,
                wpa_pairwise_cipher,
            },
        )
    }
}

impl Config {
    /// Decodes a configuration from the daemon's answer. A failure carries
    /// its cause and the whole answer.
    pub fn from_response(response: &str) -> (res: Result<Config, Error>)
        ensures
            match res {
                Ok(config) => config_of(response@) == Ok::<ConfigView, ConfigErrorView>(config@),
                Err(Error::ParsingWifiConfig { e, s }) => config_of(response@) == Err::<
                    ConfigView,
                    ConfigErrorView,
                >(e@) && s@ == response@,
                Err(_) => false,
            },
    {
        match deserialize_str::<Config>(response) {
            Ok(config) => Ok(config),
            Err(e) => Err(Error::ParsingWifiConfig { e, s: response.to_owned() }),
        }
    }
}

} // verus!
