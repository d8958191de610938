//! Binding of decoded entries to the fields of a typed record.
//!
//! A record type names its fields in a fixed order and says of each how it
//! is read: as text, as an `enabled`/`disabled` flag, as an integer, or as
//! the list of all values that share a base name. The first field that
//! cannot be read decides the failure.

use crate::config::{
    entries_of, entry_views, to_entries, value_views, ConfigError, ConfigErrorView, Entry,
};
use crate::number::{i32_value, parse_i32};
use crate::text::{chars_of, find_char, find_from, lemma_find_unique, str_eq};
use vstd::hash_map::StringHashMap;
use vstd::prelude::*;

verus! {

/// The description of a field that no entry gives.
pub open spec fn missing_field_text(field: Seq<char>) -> Seq<char> {
    "missing field `"@ + field + "`"@
}

/// The description of a token that is neither of the two expected ones.
pub open spec fn unknown_variant_text(
    variant: Seq<char>,
    first: Seq<char>,
    second: Seq<char>,
) -> Seq<char> {
    "unknown variant `"@ + variant + "`, expected `"@ + first + "` or `"@ + second + "`"@
}

/// `serde::de::Error::missing_field`, on serde's own error type, whose
/// `Display` gives the message back: the words "missing field" and the
/// field's name between backticks.
#[verifier::external_body]
fn missing_field_message(field: &'static str) -> (message: String)
    ensures
        message@ == missing_field_text(field@),
{
    let error: serde::de::value::Error = serde::de::Error::missing_field(field);
    error.to_string()
}

/// `serde::de::Error::unknown_variant`, on serde's own error type, whose
/// `Display` gives the message back. For a list of two expected names it
/// reads: "unknown variant", the variant between backticks, then
/// "expected" and the two names, each between backticks, joined by "or".
#[verifier::external_body]
fn unknown_variant_message(variant: &str, expected: &'static [&'static str]) -> (message: String)
    requires
        expected@.len() == 2,
    ensures
        message@ == unknown_variant_text(variant@, expected@[0]@, expected@[1]@),
{
    let error: serde::de::value::Error = serde::de::Error::unknown_variant(variant, expected);
    error.to_string()
}

/// The two tokens of a flag, the one for `true` first.
pub const FLAG_TOKENS: [&'static str; 2] = ["enabled", "disabled"];

/// What a flag token stands for.
pub open spec fn flag_of(token: Seq<char>) -> Result<bool, ConfigErrorView> {
    if token == "enabled"@ {
        Ok(true)
    } else if token == "disabled"@ {
        Ok(false)
    } else {
        Err(ConfigErrorView::SerdeError(unknown_variant_text(token, "enabled"@, "disabled"@)))
    }
}

/// Reads a flag: `enabled` is `true`, `disabled` is `false`, and nothing
/// else is a flag.
pub fn deserialize_enabled_bool(token: &str) -> (res: Result<bool, ConfigError>)
    ensures
        match res {
            Ok(flag) => flag_of(token@) == Ok::<bool, ConfigErrorView>(flag),
            Err(e) => flag_of(token@) == Err::<bool, ConfigErrorView>(e@),
        },
{
    if str_eq(token, "enabled") {
        Ok(true)
    } else if str_eq(token, "disabled") {
        Ok(false)
    } else {
        Err(ConfigError::SerdeError(unknown_variant_message(token, &FLAG_TOKENS)))
    }
}

/// What an integer token stands for.
pub open spec fn int_of(token: Seq<char>) -> Result<i32, ConfigErrorView> {
    match i32_value(token) {
        Some(n) => Ok(n),
        None => Err(ConfigErrorView::SerdeError("invalid int"@)),
    }
}

/// Reads a signed decimal integer that fits in 32 bits.
pub fn deserialize_i32(token: &str) -> (res: Result<i32, ConfigError>)
    ensures
        match res {
            Ok(n) => int_of(token@) == Ok::<i32, ConfigErrorView>(n),
            Err(e) => int_of(token@) == Err::<i32, ConfigErrorView>(e@),
        },
{
    match parse_i32(token) {
        Some(n) => Ok(n),
        None => Err(ConfigError::custom("invalid int")),
    }
}

/// The text of the field `name`: the value that the map gives for that key.
pub open spec fn text_field(map: Map<Seq<char>, Seq<char>>, name: Seq<char>) -> Result<
    Seq<char>,
    ConfigErrorView,
> {
    if map.contains_key(name) {
        Ok(map[name])
    } else {
        Err(ConfigErrorView::SerdeError(missing_field_text(name)))
    }
}

/// The flag of the field `name`.
pub open spec fn flag_field(map: Map<Seq<char>, Seq<char>>, name: Seq<char>) -> Result<
    bool,
    ConfigErrorView,
> {
    match text_field(map, name) {
        Err(e) => Err(e),
        Ok(token) => flag_of(token),
    }
}

/// The integer of the field `name`.
pub open spec fn int_field(map: Map<Seq<char>, Seq<char>>, name: Seq<char>) -> Result<
    i32,
    ConfigErrorView,
> {
    match text_field(map, name) {
        Err(e) => Err(e),
        Ok(token) => int_of(token),
    }
}

/// Reads the field `name` as text.
pub fn read_text(map: &StringHashMap<String>, name: &'static str) -> (res: Result<
    String,
    ConfigError,
>)
    ensures
        match res {
            Ok(value) => text_field(value_views(map@), name@) == Ok::<Seq<char>, ConfigErrorView>(
                value@,
            ),
            Err(e) => text_field(value_views(map@), name@) == Err::<Seq<char>, ConfigErrorView>(
                e@,
            ),
        },
{
    match map.get(name) {
        Some(value) => Ok(value.clone()),
        None => Err(ConfigError::SerdeError(missing_field_message(name))),
    }
}

/// Reads the field `name` as a flag.
pub fn read_flag(map: &StringHashMap<String>, name: &'static str) -> (res: Result<
    bool,
    ConfigError,
>)
    ensures
        match res {
            Ok(flag) => flag_field(value_views(map@), name@) == Ok::<bool, ConfigErrorView>(flag),
            Err(e) => flag_field(value_views(map@), name@) == Err::<bool, ConfigErrorView>(e@),
        },
{
    match map.get(name) {
        Some(value) => deserialize_enabled_bool(value.as_str()),
        None => Err(ConfigError::SerdeError(missing_field_message(name))),
    }
}

/// Reads the field `name` as an integer.
pub fn read_int(map: &StringHashMap<String>, name: &'static str) -> (res: Result<
    i32,
    ConfigError,
>)
    ensures
        match res {
            Ok(n) => int_field(value_views(map@), name@) == Ok::<i32, ConfigErrorView>(n),
            Err(e) => int_field(value_views(map@), name@) == Err::<i32, ConfigErrorView>(e@),
        },
{
    match map.get(name) {
        Some(value) => deserialize_i32(value.as_str()),
        None => Err(ConfigError::SerdeError(missing_field_message(name))),
    }
}

/// The name that a key shares with the other keys of one list: a key that
/// ends in `]` stands for what precedes its first `[`, any other key for
/// itself.
pub open spec fn base_name(key: Seq<char>) -> Seq<char> {
    let open = find_from(key, '[', 0);
    if open < key.len() && key.last() == ']' {
        key.subrange(0, open)
    } else {
        key
    }
}

/// The values of the entries whose key has the base name `name`, in the
/// order of the entries.
pub open spec fn values_named(entries: Seq<(Seq<char>, Seq<char>)>, name: Seq<char>) -> Seq<
    Seq<char>,
>
    decreases entries.len(),
{
    if entries.len() == 0 {
        Seq::empty()
    } else {
        let before = values_named(entries.drop_last(), name);
        if base_name(entries.last().0) == name {
            before.push(entries.last().1)
        } else {
            before
        }
    }
}

/// The list of the field `name`: all values under that base name. A list
/// needs at least one value.
pub open spec fn list_field(entries: Seq<(Seq<char>, Seq<char>)>, name: Seq<char>) -> Result<
    Seq<Seq<char>>,
    ConfigErrorView,
> {
    let values = values_named(entries, name);
    if values.len() > 0 {
        Ok(values)
    } else {
        Err(ConfigErrorView::SerdeError(missing_field_text(name)))
    }
}

/// The mathematical value of a list of strings.
pub open spec fn string_views(values: Seq<String>) -> Seq<Seq<char>> {
    values.map_values(|value: String| value@)
}

/// Whether `key` has the base name `name`.
pub fn has_base_name(key: &str, name: &str) -> (r: bool)
    ensures
        r == (base_name(key@) == name@),
{
    let v = chars_of(key);
    let n: usize = v.len();
    let open: usize = find_char(&v, '[', 0, n);
    proof {
        lemma_find_unique(v@, '[', 0, open as int);
    }
    if open < n && v[n - 1] == ']' {
        str_eq(key.substring_char(0, open), name)
    } else {
        str_eq(key, name)
    }
}

/// Reads the field `name` as a list.
pub fn read_list(entries: &Vec<Entry>, name: &'static str) -> (res: Result<
    Vec<String>,
    ConfigError,
>)
    ensures
        match res {
            Ok(values) => list_field(entry_views(entries@), name@) == Ok::<
                Seq<Seq<char>>,
                ConfigErrorView,
            >(string_views(values@)),
            Err(e) => list_field(entry_views(entries@), name@) == Err::<
                Seq<Seq<char>>,
                ConfigErrorView,
            >(e@),
        },
{
    let mut values: Vec<String> = Vec::new();
    let n: usize = entries.len();
    let mut i: usize = 0;
    while i < n
        invariant
            i <= n,
            n == entries@.len(),
            string_views(values@) == values_named(entry_views(entries@).take(i as int), name@),
        decreases n - i,
    {
        proof {
            let done = entry_views(entries@).take(i + 1);
            assert(done.drop_last() =~= entry_views(entries@).take(i as int));
        }
        if has_base_name(entries[i].key.as_str(), name) {
            values.push(entries[i].value.clone());
        }
        i = i + 1;
    }
    proof {
        assert(entry_views(entries@).take(n as int) =~= entry_views(entries@));
    }
    if values.len() > 0 {
        Ok(values)
    } else {
        Err(ConfigError::SerdeError(missing_field_message(name)))
    }
}

/// A record that can be filled from the entries of a response.
pub trait Record: View + Sized {
    /// The record that a list of entries gives, or why it gives none.
    spec fn of_entries(entries: Seq<(Seq<char>, Seq<char>)>) -> Result<Self::V, ConfigErrorView>;

    /// Fills a record from a list of entries.
    fn from_entries(entries: &Vec<Entry>) -> (res: Result<Self, ConfigError>)
        ensures
            match res {
                Ok(record) => Self::of_entries(entry_views(entries@)) == Ok::<
                    Self::V,
                    ConfigErrorView,
                >(record@),
                Err(e) => Self::of_entries(entry_views(entries@)) == Err::<
                    Self::V,
                    ConfigErrorView,
                >(e@),
            },
    ;
}

/// The record that a response stands for: the response is decoded into
/// entries, and the entries fill the record.
pub open spec fn record_of<T: Record>(response: Seq<char>) -> Result<T::V, ConfigErrorView> {
    match entries_of(response) {
        Err(e) => Err(e),
        Ok(entries) => T::of_entries(entries),
    }
}

/// Decodes a response into a record of the type that the caller names.
pub fn deserialize_str<T: Record>(response: &str) -> (res: Result<T, ConfigError>)
    ensures
        match res {
            Ok(record) => record_of::<T>(response@) == Ok::<T::V, ConfigErrorView>(record@),
            Err(e) => record_of::<T>(response@) == Err::<T::V, ConfigErrorView>(e@),
        },
{
    match to_entries(response) {
        Err(e) => Err(e),
        Ok(entries) => T::from_entries(&entries),
    }
}

} // verus!
