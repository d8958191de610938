//! Decoding of an escaped value, and of a whole response into entries and
//! a flat map.

use crate::escape::{lemma_unescape_plain, unescape, unescape_bytes, EscapeFault, BACKSLASH};
use crate::text::{
    all_white, chars_of, find_char, find_from, lemma_find_from, lemma_find_unique,
    lemma_trimmed_ignores_margin, trim, trimmed,
};
use vstd::hash_map::StringHashMap;
use vstd::prelude::*;
use vstd::utf8::*;

verus! {

/// Why a response could not be decoded.
#[derive(Debug, PartialEq, Eq)]
pub enum ConfigError {
    /// A line holds no `=`.
    MissingDelimterEqual,
    /// `\x` is not followed by two hexadecimal digits.
    InvalidEscape,
    /// A value ends inside an escape sequence.
    IncompleteEscape,
    /// The unescaped bytes of a value are not UTF-8.
    NonUtf8Escape,
    /// A field of a record could not be filled; the text says why.
    SerdeError(String),
}

/// The mathematical value of a [`ConfigError`].
pub enum ConfigErrorView {
    MissingDelimterEqual,
    InvalidEscape,
    IncompleteEscape,
    NonUtf8Escape,
    SerdeError(Seq<char>),
}

impl View for ConfigError {
    type V = ConfigErrorView;

    open spec fn view(&self) -> ConfigErrorView {
        match self {
            ConfigError::MissingDelimterEqual => ConfigErrorView::MissingDelimterEqual,
            ConfigError::InvalidEscape => ConfigErrorView::InvalidEscape,
            ConfigError::IncompleteEscape => ConfigErrorView::IncompleteEscape,
            ConfigError::NonUtf8Escape => ConfigErrorView::NonUtf8Escape,
            ConfigError::SerdeError(text) => ConfigErrorView::SerdeError(text@),
        }
    }
}

impl Clone for ConfigError {
    fn clone(&self) -> (res: Self)
        ensures
            res == *self,
    {
        match self {
            ConfigError::MissingDelimterEqual => ConfigError::MissingDelimterEqual,
            ConfigError::InvalidEscape => ConfigError::InvalidEscape,
            ConfigError::IncompleteEscape => ConfigError::IncompleteEscape,
            ConfigError::NonUtf8Escape => ConfigError::NonUtf8Escape,
            ConfigError::SerdeError(text) => ConfigError::SerdeError(text.clone()),
        }
    }
}

impl ConfigError {
    /// The text that describes this error.
    pub open spec fn message_text(self) -> Seq<char> {
        match self {
            ConfigError::MissingDelimterEqual => "Missing '=' delimiter in config line"@,
            ConfigError::InvalidEscape => "escape code is not made up of valid hex code"@,
            ConfigError::IncompleteEscape => "escape code is incomplete"@,
            ConfigError::NonUtf8Escape => "escaped value is not valid uft8 after unescaping"@,
            ConfigError::SerdeError(_) => "Value could not be decoded"@,
        }
    }

    /// A field failure with the given description.
    pub fn custom(msg: &str) -> (e: ConfigError)
        ensures
            e@ == ConfigErrorView::SerdeError(msg@),
    {
        ConfigError::SerdeError(msg.to_owned())
    }

    /// The text that describes this error.
    pub fn message(&self) -> (text: String)
        ensures
            text@ == self.message_text(),
    {
        match self {
            ConfigError::MissingDelimterEqual => "Missing '=' delimiter in config line".to_owned(),
            ConfigError::InvalidEscape => "escape code is not made up of valid hex code".to_owned(),
            ConfigError::IncompleteEscape => "escape code is incomplete".to_owned(),
            ConfigError::NonUtf8Escape => {
                "escaped value is not valid uft8 after unescaping".to_owned()
            },
            ConfigError::SerdeError(_) => "Value could not be decoded".to_owned(),
        }
    }
}

/// The error that an escape fault is reported as.
pub open spec fn escape_error(fault: EscapeFault) -> ConfigErrorView {
    match fault {
        EscapeFault::Incomplete => ConfigErrorView::IncompleteEscape,
        EscapeFault::Invalid => ConfigErrorView::InvalidEscape,
    }
}

/// The value that an escaped string stands for: its UTF-8 bytes are
/// unescaped, and the result is read as UTF-8 again.
pub open spec fn decoded(escaped: Seq<char>) -> Result<Seq<char>, ConfigErrorView> {
    match unescape(encode_utf8(escaped)) {
        Err(fault) => Err(escape_error(fault)),
        Ok(bytes) => if valid_utf8(bytes) {
            Ok(decode_utf8(bytes))
        } else {
            Err(ConfigErrorView::NonUtf8Escape)
        },
    }
}

/// The UTF-8 encoding of a scalar other than the backslash holds no
/// backslash byte.
proof fn lemma_encode_scalar_plain(u: u32)
    requires
        u != 0x5c,
    ensures
        forall|i: int| 0 <= i < encode_scalar(u).len() ==> #[trigger] encode_scalar(u)[i] != BACKSLASH,
{
    assert(u <= 0x7f ==> (u & 0x7f) as u8 != 0x5c) by (bit_vector)
        requires
            u != 0x5c,
    ;
    assert((0xc0u8 | ((u >> 6) & 0x1f) as u8) != 0x5c) by (bit_vector);
    assert((0xe0u8 | ((u >> 12) & 0x0f) as u8) != 0x5c) by (bit_vector);
    assert((0xf0u8 | ((u >> 18) & 0x07) as u8) != 0x5c) by (bit_vector);
    assert((0x80u8 | (u & 0x3f) as u8) != 0x5c) by (bit_vector);
    assert((0x80u8 | ((u >> 6) & 0x3f) as u8) != 0x5c) by (bit_vector);
    assert((0x80u8 | ((u >> 12) & 0x3f) as u8) != 0x5c) by (bit_vector);
}

/// The UTF-8 encoding of a string without backslashes holds no backslash
/// byte.
pub proof fn lemma_encode_plain(s: Seq<char>)
    requires
        !s.contains('\\'),
    ensures
        forall|i: int| 0 <= i < encode_utf8(s).len() ==> #[trigger] encode_utf8(s)[i] != BACKSLASH,
    decreases s.len(),
{
    if s.len() > 0 {
        let rest = s.drop_first();
        assert forall|j: int| 0 <= j < rest.len() implies rest[j] != '\\' by {}
        assert(s[0] as u32 != 0x5c) by {
            char_u32_cast(s[0], s[0] as u32);
            char_u32_cast('\\', 0x5c);
        }
        lemma_encode_scalar_plain(s[0] as u32);
        lemma_encode_plain(rest);
        let head = encode_scalar(s[0] as u32);
        let tail = encode_utf8(rest);
        assert forall|i: int| 0 <= i < encode_utf8(s).len() implies #[trigger] encode_utf8(s)[i]
            != BACKSLASH by {
            if i < head.len() {
                assert(encode_utf8(s)[i] == head[i]);
            } else {
                assert(encode_utf8(s)[i] == tail[i - head.len()]);
            }
        }
    }
}

/// A string without backslashes decodes to itself.
pub proof fn lemma_unprintf_identity(s: Seq<char>)
    requires
        !s.contains('\\'),
    ensures
        decoded(s) == Ok::<Seq<char>, ConfigErrorView>(s),
{
    lemma_encode_plain(s);
    lemma_unescape_plain(encode_utf8(s));
    encode_utf8_valid_utf8(s);
    encode_utf8_decode_utf8(s);
}

/// Reverses printf-style backslash escaping.
pub fn unprintf(escaped: &str) -> (res: Result<String, ConfigError>)
    ensures
        match res {
            Ok(value) => decoded(escaped@) == Ok::<Seq<char>, ConfigErrorView>(value@),
            Err(e) => decoded(escaped@) == Err::<Seq<char>, ConfigErrorView>(e@),
        },
        res matches Err(e) ==> e is IncompleteEscape || e is InvalidEscape || e is NonUtf8Escape,
{
    match unescape_bytes(escaped.as_bytes()) {
        Err(EscapeFault::Incomplete) => Err(ConfigError::IncompleteEscape),
        Err(EscapeFault::Invalid) => Err(ConfigError::InvalidEscape),
        Ok(bytes) => match String::from_utf8(bytes) {
            Ok(value) => Ok(value),
            Err(_) => Err(ConfigError::NonUtf8Escape),
        },
    }
}

/// One `key=value` line of a response, with its value decoded.
#[derive(Debug, PartialEq, Eq)]
pub struct Entry {
    pub key: String,
    pub value: String,
}

impl View for Entry {
    type V = (Seq<char>, Seq<char>);

    open spec fn view(&self) -> (Seq<char>, Seq<char>) {
        (self.key@, self.value@)
    }
}

impl Clone for Entry {
    fn clone(&self) -> (res: Self)
        ensures
            res == *self,
    {
        Entry { key: self.key.clone(), value: self.value.clone() }
    }
}

/// The mathematical values of a list of entries.
pub open spec fn entry_views(entries: Seq<Entry>) -> Seq<(Seq<char>, Seq<char>)> {
    entries.map_values(|e: Entry| e@)
}

/// `line` without one trailing carriage return.
pub open spec fn without_cr(line: Seq<char>) -> Seq<char> {
    if line.len() > 0 && line.last() == '\r' {
        line.drop_last()
    } else {
        line
    }
}

/// The lines of `text` from index `i` on. A line ends at a line feed or at
/// the end of the text; a carriage return just before the line feed belongs
/// to the line ending.
pub open spec fn lines_from(text: Seq<char>, i: int) -> Seq<Seq<char>>
    decreases text.len() - i,
{
    if i < 0 || i >= text.len() {
        Seq::empty()
    } else {
        let end = find_from(text, '\n', i);
        let raw = text.subrange(i, end);
        if end < text.len() {
            proof {
                lemma_find_from(text, '\n', i);
            }
            seq![without_cr(raw)] + lines_from(text, end + 1)
        } else {
            seq![raw]
        }
    }
}

/// The lines of `text`.
pub open spec fn lines_of(text: Seq<char>) -> Seq<Seq<char>> {
    lines_from(text, 0)
}

/// The entry that a line holds: the key is what stands before the first
/// `=`, as it is; the value is what follows it, decoded.
pub open spec fn entry_of(line: Seq<char>) -> Result<(Seq<char>, Seq<char>), ConfigErrorView> {
    let k = find_from(line, '=', 0);
    if k >= line.len() {
        Err(ConfigErrorView::MissingDelimterEqual)
    } else {
        match decoded(line.subrange(k + 1, line.len() as int)) {
            Err(e) => Err(e),
            Ok(value) => Ok((line.subrange(0, k), value)),
        }
    }
}

/// The entries of the lines that are not empty, in order; the first line
/// that holds no entry decides the error.
pub open spec fn gather(lines: Seq<Seq<char>>) -> Result<
    Seq<(Seq<char>, Seq<char>)>,
    ConfigErrorView,
>
    decreases lines.len(),
{
    if lines.len() == 0 {
        Ok(Seq::empty())
    } else if lines[0].len() == 0 {
        gather(lines.drop_first())
    } else {
        match entry_of(lines[0]) {
            Err(e) => Err(e),
            Ok(entry) => follow(seq![entry], gather(lines.drop_first())),
        }
    }
}

/// `done` followed by what `rest` holds, or the error of `rest`.
pub open spec fn follow(
    done: Seq<(Seq<char>, Seq<char>)>,
    rest: Result<Seq<(Seq<char>, Seq<char>)>, ConfigErrorView>,
) -> Result<Seq<(Seq<char>, Seq<char>)>, ConfigErrorView> {
    match rest {
        Err(e) => Err(e),
        Ok(more) => Ok(done + more),
    }
}

/// The entries of a response: of its lines, once the white space around
/// the whole response is removed.
pub open spec fn entries_of(response: Seq<char>) -> Result<
    Seq<(Seq<char>, Seq<char>)>,
    ConfigErrorView,
> {
    gather(lines_of(trimmed(response)))
}

/// The map that a list of entries amounts to: of two entries with one key,
/// the later one stays.
pub open spec fn flat_map(entries: Seq<(Seq<char>, Seq<char>)>) -> Map<Seq<char>, Seq<char>>
    decreases entries.len(),
{
    if entries.len() == 0 {
        Map::empty()
    } else {
        flat_map(entries.drop_last()).insert(entries.last().0, entries.last().1)
    }
}

/// What a line adds to the entries of the lines that follow it.
spec fn line_then(
    line: Seq<char>,
    rest: Result<Seq<(Seq<char>, Seq<char>)>, ConfigErrorView>,
) -> Result<Seq<(Seq<char>, Seq<char>)>, ConfigErrorView> {
    if line.len() == 0 {
        rest
    } else {
        match entry_of(line) {
            Err(e) => Err(e),
            Ok(entry) => follow(seq![entry], rest),
        }
    }
}

proof fn lemma_gather_step(line: Seq<char>, rest: Seq<Seq<char>>)
    ensures
        gather(seq![line] + rest) == line_then(line, gather(rest)),
{
    assert((seq![line] + rest).drop_first() =~= rest);
}

proof fn lemma_follow_push(
    done: Seq<(Seq<char>, Seq<char>)>,
    entry: (Seq<char>, Seq<char>),
    rest: Result<Seq<(Seq<char>, Seq<char>)>, ConfigErrorView>,
)
    ensures
        follow(done, follow(seq![entry], rest)) == follow(done.push(entry), rest),
{
    if rest is Ok {
        assert(done + (seq![entry] + rest->Ok_0) =~= done.push(entry) + rest->Ok_0);
    }
}

/// Decodes the line that `v[from..to]` holds, where `v` holds the
/// characters of `text`. An empty line holds no entry.
fn to_entry(text: &str, v: &Vec<char>, from: usize, to: usize) -> (res: Result<
    Option<Entry>,
    ConfigError,
>)
    requires
        v@ == text@,
        from <= to <= v@.len(),
    ensures
        from == to ==> res == Ok::<Option<Entry>, ConfigError>(None),
        from < to ==> match res {
            Ok(Some(entry)) => entry_of(v@.subrange(from as int, to as int)) == Ok::<
                _,
                ConfigErrorView,
            >(entry@),
            Ok(None) => false,
            Err(e) => entry_of(v@.subrange(from as int, to as int)) == Err::<
                (Seq<char>, Seq<char>),
                _,
            >(e@),
        },
        res matches Err(e) ==> !(e is SerdeError),
{
    if from == to {
        return Ok(None);
    }
    let ghost line = v@.subrange(from as int, to as int);
    let k: usize = find_char(v, '=', from, to);
    proof {
        lemma_find_unique(line, '=', 0, k - from);
    }
    if k == to {
        return Err(ConfigError::MissingDelimterEqual);
    }
    let key = text.substring_char(from, k);
    let escaped = text.substring_char(k + 1, to);
    proof {
        assert(key@ =~= line.subrange(0, k - from));
        assert(escaped@ =~= line.subrange(k - from + 1, line.len() as int));
    }
    match unprintf(escaped) {
        Err(e) => Err(e),
        Ok(value) => Ok(Some(Entry { key: key.to_owned(), value })),
    }
}

/// Decodes a response into its entries, in the order of its lines.
pub fn to_entries(response: &str) -> (res: Result<Vec<Entry>, ConfigError>)
    ensures
        match res {
            Ok(entries) => entries_of(response@) == Ok::<_, ConfigErrorView>(
                entry_views(entries@),
            ),
            Err(e) => entries_of(response@) == Err::<Seq<(Seq<char>, Seq<char>)>, _>(e@),
        },
        res matches Err(e) ==> !(e is SerdeError),
{
    let text = trim(response);
    let v = chars_of(text);
    let n: usize = v.len();
    let mut entries: Vec<Entry> = Vec::new();
    let mut i: usize = 0;
    while i < n
        invariant
            v@ == text@,
            text@ == trimmed(response@),
            n == v@.len(),
            i <= n,
            gather(lines_of(v@)) == follow(entry_views(entries@), gather(lines_from(v@, i as int))),
        decreases n - i,
    {
        let end: usize = find_char(&v, '\n', i, n);
        let stop: usize = if end < n && i < end && v[end - 1] == '\r' {
            (end - 1) as usize
        } else {
            end
        };
        let ghost line = v@.subrange(i as int, stop as int);
        let ghost rest = if end < n {
            lines_from(v@, end + 1)
        } else {
            Seq::empty()
        };
        let ghost done = entry_views(entries@);
        proof {
            let raw = v@.subrange(i as int, end as int);
            lemma_find_unique(v@, '\n', i as int, end as int);
            assert(line =~= if end < n {
                without_cr(raw)
            } else {
                raw
            });
            lemma_gather_step(line, rest);
        }
        match to_entry(text, &v, i, stop) {
            Err(e) => {
                return Err(e);
            },
            Ok(None) => {},
            Ok(Some(entry)) => {
                proof {
                    assert(entry_views(entries@.push(entry)) =~= done.push(entry@));
                    lemma_follow_push(done, entry@, gather(rest));
                }
                entries.push(entry);
            },
        }
        if end < n {
            i = end + 1;
        } else {
            i = n;
        }
    }
    Ok(entries)
}

/// The mathematical value of a map of strings.
pub open spec fn value_views(map: Map<Seq<char>, String>) -> Map<Seq<char>, Seq<char>> {
    map.map_values(|value: String| value@)
}

/// Gathers entries into a map from key to value. Where a key occurs more
/// than once, its last value stays.
pub fn flatten(entries: &Vec<Entry>) -> (map: StringHashMap<String>)
    ensures
        value_views(map@) == flat_map(entry_views(entries@)),
{
    let mut map: StringHashMap<String> = StringHashMap::new();
    let n: usize = entries.len();
    let mut i: usize = 0;
    while i < n
        invariant
            i <= n,
            n == entries@.len(),
            value_views(map@) == flat_map(entry_views(entries@).take(i as int)),
        decreases n - i,
    {
        map.insert(entries[i].key.clone(), entries[i].value.clone());
        proof {
            let done = entry_views(entries@).take(i + 1);
            assert(done.drop_last() =~= entry_views(entries@).take(i as int));
        }
        i = i + 1;
    }
    proof {
        assert(entry_views(entries@).take(n as int) =~= entry_views(entries@));
    }
    map
}

/// Decodes a response into a map from key to decoded value.
pub fn to_map(response: &str) -> (res: Result<StringHashMap<String>, ConfigError>)
    ensures
        match res {
            Ok(map) => entries_of(response@) matches Ok(entries) && value_views(map@) == flat_map(
                entries,
            ),
            Err(e) => entries_of(response@) == Err::<Seq<(Seq<char>, Seq<char>)>, _>(e@),
        },
        res matches Err(e) ==> !(e is SerdeError),
{
    match to_entries(response) {
        Err(e) => Err(e),
        Ok(entries) => Ok(flatten(&entries)),
    }
}

/// White space before and after a response does not change its entries.
pub proof fn lemma_margin_is_insignificant(before: Seq<char>, response: Seq<char>, after: Seq<char>)
    requires
        all_white(before),
        all_white(after),
    ensures
        entries_of(before + response + after) == entries_of(response),
{
    lemma_trimmed_ignores_margin(before, response, after);
}

/// A line that is not empty and holds no `=` makes the response fail: with
/// the missing delimiter, where every line before it is empty or holds an
/// entry.
pub proof fn lemma_missing_delimiter(response: Seq<char>, i: int)
    requires
        0 <= i < lines_of(trimmed(response)).len(),
        lines_of(trimmed(response))[i].len() > 0,
        !lines_of(trimmed(response))[i].contains('='),
    ensures
        entries_of(response) is Err,
        (forall|j: int|
            0 <= j < i ==> (#[trigger] lines_of(trimmed(response))[j]).len() == 0 || entry_of(
                lines_of(trimmed(response))[j],
            ) is Ok) ==> entries_of(response) == Err::<Seq<(Seq<char>, Seq<char>)>, _>(
            ConfigErrorView::MissingDelimterEqual,
        ),
{
    lemma_gather_missing_delimiter(lines_of(trimmed(response)), i);
}

proof fn lemma_gather_missing_delimiter(lines: Seq<Seq<char>>, i: int)
    requires
        0 <= i < lines.len(),
        lines[i].len() > 0,
        !lines[i].contains('='),
    ensures
        gather(lines) is Err,
        (forall|j: int| 0 <= j < i ==> (#[trigger] lines[j]).len() == 0 || entry_of(lines[j]) is Ok)
            ==> gather(lines) == Err::<Seq<(Seq<char>, Seq<char>)>, _>(
            ConfigErrorView::MissingDelimterEqual,
        ),
    decreases lines.len(),
{
    if i == 0 {
        let line = lines[0];
        lemma_find_from(line, '=', 0);
    } else {
        let rest = lines.drop_first();
        lemma_gather_missing_delimiter(rest, i - 1);
        if forall|j: int| 0 <= j < i ==> (#[trigger] lines[j]).len() == 0 || entry_of(lines[j]) is Ok {
            assert forall|j: int| 0 <= j < i - 1 implies (#[trigger] rest[j]).len() == 0
                || entry_of(rest[j]) is Ok by {}
        }
    }
}

/// The keys of the map are the keys of the entries.
pub proof fn lemma_flat_map_keys(entries: Seq<(Seq<char>, Seq<char>)>, key: Seq<char>)
    ensures
        flat_map(entries).contains_key(key) <==> exists|i: int|
            0 <= i < entries.len() && (#[trigger] entries[i]).0 == key,
    decreases entries.len(),
{
    if entries.len() > 0 {
        let before = entries.drop_last();
        lemma_flat_map_keys(before, key);
        if flat_map(entries).contains_key(key) && entries.last().0 != key {
            let i = choose|i: int| 0 <= i < before.len() && (#[trigger] before[i]).0 == key;
            assert(entries[i].0 == key);
        }
        if exists|i: int| 0 <= i < entries.len() && (#[trigger] entries[i]).0 == key {
            let i = choose|i: int| 0 <= i < entries.len() && (#[trigger] entries[i]).0 == key;
            if i < before.len() {
                assert(before[i].0 == key);
            }
        }
    }
}

/// Of the entries with one key, the last one gives the value in the map.
pub proof fn lemma_last_value_stays(entries: Seq<(Seq<char>, Seq<char>)>, i: int)
    requires
        0 <= i < entries.len(),
        forall|j: int| i < j < entries.len() ==> (#[trigger] entries[j]).0 != entries[i].0,
    ensures
        flat_map(entries).contains_key(entries[i].0),
        flat_map(entries)[entries[i].0] == entries[i].1,
    decreases entries.len(),
{
    if i < entries.len() - 1 {
        let before = entries.drop_last();
        assert forall|j: int| i < j < before.len() implies (#[trigger] before[j]).0
            != before[i].0 by {}
        lemma_last_value_stays(before, i);
    }
}

} // verus!
