//! Reading values out of documents whose fields go by several names.

use vstd::prelude::*;
use crate::json;
use crate::json::{Json, JsonView};
use crate::models;
use crate::moment;
use crate::moment::Timestamp;
use crate::numbers;
use crate::search;
use crate::text;

verus! {

/// The texts of a list of string slices.
pub open spec fn names(keys: Seq<&str>) -> Seq<Seq<char>> {
    keys.map_values(|k: &str| k@)
}

/// What `read` makes of the document at the first of the paths `keys` at which
/// there is a document that it can read.
pub open spec fn first_of<A>(
    json: JsonView,
    keys: Seq<Seq<char>>,
    read: spec_fn(JsonView) -> Option<A>,
) -> Option<A>
    decreases keys.len(),
{
    if keys.len() == 0 {
        None
    } else {
        let here = match json::at_path(json, keys[0]) {
            Some(j) => read(j),
            None => None,
        };
        if here is Some {
            here
        } else {
            first_of(json, keys.skip(1), read)
        }
    }
}

// ---------------------------------------------------------------------------
// Readers
// ---------------------------------------------------------------------------
/// A text, or the text of a number or of a truth value.
pub open spec fn string_value(json: JsonView) -> Option<Seq<char>> {
    match json {
        JsonView::Text(t) => Some(t),
        JsonView::Number(n) => Some(n.text),
        JsonView::Bool(b) => Some(
            if b {
                "true"@
            } else {
                "false"@
            },
        ),
        _ => None,
    }
}

/// A whole number, or a text of digits that may be grouped by commas.
pub open spec fn count_value(json: JsonView) -> Option<u64> {
    match json {
        JsonView::Number(n) => n.as_u64,
        JsonView::Text(t) => match numbers::parse_unsigned(
            search::without_char(t, ','),
            u64::MAX as nat,
        ) {
            Some(n) => Some(n as u64),
            None => None,
        },
        _ => None,
    }
}

/// The texts that stand for true.
pub open spec fn yes_words() -> Seq<Seq<char>> {
    seq!["1"@, "true"@, "TRUE"@, "yes"@, "YES"@]
}

/// The texts that stand for false.
pub open spec fn no_words() -> Seq<Seq<char>> {
    seq!["0"@, "false"@, "FALSE"@, "no"@, "NO"@]
}

/// A truth value, a whole number other than zero, or a word for yes or no.
pub open spec fn bool_value(json: JsonView) -> Option<bool> {
    match json {
        JsonView::Bool(b) => Some(b),
        JsonView::Number(n) => match n.as_i64 {
            Some(i) => Some(i != 0),
            None => None,
        },
        JsonView::Text(t) => if yes_words().contains(t) {
            Some(true)
        } else if no_words().contains(t) {
            Some(false)
        } else {
            None
        },
        _ => None,
    }
}

/// The second `secs`, where it has a date.
pub open spec fn second_of(secs: int) -> Option<Timestamp> {
    if moment::FIRST_SECOND <= secs <= moment::LAST_SECOND {
        Some(Timestamp { secs: secs as i64, nanos: 0 })
    } else {
        None
    }
}

/// A number of seconds, an RFC 3339 text, or a number of seconds as text.
pub open spec fn time_value(json: JsonView) -> Option<Timestamp> {
    match json {
        JsonView::Number(n) => match n.as_i64 {
            Some(i) => second_of(i as int),
            None => None,
        },
        JsonView::Text(t) => if moment::rfc3339_parsed(t) is Some {
            moment::rfc3339_parsed(t)
        } else {
            match numbers::parse_signed(t, i64::MAX as nat) {
                Some(i) => second_of(i),
                None => None,
            }
        },
        _ => None,
    }
}

pub open spec fn string_reader() -> spec_fn(JsonView) -> Option<Seq<char>> {
    |j: JsonView| string_value(j)
}

pub open spec fn count_reader() -> spec_fn(JsonView) -> Option<u64> {
    |j: JsonView| count_value(j)
}

pub open spec fn bool_reader() -> spec_fn(JsonView) -> Option<bool> {
    |j: JsonView| bool_value(j)
}

pub open spec fn time_reader() -> spec_fn(JsonView) -> Option<Timestamp> {
    |j: JsonView| time_value(j)
}

fn read_string(value: &Json) -> (r: Option<String>)
    ensures
        json::found_text(r, string_value(value@)),
{
    match value {
        Json::Text(t) => Some(t.clone()),
        Json::Number(n) => Some(n.text.clone()),
        Json::Bool(b) => Some(
            if *b {
                "true".to_string()
            } else {
                "false".to_string()
            },
        ),
        _ => None,
    }
}

fn read_count(value: &Json) -> (r: Option<u64>)
    ensures
        r == count_value(value@),
{
    match value {
        Json::Number(n) => n.as_u64,
        Json::Text(t) => {
            let digits: String = search::remove_char(t.as_str(), ',');
            numbers::parse_u64(digits.as_str())
        },
        _ => None,
    }
}

/// Whether `t` is one of `words`.
pub fn is_one_of(t: &str, words: &[&str]) -> (r: bool)
    ensures
        r == names(words@).contains(t@),
{
    let ghost all = names(words@);
    let mut i: usize = 0;
    while i < words.len()
        invariant
            i <= words@.len(),
            all == names(words@),
            forall|j: int| 0 <= j < i ==> all[j] != t@,
        decreases words@.len() - i,
    {
        if text::same(words[i], t) {
            assert(all[i as int] == t@);
            return true;
        }
        i = i + 1;
    }
    false
}

fn read_bool(value: &Json) -> (r: Option<bool>)
    ensures
        r == bool_value(value@),
{
    match value {
        Json::Bool(b) => Some(*b),
        Json::Number(n) => match n.as_i64 {
            Some(i) => Some(i != 0),
            None => None,
        },
        Json::Text(t) => {
            let yes: Vec<&str> = vec!["1", "true", "TRUE", "yes", "YES"];
            let no: Vec<&str> = vec!["0", "false", "FALSE", "no", "NO"];
            assert(names(yes@) =~= yes_words());
            assert(names(no@) =~= no_words());
            if is_one_of(t.as_str(), yes.as_slice()) {
                Some(true)
            } else if is_one_of(t.as_str(), no.as_slice()) {
                Some(false)
            } else {
                None
            }
        },
        _ => None,
    }
}

fn read_time(value: &Json) -> (r: Option<Timestamp>)
    ensures
        r == time_value(value@),
        match r {
            Some(at) => at.wf(),
            None => true,
        },
{
    match value {
        Json::Number(n) => match n.as_i64 {
            Some(i) => moment::second(i),
            None => None,
        },
        Json::Text(t) => {
            let read: Option<Timestamp> = moment::parse_rfc3339(t.as_str());
            if read.is_some() {
                read
            } else {
                match numbers::parse_i64(t.as_str()) {
                    Some(i) => moment::second(i),
                    None => None,
                }
            }
        },
        _ => None,
    }
}

// ---------------------------------------------------------------------------
// The first of several fields
// ---------------------------------------------------------------------------
/// The first text, number or truth value at one of the paths, as text.
pub open spec fn string_at(json: JsonView, keys: Seq<Seq<char>>) -> Option<Seq<char>> {
    first_of(json, keys, string_reader())
}

/// The first count at one of the paths.
pub open spec fn count_at(json: JsonView, keys: Seq<Seq<char>>) -> Option<u64> {
    first_of(json, keys, count_reader())
}

/// The first truth value at one of the paths.
pub open spec fn bool_at(json: JsonView, keys: Seq<Seq<char>>) -> Option<bool> {
    first_of(json, keys, bool_reader())
}

/// The first point in time at one of the paths.
pub open spec fn time_at(json: JsonView, keys: Seq<Seq<char>>) -> Option<Timestamp> {
    first_of(json, keys, time_reader())
}

/// The first text, number or truth value at one of the paths, as text.
pub fn first_string(value: &Json, keys: &[&str]) -> (r: Option<String>)
    ensures
        json::found_text(r, string_at(value@, names(keys@))),
        models::opt_text(r) == string_at(value@, names(keys@)),
{
    let ghost all = names(keys@);
    let mut i: usize = 0;
    assert(all.skip(0) =~= all);
    while i < keys.len()
        invariant
            i <= keys@.len(),
            all == names(keys@),
            string_at(value@, all) == string_at(value@, all.skip(i as int)),
        decreases keys@.len() - i,
    {
        assert(all.skip(i as int)[0] == keys@[i as int]@);
        assert(all.skip(i as int).skip(1) =~= all.skip(i + 1));
        if let Some(j) = json::get_path(value, keys[i]) {
            let read: Option<String> = read_string(j);
            if read.is_some() {
                return read;
            }
        }
        i = i + 1;
    }
    None
}

/// The first count at one of the paths.
pub fn first_u64(value: &Json, keys: &[&str]) -> (r: Option<u64>)
    ensures
        r == count_at(value@, names(keys@)),
{
    let ghost all = names(keys@);
    let mut i: usize = 0;
    assert(all.skip(0) =~= all);
    while i < keys.len()
        invariant
            i <= keys@.len(),
            all == names(keys@),
            count_at(value@, all) == count_at(value@, all.skip(i as int)),
        decreases keys@.len() - i,
    {
        assert(all.skip(i as int)[0] == keys@[i as int]@);
        assert(all.skip(i as int).skip(1) =~= all.skip(i + 1));
        if let Some(j) = json::get_path(value, keys[i]) {
            let read: Option<u64> = read_count(j);
            if read.is_some() {
                return read;
            }
        }
        i = i + 1;
    }
    None
}

/// The first truth value at one of the paths.
pub fn first_bool(value: &Json, keys: &[&str]) -> (r: Option<bool>)
    ensures
        r == bool_at(value@, names(keys@)),
{
    let ghost all = names(keys@);
    let mut i: usize = 0;
    assert(all.skip(0) =~= all);
    while i < keys.len()
        invariant
            i <= keys@.len(),
            all == names(keys@),
            bool_at(value@, all) == bool_at(value@, all.skip(i as int)),
        decreases keys@.len() - i,
    {
        assert(all.skip(i as int)[0] == keys@[i as int]@);
        assert(all.skip(i as int).skip(1) =~= all.skip(i + 1));
        if let Some(j) = json::get_path(value, keys[i]) {
            let read: Option<bool> = read_bool(j);
            if read.is_some() {
                return read;
            }
        }
        i = i + 1;
    }
    None
}

/// The first point in time at one of the paths.
pub fn first_timestamp(value: &Json, keys: &[&str]) -> (r: Option<Timestamp>)
    ensures
        r == time_at(value@, names(keys@)),
        match r {
            Some(at) => at.wf(),
            None => true,
        },
{
    let ghost all = names(keys@);
    let mut i: usize = 0;
    assert(all.skip(0) =~= all);
    while i < keys.len()
        invariant
            i <= keys@.len(),
            all == names(keys@),
            time_at(value@, all) == time_at(value@, all.skip(i as int)),
        decreases keys@.len() - i,
    {
        assert(all.skip(i as int)[0] == keys@[i as int]@);
        assert(all.skip(i as int).skip(1) =~= all.skip(i + 1));
        if let Some(j) = json::get_path(value, keys[i]) {
            let read: Option<Timestamp> = read_time(j);
            if read.is_some() {
                return read;
            }
        }
        i = i + 1;
    }
    None
}

/// The first object at one of the paths.
pub open spec fn object_at(json: JsonView, keys: Seq<Seq<char>>) -> Option<JsonView> {
    first_of(
        json,
        keys,
        |j: JsonView|
            if j is Object {
                Some(j)
            } else {
                None
            },
    )
}

/// The first object at one of the paths.
pub fn first_object<'a>(value: &'a Json, keys: &[&str]) -> (r: Option<&'a Json>)
    ensures
        json::found(r, object_at(value@, names(keys@))),
{
    let ghost all = names(keys@);
    let mut i: usize = 0;
    assert(all.skip(0) =~= all);
    while i < keys.len()
        invariant
            i <= keys@.len(),
            all == names(keys@),
            object_at(value@, all) == object_at(value@, all.skip(i as int)),
        decreases keys@.len() - i,
    {
        assert(all.skip(i as int)[0] == keys@[i as int]@);
        assert(all.skip(i as int).skip(1) =~= all.skip(i + 1));
        if let Some(j) = json::get_path(value, keys[i]) {
            if let Json::Object(_) = j {
                return Some(j);
            }
        }
        i = i + 1;
    }
    None
}

} // verus!
