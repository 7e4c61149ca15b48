//! JSON documents as plain values, and reading fields out of them.

use vstd::prelude::*;
use crate::numbers;
use crate::search;
use crate::text;

verus! {

/// A JSON number: its text, and its value where it is a whole number of the
/// range.
pub struct JsonNumber {
    pub text: String,
    pub as_u64: Option<u64>,
    pub as_i64: Option<i64>,
}

/// A JSON document. The entries of an object stand in the order in which they
/// are written.
pub enum Json {
    Null,
    Bool(bool),
    Number(JsonNumber),
    Text(String),
    List(Vec<Json>),
    Object(Vec<(String, Json)>),
}

/// The mathematical reading of a `JsonNumber`.
pub struct NumberView {
    pub text: Seq<char>,
    pub as_u64: Option<u64>,
    pub as_i64: Option<i64>,
}

/// The mathematical reading of a `Json`.
pub enum JsonView {
    Null,
    Bool(bool),
    Number(NumberView),
    Text(Seq<char>),
    List(Seq<JsonView>),
    Object(Seq<(Seq<char>, JsonView)>),
}

impl View for JsonNumber {
    type V = NumberView;

    open spec fn view(&self) -> NumberView {
        NumberView { text: self.text@, as_u64: self.as_u64, as_i64: self.as_i64 }
    }
}

impl Json {
    pub open spec fn view(&self) -> JsonView
        decreases self,
    {
        match self {
            Json::Null => JsonView::Null,
            Json::Bool(b) => JsonView::Bool(*b),
            Json::Number(n) => JsonView::Number(n@),
            Json::Text(t) => JsonView::Text(t@),
            Json::List(items) => JsonView::List(
                Seq::new(
                    items@.len(),
                    |i: int|
                        if 0 <= i < items@.len() {
                            items@[i].view()
                        } else {
                            arbitrary()
                        },
                ),
            ),
            Json::Object(entries) => JsonView::Object(
                Seq::new(
                    entries@.len(),
                    |i: int|
                        if 0 <= i < entries@.len() {
                            (entries@[i].0@, entries@[i].1.view())
                        } else {
                            arbitrary()
                        },
                ),
            ),
        }
    }
}

/// The views of a list of documents.
pub open spec fn views(items: Seq<Json>) -> Seq<JsonView> {
    items.map_values(|j: Json| j@)
}

/// The views of the entries of an object.
pub open spec fn entry_views(entries: Seq<(String, Json)>) -> Seq<(Seq<char>, JsonView)> {
    entries.map_values(|e: (String, Json)| (e.0@, e.1@))
}

pub broadcast proof fn lemma_list_view(items: Vec<Json>)
    ensures
        (#[trigger] Json::List(items)@) == JsonView::List(views(items@)),
{
    assert(Json::List(items)@->List_0 =~= views(items@));
}

pub broadcast proof fn lemma_object_view(entries: Vec<(String, Json)>)
    ensures
        (#[trigger] Json::Object(entries)@) == JsonView::Object(entry_views(entries@)),
{
    assert(Json::Object(entries)@->Object_0 =~= entry_views(entries@));
}

// ---------------------------------------------------------------------------
// Fields
// ---------------------------------------------------------------------------
/// The value of the first entry named `key`.
pub open spec fn entry(entries: Seq<(Seq<char>, JsonView)>, key: Seq<char>) -> Option<JsonView>
    decreases entries.len(),
{
    if entries.len() == 0 {
        None
    } else if entries[0].0 == key {
        Some(entries[0].1)
    } else {
        entry(entries.skip(1), key)
    }
}

/// The field `key` of an object; other documents have no fields.
pub open spec fn field(json: JsonView, key: Seq<char>) -> Option<JsonView> {
    match json {
        JsonView::Object(entries) => entry(entries, key),
        _ => None,
    }
}

/// The field `inner` of the field `outer`.
pub open spec fn field2(json: JsonView, outer: Seq<char>, inner: Seq<char>) -> Option<JsonView> {
    match field(json, outer) {
        Some(j) => field(j, inner),
        None => None,
    }
}

/// The text of a text document.
pub open spec fn as_text(json: JsonView) -> Option<Seq<char>> {
    match json {
        JsonView::Text(t) => Some(t),
        _ => None,
    }
}

/// The items of a list.
pub open spec fn as_list(json: JsonView) -> Option<Seq<JsonView>> {
    match json {
        JsonView::List(items) => Some(items),
        _ => None,
    }
}

/// The items of the field `key`, where that field is a list.
pub open spec fn list_field(json: JsonView, key: Seq<char>) -> Option<Seq<JsonView>> {
    match field(json, key) {
        Some(j) => as_list(j),
        None => None,
    }
}

/// The text of the field `key`, where that field is a text.
pub open spec fn text_field(json: JsonView, key: Seq<char>) -> Option<Seq<char>> {
    match field(json, key) {
        Some(j) => as_text(j),
        None => None,
    }
}

/// `r` is the document that `want` speaks of, if there is one.
pub open spec fn found(r: Option<&Json>, want: Option<JsonView>) -> bool {
    match r {
        Some(j) => want == Some(j@),
        None => want is None,
    }
}

/// `r` is the text that `want` speaks of, if there is one.
pub open spec fn found_text(r: Option<String>, want: Option<Seq<char>>) -> bool {
    match r {
        Some(t) => want == Some(t@),
        None => want is None,
    }
}

impl Json {
    /// The field `key` of an object.
    pub fn get(&self, key: &str) -> (r: Option<&Json>)
        ensures
            found(r, field(self@, key@)),
    {
        broadcast use lemma_object_view;

        match self {
            Json::Object(entries) => {
                let ghost all = entry_views(entries@);
                let mut i: usize = 0;
                assert(all.skip(0) =~= all);
                while i < entries.len()
                    invariant
                        i <= entries@.len(),
                        all == entry_views(entries@),
                        field(self@, key@) == entry(all, key@),
                        entry(all, key@) == entry(all.skip(i as int), key@),
                    decreases entries@.len() - i,
                {
                    let e: &(String, Json) = &entries[i];
                    assert(all.skip(i as int)[0] == (e.0@, e.1@));
                    assert(all.skip(i as int).skip(1) =~= all.skip(i + 1));
                    if text::same(e.0.as_str(), key) {
                        return Some(&e.1);
                    }
                    i = i + 1;
                }
                None
            },
            _ => None,
        }
    }

    /// The field `inner` of the field `outer`.
    pub fn get2(&self, outer: &str, inner: &str) -> (r: Option<&Json>)
        ensures
            found(r, field2(self@, outer@, inner@)),
    {
        match self.get(outer) {
            Some(j) => j.get(inner),
            None => None,
        }
    }

    /// The items of the field `key`, where that field is a list.
    pub fn get_list(&self, key: &str) -> (r: Option<&Vec<Json>>)
        ensures
            match r {
                Some(items) => list_field(self@, key@) == Some(views(items@)),
                None => list_field(self@, key@) is None,
            },
    {
        match self.get(key) {
            Some(j) => j.items(),
            None => None,
        }
    }

    /// The items of a list.
    pub fn items(&self) -> (r: Option<&Vec<Json>>)
        ensures
            match r {
                Some(items) => as_list(self@) == Some(views(items@)),
                None => as_list(self@) is None,
            },
    {
        broadcast use lemma_list_view;

        match self {
            Json::List(items) => Some(items),
            _ => None,
        }
    }

    /// The text of the field `key`, where that field is a text.
    pub fn get_text(&self, key: &str) -> (r: Option<&String>)
        ensures
            match r {
                Some(t) => text_field(self@, key@) == Some(t@),
                None => text_field(self@, key@) is None,
            },
    {
        match self.get(key) {
            Some(Json::Text(t)) => Some(t),
            _ => None,
        }
    }

    /// A copy of the document.
    pub fn copy(&self) -> (r: Json)
        ensures
            r@ == self@,
        decreases self,
    {
        broadcast use {lemma_list_view, lemma_object_view};

        match self {
            Json::Null => Json::Null,
            Json::Bool(b) => Json::Bool(*b),
            Json::Number(n) => Json::Number(
                JsonNumber { text: n.text.clone(), as_u64: n.as_u64, as_i64: n.as_i64 },
            ),
            Json::Text(t) => Json::Text(t.clone()),
            Json::List(items) => {
                let mut r: Vec<Json> = Vec::new();
                let mut i: usize = 0;
                while i < items.len()
                    invariant
                        i <= items@.len(),
                        *self == Json::List(*items),
                        views(r@) == views(items@).take(i as int),
                    decreases items@.len() - i,
                {
                    let ghost before = r@;
                    assert(decreases_to!(*self => self->List_0@[i as int]));
                    let item: Json = items[i].copy();
                    r.push(item);
                    assert(views(r@) =~= views(before).push(items@[i as int]@));
                    i = i + 1;
                    assert(views(items@).take(i as int) =~= views(items@).take(i - 1).push(
                        items@[i - 1]@,
                    ));
                }
                assert(views(items@).take(i as int) =~= views(items@));
                Json::List(r)
            },
            Json::Object(entries) => {
                let mut r: Vec<(String, Json)> = Vec::new();
                let mut i: usize = 0;
                while i < entries.len()
                    invariant
                        i <= entries@.len(),
                        *self == Json::Object(*entries),
                        entry_views(r@) == entry_views(entries@).take(i as int),
                    decreases entries@.len() - i,
                {
                    let ghost before = r@;
                    assert(decreases_to!(*self => self->Object_0@[i as int].1));
                    let e: &(String, Json) = &entries[i];
                    let value: Json = e.1.copy();
                    r.push((e.0.clone(), value));
                    assert(entry_views(r@) =~= entry_views(before).push((e.0@, e.1@)));
                    i = i + 1;
                    assert(entry_views(entries@).take(i as int) =~= entry_views(entries@).take(
                        i - 1,
                    ).push((e.0@, e.1@)));
                }
                assert(entry_views(entries@).take(i as int) =~= entry_views(entries@));
                Json::Object(r)
            },
        }
    }
}

// ---------------------------------------------------------------------------
// Paths
// ---------------------------------------------------------------------------
/// One step of a path: into the field of an object, or to an item of a list by
/// its position.
pub open spec fn step(json: JsonView, segment: Seq<char>) -> Option<JsonView> {
    match json {
        JsonView::Object(entries) => entry(entries, segment),
        JsonView::List(items) => match numbers::parse_unsigned(segment, usize::MAX as nat) {
            Some(n) => if n < items.len() {
                Some(items[n as int])
            } else {
                None
            },
            None => None,
        },
        _ => None,
    }
}

/// The document that the `segments` lead to, one step each.
pub open spec fn walk(json: JsonView, segments: Seq<Seq<char>>) -> Option<JsonView>
    decreases segments.len(),
{
    if segments.len() == 0 {
        Some(json)
    } else {
        match step(json, segments[0]) {
            Some(next) => walk(next, segments.skip(1)),
            None => None,
        }
    }
}

/// The document at a path whose segments are divided by dots.
pub open spec fn at_path(json: JsonView, path: Seq<char>) -> Option<JsonView> {
    walk(json, search::split(path, seq!['.']))
}

fn take_step<'a>(json: &'a Json, segment: &str) -> (r: Option<&'a Json>)
    ensures
        found(r, step(json@, segment@)),
{
    broadcast use {lemma_list_view, lemma_object_view};

    match json {
        Json::Object(_) => json.get(segment),
        Json::List(items) => match numbers::parse_usize(segment) {
            Some(n) => if n < items.len() {
                assert(views(items@)[n as int] == items@[n as int]@);
                Some(&items[n])
            } else {
                None
            },
            None => None,
        },
        _ => None,
    }
}

/// The document at a path whose segments are divided by dots.
pub fn get_path<'a>(value: &'a Json, path: &str) -> (r: Option<&'a Json>)
    ensures
        found(r, at_path(value@, path@)),
{
    proof {
        reveal_strlit(".");
        assert("."@ =~= seq!['.']);
    }
    let segments: Vec<String> = search::split_by(path, ".");
    let ghost all = search::texts(segments@);
    let mut current: &Json = value;
    let mut i: usize = 0;
    assert(all.skip(0) =~= all);
    while i < segments.len()
        invariant
            i <= segments@.len(),
            all == search::texts(segments@),
            all == search::split(path@, seq!['.']),
            at_path(value@, path@) == walk(current@, all.skip(i as int)),
        decreases segments@.len() - i,
    {
        assert(all.skip(i as int)[0] == segments@[i as int]@);
        assert(all.skip(i as int).skip(1) =~= all.skip(i + 1));
        match take_step(current, segments[i].as_str()) {
            Some(next) => {
                current = next;
            },
            None => {
                return None;
            },
        }
        i = i + 1;
    }
    Some(current)
}

// ---------------------------------------------------------------------------
// Building documents
// ---------------------------------------------------------------------------
/// The number `n` as a document.
pub open spec fn number(n: nat) -> JsonView {
    JsonView::Number(
        NumberView { text: numbers::decimal(n), as_u64: Some(n as u64), as_i64: Some(n as i64) },
    )
}

/// The number `n` as a document.
pub fn number_of(n: u32) -> (r: Json)
    ensures
        r@ == number(n as nat),
{
    Json::Number(
        JsonNumber {
            text: numbers::decimal_of(n as u64),
            as_u64: Some(n as u64),
            as_i64: Some(n as i64),
        },
    )
}

/// A text as a document.
pub fn text_of(t: &str) -> (r: Json)
    ensures
        r@ == JsonView::Text(t@),
{
    Json::Text(t.to_string())
}

/// A list as a document.
pub fn list_of(items: Vec<Json>) -> (r: Json)
    ensures
        r@ == JsonView::List(views(items@)),
{
    broadcast use lemma_list_view;

    Json::List(items)
}

/// One entry of an object.
pub fn entry_of(name: &str, value: Json) -> (r: (String, Json))
    ensures
        r.0@ == name@,
        r.1@ == value@,
{
    (name.to_string(), value)
}

/// An object as a document.
pub fn object_of(entries: Vec<(String, Json)>) -> (r: Json)
    ensures
        r@ == JsonView::Object(entry_views(entries@)),
{
    broadcast use lemma_object_view;

    Json::Object(entries)
}

/// A list of texts as a document.
pub open spec fn text_list(texts: Seq<Seq<char>>) -> JsonView {
    JsonView::List(texts.map_values(|t: Seq<char>| JsonView::Text(t)))
}

/// A list of texts as a document.
pub fn text_list_of(texts: &Vec<String>) -> (r: Json)
    ensures
        r@ == text_list(search::texts(texts@)),
{
    let ghost want = search::texts(texts@).map_values(|t: Seq<char>| JsonView::Text(t));
    let mut items: Vec<Json> = Vec::new();
    let mut i: usize = 0;
    while i < texts.len()
        invariant
            i <= texts@.len(),
            want == search::texts(texts@).map_values(|t: Seq<char>| JsonView::Text(t)),
            views(items@) == want.take(i as int),
        decreases texts@.len() - i,
    {
        let ghost before = items@;
        items.push(text_of(texts[i].as_str()));
        i = i + 1;
        proof {
            assert(views(items@) =~= views(before).push(want[i - 1]));
            assert(want.take(i as int) =~= want.take(i - 1).push(want[i - 1]));
        }
    }
    assert(want.take(i as int) =~= want);
    list_of(items)
}

} // verus!
