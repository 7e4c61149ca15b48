//! Where documents hold what is read out of them.

use vstd::prelude::*;
use crate::json;
use crate::json::JsonView;
use crate::moment;
use crate::moment::Timestamp;
use crate::numbers;
use crate::reading;
use crate::search;

verus! {

// ---------------------------------------------------------------------------
// Paths
// ---------------------------------------------------------------------------
/// The field of an object is the value of the first entry with its name; there is
/// none where no entry has the name.
pub proof fn law_field_is_the_first_entry(entries: Seq<(Seq<char>, JsonView)>, key: Seq<char>)
    ensures
        match json::field(JsonView::Object(entries), key) {
            Some(j) => exists|i: int|
                0 <= i < entries.len() && (#[trigger] entries[i]).0 == key && entries[i].1 == j
                    && forall|k: int| 0 <= k < i ==> (#[trigger] entries[k]).0 != key,
            None => forall|k: int| 0 <= k < entries.len() ==> (#[trigger] entries[k]).0 != key,
        },
    decreases entries.len(),
{
    if entries.len() > 0 {
        if entries[0].0 == key {
        } else {
            let rest = entries.skip(1);
            law_field_is_the_first_entry(rest, key);
            assert forall|k: int| 0 < k < entries.len() implies entries[k] == rest[k - 1] by {}
            match json::entry(rest, key) {
                Some(j) => {
                    let i = choose|i: int|
                        0 <= i < rest.len() && (#[trigger] rest[i]).0 == key && rest[i].1 == j
                            && forall|k: int| 0 <= k < i ==> (#[trigger] rest[k]).0 != key;
                    assert(entries[i + 1] == rest[i]);
                    assert forall|k: int| 0 <= k < i + 1 implies (#[trigger] entries[k]).0
                        != key by {
                        if k > 0 {
                            assert(entries[k] == rest[k - 1]);
                        }
                    }
                },
                None => {
                    assert forall|k: int| 0 <= k < entries.len() implies (
                    #[trigger] entries[k]).0 != key by {
                        if k > 0 {
                            assert(entries[k] == rest[k - 1]);
                        }
                    }
                },
            }
        }
    }
}

/// A text without the character is one piece.
pub proof fn lemma_split_whole(s: Seq<char>, c: char)
    requires
        !s.contains(c),
    ensures
        search::split(s, seq![c]) == seq![s],
{
    let sep = seq![c];
    if search::find(s, sep) is Some {
        let i = choose|i: int| search::first_at(s, sep, i);
        assert(search::occurs_at(s, sep, i));
        assert(s.subrange(i, i + 1)[0] == sep[0]);
        assert(s[i] == c);
    }
}

/// The first piece of a text ends at the first of the characters.
pub proof fn lemma_split_first(a: Seq<char>, c: char, b: Seq<char>)
    requires
        !a.contains(c),
    ensures
        search::split(a + seq![c] + b, seq![c]) == seq![a] + search::split(b, seq![c]),
{
    let s = a + seq![c] + b;
    let sep = seq![c];
    let i = a.len() as int;
    assert(s.subrange(i, i + 1) =~= sep);
    assert(search::occurs_at(s, sep, i));
    assert forall|j: int| 0 <= j < i implies !search::occurs_at(s, sep, j) by {
        if search::occurs_at(s, sep, j) {
            assert(s.subrange(j, j + 1)[0] == sep[0]);
            assert(s[j] == a[j]);
            assert(a.contains(c));
        }
    }
    search::lemma_first_at_is_find(s, sep, i);
    assert(s.take(i) =~= a);
    assert(s.skip(i + sep.len()) =~= b);
}

/// A path that is one name leads to the field with that name, or to the item of a
/// list at that place; a path that goes on leads on from there.
pub proof fn law_paths_lead_from_field_to_field(doc: JsonView, name: Seq<char>, rest: Seq<char>)
    requires
        !name.contains('.'),
    ensures
        doc is Object ==> json::at_path(doc, name) == json::field(doc, name),
        match doc {
            JsonView::List(items) => match numbers::parse_unsigned(name, usize::MAX as nat) {
                Some(n) => json::at_path(doc, name) == if n < items.len() {
                    Some(items[n as int])
                } else {
                    None
                },
                None => json::at_path(doc, name) is None,
            },
            JsonView::Object(_) => true,
            _ => json::at_path(doc, name) is None,
        },
        json::at_path(doc, name + seq!['.'] + rest) == match json::at_path(doc, name) {
            Some(next) => json::at_path(next, rest),
            None => None,
        },
{
    lemma_split_whole(name, '.');
    lemma_split_first(name, '.', rest);
    let one = seq![name];
    reveal_with_fuel(json::walk, 3);
    assert(one.skip(1) =~= Seq::<Seq<char>>::empty());
    let more = search::split(rest, seq!['.']);
    assert((one + more).skip(1) =~= more);
    assert((one + more)[0] == name);
}

// ---------------------------------------------------------------------------
// Values
// ---------------------------------------------------------------------------
/// The text that stands in a document: a text as it is, a number or a truth value
/// as it is written.
pub open spec fn text_in(j: Option<JsonView>) -> Option<Seq<char>> {
    match j {
        Some(JsonView::Text(t)) => Some(t),
        Some(JsonView::Number(n)) => Some(n.text),
        Some(JsonView::Bool(true)) => Some("true"@),
        Some(JsonView::Bool(false)) => Some("false"@),
        _ => None,
    }
}

/// The count that stands in a document: a whole number, or a text that is one once
/// commas are left out.
pub open spec fn count_in(j: Option<JsonView>) -> Option<u64> {
    match j {
        Some(JsonView::Number(n)) => n.as_u64,
        Some(JsonView::Text(t)) => match numbers::parse_unsigned(
            t.filter(|c: char| c != ','),
            u64::MAX as nat,
        ) {
            Some(n) => Some(n as u64),
            None => None,
        },
        _ => None,
    }
}

/// The answer that stands in a document: a truth value, a whole number, which is
/// no if it is zero, or one of the words for yes and no.
pub open spec fn answer_in(j: Option<JsonView>) -> Option<bool> {
    match j {
        Some(JsonView::Bool(b)) => Some(b),
        Some(JsonView::Number(n)) => match n.as_i64 {
            Some(0) => Some(false),
            Some(_) => Some(true),
            None => None,
        },
        Some(JsonView::Text(t)) => if t == "1"@ || t == "true"@ || t == "TRUE"@ || t == "yes"@ || t
            == "YES"@ {
            Some(true)
        } else if t == "0"@ || t == "false"@ || t == "FALSE"@ || t == "no"@ || t == "NO"@ {
            Some(false)
        } else {
            None
        },
        _ => None,
    }
}

/// The moment of a whole number of seconds, where it has a date.
pub open spec fn moment_of(secs: int) -> Option<Timestamp> {
    if -8_334_601_228_800 <= secs <= 8_210_266_876_799 {
        Some(Timestamp { secs: secs as i64, nanos: 0 })
    } else {
        None
    }
}

/// The moment that stands in a document: a number of seconds, or a text that is a
/// date or such a number.
pub open spec fn moment_in(j: Option<JsonView>) -> Option<Timestamp> {
    match j {
        Some(JsonView::Number(n)) => match n.as_i64 {
            Some(secs) => moment_of(secs as int),
            None => None,
        },
        Some(JsonView::Text(t)) => match moment::rfc3339_parsed(t) {
            Some(at) => Some(at),
            None => match numbers::parse_signed(t, i64::MAX as nat) {
                Some(secs) => moment_of(secs),
                None => None,
            },
        },
        _ => None,
    }
}

// ---------------------------------------------------------------------------
// The first of several places
// ---------------------------------------------------------------------------
/// `r` is what is found at the first of the places at which something is found.
pub open spec fn is_first_found<A>(
    r: Option<A>,
    places: Seq<Seq<char>>,
    found: spec_fn(Seq<char>) -> Option<A>,
) -> bool {
    match r {
        Some(v) => exists|i: int|
            0 <= i < places.len() && found(#[trigger] places[i]) == Some(v) && forall|k: int|
                0 <= k < i ==> found(#[trigger] places[k]) is None,
        None => forall|k: int| 0 <= k < places.len() ==> found(#[trigger] places[k]) is None,
    }
}

/// `r` is the text at the first of the places at which there is one.
pub open spec fn is_first_text(
    r: Option<Seq<char>>,
    doc: JsonView,
    places: Seq<Seq<char>>,
) -> bool {
    is_first_found(r, places, |p: Seq<char>| text_in(json::at_path(doc, p)))
}

/// `r` is the count at the first of the places at which there is one.
pub open spec fn is_first_count(r: Option<u64>, doc: JsonView, places: Seq<Seq<char>>) -> bool {
    is_first_found(r, places, |p: Seq<char>| count_in(json::at_path(doc, p)))
}

/// `r` is the answer at the first of the places at which there is one.
pub open spec fn is_first_answer(r: Option<bool>, doc: JsonView, places: Seq<Seq<char>>) -> bool {
    is_first_found(r, places, |p: Seq<char>| answer_in(json::at_path(doc, p)))
}

/// `r` is the moment at the first of the places at which there is one.
pub open spec fn is_first_moment(
    r: Option<Timestamp>,
    doc: JsonView,
    places: Seq<Seq<char>>,
) -> bool {
    is_first_found(r, places, |p: Seq<char>| moment_in(json::at_path(doc, p)))
}

proof fn lemma_first_of<A>(
    doc: JsonView,
    places: Seq<Seq<char>>,
    read: spec_fn(JsonView) -> Option<A>,
    found: spec_fn(Seq<char>) -> Option<A>,
)
    requires
        forall|p: Seq<char>|
            #[trigger] found(p) == match json::at_path(doc, p) {
                Some(j) => read(j),
                None => None,
            },
    ensures
        is_first_found(reading::first_of(doc, places, read), places, found),
    decreases places.len(),
{
    if places.len() > 0 {
        let rest = places.skip(1);
        lemma_first_of(doc, rest, read, found);
        if found(places[0]) is Some {
        } else {
            match reading::first_of(doc, rest, read) {
                Some(v) => {
                    let i = choose|i: int|
                        0 <= i < rest.len() && found(#[trigger] rest[i]) == Some(v) && forall|k: int|
                            0 <= k < i ==> found(#[trigger] rest[k]) is None;
                    assert(places[i + 1] == rest[i]);
                    assert forall|k: int| 0 <= k < i + 1 implies found(
                        #[trigger] places[k],
                    ) is None by {
                        if k > 0 {
                            assert(places[k] == rest[k - 1]);
                        }
                    }
                },
                None => {
                    assert forall|k: int| 0 <= k < places.len() implies found(
                        #[trigger] places[k],
                    ) is None by {
                        if k > 0 {
                            assert(places[k] == rest[k - 1]);
                        }
                    }
                },
            }
        }
    }
}

/// What is read at several places is what stands at the first of them at which
/// there is something to read: a text, a count, an answer or a moment.
pub proof fn law_first_place_counts(doc: JsonView, places: Seq<Seq<char>>)
    ensures
        is_first_text(reading::string_at(doc, places), doc, places),
        is_first_count(reading::count_at(doc, places), doc, places),
        is_first_answer(reading::bool_at(doc, places), doc, places),
        is_first_moment(reading::time_at(doc, places), doc, places),
{
    let text = |p: Seq<char>| text_in(json::at_path(doc, p));
    lemma_first_of(doc, places, reading::string_reader(), text);
    let count = |p: Seq<char>| count_in(json::at_path(doc, p));
    assert(search::other_than(',') =~= (|c: char| c != ','));
    lemma_first_of(doc, places, reading::count_reader(), count);
    let answer = |p: Seq<char>| answer_in(json::at_path(doc, p));
    assert forall|p: Seq<char>| #[trigger] answer(p) == match json::at_path(doc, p) {
        Some(j) => reading::bool_reader()(j),
        None => None,
    } by {
        if let Some(j) = json::at_path(doc, p) {
            lemma_answer(j);
        }
    }
    lemma_first_of(doc, places, reading::bool_reader(), answer);
    let moment = |p: Seq<char>| moment_in(json::at_path(doc, p));
    lemma_first_of(doc, places, reading::time_reader(), moment);
}

proof fn lemma_answer(j: JsonView)
    ensures
        answer_in(Some(j)) == reading::bool_value(j),
{
    if let JsonView::Text(t) = j {
        let yes = reading::yes_words();
        let no = reading::no_words();
        assert(yes.contains(t) <==> t == "1"@ || t == "true"@ || t == "TRUE"@ || t == "yes"@ || t
            == "YES"@) by {
            assert(yes[0] == "1"@ && yes[1] == "true"@ && yes[2] == "TRUE"@ && yes[3] == "yes"@
                && yes[4] == "YES"@ && yes.len() == 5);
        }
        assert(no.contains(t) <==> t == "0"@ || t == "false"@ || t == "FALSE"@ || t == "no"@ || t
            == "NO"@) by {
            assert(no[0] == "0"@ && no[1] == "false"@ && no[2] == "FALSE"@ && no[3] == "no"@
                && no[4] == "NO"@ && no.len() == 5);
        }
    }
}

/// A number that is put into a document is written in tens and read again.
pub proof fn law_numbers_put_into_documents(n: nat)
    requires
        n <= 0x7fff_ffff_ffff_ffff,
    ensures
        reading::string_value(json::number(n)) == Some(numbers::decimal(n)),
        reading::count_value(json::number(n)) == Some(n as u64),
        json::number(n) matches JsonView::Number(v) && v.as_i64 == Some(n as i64),
{
}

} // verus!
