//! What requests to the database may say, and what it means.

use vstd::prelude::*;
use crate::db::rows::{AppPolicy, ContactStatus};
use crate::handles;
use crate::lists;
use crate::models;
use crate::order;
use crate::search;
use crate::text;

verus! {

/// Why a request to the database is refused.
#[derive(Debug, Clone, Copy, PartialEq, Eq, Structural)]
pub enum DbError {
    InvalidHandle,
    InvalidCreatorHandle,
    InvalidSourceHandle,
    InvalidFrontierSource,
    EmptyAppName,
    UnknownPolicy,
    UnknownContactStatus,
    InvalidEmail,
    CreatorNotFound,
    UnknownViews,
    DuplicateVideo,
    EmptyBucket,
    NoRunNumber,
    UnknownRunStatus,
    UnknownRun,
}

impl DbError {
    /// The error in words.
    pub open spec fn text(self) -> Seq<char> {
        match self {
            DbError::InvalidHandle => "invalid TikTok handle"@,
            DbError::InvalidCreatorHandle => "invalid creator handle"@,
            DbError::InvalidSourceHandle => "invalid source TikTok handle"@,
            DbError::InvalidFrontierSource => "invalid frontier source handle"@,
            DbError::EmptyAppName => "app name cannot be empty"@,
            DbError::UnknownPolicy => "app policy must be whitelist, neutral, or blacklist"@,
            DbError::UnknownContactStatus =>
                "contact status must be unselected, to_contact, or contacted"@,
            DbError::InvalidEmail => "email address is not valid"@,
            DbError::CreatorNotFound => "creator was not found"@,
            DbError::UnknownViews => "failed to upsert creator"@,
            DbError::DuplicateVideo => "failed to insert video"@,
            DbError::EmptyBucket => "frontier bucket is empty"@,
            DbError::NoRunNumber => "failed to create frontier run"@,
            DbError::UnknownRunStatus => "invalid frontier run status"@,
            DbError::UnknownRun => "failed to enqueue frontier following"@,
        }
    }

    /// The error in words.
    pub fn message(self) -> (r: &'static str)
        ensures
            r@ == self.text(),
    {
        match self {
            DbError::InvalidHandle => "invalid TikTok handle",
            DbError::InvalidCreatorHandle => "invalid creator handle",
            DbError::InvalidSourceHandle => "invalid source TikTok handle",
            DbError::InvalidFrontierSource => "invalid frontier source handle",
            DbError::EmptyAppName => "app name cannot be empty",
            DbError::UnknownPolicy => "app policy must be whitelist, neutral, or blacklist",
            DbError::UnknownContactStatus =>
                "contact status must be unselected, to_contact, or contacted",
            DbError::InvalidEmail => "email address is not valid",
            DbError::CreatorNotFound => "creator was not found",
            DbError::UnknownViews => "failed to upsert creator",
            DbError::DuplicateVideo => "failed to insert video",
            DbError::EmptyBucket => "frontier bucket is empty",
            DbError::NoRunNumber => "failed to create frontier run",
            DbError::UnknownRunStatus => "invalid frontier run status",
            DbError::UnknownRun => "failed to enqueue frontier following",
        }
    }
}

// ---------------------------------------------------------------------------
// Texts that may be missing
// ---------------------------------------------------------------------------
/// The text of an optional string slice.
pub open spec fn opt_str(o: Option<&str>) -> Option<Seq<char>> {
    match o {
        Some(s) => Some(s@),
        None => None,
    }
}

/// The trimmed text, where something is left of it.
pub fn trimmed_str(value: Option<&str>) -> (r: Option<String>)
    ensures
        models::opt_text(r) == models::non_blank(opt_str(value)),
{
    match value {
        Some(t) => {
            let trimmed: String = text::trim_of(t);
            if text::empty(trimmed.as_str()) {
                None
            } else {
                Some(trimmed)
            }
        },
        None => None,
    }
}

/// The handle that an optional text names.
pub open spec fn handle_opt(value: Option<Seq<char>>) -> Option<Seq<char>> {
    match value {
        Some(t) => handles::normalized_handle(t),
        None => None,
    }
}

/// The handle that an optional text names.
pub fn normalize_opt(value: Option<&str>) -> (r: Option<String>)
    ensures
        models::opt_text(r) == handle_opt(opt_str(value)),
{
    match value {
        Some(t) => handles::normalize_handle(t),
        None => None,
    }
}

/// The optional text is `t`.
pub fn is_text(o: &Option<String>, t: &str) -> (r: bool)
    ensures
        r == (models::opt_text(*o) == Some(t@)),
{
    match o {
        Some(s) => text::same(s.as_str(), t),
        None => false,
    }
}

// ---------------------------------------------------------------------------
// Filters
// ---------------------------------------------------------------------------
/// A language that is asked for, in upper case; blank and `all` ask for none.
pub open spec fn language_filter(value: Option<Seq<char>>) -> Option<Seq<char>> {
    match models::non_blank(value) {
        Some(t) => if text::same_ignoring_case(t, "all"@) {
            None
        } else {
            Some(text::upper(t))
        },
        None => None,
    }
}

/// A language that is asked for.
pub fn normalized_language_filter(language_code: Option<&str>) -> (r: Option<String>)
    ensures
        models::opt_text(r) == language_filter(opt_str(language_code)),
{
    match trimmed_str(language_code) {
        Some(t) => if text::eq_ignoring_case(t.as_str(), "all") {
            None
        } else {
            Some(text::to_upper(t.as_str()))
        },
        None => None,
    }
}

/// The words that ask for no app in particular.
pub open spec fn is_any_app(t: Seq<char>) -> bool {
    ||| text::same_ignoring_case(t, "all"@)
    ||| text::same_ignoring_case(t, "all apps"@)
    ||| text::same_ignoring_case(t, "__with_app__"@)
    ||| text::same_ignoring_case(t, "__no_app__"@)
}

/// The one app that is asked for.
pub open spec fn app_filter(value: Option<Seq<char>>) -> Option<Seq<char>> {
    match models::non_blank(value) {
        Some(t) => if is_any_app(t) {
            None
        } else {
            Some(t)
        },
        None => None,
    }
}

/// The one app that is asked for.
pub fn normalized_specific_app_filter(app_name: Option<&str>) -> (r: Option<String>)
    ensures
        models::opt_text(r) == app_filter(opt_str(app_name)),
{
    match trimmed_str(app_name) {
        Some(t) => if text::eq_ignoring_case(t.as_str(), "all") || text::eq_ignoring_case(
            t.as_str(),
            "all apps",
        ) || text::eq_ignoring_case(t.as_str(), "__with_app__") || text::eq_ignoring_case(
            t.as_str(),
            "__no_app__",
        ) {
            None
        } else {
            Some(t)
        },
        None => None,
    }
}

/// Whether creators with an app or without one are asked for.
#[derive(Debug, Clone, Copy, PartialEq, Eq, Structural)]
pub enum AppMode {
    WithApp,
    NoApp,
}

/// Whether creators with an app or without one are asked for.
pub open spec fn app_mode(value: Option<Seq<char>>) -> Option<AppMode> {
    match models::non_blank(value) {
        Some(t) => {
            let word = text::lower(t);
            if word == "__with_app__"@ || word == "with_app"@ || word == "all_apps"@ {
                Some(AppMode::WithApp)
            } else if word == "__no_app__"@ || word == "no_app"@ || word == "none"@ {
                Some(AppMode::NoApp)
            } else {
                None
            }
        },
        None => None,
    }
}

/// Whether creators with an app or without one are asked for.
pub fn normalized_app_mode(app_name: Option<&str>) -> (r: Option<AppMode>)
    ensures
        r == app_mode(opt_str(app_name)),
{
    match trimmed_str(app_name) {
        Some(t) => {
            let word: String = text::to_lower(t.as_str());
            let w: &str = word.as_str();
            if text::same(w, "__with_app__") || text::same(w, "with_app") || text::same(
                w,
                "all_apps",
            ) {
                Some(AppMode::WithApp)
            } else if text::same(w, "__no_app__") || text::same(w, "no_app") || text::same(
                w,
                "none",
            ) {
                Some(AppMode::NoApp)
            } else {
                None
            }
        },
        None => None,
    }
}

/// Whether creators with an address or without one are asked for.
#[derive(Debug, Clone, Copy, PartialEq, Eq, Structural)]
pub enum EmailFilter {
    Has,
    Lacks,
}

/// Whether creators with an address or without one are asked for.
pub open spec fn email_filter(value: Option<Seq<char>>) -> Option<EmailFilter> {
    match models::non_blank(value) {
        Some(t) => {
            let word = text::lower(t);
            if word == "has"@ || word == "yes"@ || word == "true"@ || word == "with"@ {
                Some(EmailFilter::Has)
            } else if word == "none"@ || word == "no"@ || word == "false"@ || word == "without"@ {
                Some(EmailFilter::Lacks)
            } else {
                None
            }
        },
        None => None,
    }
}

/// Whether creators with an address or without one are asked for.
pub fn normalized_email_filter(value: Option<&str>) -> (r: Option<EmailFilter>)
    ensures
        r == email_filter(opt_str(value)),
{
    match trimmed_str(value) {
        Some(t) => {
            let word: String = text::to_lower(t.as_str());
            let w: &str = word.as_str();
            if text::same(w, "has") || text::same(w, "yes") || text::same(w, "true")
                || text::same(w, "with") {
                Some(EmailFilter::Has)
            } else if text::same(w, "none") || text::same(w, "no") || text::same(w, "false")
                || text::same(w, "without") {
                Some(EmailFilter::Lacks)
            } else {
                None
            }
        },
        None => None,
    }
}

/// Several values that are asked for: trimmed, without blank ones, in order of
/// their lower-case forms, and each only once.
pub open spec fn filter_values(values: Seq<Seq<char>>) -> Seq<Seq<char>> {
    order::sorted_ignoring_case(
        lists::present(values.map_values(|v: Seq<char>| models::non_blank(Some(v)))),
    )
}

/// Several values that are asked for.
pub fn normalized_values(values: &Vec<String>) -> (r: Vec<String>)
    ensures
        search::texts(r@) == filter_values(search::texts(values@)),
{
    let ghost all = search::texts(values@).map_values(
        |v: Seq<char>| models::non_blank(Some(v)),
    );
    let mut kept: Vec<String> = Vec::new();
    let mut i: usize = 0;
    assert(search::texts(kept@) =~= lists::present(all.take(0)));
    while i < values.len()
        invariant
            i <= values@.len(),
            all == search::texts(values@).map_values(
                |v: Seq<char>| models::non_blank(Some(v)),
            ),
            search::texts(kept@) == lists::present(all.take(i as int)),
        decreases values@.len() - i,
    {
        let ghost before = kept@;
        proof {
            assert(all.take(i + 1) =~= all.take(i as int).push(all[i as int]));
            lists::lemma_present_push(all.take(i as int), all[i as int]);
        }
        if let Some(t) = trimmed_str(Some(values[i].as_str())) {
            kept.push(t);
            assert(search::texts(kept@) =~= search::texts(before).push(t@));
        }
        i = i + 1;
    }
    assert(all.take(i as int) =~= all);
    order::sort_ignoring_case(&kept)
}

/// `values[m]` is the first value that is not blank and has the lower-case form
/// `key`.
pub open spec fn first_value(values: Seq<Seq<char>>, key: Seq<char>, m: int) -> bool {
    &&& 0 <= m < values.len()
    &&& text::trim(values[m]).len() > 0
    &&& text::lower(text::trim(values[m])) == key
    &&& forall|j: int|
        0 <= j < m && text::trim(#[trigger] values[j]).len() > 0 ==> text::lower(
            text::trim(values[j]),
        ) != key
}

/// `t` is one of the values, trimmed and not blank, and of those that differ from
/// it in case alone it is the first.
pub open spec fn is_first_spelling(values: Seq<Seq<char>>, t: Seq<char>) -> bool {
    exists|m: int| #[trigger] first_value(values, text::lower(t), m) && t == text::trim(values[m])
}

proof fn lemma_first_present(all: Seq<Option<Seq<char>>>, key: Seq<char>, m: int) -> (i: int)
    requires
        0 <= m < all.len(),
        all[m] matches Some(t) && text::lower(t) == key,
        forall|j: int| 0 <= j < m ==> (#[trigger] all[j] matches Some(u) ==> text::lower(u) != key),
    ensures
        order::first_with_form(lists::present(all), key, i),
        Some(lists::present(all)[i]) == all[m],
    decreases all.len(),
{
    let rest = all.drop_last();
    let kept = lists::present(rest);
    if m < rest.len() {
        let i = lemma_first_present(rest, key, m);
        let full = lists::present(all);
        assert forall|j: int| 0 <= j < i implies text::lower(#[trigger] full[j]) != key by {
            assert(full[j] == kept[j]);
        }
        i
    } else {
        let i = kept.len() as int;
        let full = lists::present(all);
        lists::lemma_present_members(rest);
        assert forall|j: int| 0 <= j < i implies text::lower(#[trigger] full[j]) != key by {
            assert(full[j] == kept[j]);
            assert(kept.contains(kept[j]));
            let k = choose|k: int| 0 <= k < rest.len() && rest[k] == Some(kept[j]);
            assert(all[k] == Some(kept[j]));
        }
        i
    }
}

proof fn lemma_first_value(values: Seq<Seq<char>>, key: Seq<char>, k: int) -> (m: int)
    requires
        0 <= k < values.len(),
        text::trim(values[k]).len() > 0,
        text::lower(text::trim(values[k])) == key,
    ensures
        first_value(values, key, m),
    decreases k,
{
    if exists|j: int|
        0 <= j < k && text::trim(#[trigger] values[j]).len() > 0 && text::lower(
            text::trim(values[j]),
        ) == key {
        let j = choose|j: int|
            0 <= j < k && text::trim(#[trigger] values[j]).len() > 0 && text::lower(
                text::trim(values[j]),
            ) == key;
        lemma_first_value(values, key, j)
    } else {
        k
    }
}

/// The values that are asked for ascend by their lower-case forms, so that no
/// two of them differ in case alone. Each of them is one of the given values,
/// trimmed and not blank, spelled as it first occurs.
pub proof fn law_values_are_first_spellings(values: Seq<Seq<char>>)
    ensures
        order::ascending(order::lowered(filter_values(values))),
        forall|k: int|
            0 <= k < filter_values(values).len() ==> is_first_spelling(
                values,
                #[trigger] filter_values(values)[k],
            ),
{
    let all = values.map_values(|v: Seq<char>| models::non_blank(Some(v)));
    let kept = lists::present(all);
    let r = filter_values(values);
    order::lemma_sorted_ignoring_case(kept);
    lists::lemma_present_members(all);
    assert forall|k: int| 0 <= k < r.len() implies is_first_spelling(
        values,
        #[trigger] r[k],
    ) by {
        let key = text::lower(r[k]);
        assert(order::lowered(r)[k] == key);
        assert(order::lowered(r).contains(key));
        assert(order::lowered(kept).contains(key));
        let n = choose|n: int| 0 <= n < kept.len() && order::lowered(kept)[n] == key;
        assert(kept.contains(kept[n]));
        let at = choose|at: int| 0 <= at < all.len() && all[at] == Some(kept[n]);
        assert(all[at] == models::non_blank(Some(values[at])));
        let m = lemma_first_value(values, key, at);
        assert(all[m] == Some(text::trim(values[m])));
        assert forall|j: int| 0 <= j < m implies (#[trigger] all[j] matches Some(u) ==> text::lower(
            u,
        ) != key) by {
            assert(all[j] == models::non_blank(Some(values[j])));
            if all[j] is Some {
                assert(text::trim(values[j]).len() > 0);
            }
        }
        let i = lemma_first_present(all, key, m);
        assert(order::first_with_form(kept, text::lower(r[k]), i));
        assert(r[k] == kept[i]);
    }
}

/// Each value that is not blank is among the values that are asked for, in one
/// spelling and at one place.
pub proof fn law_values_hold_each_once(values: Seq<Seq<char>>, i: int) -> (k: int)
    requires
        0 <= i < values.len(),
        text::trim(values[i]).len() > 0,
    ensures
        0 <= k < filter_values(values).len(),
        text::same_ignoring_case(filter_values(values)[k], text::trim(values[i])),
        forall|j: int|
            0 <= j < filter_values(values).len() && text::same_ignoring_case(
                #[trigger] filter_values(values)[j],
                text::trim(values[i]),
            ) ==> j == k,
{
    let all = values.map_values(|v: Seq<char>| models::non_blank(Some(v)));
    let kept = lists::present(all);
    let r = filter_values(values);
    let key = text::lower(text::trim(values[i]));
    order::lemma_sorted_ignoring_case(kept);
    lists::lemma_present_members(all);
    assert(all[i] == Some(text::trim(values[i])));
    assert(all.contains(Some(text::trim(values[i]))));
    assert(kept.contains(text::trim(values[i])));
    let n = choose|n: int| 0 <= n < kept.len() && kept[n] == text::trim(values[i]);
    assert(order::lowered(kept)[n] == key);
    assert(order::lowered(kept).contains(key));
    assert(order::lowered(r).contains(key));
    let k = choose|k: int| 0 <= k < order::lowered(r).len() && order::lowered(r)[k] == key;
    assert(order::lowered(r)[k] == text::lower(r[k]));
    assert forall|j: int|
        0 <= j < r.len() && text::same_ignoring_case(#[trigger] r[j], text::trim(values[i])) implies j
        == k by {
        let forms = order::lowered(r);
        assert(forms[j] == key);
        order::lemma_before_irreflexive(key);
        if j < k {
            assert(order::text_order()(forms[j], forms[k]));
        }
        if k < j {
            assert(order::text_order()(forms[k], forms[j]));
        }
    }
    k
}

/// Values in the form in which they are asked for stay as they are.
pub proof fn law_values_idempotent(values: Seq<Seq<char>>)
    ensures
        filter_values(filter_values(values)) == filter_values(values),
{
    let r = filter_values(values);
    law_values_are_first_spellings(values);
    let again = r.map_values(|v: Seq<char>| models::non_blank(Some(v)));
    assert(again =~= r.map_values(|v: Seq<char>| Some(v))) by {
        assert forall|k: int| 0 <= k < r.len() implies models::non_blank(Some(#[trigger] r[k]))
            == Some(r[k]) by {
            assert(is_first_spelling(values, r[k]));
            let m = choose|m: int| #[trigger]
                first_value(values, text::lower(r[k]), m) && r[k] == text::trim(values[m]);
            text::law_trim_idempotent(values[m], text::CharClass::White);
        }
    }
    lists::lemma_present_all(r);
    order::lemma_sorted_ignoring_case_idempotent(
        lists::present(values.map_values(|v: Seq<char>| models::non_blank(Some(v)))),
    );
}

/// Several values in upper case.
pub open spec fn upper_values(values: Seq<Seq<char>>) -> Seq<Seq<char>> {
    filter_values(values).map_values(|v: Seq<char>| text::upper(v))
}

/// Several values in upper case.
pub fn normalized_upper_values(values: &Vec<String>) -> (r: Vec<String>)
    ensures
        search::texts(r@) == upper_values(search::texts(values@)),
{
    let plain: Vec<String> = normalized_values(values);
    let ghost want = upper_values(search::texts(values@));
    let mut r: Vec<String> = Vec::new();
    let mut i: usize = 0;
    while i < plain.len()
        invariant
            i <= plain@.len(),
            want == search::texts(plain@).map_values(|v: Seq<char>| text::upper(v)),
            search::texts(r@) == want.take(i as int),
        decreases plain@.len() - i,
    {
        let ghost before = r@;
        r.push(text::to_upper(plain[i].as_str()));
        i = i + 1;
        proof {
            assert(search::texts(r@) =~= search::texts(before).push(want[i - 1]));
            assert(want.take(i as int) =~= want.take(i - 1).push(want[i - 1]));
        }
    }
    assert(want.take(i as int) =~= want);
    r
}

/// One of the texts is `t` but for case.
pub open spec fn has_ignoring_case(values: Seq<Seq<char>>, t: Seq<char>) -> bool {
    exists|i: int|
        0 <= i < values.len() && text::same_ignoring_case(#[trigger] values[i], t)
}

/// Whether one of the texts is `t` but for case.
pub fn contains_ignoring_case(values: &Vec<String>, t: &str) -> (r: bool)
    ensures
        r == has_ignoring_case(search::texts(values@), t@),
{
    let ghost all = search::texts(values@);
    let mut i: usize = 0;
    while i < values.len()
        invariant
            i <= values@.len(),
            all == search::texts(values@),
            forall|j: int| 0 <= j < i ==> !text::same_ignoring_case(#[trigger] all[j], t@),
        decreases values@.len() - i,
    {
        assert(all[i as int] == values@[i as int]@);
        if text::eq_ignoring_case(values[i].as_str(), t) {
            return true;
        }
        i = i + 1;
    }
    false
}

/// Whether `t` is one of the texts.
pub fn contains_text(values: &Vec<String>, t: &str) -> (r: bool)
    ensures
        r == search::texts(values@).contains(t@),
{
    let ghost all = search::texts(values@);
    let mut i: usize = 0;
    while i < values.len()
        invariant
            i <= values@.len(),
            all == search::texts(values@),
            forall|j: int| 0 <= j < i ==> all[j] != t@,
        decreases values@.len() - i,
    {
        assert(all[i as int] == values@[i as int]@);
        if text::same(values[i].as_str(), t) {
            return true;
        }
        i = i + 1;
    }
    false
}

// ---------------------------------------------------------------------------
// Words for policies and contact states
// ---------------------------------------------------------------------------
/// The policy that a word stands for, in any case and with space around it.
pub open spec fn policy_of(word: Seq<char>) -> Option<AppPolicy> {
    AppPolicy::of(text::lower(text::trim(word)))
}

/// The policy that a word stands for.
pub fn normalize_app_policy(policy: &str) -> (r: Result<AppPolicy, DbError>)
    ensures
        match r {
            Ok(p) => policy_of(policy@) == Some(p),
            Err(error) => policy_of(policy@) is None && error == DbError::UnknownPolicy,
        },
{
    let trimmed: String = text::trim_of(policy);
    let word: String = text::to_lower(trimmed.as_str());
    match AppPolicy::from_name(word.as_str()) {
        Some(p) => Ok(p),
        None => Err(DbError::UnknownPolicy),
    }
}

/// The contact state that a word stands for.
pub open spec fn contact_of(word: Seq<char>) -> Option<ContactStatus> {
    let w = text::lower(text::trim(word));
    if w == "unselected"@ || w == "none"@ {
        Some(ContactStatus::Unselected)
    } else if w == "to_contact"@ || w == "queued"@ {
        Some(ContactStatus::ToContact)
    } else if w == "contacted"@ {
        Some(ContactStatus::Contacted)
    } else {
        None
    }
}

/// The contact state that a word stands for.
pub fn normalize_contact_status(status: &str) -> (r: Result<ContactStatus, DbError>)
    ensures
        match r {
            Ok(s) => contact_of(status@) == Some(s),
            Err(error) => contact_of(status@) is None && error == DbError::UnknownContactStatus,
        },
{
    let trimmed: String = text::trim_of(status);
    let word: String = text::to_lower(trimmed.as_str());
    let w: &str = word.as_str();
    if text::same(w, "unselected") || text::same(w, "none") {
        Ok(ContactStatus::Unselected)
    } else if text::same(w, "to_contact") || text::same(w, "queued") {
        Ok(ContactStatus::ToContact)
    } else if text::same(w, "contacted") {
        Ok(ContactStatus::Contacted)
    } else {
        Err(DbError::UnknownContactStatus)
    }
}

// ---------------------------------------------------------------------------
// Languages and markets
// ---------------------------------------------------------------------------
/// The home market of a language, by its code of three letters.
pub open spec fn home_market(a: char, b: char, c: char) -> Option<(char, char)> {
    if (a, b, c) == ('E', 'N', 'G') {
        Some(('G', 'B'))
    } else if (a, b, c) == ('S', 'P', 'A') {
        Some(('E', 'S'))
    } else if (a, b, c) == ('I', 'T', 'A') {
        Some(('I', 'T'))
    } else if (a, b, c) == ('P', 'O', 'L') {
        Some(('P', 'L'))
    } else if (a, b, c) == ('D', 'E', 'U') {
        Some(('D', 'E'))
    } else if (a, b, c) == ('S', 'W', 'E') {
        Some(('S', 'E'))
    } else if (a, b, c) == ('F', 'R', 'A') {
        Some(('F', 'R'))
    } else if (a, b, c) == ('P', 'O', 'R') {
        Some(('P', 'T'))
    } else if (a, b, c) == ('N', 'O', 'R') {
        Some(('N', 'O'))
    } else if (a, b, c) == ('N', 'O', 'B') {
        Some(('N', 'O'))
    } else if (a, b, c) == ('H', 'R', 'V') {
        Some(('H', 'R'))
    } else if (a, b, c) == ('C', 'E', 'S') {
        Some(('C', 'Z'))
    } else if (a, b, c) == ('S', 'L', 'K') {
        Some(('S', 'K'))
    } else if (a, b, c) == ('S', 'L', 'V') {
        Some(('S', 'I'))
    } else if (a, b, c) == ('R', 'O', 'N') {
        Some(('R', 'O'))
    } else if (a, b, c) == ('N', 'L', 'D') {
        Some(('N', 'L'))
    } else if (a, b, c) == ('F', 'I', 'N') {
        Some(('F', 'I'))
    } else if (a, b, c) == ('D', 'A', 'N') {
        Some(('D', 'K'))
    } else if (a, b, c) == ('E', 'S', 'T') {
        Some(('E', 'E'))
    } else if (a, b, c) == ('T', 'U', 'R') {
        Some(('T', 'R'))
    } else if (a, b, c) == ('J', 'P', 'N') {
        Some(('J', 'P'))
    } else if (a, b, c) == ('K', 'O', 'R') {
        Some(('K', 'R'))
    } else if (a, b, c) == ('V', 'I', 'E') {
        Some(('V', 'N'))
    } else if (a, b, c) == ('U', 'K', 'R') {
        Some(('U', 'A'))
    } else if (a, b, c) == ('R', 'U', 'S') {
        Some(('R', 'U'))
    } else if (a, b, c) == ('S', 'R', 'P') {
        Some(('R', 'S'))
    } else if (a, b, c) == ('B', 'U', 'L') {
        Some(('B', 'G'))
    } else if (a, b, c) == ('S', 'Q', 'I') {
        Some(('A', 'L'))
    } else if (a, b, c) == ('I', 'N', 'D') {
        Some(('I', 'D'))
    } else if (a, b, c) == ('H', 'A', 'T') {
        Some(('H', 'T'))
    } else {
        None
    }
}

fn is_triple(a: char, b: char, c: char, x: char, y: char, z: char) -> (r: bool)
    ensures
        r == ((a, b, c) == (x, y, z)),
{
    a == x && b == y && c == z
}

fn home_market_of(a: char, b: char, c: char) -> (r: Option<(char, char)>)
    ensures
        r == home_market(a, b, c),
{
    if is_triple(a, b, c, 'E', 'N', 'G') {
        Some(('G', 'B'))
    } else if is_triple(a, b, c, 'S', 'P', 'A') {
        Some(('E', 'S'))
    } else if is_triple(a, b, c, 'I', 'T', 'A') {
        Some(('I', 'T'))
    } else if is_triple(a, b, c, 'P', 'O', 'L') {
        Some(('P', 'L'))
    } else if is_triple(a, b, c, 'D', 'E', 'U') {
        Some(('D', 'E'))
    } else if is_triple(a, b, c, 'S', 'W', 'E') {
        Some(('S', 'E'))
    } else if is_triple(a, b, c, 'F', 'R', 'A') {
        Some(('F', 'R'))
    } else if is_triple(a, b, c, 'P', 'O', 'R') {
        Some(('P', 'T'))
    } else if is_triple(a, b, c, 'N', 'O', 'R') {
        Some(('N', 'O'))
    } else if is_triple(a, b, c, 'N', 'O', 'B') {
        Some(('N', 'O'))
    } else if is_triple(a, b, c, 'H', 'R', 'V') {
        Some(('H', 'R'))
    } else if is_triple(a, b, c, 'C', 'E', 'S') {
        Some(('C', 'Z'))
    } else if is_triple(a, b, c, 'S', 'L', 'K') {
        Some(('S', 'K'))
    } else if is_triple(a, b, c, 'S', 'L', 'V') {
        Some(('S', 'I'))
    } else if is_triple(a, b, c, 'R', 'O', 'N') {
        Some(('R', 'O'))
    } else if is_triple(a, b, c, 'N', 'L', 'D') {
        Some(('N', 'L'))
    } else if is_triple(a, b, c, 'F', 'I', 'N') {
        Some(('F', 'I'))
    } else if is_triple(a, b, c, 'D', 'A', 'N') {
        Some(('D', 'K'))
    } else if is_triple(a, b, c, 'E', 'S', 'T') {
        Some(('E', 'E'))
    } else if is_triple(a, b, c, 'T', 'U', 'R') {
        Some(('T', 'R'))
    } else if is_triple(a, b, c, 'J', 'P', 'N') {
        Some(('J', 'P'))
    } else if is_triple(a, b, c, 'K', 'O', 'R') {
        Some(('K', 'R'))
    } else if is_triple(a, b, c, 'V', 'I', 'E') {
        Some(('V', 'N'))
    } else if is_triple(a, b, c, 'U', 'K', 'R') {
        Some(('U', 'A'))
    } else if is_triple(a, b, c, 'R', 'U', 'S') {
        Some(('R', 'U'))
    } else if is_triple(a, b, c, 'S', 'R', 'P') {
        Some(('R', 'S'))
    } else if is_triple(a, b, c, 'B', 'U', 'L') {
        Some(('B', 'G'))
    } else if is_triple(a, b, c, 'S', 'Q', 'I') {
        Some(('A', 'L'))
    } else if is_triple(a, b, c, 'I', 'N', 'D') {
        Some(('I', 'D'))
    } else if is_triple(a, b, c, 'H', 'A', 'T') {
        Some(('H', 'T'))
    } else {
        None
    }
}

/// The market of a language code in upper case.
pub open spec fn market_of_code(code: Seq<char>) -> Option<Seq<char>> {
    if code.len() == 3 {
        match home_market(code[0], code[1], code[2]) {
            Some(pair) => Some(seq![pair.0, pair.1]),
            None => None,
        }
    } else {
        None
    }
}

/// The market of a language code in upper case.
pub fn market_of_upper(code: &str) -> (r: Option<String>)
    ensures
        models::opt_text(r) == market_of_code(code@),
{
    let v: Vec<char> = text::chars_of(code);
    if v.len() == 3 {
        match home_market_of(v[0], v[1], v[2]) {
            Some(pair) => {
                let mut r: String = String::new();
                r.push(pair.0);
                r.push(pair.1);
                assert(r@ =~= seq![pair.0, pair.1]);
                Some(r)
            },
            None => None,
        }
    } else {
        None
    }
}

/// The market of a language.
pub open spec fn market_of_language(language: Seq<char>) -> Option<Seq<char>> {
    market_of_code(text::upper(text::trim(language)))
}

/// The market of a language.
pub fn country_code_for_language(language_code: &str) -> (r: Option<String>)
    ensures
        models::opt_text(r) == market_of_language(language_code@),
{
    let trimmed: String = text::trim_of(language_code);
    let code: String = text::to_upper(trimmed.as_str());
    market_of_upper(code.as_str())
}

} // verus!
