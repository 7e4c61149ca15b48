//! What the filters of a request ask for, over the texts that it gives.

use vstd::prelude::*;
use crate::db::filters;
use crate::db::filters::{AppMode, EmailFilter};
use crate::db::rows::{AppPolicy, ContactStatus};
use crate::handles;
use crate::search;
use crate::text;

verus! {

// ---------------------------------------------------------------------------
// Letter case
// ---------------------------------------------------------------------------
/// Texts are equal in upper case exactly if they are equal in lower case.
pub proof fn lemma_same_upper(a: Seq<char>, b: Seq<char>)
    ensures
        text::upper(a) == text::upper(b) <==> text::lower(a) == text::lower(b),
{
    if text::upper(a) == text::upper(b) {
        text::lemma_lower_upper(a);
        text::lemma_lower_upper(b);
    }
    if text::lower(a) == text::lower(b) {
        assert(text::lower(a).len() == a.len());
        assert(text::lower(b).len() == b.len());
        assert forall|i: int| 0 <= i < a.len() implies text::upper_char(#[trigger] a[i])
            == text::upper_char(b[i]) by {
            assert(text::lower(a)[i] == text::lower_char(a[i]));
            assert(text::lower(b)[i] == text::lower_char(b[i]));
        }
        assert(text::upper(a) =~= text::upper(b));
    }
}

// ---------------------------------------------------------------------------
// Lists of values
// ---------------------------------------------------------------------------
/// One of the given texts is, without white space around it and but for case,
/// `t`; texts that are blank ask for nothing.
pub open spec fn asked(given: Seq<String>, t: Seq<char>) -> bool {
    exists|i: int|
        0 <= i < given.len() && {
            let word = text::trim((#[trigger] given[i])@);
            word.len() > 0 && text::lower(word) == text::lower(t)
        }
}

/// Every given text is blank, so that nothing is asked for.
pub open spec fn nothing_asked(given: Seq<String>) -> bool {
    forall|i: int| 0 <= i < given.len() ==> text::trim((#[trigger] given[i])@).len() == 0
}

/// A list of values asks for a text exactly if one of the given texts does, in
/// its own form and in upper case; it asks for nothing exactly if all are blank.
pub proof fn law_values_ask_for_what_is_given(given: Seq<String>, t: Seq<char>)
    ensures
        filters::has_ignoring_case(filters::filter_values(search::texts(given)), t) <==> asked(
            given,
            t,
        ),
        filters::has_ignoring_case(filters::upper_values(search::texts(given)), t) <==> asked(
            given,
            t,
        ),
        filters::upper_values(search::texts(given)).contains(text::upper(t)) <==> asked(given, t),
        filters::filter_values(search::texts(given)).len() == 0 <==> nothing_asked(given),
        filters::upper_values(search::texts(given)).len() == 0 <==> nothing_asked(given),
{
    let values = search::texts(given);
    let r = filters::filter_values(values);
    let u = filters::upper_values(values);
    assert(u.len() == r.len());
    filters::law_values_are_first_spellings(values);
    assert forall|k: int| 0 <= k < r.len() implies text::lower(#[trigger] u[k]) == text::lower(
        r[k],
    ) by {
        text::lemma_lower_upper(r[k]);
    }
    if asked(given, t) {
        let i = choose|i: int|
            0 <= i < given.len() && {
                let word = text::trim((#[trigger] given[i])@);
                word.len() > 0 && text::lower(word) == text::lower(t)
            };
        assert(values[i] == given[i]@);
        let k = filters::law_values_hold_each_once(values, i);
        assert(text::same_ignoring_case(r[k], t));
        assert(text::same_ignoring_case(u[k], t));
        lemma_same_upper(r[k], t);
        assert(u[k] == text::upper(t));
    }
    if filters::has_ignoring_case(r, t) {
        let k = choose|k: int| 0 <= k < r.len() && text::same_ignoring_case(#[trigger] r[k], t);
        lemma_value_given(given, k, t);
    }
    if filters::has_ignoring_case(u, t) {
        let k = choose|k: int| 0 <= k < u.len() && text::same_ignoring_case(#[trigger] u[k], t);
        assert(text::lower(u[k]) == text::lower(r[k]));
        lemma_value_given(given, k, t);
    }
    if u.contains(text::upper(t)) {
        let k = choose|k: int| 0 <= k < u.len() && u[k] == text::upper(t);
        assert(text::upper(r[k]) == text::upper(t));
        lemma_same_upper(r[k], t);
        lemma_value_given(given, k, t);
    }
    if nothing_asked(given) {
        if r.len() > 0 {
            lemma_value_given(given, 0, r[0]);
        }
    } else {
        let i = choose|i: int|
            0 <= i < given.len() && text::trim((#[trigger] given[i])@).len() != 0;
        assert(values[i] == given[i]@);
        let k = filters::law_values_hold_each_once(values, i);
    }
}

proof fn lemma_value_given(given: Seq<String>, k: int, t: Seq<char>)
    requires
        0 <= k < filters::filter_values(search::texts(given)).len(),
        text::lower(filters::filter_values(search::texts(given))[k]) == text::lower(t),
    ensures
        asked(given, t),
        !nothing_asked(given),
{
    let values = search::texts(given);
    let r = filters::filter_values(values);
    filters::law_values_are_first_spellings(values);
    assert(filters::is_first_spelling(values, r[k]));
    let m = choose|m: int| #[trigger]
        filters::first_value(values, text::lower(r[k]), m) && r[k] == text::trim(values[m]);
    assert(values[m] == given[m]@);
    assert(text::trim(given[m]@).len() > 0);
}

/// One of the given texts names the handle.
pub open spec fn handle_asked(given: Seq<String>, h: Seq<char>) -> bool {
    exists|i: int| 0 <= i < given.len() && handles::normalized_handle((#[trigger] given[i])@) == Some(h)
}

/// None of the given texts names a handle.
pub open spec fn no_handle_asked(given: Seq<String>) -> bool {
    forall|i: int|
        0 <= i < given.len() ==> handles::normalized_handle((#[trigger] given[i])@) is None
}

/// A list of handles holds a handle exactly if one of the given texts names it.
pub proof fn lemma_handles_asked(given: Seq<String>, h: Seq<char>)
    ensures
        handles::normalized_handles(search::texts(given)).contains(h) <==> handle_asked(given, h),
        handles::normalized_handles(search::texts(given)).len() == 0 <==> no_handle_asked(given),
{
    let inputs = search::texts(given);
    let list = handles::normalized_handles(inputs);
    handles::law_normalized_handles_members(inputs, h);
    if handle_asked(given, h) {
        let i = choose|i: int|
            0 <= i < given.len() && handles::normalized_handle((#[trigger] given[i])@) == Some(h);
        assert(inputs[i] == given[i]@);
    }
    if list.contains(h) {
        let i = choose|i: int|
            0 <= i < inputs.len() && handles::normalized_handle(#[trigger] inputs[i]) == Some(h);
        assert(inputs[i] == given[i]@);
    }
    if list.len() > 0 {
        handles::law_normalized_handles_members(inputs, list[0]);
        assert(list.contains(list[0]));
        let i = choose|i: int|
            0 <= i < inputs.len() && handles::normalized_handle(#[trigger] inputs[i]) == Some(
                list[0],
            );
        assert(handles::normalized_handle(given[i]@) is Some);
    }
    if !no_handle_asked(given) {
        let i = choose|i: int|
            0 <= i < given.len() && handles::normalized_handle((#[trigger] given[i])@) is Some;
        let g = handles::normalized_handle(given[i]@)->0;
        assert(inputs[i] == given[i]@);
        handles::law_normalized_handles_members(inputs, g);
        assert(list.contains(g));
    }
}

// ---------------------------------------------------------------------------
// Single values
// ---------------------------------------------------------------------------
/// A language that is given is asked for in upper case and without white space
/// around it, unless nothing is left of it or it is the word `all` in any case.
pub proof fn law_language_filter(given: Seq<char>)
    ensures
        filters::language_filter(None) is None,
        text::trim(given).len() == 0 ==> filters::language_filter(Some(given)) is None,
        text::lower(text::trim(given)) == text::lower("all"@) ==> filters::language_filter(
            Some(given),
        ) is None,
        text::trim(given).len() > 0 && text::lower(text::trim(given)) != text::lower("all"@)
            ==> filters::language_filter(Some(given)) == Some(text::upper(text::trim(given))),
{
}

/// An app that is given is asked for as it is spelled, without white space around
/// it, unless nothing is left of it or it is a word for no app in particular.
pub proof fn law_app_filter(given: Seq<char>)
    ensures
        filters::app_filter(None) is None,
        text::trim(given).len() == 0 ==> filters::app_filter(Some(given)) is None,
        ({
            let word = text::lower(text::trim(given));
            let general = word == text::lower("all"@) || word == text::lower("all apps"@) || word
                == text::lower("__with_app__"@) || word == text::lower("__no_app__"@);
            &&& general ==> filters::app_filter(Some(given)) is None
            &&& text::trim(given).len() > 0 && !general ==> filters::app_filter(Some(given))
                == Some(text::trim(given))
        }),
{
}

/// Creators with an app are asked for by the words `__with_app__`, `with_app` and
/// `all_apps`, those without one by `__no_app__`, `no_app` and `none`, in any case
/// and with white space around them; other words ask for neither.
pub proof fn law_app_mode_words(given: Seq<char>)
    ensures
        filters::app_mode(None) is None,
        ({
            let word = text::lower(text::trim(given));
            let with = word == "__with_app__"@ || word == "with_app"@ || word == "all_apps"@;
            let no = word == "__no_app__"@ || word == "no_app"@ || word == "none"@;
            &&& filters::app_mode(Some(given)) == Some(AppMode::WithApp) <==> with
            &&& filters::app_mode(Some(given)) == Some(AppMode::NoApp) <==> no
        }),
{
    reveal_strlit("__with_app__");
    reveal_strlit("with_app");
    reveal_strlit("all_apps");
    reveal_strlit("__no_app__");
    reveal_strlit("no_app");
    reveal_strlit("none");
    assert("no_app"@[0] != "all_apps"@[0]);
    assert("none"@.len() == 4);
    assert("__with_app__"@.len() == 12);
    assert("__no_app__"@.len() == 10);
    assert("no_app"@.len() == 6);
    assert("with_app"@.len() == 8);
    assert("all_apps"@.len() == 8);
}

/// Creators with an address are asked for by the words `has`, `yes`, `true` and
/// `with`, those without one by `none`, `no`, `false` and `without`, in any case
/// and with white space around them; other words ask for neither.
pub proof fn law_email_filter_words(given: Seq<char>)
    ensures
        filters::email_filter(None) is None,
        ({
            let word = text::lower(text::trim(given));
            let has = word == "has"@ || word == "yes"@ || word == "true"@ || word == "with"@;
            let lacks = word == "none"@ || word == "no"@ || word == "false"@ || word == "without"@;
            &&& filters::email_filter(Some(given)) == Some(EmailFilter::Has) <==> has
            &&& filters::email_filter(Some(given)) == Some(EmailFilter::Lacks) <==> lacks
        }),
{
    reveal_strlit("has");
    reveal_strlit("yes");
    reveal_strlit("true");
    reveal_strlit("with");
    reveal_strlit("none");
    reveal_strlit("no");
    reveal_strlit("false");
    reveal_strlit("without");
    assert("has"@.len() == 3);
    assert("yes"@.len() == 3);
    assert("true"@.len() == 4);
    assert("with"@.len() == 4);
    assert("none"@.len() == 4);
    assert("no"@.len() == 2);
    assert("false"@.len() == 5);
    assert("without"@.len() == 7);
    assert("true"@[0] != "none"@[0]);
    assert("with"@[0] != "none"@[0]);
}

/// The words for the policies, in any case and with white space around them, and
/// no others, stand for policies.
pub proof fn law_policy_words(given: Seq<char>)
    ensures
        ({
            let word = text::lower(text::trim(given));
            &&& filters::policy_of(given) == Some(AppPolicy::Whitelist) <==> word == "whitelist"@
            &&& filters::policy_of(given) == Some(AppPolicy::Neutral) <==> word == "neutral"@
            &&& filters::policy_of(given) == Some(AppPolicy::Blacklist) <==> word == "blacklist"@
        }),
{
    reveal_strlit("whitelist");
    reveal_strlit("neutral");
    reveal_strlit("blacklist");
    assert("whitelist"@[0] != "blacklist"@[0]);
    assert("neutral"@.len() == 7);
    assert("whitelist"@.len() == 9);
    assert("blacklist"@.len() == 9);
}

/// The words for the states of a contact, in any case and with white space around
/// them, and no others, stand for states.
pub proof fn law_contact_words(given: Seq<char>)
    ensures
        ({
            let word = text::lower(text::trim(given));
            &&& filters::contact_of(given) == Some(ContactStatus::Unselected) <==> word
                == "unselected"@ || word == "none"@
            &&& filters::contact_of(given) == Some(ContactStatus::ToContact) <==> word
                == "to_contact"@ || word == "queued"@
            &&& filters::contact_of(given) == Some(ContactStatus::Contacted) <==> word
                == "contacted"@
        }),
{
    reveal_strlit("unselected");
    reveal_strlit("none");
    reveal_strlit("to_contact");
    reveal_strlit("queued");
    reveal_strlit("contacted");
    assert("unselected"@.len() == 10);
    assert("none"@.len() == 4);
    assert("to_contact"@.len() == 10);
    assert("queued"@.len() == 6);
    assert("contacted"@.len() == 9);
    assert("unselected"@[0] != "to_contact"@[0]);
}

/// A handle that may be missing is the one that the text names.
pub proof fn law_handle_that_may_be_missing(given: Seq<char>)
    ensures
        filters::handle_opt(None) is None,
        filters::handle_opt(Some(given)) == handles::normalized_handle(given),
{
}

} // verus!
