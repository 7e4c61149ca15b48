//! TikTok handles in one canonical form.

use vstd::prelude::*;
use crate::lists;
use crate::order;
use crate::search;
use crate::text;
use crate::text::CharClass;

verus! {

/// The characters that a canonical handle is made of.
pub open spec fn is_handle_char(c: char) -> bool {
    text::is_ascii_lower(c) || text::is_ascii_digit(c) || c == '.' || c == '_'
}

/// `s` is a canonical handle: not empty, and made of handle characters only.
pub open spec fn is_handle(s: Seq<char>) -> bool {
    s.len() > 0 && forall|i: int| 0 <= i < s.len() ==> is_handle_char(#[trigger] s[i])
}

pub open spec fn handle_chars() -> spec_fn(char) -> bool {
    |c: char| is_handle_char(c)
}

/// The input without white space and quotation marks around it.
pub open spec fn unquoted(s: Seq<char>) -> Seq<char> {
    text::trim_both(text::trim_both(text::trim(s), CharClass::Only('"')), CharClass::Only('\''))
}

/// What follows the first `/@` of a profile address, or the first `@`.
pub open spec fn after_at(s: Seq<char>) -> Seq<char> {
    match search::find(s, seq!['/', '@']) {
        Some(i) => s.skip(i + 2),
        None => match search::find(s, seq!['@']) {
            Some(i) => s.skip(i + 1),
            None => s,
        },
    }
}

/// The characters that end a handle inside an address.
pub open spec fn address_stops() -> Seq<char> {
    seq!['?', '#', '/', '&']
}

/// The handle characters of the input, in lower case.
pub open spec fn handle_text(s: Seq<char>) -> Seq<char> {
    let name = search::up_to(after_at(unquoted(s)), address_stops());
    text::lower(text::trim_start(name, CharClass::Only('@'))).filter(handle_chars())
}

/// The canonical handle that `s` names, if it names one.
pub open spec fn normalized_handle(s: Seq<char>) -> Option<Seq<char>> {
    if unquoted(s).len() > 0 && handle_text(s).len() > 0 {
        Some(handle_text(s))
    } else {
        None
    }
}

/// The canonical handles that the inputs name, in ascending order, each once.
pub open spec fn normalized_handles(inputs: Seq<Seq<char>>) -> Seq<Seq<char>> {
    order::sorted_set(lists::present(inputs.map_values(|s: Seq<char>| normalized_handle(s))))
}

fn handle_char(c: char) -> (r: bool)
    ensures
        r == is_handle_char(c),
{
    let n: u32 = c as u32;
    (97 <= n && n <= 122) || (48 <= n && n <= 57) || c == '.' || c == '_'
}

fn chars_after_at(v: &Vec<char>) -> (r: Vec<char>)
    ensures
        r@ == after_at(v@),
{
    let slash_at: Vec<char> = vec!['/', '@'];
    let at: Vec<char> = vec!['@'];
    assert(slash_at@ =~= seq!['/', '@']);
    assert(at@ =~= seq!['@']);
    match search::find_in(v, &slash_at) {
        Some(i) => {
            assert(i + 2 <= v.len());
            search::tail_of(v, i + 2)
        },
        None => match search::find_in(v, &at) {
            Some(i) => {
                assert(i + 1 <= v.len());
                search::tail_of(v, i + 1)
            },
            None => search::tail_of(v, 0),
        },
    }
}

fn lower_handle_chars(s: &str) -> (r: String)
    ensures
        r@ == text::lower(s@).filter(handle_chars()),
{
    let lowered: String = text::to_lower(s);
    let v: Vec<char> = text::chars_of(lowered.as_str());
    let ghost all = text::lower(s@);
    let mut r: String = String::new();
    let mut i: usize = 0;
    proof {
        reveal(Seq::filter);
        assert(all.take(0).filter(handle_chars()) =~= Seq::<char>::empty());
    }
    while i < v.len()
        invariant
            i <= v@.len(),
            v@ == all,
            r@ == all.take(i as int).filter(handle_chars()),
        decreases v@.len() - i,
    {
        proof {
            assert(all.take(i + 1) =~= all.take(i as int).push(all[i as int]));
            search::lemma_filter_push(all.take(i as int), handle_chars(), all[i as int]);
        }
        if handle_char(v[i]) {
            r.push(v[i]);
        }
        i = i + 1;
    }
    assert(all.take(i as int) =~= all);
    r
}

/// The canonical handle that the input names: a bare handle, one with `@`, or
/// the address of a profile or of one of its posts.
pub fn normalize_handle(input: &str) -> (r: Option<String>)
    ensures
        match r {
            Some(handle) => normalized_handle(input@) == Some(handle@) && is_handle(handle@),
            None => normalized_handle(input@) is None,
        },
{
    let trimmed: String = text::trim_of(input);
    let inner: String = text::trim_both_of(trimmed.as_str(), CharClass::Only('"'));
    let value: String = text::trim_both_of(inner.as_str(), CharClass::Only('\''));
    if text::empty(value.as_str()) {
        return None;
    }
    let chars: Vec<char> = text::chars_of(value.as_str());
    let rest: Vec<char> = chars_after_at(&chars);
    let stops: Vec<char> = vec!['?', '#', '/', '&'];
    assert(stops@ =~= address_stops());
    let name: Vec<char> = search::cut_at_any(&rest, &stops);
    let to: usize = name.len();
    let name_text: String = text::string_of(&name, 0, to);
    assert(name@.subrange(0, to as int) =~= name@);
    let bare: String = text::trim_start_of(name_text.as_str(), CharClass::Only('@'));
    let handle: String = lower_handle_chars(bare.as_str());
    if text::empty(handle.as_str()) {
        None
    } else {
        proof {
            lemma_handle_text(input@);
        }
        Some(handle)
    }
}

/// The canonical handles that the inputs name, in ascending order, each once.
pub fn normalize_many(handles: &Vec<String>) -> (r: Vec<String>)
    ensures
        search::texts(r@) == normalized_handles(search::texts(handles@)),
        order::ascending(search::texts(r@)),
{
    let ghost inputs = search::texts(handles@);
    let ghost all = inputs.map_values(|s: Seq<char>| normalized_handle(s));
    let mut named: Vec<String> = Vec::new();
    let mut i: usize = 0;
    assert(search::texts(named@) =~= lists::present(all.take(0)));
    while i < handles.len()
        invariant
            i <= handles@.len(),
            inputs == search::texts(handles@),
            all == inputs.map_values(|s: Seq<char>| normalized_handle(s)),
            search::texts(named@) == lists::present(all.take(i as int)),
        decreases handles@.len() - i,
    {
        let ghost before = named@;
        proof {
            assert(all.take(i + 1) =~= all.take(i as int).push(all[i as int]));
            lists::lemma_present_push(all.take(i as int), all[i as int]);
        }
        if let Some(handle) = normalize_handle(handles[i].as_str()) {
            named.push(handle);
            assert(search::texts(named@) =~= search::texts(before).push(handle@));
        }
        i = i + 1;
    }
    assert(all.take(i as int) =~= all);
    order::sort_texts(&named)
}

// ---------------------------------------------------------------------------
// Laws
// ---------------------------------------------------------------------------
proof fn lemma_handle_text(s: Seq<char>)
    ensures
        handle_text(s).len() > 0 ==> is_handle(handle_text(s)),
{
    let name = search::up_to(after_at(unquoted(s)), address_stops());
    let lowered = text::lower(text::trim_start(name, CharClass::Only('@')));
    assert forall|i: int| 0 <= i < handle_text(s).len() implies is_handle_char(
        #[trigger] handle_text(s)[i],
    ) by {
        lowered.lemma_filter_pred(handle_chars(), i);
    }
}

/// A filter for the characters of handles keeps a text of them.
pub proof fn lemma_filter_all(s: Seq<char>)
    requires
        forall|i: int| 0 <= i < s.len() ==> is_handle_char(#[trigger] s[i]),
    ensures
        s.filter(handle_chars()) == s,
    decreases s.len(),
{
    reveal(Seq::filter);
    if s.len() > 0 {
        lemma_filter_all(s.drop_last());
        assert(is_handle_char(s[s.len() - 1]));
        assert(s =~= s.drop_last().push(s.last()));
    }
}

/// A canonical handle names itself.
pub proof fn law_handle_names_itself(h: Seq<char>)
    requires
        is_handle(h),
    ensures
        normalized_handle(h) == Some(h),
{
    assert(is_handle_char(h[0]));
    assert(is_handle_char(h[h.len() - 1]));
    text::lemma_trimmed(h, CharClass::White);
    text::lemma_trimmed(h, CharClass::Only('"'));
    text::lemma_trimmed(h, CharClass::Only('\''));
    text::lemma_trimmed(h, CharClass::Only('@'));
    assert(unquoted(h) == h);
    assert forall|i: int| !search::occurs_at(h, seq!['/', '@'], i) by {
        if search::occurs_at(h, seq!['/', '@'], i) {
            assert(h.subrange(i, i + 2)[0] == '/');
            assert(is_handle_char(h[i]));
        }
    }
    assert forall|i: int| !search::occurs_at(h, seq!['@'], i) by {
        if search::occurs_at(h, seq!['@'], i) {
            assert(h.subrange(i, i + 1)[0] == '@');
            assert(is_handle_char(h[i]));
        }
    }
    assert(after_at(h) == h);
    assert(search::first_stop(h, address_stops(), h.len() as int)) by {
        assert forall|j: int| 0 <= j < h.len() implies !address_stops().contains(
            #[trigger] h[j],
        ) by {
            assert(is_handle_char(h[j]));
        }
    }
    search::lemma_up_to(h, address_stops(), h.len() as int);
    assert(h.take(h.len() as int) =~= h);
    assert(text::lower(h) =~= h) by {
        assert forall|i: int| 0 <= i < h.len() implies text::lower_char(#[trigger] h[i])
            == h[i] by {
            assert(is_handle_char(h[i]));
        }
    }
    lemma_filter_all(h);
}

/// What normalizing gives is a canonical handle, and normalizing it again
/// changes nothing.
pub proof fn law_normalized_handle_idempotent(s: Seq<char>)
    requires
        normalized_handle(s) is Some,
    ensures
        is_handle(normalized_handle(s)->0),
        normalized_handle(normalized_handle(s)->0) == normalized_handle(s),
{
    lemma_handle_text(s);
    law_handle_names_itself(normalized_handle(s)->0);
}

/// Upper case moves no occurrence of signs that have no case.
proof fn lemma_upper_find(s: Seq<char>, needle: Seq<char>)
    requires
        forall|k: int, c: char|
            0 <= k < needle.len() ==> (#[trigger] text::upper_char(c) == #[trigger] needle[k]) == (c
                == needle[k]),
    ensures
        search::find(text::upper(s), needle) == search::find(s, needle),
        search::find(s, needle) matches Some(i) ==> 0 <= i && i + needle.len() <= s.len(),
{
    let up = text::upper(s);
    assert forall|i: int| search::occurs_at(up, needle, i) == search::occurs_at(s, needle, i) by {
        if 0 <= i && i + needle.len() <= s.len() {
            let a = up.subrange(i, i + needle.len());
            let b = s.subrange(i, i + needle.len());
            assert forall|k: int| 0 <= k < needle.len() implies (#[trigger] a[k] == needle[k]) == (
            b[k] == needle[k]) by {
                assert(a[k] == text::upper_char(b[k]));
            }
            if b == needle {
                assert(a =~= needle);
            }
            if a == needle {
                assert(b =~= needle);
            }
        }
    }
    if exists|i: int| search::first_at(s, needle, i) {
        let i = choose|i: int| search::first_at(s, needle, i);
        assert(search::first_at(up, needle, i));
        search::lemma_first_at_is_find(s, needle, i);
        search::lemma_first_at_is_find(up, needle, i);
    } else if exists|i: int| search::first_at(up, needle, i) {
        let i = choose|i: int| search::first_at(up, needle, i);
        assert(search::first_at(s, needle, i));
    }
}

/// Upper case does not change where a handle ends inside an address.
proof fn lemma_upper_up_to(s: Seq<char>)
    ensures
        search::up_to(text::upper(s), address_stops()) == text::upper(
            search::up_to(s, address_stops()),
        ),
{
    let up = text::upper(s);
    let stops = address_stops();
    assert forall|c: char| stops.contains(c) <==> c == '?' || c == '#' || c == '/' || c == '&' by {
        assert(stops[0] == '?' && stops[1] == '#' && stops[2] == '/' && stops[3] == '&');
    }
    let k = lemma_stop_exists(s, stops);
    assert(search::first_stop(up, stops, k)) by {
        assert forall|j: int| 0 <= j < k implies !stops.contains(#[trigger] up[j]) by {
            assert(!stops.contains(s[j]));
        }
    }
    search::lemma_up_to(s, stops, k);
    search::lemma_up_to(up, stops, k);
    assert(up.take(k) =~= text::upper(s.take(k)));
}

proof fn lemma_stop_exists(s: Seq<char>, stops: Seq<char>) -> (k: int)
    ensures
        search::first_stop(s, stops, k),
    decreases s.len(),
{
    if s.len() == 0 {
        0
    } else {
        let k = lemma_stop_exists(s.drop_last(), stops);
        if k < s.len() - 1 {
            assert forall|j: int| 0 <= j < k implies !stops.contains(#[trigger] s[j]) by {
                assert(s.drop_last()[j] == s[j]);
            }
            k
        } else {
            assert forall|j: int| 0 <= j < k implies !stops.contains(#[trigger] s[j]) by {
                assert(s.drop_last()[j] == s[j]);
            }
            if stops.contains(s.last()) {
                k
            } else {
                k + 1
            }
        }
    }
}

/// The input names the same handle in upper case.
pub proof fn law_handle_ignores_case(s: Seq<char>)
    ensures
        normalized_handle(text::upper(s)) == normalized_handle(s),
{
    let trimmed = text::trim(s);
    let inner = text::trim_both(trimmed, CharClass::Only('"'));
    text::lemma_upper_trim(s);
    text::lemma_upper_trim_both(trimmed, CharClass::Only('"'));
    text::lemma_upper_trim_both(inner, CharClass::Only('\''));
    let value = unquoted(s);
    assert(unquoted(text::upper(s)) == text::upper(value));
    lemma_upper_find(value, seq!['/', '@']);
    lemma_upper_find(value, seq!['@']);
    let rest = after_at(value);
    assert(after_at(text::upper(value)) =~= text::upper(rest));
    lemma_upper_up_to(rest);
    let name = search::up_to(rest, address_stops());
    text::lemma_upper_trim_both(name, CharClass::Only('@'));
    text::lemma_lower_upper(text::trim_start(name, CharClass::Only('@')));
}

/// Every handle in the list is canonical and is named by one of the inputs, and
/// every handle that an input names is in the list.
pub proof fn law_normalized_handles_members(inputs: Seq<Seq<char>>, h: Seq<char>)
    ensures
        normalized_handles(inputs).contains(h) <==> exists|i: int|
            0 <= i < inputs.len() && normalized_handle(#[trigger] inputs[i]) == Some(h),
        normalized_handles(inputs).contains(h) ==> is_handle(h),
{
    let all = inputs.map_values(|s: Seq<char>| normalized_handle(s));
    let named = lists::present(all);
    order::lemma_sorted_set(named);
    lists::lemma_present_members(all);
    assert(normalized_handles(inputs).contains(h) <==> named.contains(h));
    if named.contains(h) {
        assert(all.contains(Some(h)));
        let i = choose|i: int| 0 <= i < all.len() && all[i] == Some(h);
        assert(normalized_handle(inputs[i]) == Some(h));
        lemma_handle_text(inputs[i]);
    }
    if exists|i: int| 0 <= i < inputs.len() && normalized_handle(#[trigger] inputs[i]) == Some(h) {
        let i = choose|i: int|
            0 <= i < inputs.len() && normalized_handle(#[trigger] inputs[i]) == Some(h);
        assert(all[i] == Some(h));
        assert(all.contains(Some(h)));
    }
}

/// Normalizing a normalized list changes nothing.
pub proof fn law_normalized_handles_idempotent(inputs: Seq<Seq<char>>)
    ensures
        normalized_handles(normalized_handles(inputs)) == normalized_handles(inputs),
{
    let list = normalized_handles(inputs);
    let all = list.map_values(|s: Seq<char>| normalized_handle(s));
    order::lemma_sorted_set(
        lists::present(inputs.map_values(|s: Seq<char>| normalized_handle(s))),
    );
    assert(all =~= list.map_values(|s: Seq<char>| Some(s))) by {
        assert forall|i: int| 0 <= i < list.len() implies normalized_handle(#[trigger] list[i])
            == Some(list[i]) by {
            assert(list.contains(list[i]));
            law_normalized_handles_members(inputs, list[i]);
            law_handle_names_itself(list[i]);
        }
    }
    lists::lemma_present_all(list);
    order::lemma_sorted_set_of_ascending(list);
}

} // verus!
