//! What a classification of a creator means.

use vstd::prelude::*;
use crate::floating::{Real, NINE_TENTHS_BITS};
use crate::lists;
use crate::models;
use crate::models::{AppClassification, ClassificationView};
use crate::numbers;
use crate::reading;
use crate::search;
use crate::services::patterns;
use crate::text;
use crate::text::CharClass;

verus! {

/// How many posts have to support an app before it counts as promoted.
pub const MINIMUM_SUPPORT: u8 = 2;

/// How many posts are looked at.
pub const MAXIMUM_SUPPORT: u8 = 3;

// ---------------------------------------------------------------------------
// Values that a model fills in
// ---------------------------------------------------------------------------
/// The text stands for no value.
pub open spec fn is_no_value(s: Seq<char>) -> bool {
    ||| text::same_ignoring_case(s, "unknown"@)
    ||| text::same_ignoring_case(s, "n/a"@)
    ||| text::same_ignoring_case(s, "none"@)
    ||| text::same_ignoring_case(s, "null"@)
}

/// The trimmed value, where it is one.
pub open spec fn model_value(value: Option<Seq<char>>) -> Option<Seq<char>> {
    match models::non_blank(value) {
        Some(t) => if is_no_value(t) {
            None
        } else {
            Some(t)
        },
        None => None,
    }
}

/// The value as an address of electronic mail: without spaces and in lower
/// case, where it has an `@` and a dot.
pub open spec fn model_email(value: Option<Seq<char>>) -> Option<Seq<char>> {
    match model_value(value) {
        Some(t) => {
            let address = text::lower(search::without_char(t, ' '));
            if address.contains('@') && address.contains('.') {
                Some(address)
            } else {
                None
            }
        },
        None => None,
    }
}

/// The trimmed value, where it is one.
pub fn normalize_optional_model_value(value: Option<String>) -> (r: Option<String>)
    ensures
        models::opt_text(r) == model_value(models::opt_text(value)),
{
    match models::trimmed_opt(&value) {
        Some(t) => if text::eq_ignoring_case(t.as_str(), "unknown") || text::eq_ignoring_case(
            t.as_str(),
            "n/a",
        ) || text::eq_ignoring_case(t.as_str(), "none") || text::eq_ignoring_case(
            t.as_str(),
            "null",
        ) {
            None
        } else {
            Some(t)
        },
        None => None,
    }
}

/// The value as an address of electronic mail.
pub fn normalize_optional_email(value: Option<String>) -> (r: Option<String>)
    ensures
        models::opt_text(r) == model_email(models::opt_text(value)),
{
    match normalize_optional_model_value(value) {
        Some(t) => {
            let joined: String = search::remove_char(t.as_str(), ' ');
            let address: String = text::to_lower(joined.as_str());
            if search::has_char(address.as_str(), '@') && search::has_char(
                address.as_str(),
                '.',
            ) {
                Some(address)
            } else {
                None
            }
        },
        None => None,
    }
}

// ---------------------------------------------------------------------------
// Known apps
// ---------------------------------------------------------------------------
/// The first known name that differs from `name` only in case.
pub open spec fn known_name(known: Seq<Seq<char>>, name: Seq<char>) -> Option<Seq<char>>
    decreases known.len(),
{
    if known.len() == 0 {
        None
    } else if text::same_ignoring_case(known[0], name) {
        Some(known[0])
    } else {
        known_name(known.skip(1), name)
    }
}

/// The first known name that differs from `name` only in case.
pub fn find_known_name(known: &Vec<String>, name: &str) -> (r: Option<String>)
    ensures
        models::opt_text(r) == known_name(search::texts(known@), name@),
{
    let ghost all = search::texts(known@);
    let mut i: usize = 0;
    assert(all.skip(0) =~= all);
    while i < known.len()
        invariant
            i <= known@.len(),
            all == search::texts(known@),
            known_name(all, name@) == known_name(all.skip(i as int), name@),
        decreases known@.len() - i,
    {
        assert(all.skip(i as int)[0] == known@[i as int]@);
        assert(all.skip(i as int).skip(1) =~= all.skip(i + 1));
        if text::eq_ignoring_case(known[i].as_str(), name) {
            return Some(known[i].clone());
        }
        i = i + 1;
    }
    None
}

// ---------------------------------------------------------------------------
// Bringing a classification into order
// ---------------------------------------------------------------------------
/// A classification without an app, that keeps what is known of the creator.
pub open spec fn without_app(c: ClassificationView, evidence: Seq<char>) -> ClassificationView {
    ClassificationView {
        language_code: models::language(c.language_code),
        creator_name: model_value(c.creator_name),
        creator_email: model_email(c.creator_email),
        evidence: evidence,
        ..models::no_app_view()
    }
}

/// The number of supporting posts, as far as it is possible.
pub open spec fn support(c: ClassificationView) -> u8 {
    if c.supporting_post_count <= MAXIMUM_SUPPORT {
        c.supporting_post_count
    } else {
        MAXIMUM_SUPPORT
    }
}

/// The evidence, with a remark that too few posts support the app.
pub open spec fn weak_evidence(c: ClassificationView) -> Seq<char> {
    text::trim(
        text::trim(c.evidence) + " Same app was supported by only "@ + numbers::decimal(
            support(c) as nat,
        ) + " analyzed post section(s); minimum is 2."@,
    )
}

/// A classification in the form in which it is kept: an app counts only with
/// two posts that support it, and goes by its known name where it has one.
pub open spec fn canonical(c: ClassificationView, known: Seq<Seq<char>>) -> ClassificationView {
    if !c.promotes_app {
        without_app(c, c.evidence)
    } else if support(c) < MINIMUM_SUPPORT {
        without_app(c, weak_evidence(c))
    } else {
        match models::app_candidate(c) {
            None => without_app(c, c.evidence),
            Some(name) => {
                let found = known_name(known, name);
                ClassificationView {
                    promotes_app: true,
                    app_name: Some(
                        match found {
                            Some(n) => n,
                            None => name,
                        },
                    ),
                    is_existing_app: found is Some,
                    existing_app_name: found,
                    is_new_app: found is None,
                    supporting_post_count: support(c),
                    language_code: models::language(c.language_code),
                    creator_name: model_value(c.creator_name),
                    creator_email: model_email(c.creator_email),
                    confidence: c.confidence.clamped(),
                    evidence: c.evidence,
                }
            },
        }
    }
}

fn drop_app(
    language_code: String,
    creator_name: Option<String>,
    creator_email: Option<String>,
    evidence: String,
) -> (r: AppClassification)
    ensures
        r@ == (ClassificationView {
            language_code: language_code@,
            creator_name: models::opt_text(creator_name),
            creator_email: models::opt_text(creator_email),
            evidence: evidence@,
            ..models::no_app_view()
        }),
{
    let none: AppClassification = AppClassification::no_app();
    AppClassification {
        promotes_app: none.promotes_app,
        app_name: none.app_name,
        is_existing_app: none.is_existing_app,
        existing_app_name: none.existing_app_name,
        is_new_app: none.is_new_app,
        supporting_post_count: none.supporting_post_count,
        language_code,
        creator_name,
        creator_email,
        confidence: none.confidence,
        evidence,
    }
}

fn add_weak_remark(evidence: &str, count: u8) -> (r: String)
    ensures
        r@ == text::trim(
            text::trim(evidence@) + " Same app was supported by only "@ + numbers::decimal(
                count as nat,
            ) + " analyzed post section(s); minimum is 2."@,
        ),
{
    let mut remark: String = text::trim_of(evidence);
    let number: String = numbers::decimal_of(count as u64);
    remark.append(" Same app was supported by only ");
    remark.append(number.as_str());
    remark.append(" analyzed post section(s); minimum is 2.");
    text::trim_of(remark.as_str())
}

/// Brings a classification into the form in which it is kept.
pub fn canonicalize_classification(
    classification: AppClassification,
    known_apps: &Vec<String>,
) -> (r: AppClassification)
    ensures
        r@ == canonical(classification@, search::texts(known_apps@)),
{
    let candidate: Option<String> = classification.canonical_app_name();
    let count: u8 = if classification.supporting_post_count <= MAXIMUM_SUPPORT {
        classification.supporting_post_count
    } else {
        MAXIMUM_SUPPORT
    };
    let language_code: String = models::normalize_language_code(
        classification.language_code.as_str(),
    );
    let creator_name: Option<String> = normalize_optional_model_value(
        classification.creator_name,
    );
    let creator_email: Option<String> = normalize_optional_email(classification.creator_email);
    if !classification.promotes_app {
        return drop_app(language_code, creator_name, creator_email, classification.evidence);
    }
    if count < MINIMUM_SUPPORT {
        let evidence: String = add_weak_remark(classification.evidence.as_str(), count);
        return drop_app(language_code, creator_name, creator_email, evidence);
    }
    let name: String = match candidate {
        Some(name) => name,
        None => {
            return drop_app(language_code, creator_name, creator_email, classification.evidence);
        },
    };
    let found: Option<String> = find_known_name(known_apps, name.as_str());
    let is_known: bool = found.is_some();
    let app_name: String = match &found {
        Some(n) => n.clone(),
        None => name,
    };
    AppClassification {
        promotes_app: true,
        app_name: Some(app_name),
        is_existing_app: is_known,
        existing_app_name: found,
        is_new_app: !is_known,
        supporting_post_count: count,
        language_code,
        creator_name,
        creator_email,
        confidence: classification.confidence.clamp_unit(),
        evidence: classification.evidence,
    }
}

// ---------------------------------------------------------------------------
// What the bio says
// ---------------------------------------------------------------------------
/// The role words that a bio uses.
pub open spec fn role_words() -> Seq<Seq<char>> {
    seq!["ambassador"@, "affiliate"@, "partner"@, "promoter"@, "promo code"@]
}

/// The line speaks of a role.
pub open spec fn has_role(line: Seq<char>) -> bool {
    search::contains_any(text::lower(line), role_words())
}

/// Whether the line speaks of a role.
pub fn contains_ambassador_signal(line: &str) -> (r: bool)
    ensures
        r == has_role(line@),
{
    let lower: String = text::to_lower(line);
    let words: Vec<&str> = vec!["ambassador", "affiliate", "partner", "promoter", "promo code"];
    assert(words@.map_values(|n: &str| n@) =~= role_words());
    search::has_any_text(lower.as_str(), words.as_slice())
}

/// An app's name before a role.
pub const BEFORE_ROLE: &'static str =
    r"(?i)(?P<app>[A-Z0-9][A-Z0-9 &'._+-]{1,80}?)\s+(?:app\s+)?(?:ambassador|affiliate|partner|promoter)\b";

/// An app's name after a role.
pub const AFTER_ROLE: &'static str =
    r"(?i)(?:ambassador|affiliate|partner|promoter)\s+(?:for|of|at|with)\s+(?P<app>[A-Z0-9][A-Z0-9 &'._+-]{1,80})";

/// The group of a pattern that takes the app's name.
pub const APP_GROUP: &'static str = "app";

/// The app's name before a role in the line.
pub fn ambassador_app_before_role(line: &str) -> (r: Option<String>)
    ensures
        models::opt_text(r) == patterns::captured(BEFORE_ROLE@, APP_GROUP@, line@),
{
    patterns::capture(BEFORE_ROLE, APP_GROUP, line)
}

/// The app's name after a role in the line.
pub fn ambassador_app_after_role(line: &str) -> (r: Option<String>)
    ensures
        models::opt_text(r) == patterns::captured(AFTER_ROLE@, APP_GROUP@, line@),
{
    patterns::capture(AFTER_ROLE, APP_GROUP, line)
}

/// The words that name no app.
pub open spec fn generic_words() -> Seq<Seq<char>> {
    seq!["app"@, "brand"@, "campus"@, "student"@, "ugc"@, "tiktok"@, "main"@]
}

/// The part of `s` before the first two spaces in a row.
pub open spec fn before_gap(s: Seq<char>) -> Seq<char> {
    match search::find(s, seq![' ', ' ']) {
        Some(i) => s.take(i),
        None => s,
    }
}

/// What a pattern takes for a name, without what surrounds it.
pub open spec fn bare_name(s: Seq<char>) -> Seq<char> {
    text::trim(before_gap(text::trim_both(s, CharClass::NameEdge)))
}

/// The name in what a pattern takes for one, unless nothing is left of it or
/// it is a word that names no app.
pub open spec fn clean_name(s: Seq<char>) -> Option<Seq<char>> {
    if bare_name(s).len() == 0 || generic_words().contains(text::lower(text::trim(bare_name(s)))) {
        None
    } else {
        Some(bare_name(s))
    }
}

/// Whether the name is a word that names no app.
pub fn is_generic_ambassador_candidate(candidate: &str) -> (r: bool)
    ensures
        r == generic_words().contains(text::lower(text::trim(candidate@))),
{
    let trimmed: String = text::trim_of(candidate);
    let lower: String = text::to_lower(trimmed.as_str());
    let words: Vec<&str> = vec!["app", "brand", "campus", "student", "ugc", "tiktok", "main"];
    assert(reading::names(words@) =~= generic_words());
    reading::is_one_of(lower.as_str(), words.as_slice())
}

fn cut_before_gap(s: &str) -> (r: String)
    ensures
        r@ == before_gap(s@),
{
    let v: Vec<char> = text::chars_of(s);
    let gap: Vec<char> = vec![' ', ' '];
    assert(gap@ =~= seq![' ', ' ']);
    let to: usize = match search::find_in(&v, &gap) {
        Some(i) => i,
        None => v.len(),
    };
    assert(v@.subrange(0, to as int) =~= before_gap(s@));
    text::string_of(&v, 0, to)
}

/// The name in what a pattern takes for one.
pub fn clean_ambassador_app_candidate(candidate: String) -> (r: Option<String>)
    ensures
        models::opt_text(r) == clean_name(candidate@),
{
    let trimmed: String = text::trim_both_of(candidate.as_str(), CharClass::NameEdge);
    let first: String = cut_before_gap(trimmed.as_str());
    let name: String = text::trim_of(first.as_str());
    if text::empty(name.as_str()) || is_generic_ambassador_candidate(name.as_str()) {
        None
    } else {
        Some(name)
    }
}

/// The app's name in a line, given what stands after a role and what stands
/// before one: what stands after it counts first.
pub open spec fn name_in_line(
    after: Option<Seq<char>>,
    before: Option<Seq<char>>,
) -> Option<Seq<char>> {
    match after {
        Some(t) => clean_name(t),
        None => match before {
            Some(t) => clean_name(t),
            None => None,
        },
    }
}

/// The app's name in a line, given what stands after a role and what stands
/// before one.
pub fn choose_name_in_line(after: Option<String>, before: Option<String>) -> (r: Option<String>)
    ensures
        models::opt_text(r) == name_in_line(models::opt_text(after), models::opt_text(before)),
{
    match after {
        Some(t) => clean_ambassador_app_candidate(t),
        None => match before {
            Some(t) => clean_ambassador_app_candidate(t),
            None => None,
        },
    }
}

/// The app's name that one line of a bio gives.
pub open spec fn line_candidate(line: Seq<char>) -> Option<Seq<char>> {
    if has_role(line) {
        name_in_line(
            patterns::captured(AFTER_ROLE@, APP_GROUP@, line),
            patterns::captured(BEFORE_ROLE@, APP_GROUP@, line),
        )
    } else {
        None
    }
}

/// The first name that one of the lines gives.
pub open spec fn first_candidate(lines: Seq<Seq<char>>) -> Option<Seq<char>>
    decreases lines.len(),
{
    if lines.len() == 0 {
        None
    } else if line_candidate(lines[0]) is Some {
        line_candidate(lines[0])
    } else {
        first_candidate(lines.skip(1))
    }
}

/// The app that a bio names next to a role.
pub fn bio_ambassador_app_candidate(bio: &str) -> (r: Option<String>)
    ensures
        models::opt_text(r) == first_candidate(search::lines(bio@)),
{
    let lines: Vec<String> = search::lines_of(bio);
    let ghost all = search::lines(bio@);
    let mut i: usize = 0;
    assert(all.skip(0) =~= all);
    while i < lines.len()
        invariant
            i <= lines@.len(),
            all == search::texts(lines@),
            all == search::lines(bio@),
            first_candidate(all) == first_candidate(all.skip(i as int)),
        decreases lines@.len() - i,
    {
        assert(all.skip(i as int)[0] == lines@[i as int]@);
        assert(all.skip(i as int).skip(1) =~= all.skip(i + 1));
        let line: &str = lines[i].as_str();
        if contains_ambassador_signal(line) {
            let after: Option<String> = ambassador_app_after_role(line);
            let before: Option<String> = ambassador_app_before_role(line);
            let name: Option<String> = choose_name_in_line(after, before);
            if name.is_some() {
                return name;
            }
        }
        i = i + 1;
    }
    None
}

// ---------------------------------------------------------------------------
// Support in the posts
// ---------------------------------------------------------------------------
pub open spec fn is_detection_char(c: char) -> bool {
    text::is_ascii_alnum(c) || text::is_ascii_white(c)
}

pub open spec fn detection_chars() -> spec_fn(char) -> bool {
    |c: char| is_detection_char(c)
}

/// The words of a text: letters and digits in lower case, with one space
/// between words.
pub open spec fn detection_text(s: Seq<char>) -> Seq<char> {
    search::squeeze(text::lower(s.filter(detection_chars())))
}

/// The words of a text.
pub fn normalize_detection_text(value: &str) -> (r: String)
    ensures
        r@ == detection_text(value@),
{
    let v: Vec<char> = text::chars_of(value);
    let mut kept: String = String::new();
    let mut i: usize = 0;
    proof {
        reveal(Seq::filter);
        assert(value@.take(0).filter(detection_chars()) =~= Seq::<char>::empty());
    }
    while i < v.len()
        invariant
            i <= v@.len(),
            v@ == value@,
            kept@ == value@.take(i as int).filter(detection_chars()),
        decreases v@.len() - i,
    {
        proof {
            assert(value@.take(i + 1) =~= value@.take(i as int).push(value@[i as int]));
            search::lemma_filter_push(value@.take(i as int), detection_chars(), value@[i as int]);
        }
        if text::ascii_alnum(v[i]) || text::ascii_white(v[i]) {
            kept.push(v[i]);
        }
        i = i + 1;
    }
    assert(value@.take(i as int) =~= value@);
    let lower: String = text::to_lower(kept.as_str());
    let chars: Vec<char> = text::chars_of(lower.as_str());
    let words: Vec<char> = search::squeeze_of(&chars);
    let to: usize = words.len();
    assert(words@.subrange(0, to as int) =~= words@);
    text::string_of(&words, 0, to)
}

/// What divides the posts in a text that holds several.
pub const SECTION_BREAK: &'static str = "\n\n---\n\n";

/// The section speaks of the app.
pub open spec fn speaks_of_app(app: Seq<char>) -> spec_fn(Seq<char>) -> bool {
    |section: Seq<char>| search::contains(detection_text(section), detection_text(app))
}

/// How many of the posts in the text speak of the app.
pub open spec fn sections_with_app(content: Seq<char>, app: Seq<char>) -> nat {
    if detection_text(app).len() == 0 {
        0
    } else {
        lists::count(search::split(content, SECTION_BREAK@), speaks_of_app(app))
    }
}

/// How many of the posts in the text speak of the app.
pub fn count_post_sections_containing_app(latest_content: &str, app_name: &str) -> (r: usize)
    ensures
        r == sections_with_app(latest_content@, app_name@),
{
    let app: String = normalize_detection_text(app_name);
    if text::empty(app.as_str()) {
        return 0;
    }
    proof {
        reveal_strlit("\n\n---\n\n");
        assert(SECTION_BREAK@.len() == 7);
    }
    let sections: Vec<String> = search::split_by(latest_content, SECTION_BREAK);
    let ghost all = search::texts(sections@);
    let ghost p = speaks_of_app(app_name@);
    let mut n: usize = 0;
    let mut i: usize = 0;
    proof {
        reveal(Seq::filter);
        assert(lists::count(all.take(0), p) == 0);
    }
    while i < sections.len()
        invariant
            i <= sections@.len(),
            all == search::texts(sections@),
            p == speaks_of_app(app_name@),
            app@ == detection_text(app_name@),
            n == lists::count(all.take(i as int), p),
            n <= i,
        decreases sections@.len() - i,
    {
        proof {
            assert(all.take(i + 1) =~= all.take(i as int).push(all[i as int]));
            lists::lemma_count_push(all.take(i as int), p, all[i as int]);
            assert(all[i as int] == sections@[i as int]@);
        }
        let section: String = normalize_detection_text(sections[i].as_str());
        if search::has_text(section.as_str(), app.as_str()) {
            n = n + 1;
        }
        i = i + 1;
    }
    assert(all.take(i as int) =~= all);
    n
}

// ---------------------------------------------------------------------------
// Falling back on the bio
// ---------------------------------------------------------------------------
/// The number of posts that count as support.
pub open spec fn capped_support(sections: nat) -> u8 {
    if sections < MAXIMUM_SUPPORT {
        sections as u8
    } else {
        MAXIMUM_SUPPORT
    }
}

/// The evidence, with a remark on what the bio says.
pub open spec fn bio_evidence(evidence: Seq<char>, app: Seq<char>) -> Seq<char> {
    let remark = "Bio explicitly says '"@ + app + " ambassador'."@;
    if text::trim(evidence).len() == 0 {
        remark
    } else {
        text::trim(evidence) + " "@ + remark
    }
}

/// A classification without an app, completed by the app that the bio names,
/// where two posts speak of it.
pub open spec fn with_bio(
    c: ClassificationView,
    named: Option<Seq<char>>,
    content: Seq<char>,
    known: Seq<Seq<char>>,
) -> ClassificationView {
    if c.promotes_app {
        c
    } else {
        match named {
            None => c,
            Some(app) => {
                let count = capped_support(sections_with_app(content, app));
                if count < MINIMUM_SUPPORT {
                    c
                } else {
                    let found = known_name(known, app);
                    ClassificationView {
                        promotes_app: true,
                        app_name: Some(
                            match found {
                                Some(n) => n,
                                None => app,
                            },
                        ),
                        is_existing_app: found is Some,
                        existing_app_name: found,
                        is_new_app: found is None,
                        supporting_post_count: count,
                        language_code: c.language_code,
                        creator_name: c.creator_name,
                        creator_email: c.creator_email,
                        confidence: c.confidence.at_least(Real { bits: NINE_TENTHS_BITS }),
                        evidence: bio_evidence(c.evidence, app),
                    }
                }
            },
        }
    }
}

fn add_bio_remark(evidence: &str, app: &str) -> (r: String)
    ensures
        r@ == bio_evidence(evidence@, app@),
{
    let mut remark: String = "Bio explicitly says '".to_string();
    remark.append(app);
    remark.append(" ambassador'.");
    let trimmed: String = text::trim_of(evidence);
    if text::empty(trimmed.as_str()) {
        remark
    } else {
        let mut r: String = trimmed;
        r.append(" ");
        r.append(remark.as_str());
        r
    }
}

/// Completes a classification by the app that the bio names, if it names one.
pub fn apply_bio_candidate(
    classification: AppClassification,
    named: Option<String>,
    latest_content: &str,
    known_apps: &Vec<String>,
) -> (r: AppClassification)
    ensures
        r@ == with_bio(
            classification@,
            models::opt_text(named),
            latest_content@,
            search::texts(known_apps@),
        ),
{
    if classification.promotes_app {
        return classification;
    }
    let app: String = match named {
        Some(app) => app,
        None => {
            return classification;
        },
    };
    let sections: usize = count_post_sections_containing_app(latest_content, app.as_str());
    let count: u8 = if sections < MAXIMUM_SUPPORT as usize {
        sections as u8
    } else {
        MAXIMUM_SUPPORT
    };
    if count < MINIMUM_SUPPORT {
        return classification;
    }
    let found: Option<String> = find_known_name(known_apps, app.as_str());
    let is_known: bool = found.is_some();
    let evidence: String = add_bio_remark(classification.evidence.as_str(), app.as_str());
    let app_name: String = match &found {
        Some(n) => n.clone(),
        None => app,
    };
    AppClassification {
        promotes_app: true,
        app_name: Some(app_name),
        is_existing_app: is_known,
        existing_app_name: found,
        is_new_app: !is_known,
        supporting_post_count: count,
        language_code: classification.language_code,
        creator_name: classification.creator_name,
        creator_email: classification.creator_email,
        confidence: classification.confidence.raise_to(Real { bits: NINE_TENTHS_BITS }),
        evidence,
    }
}

/// Completes a classification by what the bio says.
pub fn apply_bio_ambassador_fallback(
    classification: AppClassification,
    bio: &str,
    latest_content: &str,
    known_apps: &Vec<String>,
) -> (r: AppClassification)
    ensures
        r@ == with_bio(
            classification@,
            first_candidate(search::lines(bio@)),
            latest_content@,
            search::texts(known_apps@),
        ),
{
    let named: Option<String> = bio_ambassador_app_candidate(bio);
    apply_bio_candidate(classification, named, latest_content, known_apps)
}

// ---------------------------------------------------------------------------
// Laws
// ---------------------------------------------------------------------------
/// What holds of every classification that is kept: a promoted app has a name
/// that is not blank and two or three posts that support it, and is either
/// known or new; without a promoted app there is no name and no support.
pub open spec fn consistent(c: ClassificationView) -> bool {
    if c.promotes_app {
        &&& MINIMUM_SUPPORT <= c.supporting_post_count <= MAXIMUM_SUPPORT
        &&& c.app_name is Some
        &&& c.app_name->0.len() > 0
        &&& c.is_new_app == !c.is_existing_app
        &&& c.existing_app_name == if c.is_existing_app {
            c.app_name
        } else {
            None
        }
    } else {
        &&& c.supporting_post_count == 0
        &&& c.app_name is None
        &&& c.existing_app_name is None
        &&& !c.is_existing_app
        &&& !c.is_new_app
    }
}

proof fn lemma_known_name(known: Seq<Seq<char>>, name: Seq<char>)
    ensures
        match known_name(known, name) {
            Some(n) => n.len() == name.len() && known.contains(n) && text::same_ignoring_case(
                n,
                name,
            ),
            None => forall|i: int|
                0 <= i < known.len() ==> !text::same_ignoring_case(#[trigger] known[i], name),
        },
    decreases known.len(),
{
    if known.len() > 0 {
        if text::same_ignoring_case(known[0], name) {
            assert(text::lower(known[0]).len() == text::lower(name).len());
        } else {
            let rest = known.skip(1);
            lemma_known_name(rest, name);
            match known_name(rest, name) {
                Some(n) => {
                    let k = choose|k: int| 0 <= k < rest.len() && rest[k] == n;
                    assert(known[k + 1] == n);
                },
                None => {
                    assert forall|i: int| 0 <= i < known.len() implies !text::same_ignoring_case(
                        #[trigger] known[i],
                        name,
                    ) by {
                        if i > 0 {
                            assert(rest[i - 1] == known[i]);
                        }
                    }
                },
            }
        }
    }
}

/// Every classification in the form in which it is kept is consistent, and a
/// known app goes by one of the known names.
pub proof fn law_canonical_is_consistent(c: ClassificationView, known: Seq<Seq<char>>)
    ensures
        consistent(canonical(c, known)),
        canonical(c, known).is_existing_app ==> known.contains(canonical(c, known).app_name->0),
        canonical(c, known).promotes_app ==> c.promotes_app,
        canonical(c, known).language_code.len() > 0,
{
    models::law_language_idempotent(c.language_code);
    if let Some(name) = models::app_candidate(c) {
        lemma_known_name(known, name);
    }
}

/// Completing a consistent classification by the bio gives a consistent one,
/// and takes no app away.
pub proof fn law_bio_keeps_consistent(
    c: ClassificationView,
    bio: Seq<char>,
    content: Seq<char>,
    known: Seq<Seq<char>>,
)
    requires
        consistent(c),
    ensures
        consistent(with_bio(c, first_candidate(search::lines(bio)), content, known)),
        c.promotes_app ==> with_bio(c, first_candidate(search::lines(bio)), content, known) == c,
{
    let lines = search::lines(bio);
    lemma_first_candidate(lines);
    if let Some(app) = first_candidate(lines) {
        lemma_known_name(known, app);
    }
}

proof fn lemma_first_candidate(lines: Seq<Seq<char>>)
    ensures
        match first_candidate(lines) {
            Some(app) => app.len() > 0,
            None => true,
        },
    decreases lines.len(),
{
    if lines.len() > 0 {
        lemma_first_candidate(lines.skip(1));
    }
}

/// The bio alone promotes no app: two posts have to speak of it.
pub proof fn law_bio_needs_two_posts(
    c: ClassificationView,
    app: Seq<char>,
    content: Seq<char>,
    known: Seq<Seq<char>>,
)
    requires
        !c.promotes_app,
    ensures
        with_bio(c, Some(app), content, known).promotes_app <==> sections_with_app(content, app)
            >= MINIMUM_SUPPORT,
        sections_with_app(content, app) < MINIMUM_SUPPORT ==> with_bio(
            c,
            Some(app),
            content,
            known,
        ) == c,
{
}

} // verus!
