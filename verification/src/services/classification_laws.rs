//! What a classification keeps of the model's answer, and what decides on the app.

use vstd::prelude::*;
use crate::floating::Real;
use crate::models;
use crate::models::AppClassification;
use crate::numbers;
use crate::search;
use crate::services::openai;
use crate::services::patterns;
use crate::text;
use crate::text::CharClass;

verus! {

// ---------------------------------------------------------------------------
// What is known of the creator
// ---------------------------------------------------------------------------
/// The answer without white space around it; nothing where it is blank or one of
/// the words for no value.
pub open spec fn answer(given: Option<String>) -> Option<Seq<char>> {
    match given {
        Some(t) => {
            let word = text::trim(t@);
            let none = word.len() == 0 || text::lower(word) == text::lower("unknown"@)
                || text::lower(word) == text::lower("n/a"@) || text::lower(word) == text::lower(
                "none"@,
            ) || text::lower(word) == text::lower("null"@);
            if none {
                None
            } else {
                Some(word)
            }
        },
        None => None,
    }
}

/// The answer as an address: in lower case and without spaces, where it has an `@`
/// and a dot.
pub open spec fn address(given: Option<String>) -> Option<Seq<char>> {
    match answer(given) {
        Some(t) => {
            let joined = text::lower(t.filter(|c: char| c != ' '));
            if joined.contains('@') && joined.contains('.') {
                Some(joined)
            } else {
                None
            }
        },
        None => None,
    }
}

/// Whatever is decided about the app, the classification keeps the contact: the
/// name is the one that was answered, and the address is the answered one in lower
/// case and without spaces, where it has an `@` and a dot. The language is kept
/// in upper case, and is `UNKNOWN` where none was answered.
pub proof fn law_contact_is_kept(c: AppClassification, known: Seq<String>, r: AppClassification)
    requires
        r@ == openai::canonical(c@, search::texts(known)),
    ensures
        models::opt_text(r.creator_name) == answer(c.creator_name),
        models::opt_text(r.creator_email) == address(c.creator_email),
        text::trim(c.language_code@).len() > 0 ==> r.language_code@ == text::upper(
            text::trim(c.language_code@),
        ),
        text::trim(c.language_code@).len() == 0 ==> r.language_code@ == "UNKNOWN"@,
{
    assert(search::other_than(' ') =~= (|c: char| c != ' '));
    assert(r@.creator_name == models::opt_text(r.creator_name));
    assert(r@.creator_email == models::opt_text(r.creator_email));
    assert(text::upper(text::trim(c.language_code@)).len() == text::trim(c.language_code@).len());
    assert(openai::model_value(c@.creator_name) == answer(c.creator_name));
    assert(openai::model_value(c@.creator_email) == answer(c.creator_email));
    assert(openai::model_email(c@.creator_email) == address(c.creator_email));
    assert(models::language(c@.language_code) == r@.language_code);
}

// ---------------------------------------------------------------------------
// The app
// ---------------------------------------------------------------------------
/// The name that the answer gives the app: the known name, else the other one,
/// without white space around it and where something is left of it.
pub open spec fn answered_app(c: AppClassification) -> Option<Seq<char>> {
    let given = match c.existing_app_name {
        Some(t) => Some(t@),
        None => match c.app_name {
            Some(t) => Some(t@),
            None => None,
        },
    };
    match given {
        Some(t) => if text::trim(t).len() == 0 {
            None
        } else {
            Some(text::trim(t))
        },
        None => None,
    }
}

/// `n` is the first of the known names that is the given one but for case.
pub open spec fn is_known_name(known: Seq<String>, name: Seq<char>, n: Seq<char>) -> bool {
    exists|i: int|
        0 <= i < known.len() && (#[trigger] known[i])@ == n && text::lower(n) == text::lower(name)
            && forall|k: int| 0 <= k < i ==> text::lower((#[trigger] known[k])@) != text::lower(name)
}

/// None of the known names is the given one but for case.
pub open spec fn is_unknown_name(known: Seq<String>, name: Seq<char>) -> bool {
    forall|i: int| 0 <= i < known.len() ==> text::lower((#[trigger] known[i])@) != text::lower(name)
}

proof fn lemma_known_name(known: Seq<String>, name: Seq<char>)
    ensures
        match openai::known_name(search::texts(known), name) {
            Some(n) => is_known_name(known, name, n),
            None => is_unknown_name(known, name),
        },
    decreases known.len(),
{
    let all = search::texts(known);
    if known.len() > 0 {
        assert(all[0] == known[0]@);
        if text::lower(all[0]) == text::lower(name) {
        } else {
            let rest = known.skip(1);
            assert(all.skip(1) =~= search::texts(rest));
            lemma_known_name(rest, name);
            match openai::known_name(search::texts(rest), name) {
                Some(n) => {
                    let i = choose|i: int|
                        0 <= i < rest.len() && (#[trigger] rest[i])@ == n && text::lower(n)
                            == text::lower(name) && forall|k: int|
                            0 <= k < i ==> text::lower((#[trigger] rest[k])@) != text::lower(name);
                    assert(known[i + 1] == rest[i]);
                    assert forall|k: int| 0 <= k < i + 1 implies text::lower(
                        (#[trigger] known[k])@,
                    ) != text::lower(name) by {
                        if k > 0 {
                            assert(known[k] == rest[k - 1]);
                        }
                    }
                },
                None => {
                    assert forall|k: int| 0 <= k < known.len() implies text::lower(
                        (#[trigger] known[k])@,
                    ) != text::lower(name) by {
                        if k > 0 {
                            assert(known[k] == rest[k - 1]);
                        }
                    }
                },
            }
        }
    }
}

/// The classification promotes the app, under its known name where it has one.
pub open spec fn promotes_as(r: AppClassification, known: Seq<String>, name: Seq<char>) -> bool {
    &&& r.promotes_app
    &&& r.app_name is Some
    &&& r.is_existing_app ==> is_known_name(known, name, r.app_name->0@) && models::opt_text(
        r.existing_app_name,
    ) == models::opt_text(r.app_name)
    &&& !r.is_existing_app ==> is_unknown_name(known, name) && r.app_name->0@ == name
        && r.existing_app_name is None
    &&& r.is_new_app == !r.is_existing_app
}

/// An app is kept exactly if the answer promotes one, names it, and two posts
/// support it. It goes by its known name where it has one; at most three posts are
/// counted, the confidence is moved between zero and one, and the evidence is kept.
pub proof fn law_app_needs_a_name_and_two_posts(
    c: AppClassification,
    known: Seq<String>,
    r: AppClassification,
)
    requires
        r@ == openai::canonical(c@, search::texts(known)),
    ensures
        r.promotes_app <==> c.promotes_app && c.supporting_post_count >= 2 && answered_app(
            c,
        ) is Some,
        r.promotes_app ==> promotes_as(r, known, answered_app(c)->0),
        r.promotes_app && c.supporting_post_count <= 3 ==> r.supporting_post_count
            == c.supporting_post_count,
        r.promotes_app && c.supporting_post_count > 3 ==> r.supporting_post_count == 3,
        r.promotes_app ==> r.confidence == c.confidence.clamped(),
        r.promotes_app ==> r.evidence@ == c.evidence@,
{
    if let Some(name) = answered_app(c) {
        lemma_known_name(known, name);
    }
    assert(models::app_candidate(c@) == answered_app(c));
}

/// Where no app is kept, there is no name, no support and no confidence. The
/// evidence is kept; where too few posts supported the app, a remark says how many.
pub proof fn law_without_an_app_nothing_is_claimed(
    c: AppClassification,
    known: Seq<String>,
    r: AppClassification,
)
    requires
        r@ == openai::canonical(c@, search::texts(known)),
        !r.promotes_app,
    ensures
        r.app_name is None,
        r.existing_app_name is None,
        !r.is_existing_app,
        !r.is_new_app,
        r.supporting_post_count == 0,
        r.confidence == (Real { bits: 0 }),
        !c.promotes_app || c.supporting_post_count >= 2 ==> r.evidence@ == c.evidence@,
        c.promotes_app && c.supporting_post_count < 2 ==> r.evidence@ == text::trim(
            text::trim(c.evidence@) + " Same app was supported by only "@ + numbers::decimal(
                c.supporting_post_count as nat,
            ) + " analyzed post section(s); minimum is 2."@,
        ),
{
}

// ---------------------------------------------------------------------------
// What the bio says
// ---------------------------------------------------------------------------
/// The bio completes a classification without an app exactly if it names one and
/// two posts speak of it; otherwise, and where there is an app already, nothing
/// changes. The contact and the language stay in either case.
pub proof fn law_bio_completes_the_classification(
    c: AppClassification,
    named: Option<String>,
    content: Seq<char>,
    known: Seq<String>,
    r: AppClassification,
)
    requires
        r@ == openai::with_bio(c@, models::opt_text(named), content, search::texts(known)),
    ensures
        ({
            let completes = !c.promotes_app && named is Some && openai::sections_with_app(
                content,
                named->0@,
            ) >= 2;
            &&& !completes ==> r@ == c@
            &&& completes ==> promotes_as(r, known, named->0@)
            &&& completes && openai::sections_with_app(content, named->0@) == 2
                ==> r.supporting_post_count == 2
            &&& completes && openai::sections_with_app(content, named->0@) > 2
                ==> r.supporting_post_count == 3
            &&& completes ==> r.confidence == c.confidence.at_least(
                Real { bits: 0x3FEC_CCCC_CCCC_CCCD },
            )
            &&& completes && text::trim(c.evidence@).len() == 0 ==> r.evidence@
                == "Bio explicitly says '"@ + named->0@ + " ambassador'."@
            &&& completes && text::trim(c.evidence@).len() > 0 ==> r.evidence@ == text::trim(
                c.evidence@,
            ) + " "@ + ("Bio explicitly says '"@ + named->0@ + " ambassador'."@)
        }),
        models::opt_text(r.creator_name) == models::opt_text(c.creator_name),
        models::opt_text(r.creator_email) == models::opt_text(c.creator_email),
        r.language_code@ == c.language_code@,
{
    if let Some(app) = named {
        lemma_known_name(known, app@);
    }
    assert(r@.creator_name == models::opt_text(r.creator_name));
    assert(r@.creator_email == models::opt_text(r.creator_email));
}

/// The posts in a text are divided by a line of three dashes between blank lines,
/// and those are counted whose words hold the words of the app; an app without
/// letters and digits is in none of them.
pub proof fn law_sections_are_counted(content: Seq<char>, app: Seq<char>)
    ensures
        openai::detection_text(app).len() > 0 ==> openai::sections_with_app(content, app)
            == search::split(content, "\n\n---\n\n"@).filter(
            |s: Seq<char>|
                search::contains(openai::detection_text(s), openai::detection_text(app)),
        ).len(),
        openai::detection_text(app).len() == 0 ==> openai::sections_with_app(content, app) == 0,
{
    assert(openai::speaks_of_app(app) =~= (|s: Seq<char>|
        search::contains(openai::detection_text(s), openai::detection_text(app))));
}

/// Letters, digits and white space make up words; case does not count, and other
/// characters are left out.
pub proof fn law_words_ignore_case_and_signs(a: Seq<char>, c: char, b: Seq<char>)
    requires
        !('a' <= c <= 'z'),
        !('A' <= c <= 'Z'),
        !('0' <= c <= '9'),
        c != ' ',
        c != '\t',
        c != '\n',
        c != '\r',
        c as u32 != 12,
    ensures
        openai::detection_text(a + seq![c] + b) == openai::detection_text(a + b),
        openai::detection_text(text::upper(a)) == openai::detection_text(a),
{
    let p = openai::detection_chars();
    lemma_filter_out(a, c, b, p);
    lemma_upper_filter(a);
    text::lemma_lower_upper(a.filter(p));
}

proof fn lemma_filter_sum(a: Seq<char>, b: Seq<char>, p: spec_fn(char) -> bool)
    ensures
        (a + b).filter(p) == a.filter(p) + b.filter(p),
    decreases b.len(),
{
    reveal(Seq::filter);
    if b.len() == 0 {
        assert(a + b =~= a);
        assert(a.filter(p) + b.filter(p) =~= a.filter(p));
    } else {
        let rest = b.drop_last();
        lemma_filter_sum(a, rest, p);
        assert((a + b).drop_last() =~= a + rest);
        assert((a + b).filter(p) =~= a.filter(p) + b.filter(p));
    }
}

proof fn lemma_filter_out(a: Seq<char>, c: char, b: Seq<char>, p: spec_fn(char) -> bool)
    requires
        !p(c),
    ensures
        (a + seq![c] + b).filter(p) == (a + b).filter(p),
{
    let one = seq![c];
    lemma_filter_sum(a + one, b, p);
    lemma_filter_sum(a, one, p);
    lemma_filter_sum(a, b, p);
    assert(one.filter(p) =~= Seq::<char>::empty()) by {
        reveal(Seq::filter);
        let none = Seq::<char>::empty();
        assert(none.filter(p) =~= none);
        assert(one.drop_last() =~= none);
        assert(one.last() == c);
    }
    assert(a.filter(p) + one.filter(p) =~= a.filter(p));
}

proof fn lemma_upper_filter(s: Seq<char>)
    ensures
        text::upper(s).filter(openai::detection_chars()) == text::upper(
            s.filter(openai::detection_chars()),
        ),
    decreases s.len(),
{
    let p = openai::detection_chars();
    reveal(Seq::filter);
    if s.len() > 0 {
        let rest = s.drop_last();
        lemma_upper_filter(rest);
        assert(text::upper(s).drop_last() =~= text::upper(rest));
        assert(text::upper(s).last() == text::upper_char(s.last()));
        assert(p(text::upper_char(s.last())) == p(s.last()));
        assert(text::upper(s).filter(p) =~= text::upper(s.filter(p)));
    } else {
        assert(text::upper(s) =~= Seq::<char>::empty());
        assert(text::upper(s).filter(p) =~= text::upper(s.filter(p)));
    }
}

/// A word of small letters and digits stays as it is.
pub proof fn law_plain_words_stay(s: Seq<char>)
    requires
        forall|i: int|
            0 <= i < s.len() ==> 'a' <= #[trigger] s[i] <= 'z' || '0' <= s[i] <= '9',
    ensures
        openai::detection_text(s) == s,
    decreases s.len(),
{
    let p = openai::detection_chars();
    lemma_plain_filter(s);
    assert(text::lower(s) =~= s);
    lemma_plain_squeeze(s);
}

proof fn lemma_plain_filter(s: Seq<char>)
    requires
        forall|i: int|
            0 <= i < s.len() ==> 'a' <= #[trigger] s[i] <= 'z' || '0' <= s[i] <= '9',
    ensures
        s.filter(openai::detection_chars()) == s,
    decreases s.len(),
{
    reveal(Seq::filter);
    if s.len() > 0 {
        let rest = s.drop_last();
        lemma_plain_filter(rest);
        assert(openai::detection_chars()(s[s.len() - 1]));
        assert(s.filter(openai::detection_chars()) =~= s);
    } else {
        assert(s.filter(openai::detection_chars()) =~= s);
    }
}

proof fn lemma_plain_squeeze(s: Seq<char>)
    requires
        forall|i: int|
            0 <= i < s.len() ==> 'a' <= #[trigger] s[i] <= 'z' || '0' <= s[i] <= '9',
    ensures
        search::squeeze(s) == s,
    decreases s.len(),
{
    if s.len() > 0 {
        let rest = s.drop_last();
        lemma_plain_squeeze(rest);
        assert(!text::is_white(s[s.len() - 1]));
        if s.len() > 1 {
            assert(!text::is_white(s[s.len() - 2]));
        }
        assert(search::squeeze(s) =~= s);
    } else {
        assert(search::squeeze(s) =~= s);
    }
}

/// A line speaks of a role exactly if one of the role words stands in it, in any
/// case.
pub proof fn law_role_words(line: Seq<char>)
    ensures
        openai::has_role(line) <==> {
            ||| search::contains(text::lower(line), "ambassador"@)
            ||| search::contains(text::lower(line), "affiliate"@)
            ||| search::contains(text::lower(line), "partner"@)
            ||| search::contains(text::lower(line), "promoter"@)
            ||| search::contains(text::lower(line), "promo code"@)
        },
{
    let words = openai::role_words();
    let s = text::lower(line);
    assert(words.len() == 5);
    assert(words[0] == "ambassador"@ && words[1] == "affiliate"@ && words[2] == "partner"@
        && words[3] == "promoter"@ && words[4] == "promo code"@);
    if openai::has_role(line) {
        let k = choose|k: int| 0 <= k < words.len() && search::contains(s, #[trigger] words[k]);
        assert(k == 0 || k == 1 || k == 2 || k == 3 || k == 4);
    }
}

/// What stands after a role counts before what stands before one. A name loses the
/// signs around it and ends before two spaces in a row; it is none where nothing is
/// left of it or it is a word that names no app.
pub proof fn law_name_in_a_line(after: Option<Seq<char>>, before: Option<Seq<char>>)
    ensures
        after is Some ==> openai::name_in_line(after, before) == openai::clean_name(after->0),
        after is None && before is Some ==> openai::name_in_line(after, before)
            == openai::clean_name(before->0),
        after is None && before is None ==> openai::name_in_line(after, before) is None,
        after is Some ==> {
            let bare = text::trim_both(after->0, CharClass::NameEdge);
            let first = match search::find(bare, seq![' ', ' ']) {
                Some(i) => bare.take(i),
                None => bare,
            };
            let name = text::trim(first);
            let word = text::lower(name);
            let generic = word == "app"@ || word == "brand"@ || word == "campus"@ || word
                == "student"@ || word == "ugc"@ || word == "tiktok"@ || word == "main"@;
            &&& name.len() == 0 || generic ==> openai::name_in_line(after, before) is None
            &&& name.len() > 0 && !generic ==> openai::name_in_line(after, before) == Some(name)
        },
{
    if let Some(t) = after {
        let name = openai::bare_name(t);
        let words = openai::generic_words();
        text::law_trim_idempotent(
            openai::before_gap(text::trim_both(t, CharClass::NameEdge)),
            CharClass::White,
        );
        assert(text::trim(name) == name);
        assert(words.len() == 7);
        assert(words[0] == "app"@ && words[1] == "brand"@ && words[2] == "campus"@ && words[3]
            == "student"@ && words[4] == "ugc"@ && words[5] == "tiktok"@ && words[6] == "main"@);
        if words.contains(text::lower(name)) {
            let k = choose|k: int| 0 <= k < words.len() && words[k] == text::lower(name);
            assert(k == 0 || k == 1 || k == 2 || k == 3 || k == 4 || k == 5 || k == 6);
        }
    }
}

/// The name that a line gives where it speaks of a role: what stands after the role
/// counts before what stands before it.
pub open spec fn named_in(line: Seq<char>) -> Option<Seq<char>> {
    let after = patterns::captured(
        r"(?i)(?:ambassador|affiliate|partner|promoter)\s+(?:for|of|at|with)\s+(?P<app>[A-Z0-9][A-Z0-9 &'._+-]{1,80})"@,
        "app"@,
        line,
    );
    let before = patterns::captured(
        r"(?i)(?P<app>[A-Z0-9][A-Z0-9 &'._+-]{1,80}?)\s+(?:app\s+)?(?:ambassador|affiliate|partner|promoter)\b"@,
        "app"@,
        line,
    );
    if !openai::has_role(line) {
        None
    } else if after is Some {
        openai::clean_name(after->0)
    } else if before is Some {
        openai::clean_name(before->0)
    } else {
        None
    }
}

/// A bio names the app of its first line that names one, and none where no line
/// does.
pub proof fn law_first_line_that_names_an_app(lines: Seq<Seq<char>>, i: int)
    ensures
        0 <= i < lines.len() && named_in(lines[i]) is Some && (forall|j: int|
            0 <= j < i ==> named_in(#[trigger] lines[j]) is None) ==> openai::first_candidate(lines)
            == named_in(lines[i]),
        (forall|j: int| 0 <= j < lines.len() ==> named_in(#[trigger] lines[j]) is None)
            ==> openai::first_candidate(lines) is None,
    decreases lines.len(),
{
    if lines.len() > 0 {
        let rest = lines.skip(1);
        assert(openai::line_candidate(lines[0]) == named_in(lines[0]));
        law_first_line_that_names_an_app(rest, i - 1);
        if 0 < i < lines.len() && (forall|j: int|
            0 <= j < i ==> named_in(#[trigger] lines[j]) is None) {
            assert(rest[i - 1] == lines[i]);
            assert forall|j: int| 0 <= j < i - 1 implies named_in(#[trigger] rest[j]) is None by {
                assert(rest[j] == lines[j + 1]);
            }
        }
        if forall|j: int| 0 <= j < lines.len() ==> named_in(#[trigger] lines[j]) is None {
            assert forall|j: int| 0 <= j < rest.len() implies named_in(#[trigger] rest[j])
                is None by {
                assert(rest[j] == lines[j + 1]);
            }
        }
    }
}

} // verus!
