//! The markets that regions and languages stand for.

use vstd::prelude::*;
use crate::db::filters;
use crate::services::tiktok;
use crate::text;

verus! {

/// The regions that are codes of languages, with the home market of each.
pub open spec fn regions_that_are_languages() -> Seq<((char, char), (char, char))> {
    seq![
        (('A', 'R'), ('S', 'A')),
        (('B', 'E'), ('B', 'Y')),
        (('B', 'S'), ('B', 'A')),
        (('C', 'A'), ('E', 'S')),
        (('C', 'S'), ('C', 'Z')),
        (('D', 'A'), ('D', 'K')),
        (('E', 'L'), ('G', 'R')),
        (('E', 'N'), ('G', 'B')),
        (('E', 'T'), ('E', 'E')),
        (('F', 'A'), ('I', 'R')),
        (('H', 'E'), ('I', 'L')),
        (('H', 'I'), ('I', 'N')),
        (('J', 'A'), ('J', 'P')),
        (('K', 'K'), ('K', 'Z')),
        (('K', 'O'), ('K', 'R')),
        (('M', 'S'), ('M', 'Y')),
        (('N', 'B'), ('N', 'O')),
        (('N', 'N'), ('N', 'O')),
        (('S', 'L'), ('S', 'I')),
        (('S', 'Q'), ('A', 'L')),
        (('S', 'R'), ('R', 'S')),
        (('S', 'V'), ('S', 'E')),
        (('T', 'L'), ('P', 'H')),
        (('U', 'K'), ('U', 'A')),
        (('U', 'R'), ('P', 'K')),
        (('V', 'I'), ('V', 'N')),
        (('Z', 'H'), ('C', 'N')),
    ]
}

/// A region that is the code of a language, in any case and with white space
/// around it, stands for the home market of the language.
pub proof fn law_languages_stand_for_their_markets(region: Seq<char>, i: int)
    requires
        0 <= i < regions_that_are_languages().len(),
        text::upper(text::trim(region)) == seq![
            regions_that_are_languages()[i].0.0,
            regions_that_are_languages()[i].0.1,
        ],
    ensures
        tiktok::country(region) == Some(
            seq![regions_that_are_languages()[i].1.0, regions_that_are_languages()[i].1.1],
        ),
{
    let code = text::upper(text::trim(region));
    let entry = regions_that_are_languages()[i];
    assert(code[0] == entry.0.0 && code[1] == entry.0.1);
}

/// Every other region of two letters stands for itself in upper case, and a region
/// that is not two letters stands for none.
pub proof fn law_other_regions_stand_for_themselves(region: Seq<char>)
    requires
        forall|i: int|
            0 <= i < regions_that_are_languages().len() ==> text::upper(text::trim(region))
                != seq![
                (#[trigger] regions_that_are_languages()[i]).0.0,
                regions_that_are_languages()[i].0.1,
            ],
    ensures
        ({
            let code = text::upper(text::trim(region));
            let letters = code.len() == 2 && 'A' <= code[0] <= 'Z' && 'A' <= code[1] <= 'Z';
            &&& letters ==> tiktok::country(region) == Some(code)
            &&& !letters ==> tiktok::country(region) is None
        }),
{
    let code = text::upper(text::trim(region));
    let table = regions_that_are_languages();
    if code.len() == 2 {
        let trimmed = text::trim(region);
        assert(code[0] == text::upper_char(trimmed[0]));
        assert(code[1] == text::upper_char(trimmed[1]));
        assert forall|i: int| 0 <= i < table.len() implies (code[0], code[1]) != (
        #[trigger] table[i]).0 by {
            if (code[0], code[1]) == table[i].0 {
                assert(code =~= seq![table[i].0.0, table[i].0.1]);
            }
        }
        assert(table.len() == 27);
        let pair = tiktok::market(code[0], code[1]);
        lemma_market(code[0], code[1]);
        assert(seq![code[0], code[1]] =~= code);
    }
}

proof fn lemma_market(a: char, b: char)
    requires
        forall|i: int|
            0 <= i < regions_that_are_languages().len() ==> (a, b) != (
            #[trigger] regions_that_are_languages()[i]).0,
    ensures
        tiktok::market(a, b) == (a, b),
{
    let table = regions_that_are_languages();
    assert(table.len() == 27);
    assert forall|i: int| 0 <= i < 27 implies (a, b) != (#[trigger] table[i]).0 by {}
    assert(table[0].0 != (a, b) && table[1].0 != (a, b) && table[2].0 != (a, b) && table[3].0 != (
        a,
        b,
    ) && table[4].0 != (a, b) && table[5].0 != (a, b) && table[6].0 != (a, b) && table[7].0 != (
        a,
        b,
    ) && table[8].0 != (a, b));
    assert(table[9].0 != (a, b) && table[10].0 != (a, b) && table[11].0 != (a, b) && table[12].0
        != (a, b) && table[13].0 != (a, b) && table[14].0 != (a, b) && table[15].0 != (a, b)
        && table[16].0 != (a, b) && table[17].0 != (a, b));
    assert(table[18].0 != (a, b) && table[19].0 != (a, b) && table[20].0 != (a, b) && table[21].0
        != (a, b) && table[22].0 != (a, b) && table[23].0 != (a, b) && table[24].0 != (a, b)
        && table[25].0 != (a, b) && table[26].0 != (a, b));
}

/// The languages with a home market, by their codes of three letters.
pub open spec fn languages_with_a_market() -> Seq<((char, char, char), (char, char))> {
    seq![
        (('E', 'N', 'G'), ('G', 'B')),
        (('S', 'P', 'A'), ('E', 'S')),
        (('I', 'T', 'A'), ('I', 'T')),
        (('P', 'O', 'L'), ('P', 'L')),
        (('D', 'E', 'U'), ('D', 'E')),
        (('S', 'W', 'E'), ('S', 'E')),
        (('F', 'R', 'A'), ('F', 'R')),
        (('P', 'O', 'R'), ('P', 'T')),
        (('N', 'O', 'R'), ('N', 'O')),
        (('N', 'O', 'B'), ('N', 'O')),
        (('H', 'R', 'V'), ('H', 'R')),
        (('C', 'E', 'S'), ('C', 'Z')),
        (('S', 'L', 'K'), ('S', 'K')),
        (('S', 'L', 'V'), ('S', 'I')),
        (('R', 'O', 'N'), ('R', 'O')),
        (('N', 'L', 'D'), ('N', 'L')),
        (('F', 'I', 'N'), ('F', 'I')),
        (('D', 'A', 'N'), ('D', 'K')),
        (('E', 'S', 'T'), ('E', 'E')),
        (('T', 'U', 'R'), ('T', 'R')),
        (('J', 'P', 'N'), ('J', 'P')),
        (('K', 'O', 'R'), ('K', 'R')),
        (('V', 'I', 'E'), ('V', 'N')),
        (('U', 'K', 'R'), ('U', 'A')),
        (('R', 'U', 'S'), ('R', 'U')),
        (('S', 'R', 'P'), ('R', 'S')),
        (('B', 'U', 'L'), ('B', 'G')),
        (('S', 'Q', 'I'), ('A', 'L')),
        (('I', 'N', 'D'), ('I', 'D')),
        (('H', 'A', 'T'), ('H', 'T')),
    ]
}

/// A language with a home market, in any case and with white space around it, has
/// that market.
pub proof fn law_languages_have_their_markets(language: Seq<char>, i: int)
    requires
        0 <= i < languages_with_a_market().len(),
        text::upper(text::trim(language)) == seq![
            languages_with_a_market()[i].0.0,
            languages_with_a_market()[i].0.1,
            languages_with_a_market()[i].0.2,
        ],
    ensures
        filters::market_of_language(language) == Some(
            seq![languages_with_a_market()[i].1.0, languages_with_a_market()[i].1.1],
        ),
{
    let code = text::upper(text::trim(language));
    let entry = languages_with_a_market()[i];
    assert(code[0] == entry.0.0 && code[1] == entry.0.1 && code[2] == entry.0.2);
}

/// A market of a language is one of those in the table, so that no other language
/// has one.
pub proof fn law_no_other_language_has_a_market(language: Seq<char>) -> (i: int)
    requires
        filters::market_of_language(language) is Some,
    ensures
        0 <= i < languages_with_a_market().len(),
        text::upper(text::trim(language)) == seq![
            languages_with_a_market()[i].0.0,
            languages_with_a_market()[i].0.1,
            languages_with_a_market()[i].0.2,
        ],
{
    let code = text::upper(text::trim(language));
    let table = languages_with_a_market();
    assert(code =~= seq![code[0], code[1], code[2]]);
    let want = (code[0], code[1], code[2]);
    assert(filters::home_market(code[0], code[1], code[2]) is Some);
    if want == table[0].0 {
        0
    } else if want == table[1].0 {
        1
    } else if want == table[2].0 {
        2
    } else if want == table[3].0 {
        3
    } else if want == table[4].0 {
        4
    } else if want == table[5].0 {
        5
    } else if want == table[6].0 {
        6
    } else if want == table[7].0 {
        7
    } else if want == table[8].0 {
        8
    } else if want == table[9].0 {
        9
    } else if want == table[10].0 {
        10
    } else if want == table[11].0 {
        11
    } else if want == table[12].0 {
        12
    } else if want == table[13].0 {
        13
    } else if want == table[14].0 {
        14
    } else if want == table[15].0 {
        15
    } else if want == table[16].0 {
        16
    } else if want == table[17].0 {
        17
    } else if want == table[18].0 {
        18
    } else if want == table[19].0 {
        19
    } else if want == table[20].0 {
        20
    } else if want == table[21].0 {
        21
    } else if want == table[22].0 {
        22
    } else if want == table[23].0 {
        23
    } else if want == table[24].0 {
        24
    } else if want == table[25].0 {
        25
    } else if want == table[26].0 {
        26
    } else if want == table[27].0 {
        27
    } else if want == table[28].0 {
        28
    } else {
        assert(want == table[29].0);
        29
    }
}

} // verus!
