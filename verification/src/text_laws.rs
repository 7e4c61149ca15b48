//! What holds of texts, numbers and handles, character by character.

use vstd::prelude::*;
use crate::handles;
use crate::lists;
use crate::models;
use crate::numbers;
use crate::order;
use crate::reading_laws;
use crate::search;
use crate::text;
use crate::text::CharClass;

verus! {

// ---------------------------------------------------------------------------
// Case and white space
// ---------------------------------------------------------------------------
/// The character stands between `a` and `b`.
pub open spec fn between(c: char, a: char, b: char) -> bool {
    a as u32 <= c as u32 <= b as u32
}

/// Case changes the letters from `A` to `Z` and no other character, and no length.
pub proof fn law_case_of_letters(s: Seq<char>, i: int)
    requires
        0 <= i < s.len(),
    ensures
        text::lower(s).len() == s.len(),
        text::upper(s).len() == s.len(),
        between(s[i], 'A', 'Z') ==> text::lower(s)[i] as u32 == s[i] as u32 + 32,
        !between(s[i], 'A', 'Z') ==> text::lower(s)[i] == s[i],
        between(s[i], 'a', 'z') ==> text::upper(s)[i] as u32 == s[i] as u32 - 32,
        !between(s[i], 'a', 'z') ==> text::upper(s)[i] == s[i],
        !between(text::lower(s)[i], 'A', 'Z'),
        !between(text::upper(s)[i], 'a', 'z'),
{
}

/// Two texts are the same but for case where they are equally long and each two
/// characters are equal, or one letter in either case.
pub proof fn law_same_but_for_case(a: Seq<char>, b: Seq<char>)
    ensures
        text::same_ignoring_case(a, b) <==> a.len() == b.len() && forall|i: int|
            0 <= i < a.len() ==> {
                ||| #[trigger] a[i] == b[i]
                ||| between(a[i], 'A', 'Z') && b[i] as u32 == a[i] as u32 + 32
                ||| between(b[i], 'A', 'Z') && a[i] as u32 == b[i] as u32 + 32
            },
{
    let x = text::lower(a);
    let y = text::lower(b);
    if text::same_ignoring_case(a, b) {
        assert(x.len() == a.len() && y.len() == b.len());
        assert forall|i: int| 0 <= i < a.len() implies {
            ||| #[trigger] a[i] == b[i]
            ||| between(a[i], 'A', 'Z') && b[i] as u32 == a[i] as u32 + 32
            ||| between(b[i], 'A', 'Z') && a[i] as u32 == b[i] as u32 + 32
        } by {
            law_case_of_letters(a, i);
            law_case_of_letters(b, i);
            assert(x[i] == y[i]);
        }
    }
    if a.len() == b.len() && forall|i: int|
        0 <= i < a.len() ==> {
            ||| #[trigger] a[i] == b[i]
            ||| between(a[i], 'A', 'Z') && b[i] as u32 == a[i] as u32 + 32
            ||| between(b[i], 'A', 'Z') && a[i] as u32 == b[i] as u32 + 32
        } {
        assert forall|i: int| 0 <= i < a.len() implies #[trigger] x[i] == y[i] by {
            law_case_of_letters(a, i);
            law_case_of_letters(b, i);
            assert(a[i] == a[i]);
        }
        assert(x =~= y);
    }
}

/// These characters are white space.
pub proof fn law_white_characters(c: char)
    ensures
        text::is_white(c) <==> {
            ||| c == ' '
            ||| c == '\t'
            ||| c == '\n'
            ||| c == '\u{b}'
            ||| c == '\u{c}'
            ||| c == '\r'
            ||| c == '\u{85}'
            ||| c == '\u{a0}'
            ||| c == '\u{1680}'
            ||| between(c, '\u{2000}', '\u{200a}')
            ||| c == '\u{2028}'
            ||| c == '\u{2029}'
            ||| c == '\u{202f}'
            ||| c == '\u{205f}'
            ||| c == '\u{3000}'
        },
        CharClass::White.has(c) == text::is_white(c),
{
}

/// Trimming takes characters of the class from both ends, and as many as there are.
pub proof fn law_trimming(s: Seq<char>, class: CharClass) -> (r: (int, int))
    ensures
        0 <= r.0 <= r.1 <= s.len(),
        text::trim_both(s, class) == s.subrange(r.0, r.1),
        forall|i: int| 0 <= i < r.0 ==> class.has(#[trigger] s[i]),
        forall|i: int| r.1 <= i < s.len() ==> class.has(#[trigger] s[i]),
        r.0 < r.1 ==> !class.has(s[r.0]) && !class.has(s[r.1 - 1]),
{
    let a = lemma_trim_start(s, class);
    let rest = s.skip(a);
    let n = lemma_trim_end(rest, class);
    assert(rest.take(n) =~= s.subrange(a, a + n));
    assert forall|i: int| a + n <= i < s.len() implies class.has(#[trigger] s[i]) by {
        assert(rest[i - a] == s[i]);
    }
    if n > 0 {
        assert(rest[0] == s[a]);
        assert(rest[n - 1] == s[a + n - 1]);
        if class.has(s[a]) {
            assert(a < s.len());
        }
    }
    (a, a + n)
}

proof fn lemma_trim_start(s: Seq<char>, class: CharClass) -> (a: int)
    ensures
        0 <= a <= s.len(),
        text::trim_start(s, class) == s.skip(a),
        forall|i: int| 0 <= i < a ==> class.has(#[trigger] s[i]),
        a < s.len() ==> !class.has(s[a]),
    decreases s.len(),
{
    if s.len() > 0 && class.has(s[0]) {
        let rest = s.skip(1);
        let a = lemma_trim_start(rest, class);
        assert(rest.skip(a) =~= s.skip(a + 1));
        assert forall|i: int| 0 <= i < a + 1 implies class.has(#[trigger] s[i]) by {
            if i > 0 {
                assert(rest[i - 1] == s[i]);
            }
        }
        if a + 1 < s.len() {
            assert(rest[a] == s[a + 1]);
        }
        a + 1
    } else {
        assert(s.skip(0) =~= s);
        0
    }
}

proof fn lemma_trim_end(s: Seq<char>, class: CharClass) -> (n: int)
    ensures
        0 <= n <= s.len(),
        text::trim_end(s, class) == s.take(n),
        forall|i: int| n <= i < s.len() ==> class.has(#[trigger] s[i]),
        n > 0 ==> !class.has(s[n - 1]),
    decreases s.len(),
{
    if s.len() > 0 && class.has(s.last()) {
        let rest = s.drop_last();
        let n = lemma_trim_end(rest, class);
        assert(rest.take(n) =~= s.take(n));
        assert forall|i: int| n <= i < s.len() implies class.has(#[trigger] s[i]) by {
            if i < s.len() - 1 {
                assert(rest[i] == s[i]);
            }
        }
        if n > 0 {
            assert(rest[n - 1] == s[n - 1]);
        }
        n
    } else {
        assert(s.take(s.len() as int) =~= s);
        s.len() as int
    }
}

/// A name that stands between signs is freed of white space and of these signs.
pub proof fn law_signs_around_a_name(c: char)
    ensures
        CharClass::NameEdge.has(c) <==> {
            ||| text::is_white(c)
            ||| c == ':'
            ||| c == ';'
            ||| c == ','
            ||| c == '.'
            ||| c == '-'
            ||| c == '|'
            ||| c == '('
            ||| c == ')'
            ||| c == '['
            ||| c == ']'
        },
{
}

/// A text that is not blank counts without the white space around it, and a blank
/// one counts as none.
pub proof fn law_blank_texts_count_as_none(s: Seq<char>)
    ensures
        models::non_blank(None) is None,
        models::non_blank(Some(s)) is None <==> forall|i: int|
            0 <= i < s.len() ==> text::is_white(#[trigger] s[i]),
        models::non_blank(Some(s)) is Some ==> models::non_blank(Some(s))->0 == text::trim(s),
{
    let r = law_trimming(s, CharClass::White);
    if models::non_blank(Some(s)) is None {
        assert(r.0 == r.1);
        assert forall|i: int| 0 <= i < s.len() implies text::is_white(#[trigger] s[i]) by {
            assert(CharClass::White.has(s[i]));
        }
    } else {
        assert(!text::is_white(s[r.0]));
    }
}

/// A language is written in upper case without white space around it, and a blank
/// one is not known.
pub proof fn law_languages_are_written_alike(s: Seq<char>)
    ensures
        models::language(s).len() > 0,
        models::non_blank(Some(s)) is Some ==> models::language(s) == text::upper(text::trim(s)),
        models::non_blank(Some(s)) is None ==> models::language(s) == "UNKNOWN"@,
{
    reveal_strlit("UNKNOWN");
}

// ---------------------------------------------------------------------------
// Searching
// ---------------------------------------------------------------------------
/// A search finds a text where it first stands, and nothing where it does not.
pub proof fn law_search_finds_the_first(s: Seq<char>, needle: Seq<char>, before: Seq<char>, after: Seq<char>)
    ensures
        s == before + needle + after ==> search::find(s, needle) is Some && search::find(
            s,
            needle,
        )->0 <= before.len() && search::contains(s, needle),
        search::find(s, needle) matches Some(i) ==> 0 <= i && i + needle.len() <= s.len() && s
            == s.take(i) + needle + s.skip(i + needle.len()),
        search::contains(s, needle) <==> search::find(s, needle) is Some,
{
    if search::find(s, needle) is Some {
        let i = search::find(s, needle)->0;
        assert(search::first_at(s, needle, i));
        assert(s =~= s.take(i) + s.subrange(i, i + needle.len()) + s.skip(i + needle.len()));
    }
    if s == before + needle + after {
        let n = before.len() as int;
        assert(s.subrange(n, n + needle.len()) =~= needle);
        assert(search::occurs_at(s, needle, n));
        lemma_least(s, needle, n);
    }
    if search::contains(s, needle) {
        let n = choose|i: int| search::occurs_at(s, needle, i);
        lemma_least(s, needle, n);
    }
}

proof fn lemma_least(s: Seq<char>, needle: Seq<char>, n: int)
    requires
        search::occurs_at(s, needle, n),
    ensures
        search::find(s, needle) is Some,
        search::find(s, needle)->0 <= n,
    decreases n,
{
    if forall|j: int| 0 <= j < n ==> !search::occurs_at(s, needle, j) {
        search::lemma_first_at_is_find(s, needle, n);
    } else {
        let j = choose|j: int| 0 <= j < n && search::occurs_at(s, needle, j);
        lemma_least(s, needle, j);
    }
}

/// A text starts with another where a rest follows it.
pub proof fn law_starts(s: Seq<char>, prefix: Seq<char>, rest: Seq<char>)
    ensures
        search::starts_with(prefix + rest, prefix),
        search::starts_with(s, prefix) ==> s.len() >= prefix.len() && s == prefix + s.skip(
            prefix.len() as int,
        ),
{
    let all = prefix + rest;
    assert(all.subrange(0, prefix.len() as int) =~= prefix);
    if search::starts_with(s, prefix) {
        assert(s =~= s.subrange(0, prefix.len() as int) + s.skip(prefix.len() as int));
    }
}

/// Pieces that are joined stand one after another, with the text between them.
pub proof fn law_joined_pieces(parts: Seq<Seq<char>>, last: Seq<char>, sep: Seq<char>)
    ensures
        search::join(Seq::empty(), sep) == Seq::<char>::empty(),
        parts.len() == 0 ==> search::join(parts.push(last), sep) == last,
        parts.len() > 0 ==> search::join(parts.push(last), sep) == search::join(parts, sep) + sep
            + last,
{
    assert(parts.push(last).drop_last() =~= parts);
    assert(search::join(Seq::empty(), sep) =~= Seq::<char>::empty());
}

/// A text is split at each of the characters.
pub proof fn law_split_at_a_character(a: Seq<char>, c: char, b: Seq<char>)
    requires
        !a.contains(c),
    ensures
        search::split(a, seq![c]) == seq![a],
        search::split(a + seq![c] + b, seq![c]) == seq![a] + search::split(b, seq![c]),
{
    reading_laws::lemma_split_whole(a, c);
    reading_laws::lemma_split_first(a, c, b);
}

/// A line ends at its line feed and loses a carriage return before that; what follows
/// the last line feed is a line unless it is empty.
pub proof fn law_lines_of_a_text(a: Seq<char>, b: Seq<char>)
    requires
        !a.contains('\n'),
    ensures
        a.len() == 0 ==> search::lines(a).len() == 0,
        a.len() > 0 ==> search::lines(a) == seq![a],
        a.len() == 0 || a.last() != '\r' ==> search::lines(a + seq!['\n'] + b) == seq![a]
            + search::lines(b),
        a.len() > 0 && a.last() == '\r' ==> search::lines(a + seq!['\n'] + b) == seq![
            a.drop_last(),
        ] + search::lines(b),
{
    law_split_at_a_character(a, '\n', b);
    let one = seq![a];
    let more = search::split(b, seq!['\n']);
    lemma_some_piece(b, '\n');
    let all = one + more;
    assert(one.drop_last() =~= Seq::<Seq<char>>::empty());
    assert(search::lines(a) =~= if a.len() == 0 {
        Seq::<Seq<char>>::empty()
    } else {
        one
    });
    assert(all.last() == more.last());
    assert(search::lines(a + seq!['\n'] + b) =~= seq![search::without_trailing_return(a)]
        + search::lines(b));
}

proof fn lemma_some_piece(s: Seq<char>, c: char)
    ensures
        search::split(s, seq![c]).len() > 0,
{
}

/// A text is cut to a number of characters where it is longer.
pub proof fn law_cut(s: Seq<char>, max: nat)
    ensures
        search::cut(s, max).len() == if s.len() <= max {
            s.len()
        } else {
            max
        },
        search::cut(s, max) == s.take(search::cut(s, max).len() as int),
{
    if s.len() <= max {
        assert(s.take(s.len() as int) =~= s);
    }
}

/// White space between words becomes one space, and none stays at the ends.
pub proof fn law_white_space_becomes_one_space(a: Seq<char>, w: char, b: Seq<char>)
    requires
        text::is_white(w),
    ensures
        ({
            let x = search::squeeze(a);
            let y = search::squeeze(b);
            search::squeeze(a.push(w) + b) == if x.len() == 0 {
                y
            } else if y.len() == 0 {
                x
            } else {
                x + seq![' '] + y
            }
        }),
    decreases b.len(),
{
    let s = a.push(w) + b;
    let x = search::squeeze(a);
    let y = search::squeeze(b);
    if b.len() == 0 {
        assert(s =~= a.push(w));
        assert(s.drop_last() =~= a);
    } else {
        let rest = b.drop_last();
        let z = search::squeeze(rest);
        law_white_space_becomes_one_space(a, w, rest);
        assert(s.drop_last() =~= a.push(w) + rest);
        assert(s.last() == b.last());
        let done = search::squeeze(s.drop_last());
        if !text::is_white(b.last()) {
            if b.len() > 1 {
                assert(s[s.len() - 2] == b[b.len() - 2]);
                lemma_squeezed_word(rest);
            } else {
                assert(s[s.len() - 2] == w);
                assert(z.len() == 0);
            }
            assert(search::squeeze(s) =~= if x.len() == 0 {
                y
            } else {
                x + seq![' '] + y
            });
        }
    }
}

/// Nothing is left of a text only where all of it is white space.
proof fn lemma_squeezed_word(s: Seq<char>)
    ensures
        s.len() > 0 && !text::is_white(s.last()) ==> search::squeeze(s).len() > 0,
{
}

/// A text without white space stays as it is.
pub proof fn law_words_stay(s: Seq<char>)
    requires
        forall|i: int| 0 <= i < s.len() ==> !text::is_white(#[trigger] s[i]),
    ensures
        search::squeeze(s) == s,
    decreases s.len(),
{
    if s.len() > 0 {
        let rest = s.drop_last();
        assert forall|i: int| 0 <= i < rest.len() implies !text::is_white(#[trigger] rest[i]) by {
            assert(rest[i] == s[i]);
        }
        law_words_stay(rest);
        assert(!text::is_white(s[s.len() - 1]));
        if s.len() > 1 {
            assert(!text::is_white(s[s.len() - 2]));
        }
        assert(s =~= rest.push(s.last()));
    } else {
        assert(search::squeeze(s) =~= s);
    }
}

/// What is there of a list is what is there of its two parts, in their order.
pub proof fn law_present_in_order<A>(a: Seq<Option<A>>, b: Seq<Option<A>>, x: A)
    ensures
        lists::present(a + b) == lists::present(a) + lists::present(b),
        lists::present(seq![Some(x)]) == seq![x],
        lists::present(seq![None::<A>]) == Seq::<A>::empty(),
    decreases b.len(),
{
    let none: Seq<Option<A>> = Seq::empty();
    assert(seq![Some(x)].drop_last() =~= none);
    assert(seq![None::<A>].drop_last() =~= none);
    assert(lists::present(none) =~= Seq::<A>::empty());
    assert(lists::present(seq![Some(x)]) =~= seq![x]);
    if b.len() == 0 {
        assert(a + b =~= a);
        assert(lists::present(a) + lists::present(b) =~= lists::present(a));
    } else {
        law_present_in_order(a, b.drop_last(), x);
        assert((a + b).drop_last() =~= a + b.drop_last());
        assert((a + b).last() == b.last());
        assert(lists::present(a + b) =~= lists::present(a) + lists::present(b));
    }
}

/// Texts stand in the order of their first different characters, and a text stands
/// before those that it begins.
pub proof fn law_order_of_texts(a: Seq<char>, b: Seq<char>)
    ensures
        order::before(a, b) <==> exists|k: int| #[trigger] differ_at(a, b, k),
    decreases a.len(),
{
    if b.len() > 0 && a.len() > 0 && a[0] == b[0] {
        let x = a.skip(1);
        let y = b.skip(1);
        law_order_of_texts(x, y);
        if exists|k: int| #[trigger] differ_at(x, y, k) {
            let k = choose|k: int| #[trigger] differ_at(x, y, k);
            assert(a.take(k + 1) =~= seq![a[0]] + x.take(k));
            assert(b.take(k + 1) =~= seq![b[0]] + y.take(k));
            assert(differ_at(a, b, k + 1));
        }
        if exists|k: int| #[trigger] differ_at(a, b, k) {
            let k = choose|k: int| #[trigger] differ_at(a, b, k);
            assert(k > 0);
            assert(x.take(k - 1) =~= a.take(k).skip(1));
            assert(y.take(k - 1) =~= b.take(k).skip(1));
            assert(differ_at(x, y, k - 1));
        }
    } else {
        assert(a.take(0) =~= b.take(0));
        if order::before(a, b) {
            assert(differ_at(a, b, 0));
        }
        if exists|k: int| #[trigger] differ_at(a, b, k) {
            let k = choose|k: int| #[trigger] differ_at(a, b, k);
            if k > 0 && a.len() > 0 {
                assert(a.take(k)[0] == b.take(k)[0]);
            }
        }
    }
}

/// The texts agree up to `k`, where the first ends or has the lesser character.
pub open spec fn differ_at(a: Seq<char>, b: Seq<char>, k: int) -> bool {
    &&& 0 <= k <= a.len()
    &&& k < b.len()
    &&& a.take(k) == b.take(k)
    &&& k == a.len() || (a[k] as int) < (b[k] as int)
}

// ---------------------------------------------------------------------------
// Numbers
// ---------------------------------------------------------------------------
/// Numbers are written in tens, with the digits from `0` to `9`.
pub proof fn law_numbers_are_written_in_tens(n: nat, d: nat)
    requires
        d < 10,
    ensures
        numbers::decimal(d).len() == 1,
        numbers::decimal(d)[0] as u32 == '0' as u32 + d,
        n > 0 ==> numbers::decimal(10 * n + d) == numbers::decimal(n) + numbers::decimal(d),
{
    if n > 0 {
        let m: nat = 10 * n + d;
        assert(m / 10 == n && m % 10 == d);
        assert(numbers::decimal(m) =~= numbers::decimal(n) + numbers::decimal(d));
    }
}

/// What is written is read again, with a plus before it too, as far as it is within
/// the bound; a text that holds anything but digits is no number.
pub proof fn law_numbers_are_read(n: nat, max: nat, s: Seq<char>, i: int)
    ensures
        numbers::parse_unsigned(numbers::decimal(n), max) == if n <= max {
            Some(n)
        } else {
            None
        },
        numbers::parse_unsigned(seq!['+'] + numbers::decimal(n), max) == if n <= max {
            Some(n)
        } else {
            None
        },
        numbers::parse_unsigned(Seq::empty(), max) is None,
        0 <= i < s.len() && !between(s[i], '0', '9') && !(i == 0 && s[0] == '+')
            ==> numbers::parse_unsigned(s, max) is None,
        0 <= i < s.len() && !between(s[i], '0', '9') && !(i == 0 && (s[0] == '+' || s[0] == '-'))
            ==> numbers::parse_signed(s, max) is None,
        numbers::parse_signed(numbers::decimal(n), max) == if n <= max {
            Some(n as int)
        } else {
            None
        },
        numbers::parse_signed(seq!['-'] + numbers::decimal(n), max) == if n <= max + 1 {
            Some(-n)
        } else {
            None
        },
{
    numbers::law_decimal_reads_back(n, n);
    let t = numbers::decimal(n);
    lemma_decimal_digits(n);
    assert(numbers::without_plus(t) == t) by {
        assert(text::is_ascii_digit(t[0]));
    }
    assert((seq!['+'] + t).skip(1) =~= t);
    assert((seq!['-'] + t).skip(1) =~= t);
    let empty: Seq<char> = Seq::empty();
    assert(numbers::without_plus(empty) == empty);
    if 0 <= i < s.len() && !between(s[i], '0', '9') {
        let u = numbers::without_plus(s);
        if s[0] == '+' {
            if i > 0 {
                assert(u[i - 1] == s[i]);
                assert(!numbers::all_digits(u)) by {
                    assert(!text::is_ascii_digit(u[i - 1]));
                }
            }
        } else {
            assert(!text::is_ascii_digit(u[i]));
        }
        if s[0] == '-' && i > 0 {
            assert(s.skip(1)[i - 1] == s[i]);
            assert(!text::is_ascii_digit(s.skip(1)[i - 1]));
        }
    }
}

proof fn lemma_decimal_digits(n: nat)
    ensures
        numbers::decimal(n).len() > 0,
        numbers::all_digits(numbers::decimal(n)),
        numbers::digits_value(numbers::decimal(n)) == n,
    decreases n,
{
    let t = numbers::decimal(n);
    if n < 10 {
        assert(t.drop_last() =~= Seq::<char>::empty());
        assert(numbers::digits_value(t.drop_last()) == 0);
    } else {
        lemma_decimal_digits(n / 10);
        let u = numbers::decimal(n / 10);
        assert(t.drop_last() =~= u);
        assert forall|i: int| 0 <= i < t.len() implies text::is_ascii_digit(#[trigger] t[i]) by {
            if i < u.len() {
                assert(t[i] == u[i]);
            }
        }
    }
}

// ---------------------------------------------------------------------------
// Handles
// ---------------------------------------------------------------------------
/// The text is made of what handles are made of: small letters, digits, dots and
/// low lines.
pub open spec fn plain_name(h: Seq<char>) -> bool {
    h.len() > 0 && forall|i: int| 0 <= i < h.len() ==> plain_char(#[trigger] h[i])
}

pub open spec fn plain_char(c: char) -> bool {
    between(c, 'a', 'z') || between(c, '0', '9') || c == '.' || c == '_'
}

/// The text is empty, or starts with what ends a handle in an address.
pub open spec fn ends_a_handle(after: Seq<char>) -> bool {
    after.len() > 0 ==> after[0] == '?' || after[0] == '#' || after[0] == '/' || after[0] == '&'
}

/// A handle is not empty and made of what handles are made of.
pub proof fn law_handles_are_plain(s: Seq<char>)
    ensures
        handles::normalized_handle(s) is Some ==> plain_name(handles::normalized_handle(s)->0),
        plain_name(s) ==> handles::normalized_handle(s) == Some(s),
{
    if handles::normalized_handle(s) is Some {
        handles::law_normalized_handle_idempotent(s);
        let h = handles::normalized_handle(s)->0;
        assert forall|i: int| 0 <= i < h.len() implies plain_char(#[trigger] h[i]) by {
            assert(handles::is_handle_char(h[i]));
        }
    }
    if plain_name(s) {
        lemma_plain_is_handle(s);
        handles::law_handle_names_itself(s);
    }
}

proof fn lemma_plain_is_handle(h: Seq<char>)
    requires
        plain_name(h),
    ensures
        handles::is_handle(h),
{
    assert forall|i: int| 0 <= i < h.len() implies handles::is_handle_char(#[trigger] h[i]) by {
        assert(plain_char(h[i]));
    }
}

/// What trimming leaves of a text whose middle is not trimmed.
proof fn lemma_trim_around(a: Seq<char>, m: Seq<char>, b: Seq<char>, class: CharClass) -> (r: (
    Seq<char>,
    Seq<char>,
))
    requires
        m.len() > 0,
        !class.has(m[0]),
        !class.has(m.last()),
    ensures
        text::trim_both(a + m + b, class) == r.0 + m + r.1,
        forall|c: char| r.0.contains(c) ==> a.contains(c),
        forall|c: char| r.1.contains(c) ==> b.contains(c),
        b.len() == 0 ==> r.1.len() == 0,
        b.len() > 0 && !class.has(b[0]) ==> r.1.len() > 0,
        r.1.len() > 0 ==> r.1[0] == b[0],
{
    let s = a + m + b;
    let k = law_trimming(s, class);
    let n = a.len() as int;
    let e = n + m.len();
    if k.0 > n {
        assert(class.has(s[n]));
        assert(s[n] == m[0]);
    }
    if k.1 < e {
        assert(class.has(s[e - 1]));
        assert(s[e - 1] == m.last());
    }
    let x = a.skip(k.0);
    let y = b.take(k.1 - e);
    assert(s.subrange(k.0, k.1) =~= x + m + y);
    assert forall|c: char| x.contains(c) implies a.contains(c) by {
        let i = choose|i: int| 0 <= i < x.len() && x[i] == c;
        assert(a[i + k.0] == c);
    }
    assert forall|c: char| y.contains(c) implies b.contains(c) by {
        let i = choose|i: int| 0 <= i < y.len() && y[i] == c;
        assert(b[i] == c);
    }
    if b.len() > 0 && !class.has(b[0]) && y.len() == 0 {
        assert(s[e] == b[0]);
        assert(class.has(s[e]));
    }
    (x, y)
}

proof fn lemma_unquoted_around(a: Seq<char>, m: Seq<char>, b: Seq<char>) -> (r: (
    Seq<char>,
    Seq<char>,
))
    requires
        m.len() > 0,
        m[0] == '/' || m[0] == '@',
        plain_char(m.last()),
        ends_a_handle(b),
    ensures
        handles::unquoted(a + m + b) == r.0 + m + r.1,
        forall|c: char| r.0.contains(c) ==> a.contains(c),
        forall|c: char| r.1.contains(c) ==> b.contains(c),
        ends_a_handle(r.1),
{
    let one = lemma_trim_around(a, m, b, CharClass::White);
    let two = lemma_trim_around(one.0, m, one.1, CharClass::Only('"'));
    lemma_trim_around(two.0, m, two.1, CharClass::Only('\''))
}

/// An address names the handle that follows its `@`, whatever stands before that
/// sign and after the handle.
pub proof fn law_address_names_its_handle(before: Seq<char>, h: Seq<char>, after: Seq<char>)
    requires
        plain_name(h),
        !before.contains('@'),
        ends_a_handle(after),
    ensures
        handles::normalized_handle(before + seq!['/', '@'] + h + after) == Some(h),
        !after.contains('@') ==> handles::normalized_handle(before + seq!['@'] + h + after)
            == Some(h),
{
    lemma_slash_at(before, h, after);
    if !after.contains('@') {
        lemma_plain_at(before, h, after);
    }
}

/// A pair of characters stands where both of them do.
proof fn lemma_pair_at(v: Seq<char>, a: char, b: char, j: int)
    ensures
        search::occurs_at(v, seq![a, b], j) <==> 0 <= j && j + 2 <= v.len() && v[j] == a && v[j + 1]
            == b,
{
    let pair = seq![a, b];
    if 0 <= j && j + 2 <= v.len() {
        let part = v.subrange(j, j + 2);
        assert(part[0] == v[j] && part[1] == v[j + 1]);
        assert(pair[0] == a && pair[1] == b);
        if v[j] == a && v[j + 1] == b {
            assert(part =~= pair);
        }
    }
}

/// What follows the first slash with an at sign behind it.
proof fn lemma_after_slash(x: Seq<char>, h: Seq<char>, y: Seq<char>)
    requires
        !x.contains('@'),
    ensures
        handles::after_at(x + (seq!['/', '@'] + h) + y) == h + y,
{
    let v = x + (seq!['/', '@'] + h) + y;
    let n = x.len() as int;
    let needle = seq!['/', '@'];
    assert(v[n] == '/' && v[n + 1] == '@');
    lemma_pair_at(v, '/', '@', n);
    assert forall|j: int| 0 <= j < n implies !search::occurs_at(v, needle, j) by {
        lemma_pair_at(v, '/', '@', j);
        if j + 1 < n {
            assert(v[j + 1] == x[j + 1]);
            assert(x.contains(x[j + 1]));
        }
    }
    lemma_found_at(v, needle, n);
    assert(v.skip(n + 2) =~= h + y);
}

proof fn lemma_found_at(v: Seq<char>, needle: Seq<char>, n: int)
    requires
        search::occurs_at(v, needle, n),
        forall|j: int| 0 <= j < n ==> !search::occurs_at(v, needle, j),
    ensures
        search::find(v, needle) == Some(n),
{
    assert(search::first_at(v, needle, n));
    search::lemma_first_at_is_find(v, needle, n);
}

proof fn lemma_slash_at(before: Seq<char>, h: Seq<char>, after: Seq<char>)
    requires
        plain_name(h),
        !before.contains('@'),
        ends_a_handle(after),
    ensures
        handles::normalized_handle(before + seq!['/', '@'] + h + after) == Some(h),
{
    let m = seq!['/', '@'] + h;
    let s = before + m + after;
    assert(before + seq!['/', '@'] + h + after =~= s);
    assert(m.last() == h.last() && m[0] == '/') by {
        assert(m[m.len() - 1] == h[h.len() - 1]);
    }
    assert(plain_char(h[h.len() - 1]));
    let r = lemma_unquoted_around(before, m, after);
    assert(!r.0.contains('@'));
    lemma_after_slash(r.0, h, r.1);
    lemma_named(handles::unquoted(s), h, r.1);
    assert(handles::unquoted(s).len() > 0);
    assert(handles::handle_text(s) == h);
}

#[verifier::rlimit(40)]
proof fn lemma_plain_at(before: Seq<char>, h: Seq<char>, after: Seq<char>)
    requires
        plain_name(h),
        !before.contains('@'),
        !after.contains('@'),
        ends_a_handle(after),
    ensures
        handles::normalized_handle(before + seq!['@'] + h + after) == Some(h),
{
    assert(plain_char(h[0]));
    assert(plain_char(h[h.len() - 1]));
    let m = seq!['@'] + h;
    assert(m.last() == h.last());
    let r = lemma_unquoted_around(before, m, after);
    assert(before + seq!['@'] + h + after =~= before + m + after);
    let v = r.0 + m + r.1;
    let n = r.0.len() as int;
    assert forall|j: int| 0 <= j < v.len() && #[trigger] v[j] == '@' implies j == n by {
        if j < n {
            assert(r.0[j] == '@');
            assert(r.0.contains('@'));
        } else if n < j <= n + h.len() {
            assert(h[j - n - 1] == '@');
            assert(plain_char(h[j - n - 1]));
        } else if j > n + h.len() {
            assert(r.1[j - n - m.len()] == '@');
            assert(r.1.contains('@'));
        }
    }
    assert(v[n] == '@');
    let two = seq!['/', '@'];
    assert forall|j: int| search::occurs_at(v, two, j) implies j == n - 1 by {
        assert(v.subrange(j, j + 2)[1] == v[j + 1]);
    }
    if n > 0 && v[n - 1] == '/' {
        assert(v.subrange(n - 1, n + 1) =~= two);
        assert(search::occurs_at(v, two, n - 1));
        search::lemma_first_at_is_find(v, two, n - 1);
    } else {
        assert forall|j: int| !search::occurs_at(v, two, j) by {
            if search::occurs_at(v, two, j) {
                assert(v.subrange(j, j + 2)[0] == v[j]);
            }
        }
        let one = seq!['@'];
        assert(v.subrange(n, n + 1) =~= one);
        assert forall|j: int| 0 <= j < n implies !search::occurs_at(v, one, j) by {
            if search::occurs_at(v, one, j) {
                assert(v.subrange(j, j + 1)[0] == v[j]);
            }
        }
        search::lemma_first_at_is_find(v, one, n);
    }
    assert(v.skip(n + 1) =~= h + r.1);
    lemma_named(v, h, r.1);
}

/// What is named where `h` and what ends it follow the `@`.
proof fn lemma_named(v: Seq<char>, h: Seq<char>, rest: Seq<char>)
    requires
        plain_name(h),
        ends_a_handle(rest),
        handles::after_at(v) == h + rest,
    ensures
        text::lower(
            text::trim_start(
                search::up_to(handles::after_at(v), handles::address_stops()),
                CharClass::Only('@'),
            ),
        ).filter(handles::handle_chars()) == h,
{
    let s = h + rest;
    let stops = handles::address_stops();
    let n = h.len() as int;
    assert(stops[0] == '?' && stops[1] == '#' && stops[2] == '/' && stops[3] == '&');
    assert forall|j: int| 0 <= j < n implies !stops.contains(#[trigger] s[j]) by {
        assert(s[j] == h[j]);
        assert(plain_char(h[j]));
    }
    if n < s.len() {
        assert(s[n] == rest[0]);
    }
    assert(search::first_stop(s, stops, n));
    search::lemma_up_to(s, stops, n);
    assert(s.take(n) =~= h);
    assert(plain_char(h[0]));
    assert(plain_char(h[h.len() - 1]));
    text::lemma_trimmed(h, CharClass::Only('@'));
    assert(text::lower(h) =~= h) by {
        assert forall|i: int| 0 <= i < h.len() implies text::lower_char(#[trigger] h[i])
            == h[i] by {
            assert(plain_char(h[i]));
        }
    }
    lemma_plain_is_handle(h);
    handles::lemma_filter_all(h);
}

/// A list of handles holds what its texts name, in ascending order and each once.
pub proof fn law_lists_of_handles(inputs: Seq<Seq<char>>, h: Seq<char>)
    ensures
        order::ascending(handles::normalized_handles(inputs)),
        handles::normalized_handles(inputs).contains(h) <==> exists|i: int|
            0 <= i < inputs.len() && handles::normalized_handle(#[trigger] inputs[i]) == Some(h),
{
    handles::law_normalized_handles_members(inputs, h);
    order::lemma_sorted_set(
        lists::present(inputs.map_values(|s: Seq<char>| handles::normalized_handle(s))),
    );
}

} // verus!
