//! Searching, splitting and joining text.

use vstd::prelude::*;
use crate::text;

verus! {

// ---------------------------------------------------------------------------
// Searching
// ---------------------------------------------------------------------------
/// `needle` stands in `s` at index `i`.
pub open spec fn occurs_at(s: Seq<char>, needle: Seq<char>, i: int) -> bool {
    &&& 0 <= i
    &&& i + needle.len() <= s.len()
    &&& s.subrange(i, i + needle.len()) == needle
}

/// `needle` stands in `s` at index `i` and at no smaller index.
pub open spec fn first_at(s: Seq<char>, needle: Seq<char>, i: int) -> bool {
    &&& occurs_at(s, needle, i)
    &&& forall|j: int| 0 <= j < i ==> !occurs_at(s, needle, j)
}

/// The index of the first occurrence of `needle` in `s`.
pub open spec fn find(s: Seq<char>, needle: Seq<char>) -> Option<int> {
    if exists|i: int| first_at(s, needle, i) {
        Some(choose|i: int| first_at(s, needle, i))
    } else {
        None
    }
}

pub open spec fn contains(s: Seq<char>, needle: Seq<char>) -> bool {
    exists|i: int| occurs_at(s, needle, i)
}

/// One of `needles` stands in `s`.
pub open spec fn contains_any(s: Seq<char>, needles: Seq<Seq<char>>) -> bool {
    exists|k: int| 0 <= k < needles.len() && contains(s, #[trigger] needles[k])
}

pub proof fn lemma_first_at_is_find(s: Seq<char>, needle: Seq<char>, i: int)
    requires
        first_at(s, needle, i),
    ensures
        find(s, needle) == Some(i),
{
    let j = choose|j: int| first_at(s, needle, j);
    assert(first_at(s, needle, j));
    if i < j {
        assert(!occurs_at(s, needle, i));
    }
    if j < i {
        assert(!occurs_at(s, needle, j));
    }
}

fn stands_at(v: &Vec<char>, needle: &Vec<char>, at: usize) -> (r: bool)
    ensures
        r == occurs_at(v@, needle@, at as int),
{
    if needle.len() > v.len() || at > v.len() - needle.len() {
        return false;
    }
    let mut k: usize = 0;
    while k < needle.len()
        invariant
            k <= needle@.len(),
            at + needle.len() <= v.len(),
            forall|j: int| 0 <= j < k ==> v@[at + j] == needle@[j],
        decreases needle@.len() - k,
    {
        if v[at + k] != needle[k] {
            assert(v@.subrange(at as int, at + needle@.len())[k as int] != needle@[k as int]);
            return false;
        }
        k = k + 1;
    }
    assert(v@.subrange(at as int, at + needle@.len()) =~= needle@);
    true
}

/// The index of the first occurrence of `needle` among the characters `v`.
pub fn find_in(v: &Vec<char>, needle: &Vec<char>) -> (r: Option<usize>)
    ensures
        match r {
            Some(i) => find(v@, needle@) == Some(i as int) && first_at(v@, needle@, i as int),
            None => find(v@, needle@) is None && !contains(v@, needle@),
        },
{
    let mut at: usize = 0;
    while at < v.len()
        invariant
            at <= v@.len(),
            forall|j: int| 0 <= j < at ==> !occurs_at(v@, needle@, j),
        decreases v@.len() - at,
    {
        if stands_at(v, needle, at) {
            proof {
                lemma_first_at_is_find(v@, needle@, at as int);
            }
            return Some(at);
        }
        at = at + 1;
    }
    if stands_at(v, needle, at) {
        proof {
            lemma_first_at_is_find(v@, needle@, at as int);
        }
        return Some(at);
    }
    None
}

/// Whether `needle` occurs in `s`.
pub fn has_text(s: &str, needle: &str) -> (r: bool)
    ensures
        r == contains(s@, needle@),
{
    let v: Vec<char> = text::chars_of(s);
    let n: Vec<char> = text::chars_of(needle);
    match find_in(&v, &n) {
        Some(i) => {
            assert(occurs_at(s@, needle@, i as int));
            true
        },
        None => false,
    }
}

/// Whether one of `needles` occurs in `s`.
pub fn has_any_text(s: &str, needles: &[&str]) -> (r: bool)
    ensures
        r == contains_any(s@, needles@.map_values(|n: &str| n@)),
{
    let ghost all = needles@.map_values(|n: &str| n@);
    let mut k: usize = 0;
    while k < needles.len()
        invariant
            k <= needles@.len(),
            all == needles@.map_values(|n: &str| n@),
            forall|j: int| 0 <= j < k ==> !contains(s@, #[trigger] all[j]),
        decreases needles@.len() - k,
    {
        if has_text(s, needles[k]) {
            assert(contains(s@, all[k as int]));
            return true;
        }
        k = k + 1;
    }
    false
}

/// `c` is one of the characters of `s`.
pub fn has_char(s: &str, c: char) -> (r: bool)
    ensures
        r == s@.contains(c),
{
    let v: Vec<char> = text::chars_of(s);
    let mut i: usize = 0;
    while i < v.len()
        invariant
            i <= v@.len(),
            v@ == s@,
            forall|j: int| 0 <= j < i ==> v@[j] != c,
        decreases v@.len() - i,
    {
        if v[i] == c {
            assert(s@[i as int] == c);
            return true;
        }
        i = i + 1;
    }
    false
}

/// `prefix` stands at the start of `s`.
pub open spec fn starts_with(s: Seq<char>, prefix: Seq<char>) -> bool {
    occurs_at(s, prefix, 0)
}

pub fn starts_with_text(s: &str, prefix: &str) -> (r: bool)
    ensures
        r == starts_with(s@, prefix@),
{
    let v: Vec<char> = text::chars_of(s);
    let n: Vec<char> = text::chars_of(prefix);
    stands_at(&v, &n, 0)
}

// ---------------------------------------------------------------------------
// Splitting and joining
// ---------------------------------------------------------------------------
/// The pieces of `s` between the occurrences of `sep`, from left to right.
pub open spec fn split(s: Seq<char>, sep: Seq<char>) -> Seq<Seq<char>>
    decreases s.len(),
{
    match find(s, sep) {
        Some(i) => if sep.len() > 0 {
            seq![s.take(i)] + split(s.skip(i + sep.len()), sep)
        } else {
            seq![s]
        },
        None => seq![s],
    }
}

/// The texts of a vector of strings.
pub open spec fn texts(v: Seq<String>) -> Seq<Seq<char>> {
    v.map_values(|s: String| s@)
}

/// `str::split` by a separator that is not empty.
pub fn split_by(s: &str, sep: &str) -> (r: Vec<String>)
    requires
        sep@.len() > 0,
    ensures
        texts(r@) == split(s@, sep@),
        r@.len() > 0,
{
    let n: Vec<char> = text::chars_of(sep);
    let mut rest: Vec<char> = text::chars_of(s);
    let mut r: Vec<String> = Vec::new();
    assert(texts(r@) + split(s@, sep@) =~= split(s@, sep@));
    loop
        invariant
            n@ == sep@,
            n@.len() > 0,
            texts(r@) + split(rest@, sep@) == split(s@, sep@),
        decreases rest@.len(),
    {
        match find_in(&rest, &n) {
            Some(i) => {
                let piece: String = text::string_of(&rest, 0, i);
                let ghost before = r@;
                r.push(piece);
                assert(i + n.len() <= rest.len());
                let tail: Vec<char> = tail_of(&rest, i + n.len());
                proof {
                    assert(rest@.subrange(0, i as int) =~= rest@.take(i as int));
                    assert(texts(r@) =~= texts(before) + seq![rest@.take(i as int)]);
                    assert(texts(r@) + split(tail@, sep@) =~= texts(before) + (seq![
                        rest@.take(i as int),
                    ] + split(tail@, sep@)));
                }
                rest = tail;
            },
            None => {
                let to: usize = rest.len();
                let piece: String = text::string_of(&rest, 0, to);
                let ghost before = r@;
                r.push(piece);
                proof {
                    assert(rest@.subrange(0, to as int) =~= rest@);
                    assert(texts(r@) =~= texts(before) + seq![rest@]);
                }
                return r;
            },
        }
    }
}

/// The characters of `v` from index `from` on.
pub fn tail_of(v: &Vec<char>, from: usize) -> (r: Vec<char>)
    requires
        from <= v@.len(),
    ensures
        r@ == v@.skip(from as int),
{
    let mut r: Vec<char> = Vec::new();
    let mut i: usize = from;
    while i < v.len()
        invariant
            from <= i <= v@.len(),
            r@ == v@.subrange(from as int, i as int),
        decreases v@.len() - i,
    {
        r.push(v[i]);
        i = i + 1;
    }
    assert(v@.subrange(from as int, i as int) =~= v@.skip(from as int));
    r
}

/// `parts` with `sep` between each two of them.
pub open spec fn join(parts: Seq<Seq<char>>, sep: Seq<char>) -> Seq<char>
    decreases parts.len(),
{
    if parts.len() == 0 {
        Seq::empty()
    } else if parts.len() == 1 {
        parts[0]
    } else {
        join(parts.drop_last(), sep) + sep + parts.last()
    }
}

/// `[String]::join`.
pub fn join_with(parts: &Vec<String>, sep: &str) -> (r: String)
    ensures
        r@ == join(texts(parts@), sep@),
{
    let mut r: String = String::new();
    let mut i: usize = 0;
    while i < parts.len()
        invariant
            i <= parts@.len(),
            r@ == join(texts(parts@).take(i as int), sep@),
        decreases parts@.len() - i,
    {
        if i > 0 {
            r.append(sep);
        }
        r.append(parts[i].as_str());
        proof {
            let all = texts(parts@);
            assert(all.take(i + 1).drop_last() =~= all.take(i as int));
            assert(all.take(i + 1).last() == all[i as int]);
            if i == 0 {
                assert(r@ =~= all[0]);
            }
        }
        i = i + 1;
    }
    assert(texts(parts@).take(i as int) =~= texts(parts@));
    r
}

// ---------------------------------------------------------------------------
// Lines
// ---------------------------------------------------------------------------
pub open spec fn without_trailing_return(s: Seq<char>) -> Seq<char> {
    if s.len() > 0 && s.last() == '\r' {
        s.drop_last()
    } else {
        s
    }
}

/// The lines of `s`: a line ends at a line feed, with or without a carriage
/// return before it, and text after the last line feed is a line too.
pub open spec fn lines(s: Seq<char>) -> Seq<Seq<char>> {
    let pieces = split(s, seq!['\n']);
    let ended = pieces.drop_last().map_values(|piece: Seq<char>| without_trailing_return(piece));
    if pieces.last().len() == 0 {
        ended
    } else {
        ended.push(pieces.last())
    }
}

fn drop_trailing_return(s: &str) -> (r: String)
    ensures
        r@ == without_trailing_return(s@),
{
    let v: Vec<char> = text::chars_of(s);
    let n: usize = v.len();
    if n > 0 && v[n - 1] == '\r' {
        assert(v@.subrange(0, n - 1) =~= s@.drop_last());
        text::string_of(&v, 0, n - 1)
    } else {
        assert(v@.subrange(0, n as int) =~= s@);
        text::string_of(&v, 0, n)
    }
}

/// `str::lines`.
pub fn lines_of(s: &str) -> (r: Vec<String>)
    ensures
        texts(r@) == lines(s@),
{
    proof {
        reveal_strlit("\n");
        assert("\n"@ =~= seq!['\n']);
    }
    let pieces: Vec<String> = split_by(s, "\n");
    let ghost all = texts(pieces@);
    let ghost ended = all.drop_last().map_values(
        |piece: Seq<char>| without_trailing_return(piece),
    );
    let last: usize = pieces.len() - 1;
    let mut r: Vec<String> = Vec::new();
    let mut i: usize = 0;
    while i < last
        invariant
            i <= last,
            last + 1 == pieces@.len(),
            all == texts(pieces@),
            ended == all.drop_last().map_values(
                |piece: Seq<char>| without_trailing_return(piece),
            ),
            texts(r@) == ended.take(i as int),
        decreases last - i,
    {
        let line: String = drop_trailing_return(pieces[i].as_str());
        let ghost before = r@;
        r.push(line);
        i = i + 1;
        proof {
            assert(texts(r@) =~= texts(before).push(line@));
            assert(ended.take(i as int) =~= ended.take(i - 1).push(ended[i - 1]));
        }
    }
    assert(ended.take(i as int) =~= ended);
    if !text::empty(pieces[last].as_str()) {
        let ghost before = r@;
        r.push(pieces[last].clone());
        assert(texts(r@) =~= texts(before).push(pieces@[last as int]@));
    }
    r
}

// ---------------------------------------------------------------------------
// White space inside a text
// ---------------------------------------------------------------------------
/// The words of `s` with one space between each two of them.
pub open spec fn squeeze(s: Seq<char>) -> Seq<char>
    decreases s.len(),
{
    if s.len() == 0 {
        Seq::empty()
    } else {
        let done = squeeze(s.drop_last());
        if text::is_white(s.last()) {
            done
        } else if s.len() > 1 && text::is_white(s[s.len() - 2]) && done.len() > 0 {
            done.push(' ').push(s.last())
        } else {
            done.push(s.last())
        }
    }
}

/// Splits `v` at white space and joins the words with one space.
pub fn squeeze_of(v: &Vec<char>) -> (r: Vec<char>)
    ensures
        r@ == squeeze(v@),
{
    let mut r: Vec<char> = Vec::new();
    let mut i: usize = 0;
    while i < v.len()
        invariant
            i <= v@.len(),
            r@ == squeeze(v@.take(i as int)),
        decreases v@.len() - i,
    {
        let c: char = v[i];
        proof {
            assert(v@.take(i + 1).drop_last() =~= v@.take(i as int));
            assert(v@.take(i + 1).last() == c);
        }
        if !text::white(c) {
            if i > 0 && text::white(v[i - 1]) && r.len() > 0 {
                r.push(' ');
            }
            r.push(c);
        }
        i = i + 1;
    }
    assert(v@.take(i as int) =~= v@);
    r
}

// ---------------------------------------------------------------------------
// Filtering and cutting
// ---------------------------------------------------------------------------
/// `k` is the index of the first of the characters `stops` in `s`, or the
/// length of `s` where there is none.
pub open spec fn first_stop(s: Seq<char>, stops: Seq<char>, k: int) -> bool {
    &&& 0 <= k <= s.len()
    &&& forall|j: int| 0 <= j < k ==> !stops.contains(#[trigger] s[j])
    &&& k < s.len() ==> stops.contains(s[k])
}

/// The part of `s` before the first of the characters `stops`.
pub open spec fn up_to(s: Seq<char>, stops: Seq<char>) -> Seq<char> {
    s.take(choose|k: int| first_stop(s, stops, k))
}

pub proof fn lemma_up_to(s: Seq<char>, stops: Seq<char>, k: int)
    requires
        first_stop(s, stops, k),
    ensures
        up_to(s, stops) == s.take(k),
{
    let c = choose|c: int| first_stop(s, stops, c);
    assert(first_stop(s, stops, c));
    if c < k {
        assert(!stops.contains(s[c]));
    }
    if k < c {
        assert(!stops.contains(s[k]));
    }
}

/// Cuts `v` before the first of the characters `stops`.
pub fn cut_at_any(v: &Vec<char>, stops: &Vec<char>) -> (r: Vec<char>)
    ensures
        r@ == up_to(v@, stops@),
{
    let mut r: Vec<char> = Vec::new();
    let mut k: usize = 0;
    while k < v.len()
        invariant
            k <= v@.len(),
            r@ == v@.take(k as int),
            forall|j: int| 0 <= j < k ==> !stops@.contains(#[trigger] v@[j]),
        decreases v@.len() - k,
    {
        if one_of(v[k], stops) {
            proof {
                lemma_up_to(v@, stops@, k as int);
            }
            return r;
        }
        r.push(v[k]);
        k = k + 1;
    }
    proof {
        lemma_up_to(v@, stops@, k as int);
    }
    r
}

fn one_of(c: char, set: &Vec<char>) -> (r: bool)
    ensures
        r == set@.contains(c),
{
    let mut i: usize = 0;
    while i < set.len()
        invariant
            i <= set@.len(),
            forall|j: int| 0 <= j < i ==> set@[j] != c,
        decreases set@.len() - i,
    {
        if set[i] == c {
            assert(set@[i as int] == c);
            return true;
        }
        i = i + 1;
    }
    false
}

pub proof fn lemma_filter_push<A>(s: Seq<A>, p: spec_fn(A) -> bool, x: A)
    ensures
        s.push(x).filter(p) == if p(x) {
            s.filter(p).push(x)
        } else {
            s.filter(p)
        },
{
    reveal(Seq::filter);
    assert(s.push(x).drop_last() =~= s);
}

pub open spec fn other_than(c: char) -> spec_fn(char) -> bool {
    |d: char| d != c
}

/// `s` without the character `c`.
pub open spec fn without_char(s: Seq<char>, c: char) -> Seq<char> {
    s.filter(other_than(c))
}

/// `str::replace` of one character by nothing.
pub fn remove_char(s: &str, c: char) -> (r: String)
    ensures
        r@ == without_char(s@, c),
{
    let v: Vec<char> = text::chars_of(s);
    let ghost p = other_than(c);
    let mut r: String = String::new();
    let mut i: usize = 0;
    proof {
        reveal(Seq::filter);
        assert(s@.take(0).filter(p) =~= Seq::<char>::empty());
    }
    while i < v.len()
        invariant
            i <= v@.len(),
            v@ == s@,
            p == other_than(c),
            r@ == s@.take(i as int).filter(p),
        decreases v@.len() - i,
    {
        proof {
            assert(s@.take(i + 1) =~= s@.take(i as int).push(s@[i as int]));
            lemma_filter_push(s@.take(i as int), p, s@[i as int]);
        }
        if v[i] != c {
            r.push(v[i]);
        }
        i = i + 1;
    }
    assert(s@.take(i as int) =~= s@);
    r
}

/// The first `max` characters of `s`, or all of them where there are fewer.
pub open spec fn cut(s: Seq<char>, max: nat) -> Seq<char> {
    if s.len() <= max {
        s
    } else {
        s.take(max as int)
    }
}

/// Cuts `s` after `max` characters.
pub fn cut_to(s: &str, max: usize) -> (r: String)
    ensures
        r@ == cut(s@, max as nat),
{
    let v: Vec<char> = text::chars_of(s);
    let to: usize = if v.len() <= max {
        v.len()
    } else {
        max
    };
    assert(v@.subrange(0, to as int) =~= cut(s@, max as nat));
    text::string_of(&v, 0, to)
}

} // verus!
