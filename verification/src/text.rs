//! Text as sequences of characters.
//!
//! Every rule of the crate that reads text is stated over `Seq<char>`. This
//! module holds the vocabulary of those statements (trimming, letter case,
//! searching, splitting, joining, decimal numbers) and the executable
//! functions that compute them.

use vstd::prelude::*;

verus! {

/// `String::push` appends one character at the end of the string.
pub assume_specification[ String::push ](s: &mut String, c: char)
    ensures
        final(s)@ == old(s)@.push(c),
;

// ---------------------------------------------------------------------------
// Character classes
// ---------------------------------------------------------------------------
/// The characters with the Unicode `White_Space` property.
pub open spec fn is_white(c: char) -> bool {
    let n = c as u32;
    ||| 9 <= n <= 13
    ||| n == 32
    ||| n == 0x85
    ||| n == 0xA0
    ||| n == 0x1680
    ||| 0x2000 <= n <= 0x200A
    ||| n == 0x2028
    ||| n == 0x2029
    ||| n == 0x202F
    ||| n == 0x205F
    ||| n == 0x3000
}

/// Space, tab, line feed, form feed and carriage return.
pub open spec fn is_ascii_white(c: char) -> bool {
    let n = c as u32;
    n == 32 || n == 9 || n == 10 || n == 12 || n == 13
}

pub open spec fn is_ascii_digit(c: char) -> bool {
    48 <= c as u32 <= 57
}

pub open spec fn is_ascii_upper(c: char) -> bool {
    65 <= c as u32 <= 90
}

pub open spec fn is_ascii_lower(c: char) -> bool {
    97 <= c as u32 <= 122
}

pub open spec fn is_ascii_alpha(c: char) -> bool {
    is_ascii_upper(c) || is_ascii_lower(c)
}

pub open spec fn is_ascii_alnum(c: char) -> bool {
    is_ascii_alpha(c) || is_ascii_digit(c)
}

/// Whether `c` has the Unicode `White_Space` property.
pub fn white(c: char) -> (r: bool)
    ensures
        r == is_white(c),
{
    let n: u32 = c as u32;
    (9 <= n && n <= 13) || n == 32 || n == 0x85 || n == 0xA0 || n == 0x1680 || (0x2000 <= n && n
        <= 0x200A) || n == 0x2028 || n == 0x2029 || n == 0x202F || n == 0x205F || n == 0x3000
}

pub fn ascii_white(c: char) -> (r: bool)
    ensures
        r == is_ascii_white(c),
{
    let n: u32 = c as u32;
    n == 32 || n == 9 || n == 10 || n == 12 || n == 13
}

pub fn ascii_alpha(c: char) -> (r: bool)
    ensures
        r == is_ascii_alpha(c),
{
    let n: u32 = c as u32;
    (65 <= n && n <= 90) || (97 <= n && n <= 122)
}

pub fn ascii_digit(c: char) -> (r: bool)
    ensures
        r == is_ascii_digit(c),
{
    let n: u32 = c as u32;
    48 <= n && n <= 57
}

pub fn ascii_alnum(c: char) -> (r: bool)
    ensures
        r == is_ascii_alnum(c),
{
    ascii_alpha(c) || ascii_digit(c)
}

// ---------------------------------------------------------------------------
// Strings and character vectors
// ---------------------------------------------------------------------------
/// The characters of `s`, in order.
pub fn chars_of(s: &str) -> (v: Vec<char>)
    ensures
        v@ == s@,
{
    let mut v: Vec<char> = Vec::new();
    for c in it: s.chars()
        invariant
            v@ == it.seq().take(it.index() as int),
            it.seq() == s@,
    {
        v.push(c);
    }
    v
}

/// The string made of the characters `from..to` of `v`.
pub fn string_of(v: &Vec<char>, from: usize, to: usize) -> (s: String)
    requires
        from <= to <= v@.len(),
    ensures
        s@ == v@.subrange(from as int, to as int),
{
    let mut s: String = String::new();
    let mut i: usize = from;
    while i < to
        invariant
            from <= i <= to <= v@.len(),
            s@ == v@.subrange(from as int, i as int),
        decreases to - i,
    {
        s.push(v[i]);
        i = i + 1;
    }
    s
}

/// Whether `s` holds no character.
pub fn empty(s: &str) -> (r: bool)
    ensures
        r == (s@.len() == 0),
{
    s.unicode_len() == 0
}

/// Whether two strings hold the same characters.
pub fn same(a: &str, b: &str) -> (r: bool)
    ensures
        r == (a@ == b@),
{
    let left: Vec<char> = chars_of(a);
    let right: Vec<char> = chars_of(b);
    if left.len() != right.len() {
        return false;
    }
    let mut i: usize = 0;
    while i < left.len()
        invariant
            i <= left@.len() == right@.len(),
            left@ == a@,
            right@ == b@,
            forall|j: int| 0 <= j < i ==> left@[j] == right@[j],
        decreases left@.len() - i,
    {
        if left[i] != right[i] {
            assert(a@[i as int] != b@[i as int]);
            return false;
        }
        i = i + 1;
    }
    assert(a@ =~= b@);
    true
}

/// `a` followed by `b`.
pub fn concat(a: &str, b: &str) -> (r: String)
    ensures
        r@ == a@ + b@,
{
    let mut r: String = a.to_string();
    r.append(b);
    r
}

// ---------------------------------------------------------------------------
// Letter case
// ---------------------------------------------------------------------------
pub open spec fn lower_char(c: char) -> char {
    if is_ascii_upper(c) {
        (c as u32 + 32) as char
    } else {
        c
    }
}

pub open spec fn upper_char(c: char) -> char {
    if is_ascii_lower(c) {
        (c as u32 - 32) as char
    } else {
        c
    }
}

/// `s` with its ASCII letters in lower case.
pub open spec fn lower(s: Seq<char>) -> Seq<char> {
    s.map_values(|c: char| lower_char(c))
}

/// `s` with its ASCII letters in upper case.
pub open spec fn upper(s: Seq<char>) -> Seq<char> {
    s.map_values(|c: char| upper_char(c))
}

/// Equality that does not tell ASCII letters of different case apart.
pub open spec fn same_ignoring_case(a: Seq<char>, b: Seq<char>) -> bool {
    lower(a) == lower(b)
}

pub fn to_lower_char(c: char) -> (r: char)
    ensures
        r == lower_char(c),
{
    let n: u32 = c as u32;
    if 65 <= n && n <= 90 {
        (n + 32) as u8 as char
    } else {
        c
    }
}

pub fn to_upper_char(c: char) -> (r: char)
    ensures
        r == upper_char(c),
{
    let n: u32 = c as u32;
    if 97 <= n && n <= 122 {
        (n - 32) as u8 as char
    } else {
        c
    }
}

/// `str::to_ascii_lowercase`.
pub fn to_lower(s: &str) -> (r: String)
    ensures
        r@ == lower(s@),
{
    let v: Vec<char> = chars_of(s);
    let mut r: String = String::new();
    let mut i: usize = 0;
    while i < v.len()
        invariant
            i <= v@.len(),
            v@ == s@,
            r@ == lower(s@).take(i as int),
        decreases v@.len() - i,
    {
        r.push(to_lower_char(v[i]));
        i = i + 1;
        assert(r@ =~= lower(s@).take(i as int));
    }
    assert(lower(s@).take(i as int) =~= lower(s@));
    r
}

/// `str::to_ascii_uppercase`.
pub fn to_upper(s: &str) -> (r: String)
    ensures
        r@ == upper(s@),
{
    let v: Vec<char> = chars_of(s);
    let mut r: String = String::new();
    let mut i: usize = 0;
    while i < v.len()
        invariant
            i <= v@.len(),
            v@ == s@,
            r@ == upper(s@).take(i as int),
        decreases v@.len() - i,
    {
        r.push(to_upper_char(v[i]));
        i = i + 1;
        assert(r@ =~= upper(s@).take(i as int));
    }
    assert(upper(s@).take(i as int) =~= upper(s@));
    r
}

/// `str::eq_ignore_ascii_case`.
pub fn eq_ignoring_case(a: &str, b: &str) -> (r: bool)
    ensures
        r == same_ignoring_case(a@, b@),
{
    let left: String = to_lower(a);
    let right: String = to_lower(b);
    same(&left, &right)
}

// ---------------------------------------------------------------------------
// Trimming
// ---------------------------------------------------------------------------
/// A set of characters that trimming takes off the ends of a text.
#[derive(Clone, Copy)]
pub enum CharClass {
    /// The Unicode white space characters.
    White,
    /// One character.
    Only(char),
    /// White space and the punctuation that surrounds a name in a profile.
    NameEdge,
}

impl CharClass {
    pub open spec fn has(self, c: char) -> bool {
        match self {
            CharClass::White => is_white(c),
            CharClass::Only(only) => c == only,
            CharClass::NameEdge => {
                ||| is_white(c)
                ||| c == ':'
                ||| c == ';'
                ||| c == ','
                ||| c == '.'
                ||| c == '-'
                ||| c == '|'
                ||| c == '('
                ||| c == ')'
                ||| c == '['
                ||| c == ']'
            },
        }
    }

    pub fn holds(self, c: char) -> (r: bool)
        ensures
            r == self.has(c),
    {
        match self {
            CharClass::White => white(c),
            CharClass::Only(only) => c == only,
            CharClass::NameEdge => white(c) || c == ':' || c == ';' || c == ',' || c == '.' || c
                == '-' || c == '|' || c == '(' || c == ')' || c == '[' || c == ']',
        }
    }
}

/// `s` without its leading characters of `class`.
pub open spec fn trim_start(s: Seq<char>, class: CharClass) -> Seq<char>
    decreases s.len(),
{
    if s.len() > 0 && class.has(s[0]) {
        trim_start(s.skip(1), class)
    } else {
        s
    }
}

/// `s` without its trailing characters of `class`.
pub open spec fn trim_end(s: Seq<char>, class: CharClass) -> Seq<char>
    decreases s.len(),
{
    if s.len() > 0 && class.has(s.last()) {
        trim_end(s.drop_last(), class)
    } else {
        s
    }
}

pub open spec fn trim_both(s: Seq<char>, class: CharClass) -> Seq<char> {
    trim_end(trim_start(s, class), class)
}

/// `s` without the white space at its ends.
pub open spec fn trim(s: Seq<char>) -> Seq<char> {
    trim_both(s, CharClass::White)
}

fn start_index(v: &Vec<char>, class: CharClass) -> (from: usize)
    ensures
        from <= v@.len(),
        trim_start(v@, class) == v@.skip(from as int),
        forall|j: int| 0 <= j < from ==> class.has(v@[j]),
        from < v@.len() ==> !class.has(v@[from as int]),
{
    let mut from: usize = 0;
    assert(v@.skip(0) =~= v@);
    while from < v.len() && class.holds(v[from])
        invariant
            from <= v@.len(),
            trim_start(v@, class) == trim_start(v@.skip(from as int), class),
            forall|j: int| 0 <= j < from ==> class.has(v@[j]),
        decreases v@.len() - from,
    {
        assert(v@.skip(from as int).skip(1) =~= v@.skip(from + 1));
        from = from + 1;
    }
    from
}

/// Trims the characters of `class` off the start of `s`.
pub fn trim_start_of(s: &str, class: CharClass) -> (r: String)
    ensures
        r@ == trim_start(s@, class),
{
    let v: Vec<char> = chars_of(s);
    let from: usize = start_index(&v, class);
    let to: usize = v.len();
    assert(v@.subrange(from as int, to as int) =~= v@.skip(from as int));
    string_of(&v, from, to)
}

/// Trims the characters of `class` off the end of `s`.
pub fn trim_end_of(s: &str, class: CharClass) -> (r: String)
    ensures
        r@ == trim_end(s@, class),
{
    let v: Vec<char> = chars_of(s);
    let mut to: usize = v.len();
    assert(v@.take(to as int) =~= v@);
    while 0 < to && class.holds(v[to - 1])
        invariant
            to <= v@.len(),
            v@ == s@,
            trim_end(s@, class) == trim_end(v@.take(to as int), class),
        decreases to,
    {
        assert(v@.take(to as int).drop_last() =~= v@.take(to - 1));
        to = to - 1;
    }
    assert(v@.subrange(0, to as int) =~= v@.take(to as int));
    string_of(&v, 0, to)
}

/// Trims the characters of `class` off both ends of `s`.
pub fn trim_both_of(s: &str, class: CharClass) -> (r: String)
    ensures
        r@ == trim_both(s@, class),
{
    let start: String = trim_start_of(s, class);
    trim_end_of(&start, class)
}

/// `str::trim`.
pub fn trim_of(s: &str) -> (r: String)
    ensures
        r@ == trim(s@),
{
    trim_both_of(s, CharClass::White)
}

// ---------------------------------------------------------------------------
// Facts about trimming and letter case
// ---------------------------------------------------------------------------
proof fn lemma_trim_start_end(s: Seq<char>, class: CharClass)
    ensures
        trim_start(s, class).len() > 0 ==> !class.has(trim_start(s, class)[0]),
    decreases s.len(),
{
    if s.len() > 0 && class.has(s[0]) {
        lemma_trim_start_end(s.skip(1), class);
    }
}

proof fn lemma_trim_end_end(s: Seq<char>, class: CharClass)
    ensures
        trim_end(s, class).len() > 0 ==> !class.has(trim_end(s, class).last()),
        trim_end(s, class).len() <= s.len(),
        trim_end(s, class) == s.take(trim_end(s, class).len() as int),
    decreases s.len(),
{
    if s.len() > 0 && class.has(s.last()) {
        lemma_trim_end_end(s.drop_last(), class);
        let n = trim_end(s, class).len() as int;
        assert(s.drop_last().take(n) =~= s.take(n));
    } else {
        assert(s.take(s.len() as int) =~= s);
    }
}

/// A text that begins and ends outside `class` is trimmed already.
pub proof fn lemma_trimmed(s: Seq<char>, class: CharClass)
    requires
        s.len() > 0 ==> !class.has(s[0]) && !class.has(s.last()),
    ensures
        trim_start(s, class) == s,
        trim_both(s, class) == s,
{
}

/// What trimming leaves begins and ends outside `class`.
pub proof fn lemma_trim_ends(s: Seq<char>, class: CharClass)
    ensures
        trim_both(s, class).len() > 0 ==> !class.has(trim_both(s, class)[0]) && !class.has(
            trim_both(s, class).last(),
        ),
{
    lemma_trim_start_end(s, class);
    lemma_trim_end_end(trim_start(s, class), class);
}

/// Trimming twice is trimming once.
pub proof fn law_trim_idempotent(s: Seq<char>, class: CharClass)
    ensures
        trim_both(trim_both(s, class), class) == trim_both(s, class),
{
    lemma_trim_ends(s, class);
    lemma_trimmed(trim_both(s, class), class);
}

/// Upper case changes nothing about being in the class.
pub open spec fn ignores_case(class: CharClass) -> bool {
    forall|c: char| class.has(#[trigger] upper_char(c)) == class.has(c)
}

proof fn lemma_upper_trim_start(s: Seq<char>, class: CharClass)
    requires
        ignores_case(class),
    ensures
        trim_start(upper(s), class) == upper(trim_start(s, class)),
    decreases s.len(),
{
    if s.len() > 0 {
        assert(upper(s)[0] == upper_char(s[0]));
        if class.has(s[0]) {
            lemma_upper_trim_start(s.skip(1), class);
            assert(upper(s).skip(1) =~= upper(s.skip(1)));
        }
    }
}

proof fn lemma_upper_trim_end(s: Seq<char>, class: CharClass)
    requires
        ignores_case(class),
    ensures
        trim_end(upper(s), class) == upper(trim_end(s, class)),
    decreases s.len(),
{
    if s.len() > 0 {
        assert(upper(s).last() == upper_char(s.last()));
        if class.has(s.last()) {
            lemma_upper_trim_end(s.drop_last(), class);
            assert(upper(s).drop_last() =~= upper(s.drop_last()));
        }
    }
}

/// Trimming and upper case can change places.
pub proof fn lemma_upper_trim_both(s: Seq<char>, class: CharClass)
    requires
        ignores_case(class),
    ensures
        trim_start(upper(s), class) == upper(trim_start(s, class)),
        trim_both(upper(s), class) == upper(trim_both(s, class)),
{
    lemma_upper_trim_start(s, class);
    lemma_upper_trim_end(trim_start(s, class), class);
}

/// Trimming white space and upper case can change places.
pub proof fn lemma_upper_trim(s: Seq<char>)
    ensures
        trim(upper(s)) == upper(trim(s)),
{
    lemma_upper_trim_both(s, CharClass::White);
}

/// Lower case forgets upper case.
pub proof fn lemma_lower_upper(s: Seq<char>)
    ensures
        lower(upper(s)) == lower(s),
{
    assert(lower(upper(s)) =~= lower(s));
}

/// Upper case twice is upper case once.
pub proof fn lemma_upper_idempotent(s: Seq<char>)
    ensures
        upper(upper(s)) == upper(s),
{
    assert(upper(upper(s)) =~= upper(s));
}

} // verus!
