use vstd::prelude::*;
use vstd::std_specs::iter::IteratorSpec;

verus! {

/// Unicode `White_Space` code points: the characters that `str::trim`
/// removes and that separate the columns of a status line.
pub open spec fn is_ws(c: char) -> bool {
    let u = c as u32;
    (0x09 <= u && u <= 0x0d) || u == 0x20 || u == 0x85 || u == 0xa0 || u == 0x1680 || (0x2000
        <= u && u <= 0x200a) || u == 0x2028 || u == 0x2029 || u == 0x202f || u == 0x205f || u
        == 0x3000
}

/// ASCII decimal digits.
pub open spec fn is_digit(c: char) -> bool {
    '0' <= c && c <= '9'
}

/// Whether `c` is whitespace.
pub fn is_space(c: char) -> (r: bool)
    ensures
        r == is_ws(c),
{
    let u = c as u32;
    (0x09 <= u && u <= 0x0d) || u == 0x20 || u == 0x85 || u == 0xa0 || u == 0x1680 || (0x2000
        <= u && u <= 0x200a) || u == 0x2028 || u == 0x2029 || u == 0x202f || u == 0x205f || u
        == 0x3000
}

/// Whether `c` is an ASCII digit.
pub fn is_ascii_digit(c: char) -> (r: bool)
    ensures
        r == is_digit(c),
{
    '0' <= c && c <= '9'
}

/// The characters of `s`, in order.
pub fn chars_of(s: &str) -> (r: Vec<char>)
    ensures
        r@ == s@,
{
    broadcast use vstd::string::group_string_axioms;

    let mut out: Vec<char> = Vec::new();
    let mut it = s.chars();
    loop
        invariant
            out@ + it.remaining() == s@,
            it.decrease() is Some,
        ensures
            out@ == s@,
        decreases it.decrease()->0,
    {
        match it.next() {
            Some(c) => {
                out.push(c);
            },
            None => {
                assert(out@ =~= s@);
                break ;
            },
        }
    }
    out
}

/// The classes of characters that the line grammar scans over.
#[derive(Clone, Copy, PartialEq, Eq, Debug)]
pub enum CharClass {
    Space,
    NonSpace,
    Digit,
    NonDigit,
}

/// Whether `c` belongs to class `k`.
pub open spec fn in_class(c: char, k: CharClass) -> bool {
    match k {
        CharClass::Space => is_ws(c),
        CharClass::NonSpace => !is_ws(c),
        CharClass::Digit => is_digit(c),
        CharClass::NonDigit => !is_digit(c),
    }
}

/// The first index at or after `i` whose character is not in class `k`
/// (the length of `t` if there is none).
pub open spec fn scan(t: Seq<char>, i: int, k: CharClass) -> int
    decreases t.len() - i,
{
    if 0 <= i < t.len() && in_class(t[i], k) {
        scan(t, i + 1, k)
    } else {
        i
    }
}

/// The start of the run of whitespace that ends at `i`.
pub open spec fn scan_back_ws(t: Seq<char>, i: int) -> int
    decreases i,
{
    if 0 < i <= t.len() && is_ws(t[i - 1]) {
        scan_back_ws(t, i - 1)
    } else {
        i
    }
}

/// `s` without its leading and trailing whitespace.
pub open spec fn trim(s: Seq<char>) -> Seq<char> {
    let lo = scan(s, 0, CharClass::Space);
    let hi = scan_back_ws(s, s.len() as int);
    if lo < hi {
        s.subrange(lo, hi)
    } else {
        Seq::empty()
    }
}

/// `scan` stays in bounds, passes over characters of the class only, and
/// stops at one outside it.
pub proof fn lemma_scan_bounds(t: Seq<char>, i: int, k: CharClass)
    requires
        0 <= i <= t.len(),
    ensures
        i <= scan(t, i, k) <= t.len(),
        forall|j: int| i <= j < scan(t, i, k) ==> in_class(#[trigger] t[j], k),
        scan(t, i, k) < t.len() ==> !in_class(t[scan(t, i, k)], k),
    decreases t.len() - i,
{
    if i < t.len() && in_class(t[i], k) {
        lemma_scan_bounds(t, i + 1, k);
    }
}

/// `scan_back_ws` stays in bounds, passes over whitespace only, and stops
/// after a character that is not whitespace.
pub proof fn lemma_scan_back_bounds(t: Seq<char>, i: int)
    requires
        0 <= i <= t.len(),
    ensures
        0 <= scan_back_ws(t, i) <= i,
        forall|j: int| scan_back_ws(t, i) <= j < i ==> is_ws(#[trigger] t[j]),
        scan_back_ws(t, i) > 0 ==> !is_ws(t[scan_back_ws(t, i) - 1]),
    decreases i,
{
    if 0 < i && is_ws(t[i - 1]) {
        lemma_scan_back_bounds(t, i - 1);
    }
}

/// Whether `c` belongs to class `k`.
pub fn in_char_class(c: char, k: CharClass) -> (r: bool)
    ensures
        r == in_class(c, k),
{
    match k {
        CharClass::Space => is_space(c),
        CharClass::NonSpace => !is_space(c),
        CharClass::Digit => is_ascii_digit(c),
        CharClass::NonDigit => !is_ascii_digit(c),
    }
}

/// The first index at or after `i` whose character is not in class `k`.
pub fn scan_exec(t: &Vec<char>, i: usize, k: CharClass) -> (r: usize)
    requires
        i <= t@.len(),
    ensures
        r == scan(t@, i as int, k),
{
    let mut j = i;
    while j < t.len() && in_char_class(t[j], k)
        invariant
            i <= j <= t@.len(),
            scan(t@, j as int, k) == scan(t@, i as int, k),
        decreases t@.len() - j,
    {
        j = j + 1;
    }
    j
}

/// The start of the run of whitespace that ends at `i`.
pub fn scan_back_ws_exec(t: &Vec<char>, i: usize) -> (r: usize)
    requires
        i <= t@.len(),
    ensures
        r == scan_back_ws(t@, i as int),
{
    let mut j = i;
    while j > 0 && is_space(t[j - 1])
        invariant
            j <= i <= t@.len(),
            scan_back_ws(t@, j as int) == scan_back_ws(t@, i as int),
        decreases j,
    {
        j = j - 1;
    }
    j
}

/// Relies on `String::push`: appends one character to the string.
#[verifier::external_body]
pub(crate) fn push_char(s: &mut String, c: char)
    ensures
        final(s)@ == old(s)@.push(c),
{
    s.push(c);
}

/// A new string holding `t[lo..hi]`.
pub fn string_of(t: &Vec<char>, lo: usize, hi: usize) -> (r: String)
    requires
        lo <= hi <= t@.len(),
    ensures
        r@ == t@.subrange(lo as int, hi as int),
{
    let mut r = String::new();
    let mut j = lo;
    while j < hi
        invariant
            lo <= j <= hi <= t@.len(),
            r@ == t@.subrange(lo as int, j as int),
        decreases hi - j,
    {
        push_char(&mut r, t[j]);
        assert(t@.subrange(lo as int, j + 1) =~= t@.subrange(lo as int, j as int).push(t@[j as int]));
        j = j + 1;
    }
    r
}

/// Appends all of `t` to `s`.
pub fn push_all(s: &mut String, t: &str)
    ensures
        final(s)@ == old(s)@ + t@,
{
    let cs = chars_of(t);
    let mut j: usize = 0;
    while j < cs.len()
        invariant
            j <= cs@.len(),
            cs@ == t@,
            s@ == old(s)@ + t@.take(j as int),
        decreases cs@.len() - j,
    {
        push_char(s, cs[j]);
        assert(t@.take(j + 1) =~= t@.take(j as int).push(t@[j as int]));
        j = j + 1;
    }
    assert(t@.take(j as int) =~= t@);
}

} // verus!
