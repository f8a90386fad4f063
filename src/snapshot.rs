use vstd::prelude::*;
use crate::text::{
    chars_of, lemma_scan_back_bounds, lemma_scan_bounds, scan, scan_back_ws, scan_back_ws_exec,
    scan_exec, string_of, trim, CharClass,
};

verus! {

/// One endpoint line of the status report, its columns kept verbatim.
#[derive(Clone, Debug, PartialEq, Eq)]
pub struct Endpoint {
    pub endpoint: String,
    pub state: String,
    pub channels: String,
}

/// The endpoints of one report, in the order in which they were listed.
#[derive(Clone, Debug, PartialEq, Eq)]
pub struct EndpointsData {
    pub endpoints: Vec<Endpoint>,
}

/// An endpoint as the contracts see it: its three columns as text.
pub struct EndpointView {
    pub endpoint: Seq<char>,
    pub state: Seq<char>,
    pub channels: Seq<char>,
}

impl View for Endpoint {
    type V = EndpointView;

    open spec fn view(&self) -> EndpointView {
        EndpointView { endpoint: self.endpoint@, state: self.state@, channels: self.channels@ }
    }
}

impl View for EndpointsData {
    type V = Seq<EndpointView>;

    open spec fn view(&self) -> Seq<EndpointView> {
        self.endpoints@.map_values(|e: Endpoint| e@)
    }
}

/// The word that opens every endpoint line.
pub open spec fn label() -> Seq<char> {
    seq!['E', 'n', 'd', 'p', 'o', 'i', 'n', 't', ':']
}

/// `t[i..]` is the channel column: a run of digits, whitespace, `of`,
/// whitespace and `inf`, up to the end of `t`.
pub open spec fn is_channel_column(t: Seq<char>, i: int) -> bool {
    let d = scan(t, i, CharClass::Digit);
    let e = scan(t, d, CharClass::Space);
    let f = scan(t, e + 2, CharClass::Space);
    &&& 0 <= i < d < e
    &&& e + 2 < f
    &&& f + 3 == t.len()
    &&& t[e] == 'o' && t[e + 1] == 'f'
    &&& t[f] == 'i' && t[f + 1] == 'n' && t[f + 2] == 'f'
}

/// The endpoint that a trimmed line `t` lists, if it has the shape
/// `Endpoint:` name state channels, where the columns are separated by
/// whitespace, the name holds no whitespace, the state is one or more
/// words without digits, and the channels read `<digits> of inf`.
pub open spec fn trimmed_line_endpoint(t: Seq<char>) -> Option<EndpointView> {
    let a = scan(t, 9, CharClass::Space);
    let b = scan(t, a, CharClass::NonSpace);
    let c = scan(t, b, CharClass::Space);
    let k = scan(t, c, CharClass::NonDigit);
    let m = scan_back_ws(t, k);
    if t.len() >= 9 && t.take(9) == label() && 9 < a && a < b && b < c && c < m && m < k
        && is_channel_column(t, k) {
        Some(
            EndpointView {
                endpoint: t.subrange(a, b),
                state: t.subrange(c, m),
                channels: t.subrange(k, t.len() as int),
            },
        )
    } else {
        None
    }
}

/// The endpoint that one line of the report lists, if any.
pub open spec fn line_endpoint(line: Seq<char>) -> Option<EndpointView> {
    trimmed_line_endpoint(trim(line))
}

/// The first index at or after `i` that holds a line break (the length of
/// `s` if there is none).
pub open spec fn next_newline(s: Seq<char>, i: int) -> int
    decreases s.len() - i,
{
    if 0 <= i < s.len() && s[i] != '\n' {
        next_newline(s, i + 1)
    } else {
        i
    }
}

/// The lines of `s` that start at or after `start`: the pieces of text
/// between line breaks.
pub open spec fn lines_from(s: Seq<char>, start: int) -> Seq<Seq<char>>
    decreases s.len() - start,
{
    let e = next_newline(s, start);
    if start < 0 || start > s.len() || e < start || e >= s.len() {
        seq![s.subrange(start, s.len() as int)]
    } else {
        seq![s.subrange(start, e)] + lines_from(s, e + 1)
    }
}

/// The endpoints that `lines` list, in order: one for each line that has
/// the shape of an endpoint line, none for any other line.
pub open spec fn endpoints_of(lines: Seq<Seq<char>>) -> Seq<EndpointView>
    decreases lines.len(),
{
    if lines.len() == 0 {
        Seq::empty()
    } else {
        let first = match line_endpoint(lines[0]) {
            Some(e) => seq![e],
            None => Seq::empty(),
        };
        first + endpoints_of(lines.drop_first())
    }
}

/// The lines of `lines` that are neither blank nor endpoint lines, trimmed.
pub open spec fn skipped_of(lines: Seq<Seq<char>>) -> Seq<Seq<char>>
    decreases lines.len(),
{
    if lines.len() == 0 {
        Seq::empty()
    } else {
        let first = if line_endpoint(lines[0]) is None && trim(lines[0]).len() > 0 {
            seq![trim(lines[0])]
        } else {
            Seq::empty()
        };
        first + skipped_of(lines.drop_first())
    }
}

/// The endpoints that a whole report lists.
pub open spec fn parse_report(s: Seq<char>) -> Seq<EndpointView> {
    endpoints_of(lines_from(s, 0))
}

/// The lines of a report that were not understood.
pub open spec fn skipped_report_lines(s: Seq<char>) -> Seq<Seq<char>> {
    skipped_of(lines_from(s, 0))
}

/// Parsing depends on the text alone: equal texts give equal endpoints.
pub proof fn lemma_parse_deterministic(a: Seq<char>, b: Seq<char>)
    requires
        a =~= b,
    ensures
        parse_report(a) == parse_report(b),
        skipped_report_lines(a) == skipped_report_lines(b),
{
}

/// A list of strings as the contracts see it.
pub open spec fn strings_view(v: Seq<String>) -> Seq<Seq<char>> {
    v.map_values(|x: String| x@)
}

/// An optional endpoint as the contracts see it.
pub open spec fn endpoint_option_view(r: Option<Endpoint>) -> Option<EndpointView> {
    match r {
        Some(e) => Some(e@),
        None => None,
    }
}

fn copy_range(t: &Vec<char>, lo: usize, hi: usize) -> (r: Vec<char>)
    requires
        lo <= hi <= t@.len(),
    ensures
        r@ == t@.subrange(lo as int, hi as int),
{
    let mut r: Vec<char> = Vec::new();
    let mut j = lo;
    while j < hi
        invariant
            lo <= j <= hi <= t@.len(),
            r@ == t@.subrange(lo as int, j as int),
        decreases hi - j,
    {
        r.push(t[j]);
        assert(t@.subrange(lo as int, j + 1) =~= t@.subrange(lo as int, j as int).push(t@[j as int]));
        j = j + 1;
    }
    r
}

fn trim_chars(s: &Vec<char>) -> (r: Vec<char>)
    ensures
        r@ == trim(s@),
{
    let lo = scan_exec(s, 0, CharClass::Space);
    let hi = scan_back_ws_exec(s, s.len());
    if lo < hi {
        proof {
            lemma_scan_bounds(s@, 0, CharClass::Space);
            lemma_scan_back_bounds(s@, s@.len() as int);
        }
        copy_range(s, lo, hi)
    } else {
        Vec::new()
    }
}

fn channel_column_at(t: &Vec<char>, i: usize) -> (r: bool)
    requires
        i <= t@.len(),
    ensures
        r == is_channel_column(t@, i as int),
{
    let d = scan_exec(t, i, CharClass::Digit);
    proof {
        lemma_scan_bounds(t@, i as int, CharClass::Digit);
    }
    let e = scan_exec(t, d, CharClass::Space);
    proof {
        lemma_scan_bounds(t@, d as int, CharClass::Space);
    }
    if !(i < d && d < e) || t.len() - e < 2 {
        return false;
    }
    let f = scan_exec(t, e + 2, CharClass::Space);
    proof {
        lemma_scan_bounds(t@, e + 2, CharClass::Space);
    }
    e + 2 < f && t.len() >= 3 && f == t.len() - 3 && t[e] == 'o' && t[e + 1] == 'f' && t[f] == 'i' && t[f + 1]
        == 'n' && t[f + 2] == 'f'
}

fn trimmed_line_endpoint_exec(t: &Vec<char>) -> (r: Option<Endpoint>)
    ensures
        endpoint_option_view(r) == trimmed_line_endpoint(t@),
{
    if t.len() < 9 {
        return None;
    }
    let is_label = t[0] == 'E' && t[1] == 'n' && t[2] == 'd' && t[3] == 'p' && t[4] == 'o'
        && t[5] == 'i' && t[6] == 'n' && t[7] == 't' && t[8] == ':';
    if !is_label {
        proof {
            if t@.take(9) == label() {
                assert(t@.take(9)[0] == 'E');
                assert(t@.take(9)[8] == ':');
            }
        }
        return None;
    }
    assert(t@.take(9) =~= label());
    let a = scan_exec(t, 9, CharClass::Space);
    proof {
        lemma_scan_bounds(t@, 9, CharClass::Space);
    }
    let b = scan_exec(t, a, CharClass::NonSpace);
    proof {
        lemma_scan_bounds(t@, a as int, CharClass::NonSpace);
    }
    let c = scan_exec(t, b, CharClass::Space);
    proof {
        lemma_scan_bounds(t@, b as int, CharClass::Space);
    }
    let k = scan_exec(t, c, CharClass::NonDigit);
    proof {
        lemma_scan_bounds(t@, c as int, CharClass::NonDigit);
    }
    let m = scan_back_ws_exec(t, k);
    proof {
        lemma_scan_back_bounds(t@, k as int);
    }
    if 9 < a && a < b && b < c && c < m && m < k && channel_column_at(t, k) {
        Some(
            Endpoint {
                endpoint: string_of(t, a, b),
                state: string_of(t, c, m),
                channels: string_of(t, k, t.len()),
            },
        )
    } else {
        None
    }
}

/// The endpoint that `line` lists, if the line has the shape of an
/// endpoint line once its surrounding whitespace is removed.
pub fn parse_line(line: &str) -> (r: Option<Endpoint>)
    ensures
        endpoint_option_view(r) == line_endpoint(line@),
{
    let cs = chars_of(line);
    let t = trim_chars(&cs);
    trimmed_line_endpoint_exec(&t)
}

fn next_newline_exec(t: &Vec<char>, i: usize) -> (r: usize)
    requires
        i <= t@.len(),
    ensures
        r == next_newline(t@, i as int),
        i <= r <= t@.len(),
{
    let mut j = i;
    while j < t.len() && t[j] != '\n'
        invariant
            i <= j <= t@.len(),
            next_newline(t@, j as int) == next_newline(t@, i as int),
        decreases t@.len() - j,
    {
        j = j + 1;
    }
    j
}

fn scan_report(output: &str) -> (r: (EndpointsData, Vec<String>))
    ensures
        r.0@ == parse_report(output@),
        strings_view(r.1@) == skipped_report_lines(output@),
{
    let cs = chars_of(output);
    let mut found: Vec<Endpoint> = Vec::new();
    let mut skipped: Vec<String> = Vec::new();
    let mut start: usize = 0;
    loop
        invariant_except_break
            found@.map_values(|e: Endpoint| e@) + endpoints_of(lines_from(cs@, start as int))
                == parse_report(output@),
            strings_view(skipped@) + skipped_of(lines_from(cs@, start as int))
                == skipped_report_lines(output@),
        invariant
            cs@ == output@,
            start <= cs@.len(),
        ensures
            found@.map_values(|e: Endpoint| e@) == parse_report(output@),
            strings_view(skipped@) == skipped_report_lines(output@),
        decreases cs@.len() - start,
    {
        let e = next_newline_exec(&cs, start);
        let line = copy_range(&cs, start, e);
        let t = trim_chars(&line);
        let rec = trimmed_line_endpoint_exec(&t);
        let ghost lines = lines_from(cs@, start as int);
        let ghost rest = if e < cs@.len() {
            lines_from(cs@, e + 1)
        } else {
            Seq::<Seq<char>>::empty()
        };
        assert(lines =~= seq![line@] + rest);
        assert(lines.drop_first() =~= rest);
        let ghost old_found = found@;
        let ghost old_skipped = skipped@;
        match rec {
            Some(x) => {
                found.push(x);
                assert(found@.map_values(|e: Endpoint| e@) =~= old_found.map_values(
                    |e: Endpoint| e@,
                ).push(x@));
            },
            None => {
                if t.len() > 0 {
                    skipped.push(string_of(&t, 0, t.len()));
                    assert(t@.subrange(0, t@.len() as int) =~= t@);
                    assert(strings_view(skipped@) =~= strings_view(old_skipped).push(t@));
                }
            },
        }
        assert(found@.map_values(|e: Endpoint| e@) + endpoints_of(rest) =~= parse_report(
            output@,
        ));
        assert(strings_view(skipped@) + skipped_of(rest) =~= skipped_report_lines(output@));
        if e >= cs.len() {
            assert(endpoints_of(rest) =~= Seq::<EndpointView>::empty());
            assert(skipped_of(rest) =~= Seq::<Seq<char>>::empty());
            assert(found@.map_values(|e: Endpoint| e@) =~= parse_report(output@));
            assert(strings_view(skipped@) =~= skipped_report_lines(output@));
            break ;
        }
        start = e + 1;
    }
    (EndpointsData { endpoints: found }, skipped)
}

/// The endpoints that a status report lists, in the order of its lines.
/// Lines of any other shape are passed over; text with no endpoint line
/// gives an empty list.
pub fn get_pjsip_endpoints(output: &str) -> (r: EndpointsData)
    ensures
        r@ == parse_report(output@),
{
    scan_report(output).0
}

/// The lines of a status report that are neither blank nor endpoint lines,
/// trimmed, in order: what parsing passed over.
pub fn unparsed_lines(output: &str) -> (r: Vec<String>)
    ensures
        strings_view(r@) == skipped_report_lines(output@),
{
    scan_report(output).1
}

} // verus!
