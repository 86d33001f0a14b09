//! Request header model: an ordered list of (name, value) pairs with
//! replace-on-insert semantics, header-line parsing with the exact character
//! rules of the HTTP header grammar, and the merge pipeline for custom
//! header lines.

use vstd::prelude::*;
use vstd::string::StrSliceExecFns;
use vstd::string::StringExecFns;
use crate::text::find_char;
use crate::text::find_char_index;
use crate::text::lemma_find_char;
use crate::text::push_char;
use crate::text::split_lines;
use crate::text::split_text_lines;
use crate::text::trim_text;
use crate::text::trimmed;
use crate::text::unescape_text;
use crate::text::unescaped;

verus! {

/// One request header.
#[derive(Debug)]
pub struct Header {
    pub name: String,
    pub value: String,
}

impl View for Header {
    type V = (Seq<char>, Seq<char>);

    open spec fn view(&self) -> (Seq<char>, Seq<char>) {
        (self.name@, self.value@)
    }
}

/// An ordered header collection.  Inserting under an existing name replaces
/// that entry in place; a new name is appended.
#[derive(Debug)]
pub struct HeaderList {
    pub items: Vec<Header>,
}

impl View for HeaderList {
    type V = Seq<(Seq<char>, Seq<char>)>;

    open spec fn view(&self) -> Seq<(Seq<char>, Seq<char>)> {
        self.items@.map_values(|h: Header| h@)
    }
}

/// Insertion into the header model: the first entry with the same name is
/// replaced in place; otherwise the pair is appended.
pub open spec fn spec_insert_header(
    m: Seq<(Seq<char>, Seq<char>)>,
    n: Seq<char>,
    v: Seq<char>,
) -> Seq<(Seq<char>, Seq<char>)>
    decreases m.len(),
{
    if m.len() == 0 {
        seq![(n, v)]
    } else if m[0].0 == n {
        seq![(n, v)] + m.skip(1)
    } else {
        seq![m[0]] + spec_insert_header(m.skip(1), n, v)
    }
}

/// Lookup in the header model: the value of the first entry with that name.
pub open spec fn spec_lookup_header(
    m: Seq<(Seq<char>, Seq<char>)>,
    n: Seq<char>,
) -> Option<Seq<char>>
    decreases m.len(),
{
    if m.len() == 0 {
        None
    } else if m[0].0 == n {
        Some(m[0].1)
    } else {
        spec_lookup_header(m.skip(1), n)
    }
}

/// All header names in the model are pairwise distinct.
pub open spec fn headers_wf(m: Seq<(Seq<char>, Seq<char>)>) -> bool {
    forall|i: int, j: int| 0 <= i < j < m.len() ==> m[i].0 != m[j].0
}

proof fn lemma_spec_insert_at(m: Seq<(Seq<char>, Seq<char>)>, n: Seq<char>, v: Seq<char>, i: int)
    requires
        0 <= i < m.len(),
        m[i].0 == n,
        forall|k: int| 0 <= k < i ==> m[k].0 != n,
    ensures
        spec_insert_header(m, n, v) == m.update(i, (n, v)),
    decreases i,
{
    if i == 0 {
        assert(seq![(n, v)] + m.skip(1) =~= m.update(0, (n, v)));
    } else {
        lemma_spec_insert_at(m.skip(1), n, v, i - 1);
        assert(seq![m[0]] + m.skip(1).update(i - 1, (n, v)) =~= m.update(i, (n, v)));
    }
}

proof fn lemma_spec_insert_append(m: Seq<(Seq<char>, Seq<char>)>, n: Seq<char>, v: Seq<char>)
    requires
        forall|k: int| 0 <= k < m.len() ==> m[k].0 != n,
    ensures
        spec_insert_header(m, n, v) == m.push((n, v)),
    decreases m.len(),
{
    if m.len() == 0 {
        assert(seq![(n, v)] =~= m.push((n, v)));
    } else {
        lemma_spec_insert_append(m.skip(1), n, v);
        assert(seq![m[0]] + m.skip(1).push((n, v)) =~= m.push((n, v)));
    }
}

proof fn lemma_spec_lookup_at(m: Seq<(Seq<char>, Seq<char>)>, n: Seq<char>, i: int)
    requires
        0 <= i < m.len(),
        m[i].0 == n,
        forall|k: int| 0 <= k < i ==> m[k].0 != n,
    ensures
        spec_lookup_header(m, n) == Some(m[i].1),
    decreases i,
{
    if i > 0 {
        lemma_spec_lookup_at(m.skip(1), n, i - 1);
    }
}

proof fn lemma_spec_lookup_none(m: Seq<(Seq<char>, Seq<char>)>, n: Seq<char>)
    requires
        forall|k: int| 0 <= k < m.len() ==> m[k].0 != n,
    ensures
        spec_lookup_header(m, n) is None,
    decreases m.len(),
{
    if m.len() > 0 {
        lemma_spec_lookup_none(m.skip(1), n);
    }
}

/// Law: after an insert, looking the same name up yields exactly the value
/// just inserted, whatever the list held before.
pub proof fn lemma_insert_lookup_same(m: Seq<(Seq<char>, Seq<char>)>, n: Seq<char>, v: Seq<char>)
    ensures
        spec_lookup_header(spec_insert_header(m, n, v), n) == Some(v),
    decreases m.len(),
{
    if m.len() > 0 && m[0].0 != n {
        lemma_insert_lookup_same(m.skip(1), n, v);
        assert((seq![m[0]] + spec_insert_header(m.skip(1), n, v)).skip(1) =~= spec_insert_header(
            m.skip(1),
            n,
            v,
        ));
    }
}

/// Law: an insert leaves the value of every other name unchanged.
pub proof fn lemma_insert_lookup_other(
    m: Seq<(Seq<char>, Seq<char>)>,
    n: Seq<char>,
    v: Seq<char>,
    other: Seq<char>,
)
    requires
        other != n,
    ensures
        spec_lookup_header(spec_insert_header(m, n, v), other) == spec_lookup_header(m, other),
    decreases m.len(),
{
    if m.len() == 0 {
        let r = spec_insert_header(m, n, v);
        assert(r == seq![(n, v)]);
        assert(r.len() == 1 && r[0] == (n, v));
        assert(r.skip(1) =~= Seq::<(Seq<char>, Seq<char>)>::empty());
        assert(spec_lookup_header(r, other) == spec_lookup_header(r.skip(1), other));
        assert(spec_lookup_header(r, other) is None);
    } else if m[0].0 == n {
        let r = spec_insert_header(m, n, v);
        assert(r == seq![(n, v)] + m.skip(1));
        assert(r.len() == m.len() && r[0] == (n, v));
        assert(r.skip(1) =~= m.skip(1));
        assert(spec_lookup_header(r, other) == spec_lookup_header(m.skip(1), other));
        assert(spec_lookup_header(m, other) == spec_lookup_header(m.skip(1), other));
    } else {
        lemma_insert_lookup_other(m.skip(1), n, v, other);
        let r = spec_insert_header(m, n, v);
        assert(r == seq![m[0]] + spec_insert_header(m.skip(1), n, v));
        assert(r.skip(1) =~= spec_insert_header(m.skip(1), n, v));
        assert(r[0] == m[0]);
        if m[0].0 == other {
            assert(spec_lookup_header(r, other) == Some(r[0].1));
            assert(spec_lookup_header(m, other) == Some(m[0].1));
        } else {
            assert(spec_lookup_header(r, other) == spec_lookup_header(r.skip(1), other));
        }
    }
}

/// Law: inserting preserves the uniqueness of header names.
pub proof fn lemma_insert_preserves_wf(m: Seq<(Seq<char>, Seq<char>)>, n: Seq<char>, v: Seq<char>)
    requires
        headers_wf(m),
    ensures
        headers_wf(spec_insert_header(m, n, v)),
{
    if exists|i: int| 0 <= i < m.len() && m[i].0 == n {
        let i = choose|i: int| 0 <= i < m.len() && m[i].0 == n;
        assert(forall|k: int| 0 <= k < i ==> m[k].0 != n);
        lemma_spec_insert_at(m, n, v, i);
    } else {
        assert(forall|k: int| 0 <= k < m.len() ==> m[k].0 != n);
        lemma_spec_insert_append(m, n, v);
    }
}

impl HeaderList {
    /// An empty header list.
    pub fn new() -> (h: HeaderList)
        ensures
            h@ == Seq::<(Seq<char>, Seq<char>)>::empty(),
    {
        let h = HeaderList { items: Vec::new() };
        proof {
            assert(h@ =~= Seq::<(Seq<char>, Seq<char>)>::empty());
        }
        h
    }

    /// Insert a header: replaces the first entry with the same name, else
    /// appends.
    pub fn insert(&mut self, name: String, value: String)
        ensures
            final(self)@ == spec_insert_header(old(self)@, name@, value@),
    {
        let n = self.items.len();
        let mut i: usize = 0;
        while i < n
            invariant
                0 <= i <= n,
                n == self.items@.len(),
                self.items@ == old(self).items@,
                forall|k: int| 0 <= k < i ==> old(self)@[k].0 != name@,
            decreases n - i,
        {
            proof {
                assert(old(self)@[i as int] == self.items@[i as int]@);
            }
            if self.items[i].name.eq(&name) {
                self.items.remove(i);
                self.items.insert(i, Header { name, value });
                proof {
                    lemma_spec_insert_at(old(self)@, name@, value@, i as int);
                    assert(self@ =~= old(self)@.update(i as int, (name@, value@)));
                }
                return ;
            }
            i = i + 1;
        }
        proof {
            lemma_spec_insert_append(old(self)@, name@, value@);
        }
        self.items.push(Header { name, value });
        proof {
            assert(self@ =~= old(self)@.push((name@, value@)));
        }
    }

    /// The value stored under `name`, if any.
    pub fn lookup(&self, name: &String) -> (r: Option<String>)
        ensures
            r matches Some(v) ==> spec_lookup_header(self@, name@) == Some(v@),
            r is None ==> spec_lookup_header(self@, name@) is None,
    {
        let n = self.items.len();
        let mut i: usize = 0;
        while i < n
            invariant
                0 <= i <= n,
                n == self.items@.len(),
                forall|k: int| 0 <= k < i ==> self@[k].0 != name@,
            decreases n - i,
        {
            proof {
                assert(self@[i as int] == self.items@[i as int]@);
            }
            if self.items[i].name.eq(name) {
                let v = self.items[i].value.clone();
                proof {
                    lemma_spec_lookup_at(self@, name@, i as int);
                }
                return Some(v);
            }
            i = i + 1;
        }
        proof {
            lemma_spec_lookup_none(self@, name@);
        }
        None
    }

    /// Number of stored headers.
    pub fn len(&self) -> (r: usize)
        ensures
            r == self@.len(),
    {
        self.items.len()
    }

    /// An independent copy with the same content.
    pub fn duplicate(&self) -> (r: HeaderList)
        ensures
            r@ == self@,
    {
        let n = self.items.len();
        let mut items: Vec<Header> = Vec::new();
        let mut i: usize = 0;
        while i < n
            invariant
                0 <= i <= n,
                n == self.items@.len(),
                items@.len() == i,
                forall|k: int| 0 <= k < i ==> items@[k]@ == self.items@[k]@,
            decreases n - i,
        {
            items.push(
                Header { name: self.items[i].name.clone(), value: self.items[i].value.clone() },
            );
            i = i + 1;
        }
        let r = HeaderList { items };
        proof {
            assert(r@ =~= self@);
        }
        r
    }
}

/// A character allowed in an HTTP header name: the token characters
/// `! # $ % & ' * + - . ^ _ ` | ~`, digits and letters.  Uppercase letters
/// are allowed on input and normalized to lowercase.
pub open spec fn is_header_name_char(c: char) -> bool {
    let u = c as u32;
    ||| (48 <= u && u <= 57)
    ||| (97 <= u && u <= 122)
    ||| (65 <= u && u <= 90)
    ||| c == '!'
    ||| c == '#'
    ||| c == '$'
    ||| c == '%'
    ||| c == '&'
    ||| c == '\''
    ||| c == '*'
    ||| c == '+'
    ||| c == '-'
    ||| c == '.'
    ||| c == '^'
    ||| c == '_'
    ||| c == '`'
    ||| c == '|'
    ||| c == '~'
}

fn header_name_char(c: char) -> (r: bool)
    ensures
        r == is_header_name_char(c),
{
    let u = c as u32;
    (48 <= u && u <= 57) || (97 <= u && u <= 122) || (65 <= u && u <= 90) || c == '!' || c == '#'
        || c == '$' || c == '%' || c == '&' || c == '\'' || c == '*' || c == '+' || c == '-' || c
        == '.' || c == '^' || c == '_' || c == '`' || c == '|' || c == '~'
}

/// A character allowed in an HTTP header value: horizontal tab or anything
/// at or above the space character except delete.
pub open spec fn is_header_value_char(c: char) -> bool {
    let u = c as u32;
    u == 9 || (32 <= u && u != 127)
}

fn header_value_char(c: char) -> (r: bool)
    ensures
        r == is_header_value_char(c),
{
    let u = c as u32;
    u == 9 || (32 <= u && u != 127)
}

/// ASCII lowercasing of one character, as header-name normalization does.
pub open spec fn lower_char(c: char) -> char {
    match c {
        'A' => 'a',
        'B' => 'b',
        'C' => 'c',
        'D' => 'd',
        'E' => 'e',
        'F' => 'f',
        'G' => 'g',
        'H' => 'h',
        'I' => 'i',
        'J' => 'j',
        'K' => 'k',
        'L' => 'l',
        'M' => 'm',
        'N' => 'n',
        'O' => 'o',
        'P' => 'p',
        'Q' => 'q',
        'R' => 'r',
        'S' => 's',
        'T' => 't',
        'U' => 'u',
        'V' => 'v',
        'W' => 'w',
        'X' => 'x',
        'Y' => 'y',
        'Z' => 'z',
        _ => c,
    }
}

#[verifier::when_used_as_spec(lower_char)]
fn lower_char_exec(c: char) -> (r: char)
    ensures
        r == lower_char(c),
{
    match c {
        'A' => 'a',
        'B' => 'b',
        'C' => 'c',
        'D' => 'd',
        'E' => 'e',
        'F' => 'f',
        'G' => 'g',
        'H' => 'h',
        'I' => 'i',
        'J' => 'j',
        'K' => 'k',
        'L' => 'l',
        'M' => 'm',
        'N' => 'n',
        'O' => 'o',
        'P' => 'p',
        'Q' => 'q',
        'R' => 'r',
        'S' => 's',
        'T' => 't',
        'U' => 'u',
        'V' => 'v',
        'W' => 'w',
        'X' => 'x',
        'Y' => 'y',
        'Z' => 'z',
        _ => c,
    }
}

/// ASCII lowercasing of a header name.
pub open spec fn lower_name(s: Seq<char>) -> Seq<char> {
    s.map_values(|c: char| lower_char(c))
}

/// A well-formed header name: nonempty, at most 65535 characters, token
/// characters only.
pub open spec fn valid_header_name(s: Seq<char>) -> bool {
    1 <= s.len() <= 65535 && forall|i: int| 0 <= i < s.len() ==> is_header_name_char(s[i])
}

/// A well-formed header value: value characters only (empty allowed).
pub open spec fn valid_header_value(s: Seq<char>) -> bool {
    forall|i: int| 0 <= i < s.len() ==> is_header_value_char(s[i])
}

/// Lowercase copy of `s`.
fn lower_text(s: &str) -> (r: String)
    ensures
        r@ == lower_name(s@),
{
    let n = s.unicode_len();
    let mut out = String::new();
    let mut i: usize = 0;
    while i < n
        invariant
            0 <= i <= n,
            n == s@.len(),
            out@ == s@.take(i as int).map_values(|c: char| lower_char(c)),
        decreases n - i,
    {
        let c = s.get_char(i);
        push_char(&mut out, lower_char_exec(c));
        proof {
            assert(s@.take(i + 1).map_values(|c: char| lower_char(c)) =~= s@.take(
                i as int,
            ).map_values(|c: char| lower_char(c)).push(lower_char(s@[i as int])));
        }
        i = i + 1;
    }
    proof {
        assert(s@.take(n as int) =~= s@);
    }
    out
}

pub fn check_header_name(s: &str) -> (r: bool)
    ensures
        r == valid_header_name(s@),
{
    let n = s.unicode_len();
    if n == 0 || n > 65535 {
        return false;
    }
    let mut i: usize = 0;
    while i < n
        invariant
            0 <= i <= n,
            n == s@.len(),
            forall|k: int| 0 <= k < i ==> is_header_name_char(s@[k]),
        decreases n - i,
    {
        if !header_name_char(s.get_char(i)) {
            proof {
                assert(!is_header_name_char(s@[i as int]));
            }
            return false;
        }
        i = i + 1;
    }
    true
}

pub fn check_header_value(s: &str) -> (r: bool)
    ensures
        r == valid_header_value(s@),
{
    let n = s.unicode_len();
    let mut i: usize = 0;
    while i < n
        invariant
            0 <= i <= n,
            n == s@.len(),
            forall|k: int| 0 <= k < i ==> is_header_value_char(s@[k]),
        decreases n - i,
    {
        if !header_value_char(s.get_char(i)) {
            proof {
                assert(!is_header_value_char(s@[i as int]));
            }
            return false;
        }
        i = i + 1;
    }
    true
}

/// Whether a custom header line holds a colon at all.
pub open spec fn line_has_colon(l: Seq<char>) -> bool {
    find_char(l, ':') < l.len()
}

/// The trimmed text before the first colon.
pub open spec fn line_name_part(l: Seq<char>) -> Seq<char> {
    trimmed(l.take(find_char(l, ':')))
}

/// The trimmed text after the first colon.
pub open spec fn line_value_part(l: Seq<char>) -> Seq<char> {
    trimmed(l.skip(find_char(l, ':') + 1))
}

/// Whether a custom header line yields a header: it has a colon, a
/// well-formed name before it and a well-formed value after it.
pub open spec fn line_parses(l: Seq<char>) -> bool {
    line_has_colon(l) && valid_header_name(line_name_part(l)) && valid_header_value(
        line_value_part(l),
    )
}

/// Outcome of parsing one custom header line.
#[derive(Debug)]
pub enum HeaderLineParse {
    /// A header, its name lowercased, name and value trimmed.
    Parsed(Header),
    /// No colon in the line; such a line is skipped silently.
    NoColon,
    /// The part before the colon is not a header name.
    BadName,
    /// The part after the colon is not a header value.
    BadValue,
}

/// Parse one custom header line of the form `Name: value`.  The name is
/// everything before the first colon, the value everything after it; both
/// are trimmed, and the name is lowercased.
pub fn parse_header_line(line: &String) -> (r: HeaderLineParse)
    ensures
        r is Parsed <==> line_parses(line@),
        r is NoColon <==> !line_has_colon(line@),
        r is BadName <==> line_has_colon(line@) && !valid_header_name(line_name_part(line@)),
        r is BadValue <==> line_has_colon(line@) && valid_header_name(line_name_part(line@))
            && !valid_header_value(line_value_part(line@)),
        r matches HeaderLineParse::Parsed(h) ==> h.name@ == lower_name(line_name_part(line@))
            && h.value@ == line_value_part(line@),
{
    let s = line.as_str();
    let n = s.unicode_len();
    let i = find_char_index(s, ':');
    if i == n {
        return HeaderLineParse::NoColon;
    }
    proof {
        lemma_find_char(s@, ':');
    }
    let name_raw = s.substring_char(0, i);
    proof {
        assert(name_raw@ =~= s@.take(i as int));
    }
    let name_t = trim_text(name_raw);
    if !check_header_name(name_t.as_str()) {
        return HeaderLineParse::BadName;
    }
    let value_raw = s.substring_char(i + 1, n);
    proof {
        assert(value_raw@ =~= s@.skip(i + 1));
    }
    let value_t = trim_text(value_raw);
    if !check_header_value(value_t.as_str()) {
        return HeaderLineParse::BadValue;
    }
    let name_l = lower_text(name_t.as_str());
    HeaderLineParse::Parsed(Header { name: name_l, value: value_t })
}

/// The built-in default headers, under their normalized lowercase names.
pub open spec fn spec_default_headers() -> Seq<(Seq<char>, Seq<char>)> {
    seq![
        (
            "user-agent"@,
            "Mozilla/5.0 (X11; Ubuntu; Linux x86_64; rv:122.0) Gecko/20100101 Firefox/122.0"@,
        ),
        (
            "accept"@,
            "text/html,application/xhtml+xml,application/xml;q=0.9,image/avif,image/webp,*/*;q=0.8"@,
        ),
    ]
}

/// The header list every request starts from: a browser-like `User-Agent`
/// and `Accept` pair.
pub fn default_headers() -> (h: HeaderList)
    ensures
        h@ == spec_default_headers(),
        headers_wf(h@),
{
    let mut items: Vec<Header> = Vec::new();
    items.push(
        Header {
            name: String::from_str("user-agent"),
            value: String::from_str(
                "Mozilla/5.0 (X11; Ubuntu; Linux x86_64; rv:122.0) Gecko/20100101 Firefox/122.0",
            ),
        },
    );
    items.push(
        Header {
            name: String::from_str("accept"),
            value: String::from_str(
                "text/html,application/xhtml+xml,application/xml;q=0.9,image/avif,image/webp,*/*;q=0.8",
            ),
        },
    );
    let h = HeaderList { items };
    proof {
        reveal_strlit("user-agent");
        reveal_strlit("accept");
        assert(("user-agent"@).len() == 10);
        assert(("accept"@).len() == 6);
        assert("user-agent"@ != "accept"@);
        assert(h@ =~= spec_default_headers());
    }
    h
}

/// One merge step: a line that parses is inserted under its normalized
/// name; any other line changes nothing.
pub open spec fn spec_line_step(
    m: Seq<(Seq<char>, Seq<char>)>,
    l: Seq<char>,
) -> Seq<(Seq<char>, Seq<char>)> {
    if line_parses(l) {
        spec_insert_header(m, lower_name(line_name_part(l)), line_value_part(l))
    } else {
        m
    }
}

/// Folding the merge step over a sequence of lines, first to last.
pub open spec fn spec_apply_lines(
    m: Seq<(Seq<char>, Seq<char>)>,
    ls: Seq<Seq<char>>,
) -> Seq<(Seq<char>, Seq<char>)>
    decreases ls.len(),
{
    if ls.len() == 0 {
        m
    } else {
        spec_apply_lines(spec_line_step(m, ls[0]), ls.skip(1))
    }
}

/// The whole custom-header merge: unescape the raw block, split it into
/// lines, and apply each line in order.
pub open spec fn spec_merge_custom(
    m: Seq<(Seq<char>, Seq<char>)>,
    raw: Seq<char>,
) -> Seq<(Seq<char>, Seq<char>)> {
    spec_apply_lines(m, split_lines(unescaped(raw)))
}

/// Law: the merge of the lines keeps header names unique.
pub proof fn lemma_apply_lines_preserves_wf(m: Seq<(Seq<char>, Seq<char>)>, ls: Seq<Seq<char>>)
    requires
        headers_wf(m),
    ensures
        headers_wf(spec_apply_lines(m, ls)),
    decreases ls.len(),
{
    if ls.len() > 0 {
        if line_parses(ls[0]) {
            lemma_insert_preserves_wf(m, lower_name(line_name_part(ls[0])), line_value_part(ls[0]));
        }
        lemma_apply_lines_preserves_wf(spec_line_step(m, ls[0]), ls.skip(1));
    }
}

/// The number of lines the merge skips for a bad name or value: lines that
/// hold a colon yet do not parse.  A line without a colon is passed over
/// silently and not counted.
pub open spec fn spec_skipped_lines(ls: Seq<Seq<char>>) -> nat
    decreases ls.len(),
{
    if ls.len() == 0 {
        0
    } else if line_has_colon(ls[0]) && !line_parses(ls[0]) {
        1 + spec_skipped_lines(ls.skip(1))
    } else {
        spec_skipped_lines(ls.skip(1))
    }
}

/// Merge a raw custom-header block into `h`: literal `\n` pairs become line
/// breaks, each line is parsed, parsed lines are inserted in order, and
/// lines that do not parse are skipped.  The count returned is the number
/// of lines skipped for a bad name or value.
pub fn apply_custom_headers(h: &mut HeaderList, raw: &str) -> (skipped: usize)
    ensures
        final(h)@ == spec_merge_custom(old(h)@, raw@),
        skipped as nat == spec_skipped_lines(split_lines(unescaped(raw@))),
{
    let unescaped_text = unescape_text(raw);
    let lines = split_text_lines(unescaped_text.as_str());
    let ghost ls = split_lines(unescaped(raw@));
    proof {
        assert(ls.skip(0) =~= ls);
    }
    let m = lines.len();
    let mut skipped: usize = 0;
    let mut k: usize = 0;
    while k < m
        invariant
            0 <= k <= m,
            m == lines@.len(),
            skipped <= k,
            lines@.map_values(|t: String| t@) == ls,
            spec_apply_lines(old(h)@, ls) == spec_apply_lines(h@, ls.skip(k as int)),
            spec_skipped_lines(ls) == skipped as nat + spec_skipped_lines(ls.skip(k as int)),
        decreases m - k,
    {
        let ghost h0 = h@;
        proof {
            assert(ls.skip(k as int)[0] == ls[k as int]);
            assert(ls[k as int] == lines@[k as int]@);
            assert(spec_apply_lines(h0, ls.skip(k as int)) == spec_apply_lines(
                spec_line_step(h0, ls[k as int]),
                ls.skip(k as int).skip(1),
            ));
            assert(ls.skip(k as int).skip(1) =~= ls.skip(k + 1));
            if line_has_colon(ls[k as int]) && !line_parses(ls[k as int]) {
                assert(spec_skipped_lines(ls.skip(k as int)) == 1 + spec_skipped_lines(
                    ls.skip(k + 1),
                ));
            } else {
                assert(spec_skipped_lines(ls.skip(k as int)) == spec_skipped_lines(ls.skip(k + 1)));
            }
        }
        match parse_header_line(&lines[k]) {
            HeaderLineParse::Parsed(hd) => {
                h.insert(hd.name, hd.value);
                proof {
                    assert(h@ == spec_line_step(h0, ls[k as int]));
                }
            },
            HeaderLineParse::NoColon => {
                proof {
                    assert(h@ == spec_line_step(h0, ls[k as int]));
                }
            },
            HeaderLineParse::BadName => {
                skipped = skipped + 1;
                proof {
                    assert(h@ == spec_line_step(h0, ls[k as int]));
                }
            },
            HeaderLineParse::BadValue => {
                skipped = skipped + 1;
                proof {
                    assert(h@ == spec_line_step(h0, ls[k as int]));
                }
            },
        }
        k = k + 1;
    }
    proof {
        assert(ls.skip(m as int) =~= Seq::<Seq<char>>::empty());
        assert(spec_apply_lines(h@, ls.skip(m as int)) == h@);
        assert(spec_skipped_lines(ls.skip(m as int)) == 0);
    }
    skipped
}

} // verus!
