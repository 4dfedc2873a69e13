//! Character-level helpers shared by the modules: prefixes, suffixes,
//! infixes, decimal rendering and JSON string quoting.

use vstd::prelude::*;

verus! {

broadcast use vstd::string::group_string_axioms;

/// `needle` occurs somewhere inside `hay`.
pub open spec fn is_infix(needle: Seq<char>, hay: Seq<char>) -> bool {
    exists|i: int|
        0 <= i && i + needle.len() <= hay.len() && #[trigger] hay.subrange(i, i + needle.len())
            == needle
}

/// The decimal digit for `d`, which must be below ten.
pub open spec fn digit_char(d: nat) -> char {
    (48 + d) as char
}

/// How `n` is written in decimal, without sign or leading zeros.
pub open spec fn decimal(n: nat) -> Seq<char>
    decreases n,
{
    if n < 10 {
        seq![digit_char(n)]
    } else {
        decimal(n / 10).push(digit_char(n % 10))
    }
}

/// The characters of `s`, in order.
pub fn chars_of(s: &str) -> (r: Vec<char>)
    ensures
        r@ == s@,
{
    let mut out: Vec<char> = Vec::new();
    for c in it: s.chars()
        invariant
            it.seq() == s@,
            out@ == it.seq().take(it.index() as int),
    {
        out.push(c);
    }
    out
}

/// Collects characters into a `String` (std's `FromIterator<&char>` for
/// `String`): the string holds exactly those characters, in order.
#[verifier::external_body]
pub fn string_of(v: &[char]) -> (r: String)
    ensures
        r@ == v@,
{
    v.iter().collect()
}

/// Whether two texts are the same characters.
pub fn same_text(a: &str, b: &str) -> (r: bool)
    ensures
        r == (a@ == b@),
{
    let x = chars_of(a);
    let y = chars_of(b);
    if x.len() != y.len() {
        return false;
    }
    let mut i: usize = 0;
    while i < x.len()
        invariant
            x@ == a@,
            y@ == b@,
            x@.len() == y@.len(),
            i <= x@.len(),
            forall|j: int| 0 <= j < i ==> x@[j] == y@[j],
        decreases x.len() - i,
    {
        if x[i] != y[i] {
            return false;
        }
        i = i + 1;
    }
    assert(x@ =~= y@);
    true
}

/// The characters of `v` from `from` up to, not including, `to`.
pub fn sub_chars(v: &[char], from: usize, to: usize) -> (r: Vec<char>)
    requires
        from <= to <= v@.len(),
    ensures
        r@ == v@.subrange(from as int, to as int),
{
    let mut out: Vec<char> = Vec::new();
    let mut i: usize = from;
    while i < to
        invariant
            from <= i <= to <= v@.len(),
            out@ == v@.subrange(from as int, i as int),
        decreases to - i,
    {
        out.push(v[i]);
        assert(out@ =~= v@.subrange(from as int, i + 1));
        i = i + 1;
    }
    out
}

/// `p` is a prefix of `s`.
pub fn starts_with(s: &[char], p: &[char]) -> (r: bool)
    ensures
        r == p@.is_prefix_of(s@),
{
    if p.len() > s.len() {
        return false;
    }
    let mut i: usize = 0;
    while i < p.len()
        invariant
            p.len() <= s.len(),
            i <= p.len(),
            forall|j: int| 0 <= j < i ==> p@[j] == s@[j],
        decreases p.len() - i,
    {
        if p[i] != s[i] {
            return false;
        }
        i = i + 1;
    }
    true
}

/// `p` is a suffix of `s`.
pub fn ends_with(s: &[char], p: &[char]) -> (r: bool)
    ensures
        r == p@.is_suffix_of(s@),
{
    if p.len() > s.len() {
        return false;
    }
    let off = s.len() - p.len();
    let mut i: usize = 0;
    while i < p.len()
        invariant
            p.len() <= s.len(),
            off == s.len() - p.len(),
            i <= p.len(),
            forall|j: int| 0 <= j < i ==> p@[j] == s@[off + j],
        decreases p.len() - i,
    {
        if p[i] != s[off + i] {
            return false;
        }
        i = i + 1;
    }
    true
}

/// `needle` occurs at position `at` of `hay`.
fn occurs_at(hay: &[char], needle: &[char], at: usize) -> (r: bool)
    requires
        at + needle@.len() <= hay@.len(),
    ensures
        r == (hay@.subrange(at as int, at + needle@.len()) == needle@),
{
    let mut i: usize = 0;
    while i < needle.len()
        invariant
            at + needle@.len() <= hay@.len(),
            at + needle.len() <= hay.len(),
            i <= needle.len(),
            forall|j: int| 0 <= j < i ==> needle@[j] == hay@[at + j],
        decreases needle.len() - i,
    {
        if needle[i] != hay[at + i] {
            assert(hay@.subrange(at as int, at + needle@.len())[i as int] != needle@[i as int]);
            return false;
        }
        i = i + 1;
    }
    assert(hay@.subrange(at as int, at + needle@.len()) =~= needle@);
    true
}

/// `needle` occurs somewhere inside `hay`.
pub fn contains(hay: &[char], needle: &[char]) -> (r: bool)
    ensures
        r == is_infix(needle@, hay@),
{
    if needle.len() > hay.len() {
        return false;
    }
    let last = hay.len() - needle.len();
    let mut at: usize = 0;
    loop
        invariant
            last == hay.len() - needle.len(),
            needle.len() <= hay.len(),
            at <= last,
            forall|k: int|
                0 <= k < at ==> #[trigger] hay@.subrange(k, k + needle@.len()) != needle@,
        decreases last - at,
    {
        if occurs_at(hay, needle, at) {
            return true;
        }
        if at == last {
            return false;
        }
        at = at + 1;
    }
}

/// The decimal digits of `n`, most significant first.
fn decimal_chars(n: u64) -> (r: Vec<char>)
    ensures
        r@ == decimal(n as nat),
    decreases n,
{
    let d: u8 = (n % 10) as u8;
    let c: char = (48u8 + d) as char;
    assert(c == digit_char((n % 10) as nat));
    if n < 10 {
        let mut v: Vec<char> = Vec::new();
        v.push(c);
        assert(v@ =~= seq![c]);
        v
    } else {
        let mut v = decimal_chars(n / 10);
        v.push(c);
        v
    }
}

/// How `n` is written in decimal.
pub fn decimal_string(n: u64) -> (r: String)
    ensures
        r@ == decimal(n as nat),
{
    let v = decimal_chars(n);
    string_of(&v)
}

/// A lower-case hexadecimal digit, for `d` below sixteen.
pub open spec fn hex_lower(d: int) -> char {
    if d < 10 {
        (48 + d) as char
    } else {
        (87 + d) as char
    }
}

/// How serde_json writes one character inside a JSON string: a quote and a
/// backslash behind a backslash; backspace, tab, line feed, form feed and
/// carriage return by their short escapes; any other character below
/// U+0020 as `\u00` and two lower-case hex digits; every other character
/// as it is.
pub open spec fn json_escape_char(c: char) -> Seq<char> {
    let n = c as int;
    if c == '"' {
        seq!['\\', '"']
    } else if c == '\\' {
        seq!['\\', '\\']
    } else if n == 8 {
        seq!['\\', 'b']
    } else if n == 9 {
        seq!['\\', 't']
    } else if n == 10 {
        seq!['\\', 'n']
    } else if n == 12 {
        seq!['\\', 'f']
    } else if n == 13 {
        seq!['\\', 'r']
    } else if n < 32 {
        seq!['\\', 'u', '0', '0', hex_lower(n / 16), hex_lower(n % 16)]
    } else {
        seq![c]
    }
}

/// The characters of `s`, each written as `json_escape_char` writes it.
pub open spec fn json_escaped(s: Seq<char>) -> Seq<char>
    decreases s.len(),
{
    if s.len() == 0 {
        Seq::empty()
    } else {
        json_escaped(s.drop_last()) + json_escape_char(s.last())
    }
}

/// What serde_json writes for a JSON string value holding `s`: the escaped
/// characters between double quotes.
pub open spec fn json_string_literal(s: Seq<char>) -> Seq<char> {
    seq!['"'] + json_escaped(s) + seq!['"']
}

/// Quotes `s` the way JSON needs it, through serde_json's serialisation of
/// a `Value::String` (its compact formatter's string escaping).
#[verifier::external_body]
pub fn json_quote(s: &str) -> (r: String)
    ensures
        r@ == json_string_literal(s@),
{
    serde_json::Value::String(s.to_string()).to_string()
}

/// A hexadecimal digit, of either case.
pub open spec fn is_hex(c: char) -> bool {
    ('0' <= c && c <= '9') || ('a' <= c && c <= 'f') || ('A' <= c && c <= 'F')
}

/// The inside of a JSON string: unescaped characters other than a quote, a
/// backslash or a control character, and escapes as JSON defines them.
pub open spec fn json_string_body(t: Seq<char>) -> bool
    decreases t.len(),
{
    if t.len() == 0 {
        true
    } else if t[0] == '\\' {
        if t.len() >= 2 && (t[1] == '"' || t[1] == '\\' || t[1] == '/' || t[1] == 'b' || t[1] == 'f'
            || t[1] == 'n' || t[1] == 'r' || t[1] == 't') {
            json_string_body(t.skip(2))
        } else if t.len() >= 6 && t[1] == 'u' && is_hex(t[2]) && is_hex(t[3]) && is_hex(t[4]) && is_hex(t[5]) {
            json_string_body(t.skip(6))
        } else {
            false
        }
    } else {
        t[0] != '"' && t[0] as int >= 32 && json_string_body(t.skip(1))
    }
}

proof fn lemma_body_concat(a: Seq<char>, b: Seq<char>)
    requires
        json_string_body(a),
        json_string_body(b),
    ensures
        json_string_body(a + b),
    decreases a.len(),
{
    if a.len() > 0 {
        let ab = a + b;
        assert(ab[0] == a[0]);
        if a[0] == '\\' {
            assert(ab[1] == a[1]);
            if a.len() >= 2 && (a[1] == '"' || a[1] == '\\' || a[1] == '/' || a[1] == 'b' || a[1] == 'f'
                || a[1] == 'n' || a[1] == 'r' || a[1] == 't') {
                lemma_body_concat(a.skip(2), b);
                assert(ab.skip(2) =~= a.skip(2) + b);
            } else {
                assert(ab[2] == a[2] && ab[3] == a[3] && ab[4] == a[4] && ab[5] == a[5]);
                lemma_body_concat(a.skip(6), b);
                assert(ab.skip(6) =~= a.skip(6) + b);
            }
        } else {
            lemma_body_concat(a.skip(1), b);
            assert(ab.skip(1) =~= a.skip(1) + b);
        }
    }
}

proof fn lemma_hex_lower(d: int)
    requires
        0 <= d < 16,
    ensures
        is_hex(hex_lower(d)),
{
    if d < 10 {
        assert((48 + d) as char as int == 48 + d);
    } else {
        assert((87 + d) as char as int == 87 + d);
    }
}

proof fn lemma_escaped_char_is_body(c: char)
    ensures
        json_string_body(json_escape_char(c)),
{
    let e = json_escape_char(c);
    let n = c as int;
    if c == '"' || c == '\\' || n == 8 || n == 9 || n == 10 || n == 12 || n == 13 {
        assert(e.skip(2) =~= Seq::<char>::empty());
        assert(json_string_body(e.skip(2)));
    } else if n < 32 {
        assert(0 <= n / 16 < 16 && 0 <= n % 16 < 16);
        lemma_hex_lower(n / 16);
        lemma_hex_lower(n % 16);
        assert(e[1] == 'u' && is_hex(e[2]) && is_hex(e[3]) && is_hex(e[4]) && is_hex(e[5]));
        assert(e.skip(6) =~= Seq::<char>::empty());
        assert(json_string_body(e.skip(6)));
    } else {
        assert(e.skip(1) =~= Seq::<char>::empty());
        assert(json_string_body(e.skip(1)));
    }
}

/// A value written as a JSON string cannot break out of it, whatever it
/// holds: between the two quotes stand only characters JSON allows there
/// unescaped and escapes JSON defines — no bare quote, no bare backslash,
/// no line break or other control character.
pub proof fn lemma_a_quoted_value_stays_one_json_string(s: Seq<char>)
    ensures
        json_string_body(json_escaped(s)),
        json_string_literal(s) == seq!['"'] + json_escaped(s) + seq!['"'],
    decreases s.len(),
{
    if s.len() > 0 {
        lemma_a_quoted_value_stays_one_json_string(s.drop_last());
        lemma_escaped_char_is_body(s.last());
        lemma_body_concat(json_escaped(s.drop_last()), json_escape_char(s.last()));
    }
}

} // verus!
