//! Caller-supplied headers, given as raw `"Key: Value"` strings.
use vstd::prelude::*;
use crate::segment::Segment;

verus! {

/// The client identifier sent as `User-Agent` with every request.
pub const USER_AGENT: &'static str = "scurl/0.2";

/// What `str::trim` returns: `s` without leading and trailing whitespace.
pub uninterp spec fn trim_of(s: Seq<char>) -> Seq<char>;

/// Relies on `str::trim`: the result depends on the characters alone.
#[verifier::external_body]
fn trim(s: &str) -> (r: &str)
    ensures
        r@ == trim_of(s@),
{
    s.trim()
}

/// The character of a decimal digit.
pub open spec fn digit_char(d: nat) -> char {
    if d == 0 { '0' }
    else if d == 1 { '1' }
    else if d == 2 { '2' }
    else if d == 3 { '3' }
    else if d == 4 { '4' }
    else if d == 5 { '5' }
    else if d == 6 { '6' }
    else if d == 7 { '7' }
    else if d == 8 { '8' }
    else { '9' }
}

/// `n` written in decimal, without leading zeros.
pub open spec fn decimal(n: nat) -> Seq<char>
    decreases n,
{
    if n < 10 {
        seq![digit_char(n)]
    } else {
        decimal(n / 10).push(digit_char(n % 10))
    }
}

/// The value of a `Range` header asking for the bytes of `seg`.
pub open spec fn range_value_spec(seg: Segment) -> Seq<char> {
    "bytes="@ + decimal(seg.start as nat) + "-"@ + decimal(seg.end as nat)
}

fn digit_str(d: u64) -> (r: &'static str)
    requires
        d < 10,
    ensures
        r@ == seq![digit_char(d as nat)],
{
    proof {
        reveal_strlit("0");
        reveal_strlit("1");
        reveal_strlit("2");
        reveal_strlit("3");
        reveal_strlit("4");
        reveal_strlit("5");
        reveal_strlit("6");
        reveal_strlit("7");
        reveal_strlit("8");
        reveal_strlit("9");
    }
    let r = match d {
        0 => "0",
        1 => "1",
        2 => "2",
        3 => "3",
        4 => "4",
        5 => "5",
        6 => "6",
        7 => "7",
        8 => "8",
        _ => "9",
    };
    assert(r@ =~= seq![digit_char(d as nat)]);
    r
}

/// Appends `n` in decimal.
fn push_decimal(s: &mut String, n: u64)
    ensures
        final(s)@ == old(s)@ + decimal(n as nat),
    decreases n,
{
    if n >= 10 {
        push_decimal(s, n / 10);
    }
    s.append(digit_str(n % 10));
    assert(s@ =~= old(s)@ + decimal(n as nat));
}

/// The value of the `Range` header that asks for the bytes of `seg`:
/// `bytes=<start>-<end>`, both ends included.
pub fn range_value(seg: Segment) -> (r: String)
    ensures
        r@ == range_value_spec(seg),
{
    let mut r = String::from_str("bytes=");
    push_decimal(&mut r, seg.start);
    r.append("-");
    push_decimal(&mut r, seg.end);
    assert(r@ =~= range_value_spec(seg));
    r
}

/// Whether `i` is the position of the first `:` in `s`.
pub open spec fn is_first_colon(s: Seq<char>, i: int) -> bool {
    &&& 0 <= i < s.len()
    &&& s[i] == ':'
    &&& forall|j: int| 0 <= j < i ==> s[j] != ':'
}

/// The name and value of a raw header: the text before and after its first
/// colon, each trimmed; `None` where it has no colon.
pub open spec fn split_header(s: Seq<char>) -> Option<(Seq<char>, Seq<char>)> {
    if s.contains(':') {
        let i = choose|i: int| is_first_colon(s, i);
        Some((trim_of(s.subrange(0, i)), trim_of(s.subrange(i + 1, s.len() as int))))
    } else {
        None
    }
}

/// The fields sent for a list of raw headers, in their order.
pub open spec fn header_fields(raw: Seq<Seq<char>>) -> Seq<(Seq<char>, Seq<char>)>
    decreases raw.len(),
{
    if raw.len() == 0 {
        Seq::empty()
    } else {
        let prev = header_fields(raw.drop_last());
        match split_header(raw.last()) {
            Some(f) => prev.push(f),
            None => prev,
        }
    }
}

/// The raw headers that have no colon, in their order.
pub open spec fn malformed_headers(raw: Seq<Seq<char>>) -> Seq<Seq<char>>
    decreases raw.len(),
{
    if raw.len() == 0 {
        Seq::empty()
    } else {
        let prev = malformed_headers(raw.drop_last());
        if raw.last().contains(':') {
            prev
        } else {
            prev.push(raw.last())
        }
    }
}

/// The character views of a list of strings.
pub open spec fn views(v: Seq<String>) -> Seq<Seq<char>> {
    v.map_values(|s: String| s@)
}

/// The character views of a list of name/value pairs.
pub open spec fn field_views(v: Seq<(String, String)>) -> Seq<(Seq<char>, Seq<char>)> {
    v.map_values(|p: (String, String)| (p.0@, p.1@))
}

/// Splits one raw header at its first colon and trims both sides.
pub fn parse_header(raw: &str) -> (r: Option<(String, String)>)
    ensures
        r.is_some() == split_header(raw@).is_some(),
        r.is_some() ==> (r.unwrap().0@, r.unwrap().1@) == split_header(raw@).unwrap(),
{
    let n = raw.unicode_len();
    let mut i: usize = 0;
    while i < n
        invariant
            n == raw@.len(),
            i <= n,
            forall|j: int| 0 <= j < i ==> raw@[j] != ':',
        decreases n - i,
    {
        if raw.get_char(i) == ':' {
            assert(is_first_colon(raw@, i as int));
            assert(raw@.contains(':'));
            let key = trim(raw.substring_char(0, i));
            let value = trim(raw.substring_char(i + 1, n));
            proof {
                let k = choose|k: int| is_first_colon(raw@, k);
                assert(k == i as int) by {
                    if k < i {
                    } else if k > i {
                        assert(raw@[i as int] != ':');
                    }
                }
            }
            return Some((key.to_string(), value.to_string()));
        }
        i = i + 1;
    }
    assert(!raw@.contains(':'));
    None
}

/// A character that a header name may hold; upper-case letters are sent in
/// lower case.
pub open spec fn is_name_char(c: char) -> bool {
    ||| 'a' <= c <= 'z'
    ||| 'A' <= c <= 'Z'
    ||| '0' <= c <= '9'
    ||| c == '!' || c == '"' || c == '#' || c == '$' || c == '%' || c == '&' || c == '\''
    ||| c == '*' || c == '+' || c == '-' || c == '.' || c == '^' || c == '_' || c == '`'
    ||| c == '|' || c == '~'
}

/// A name that the HTTP stack can send: 1 to 65535 name characters.
pub open spec fn is_header_name(s: Seq<char>) -> bool {
    &&& 0 < s.len() <= 65535
    &&& forall|i: int| 0 <= i < s.len() ==> is_name_char(#[trigger] s[i])
}

/// A value that the HTTP stack can send: no control character but tab.
pub open spec fn is_header_value(s: Seq<char>) -> bool {
    forall|i: int| 0 <= i < s.len() ==> #[trigger] s[i] == '\t' || (' ' <= s[i] && s[i] != '\u{7f}')
}

/// Whether a name/value pair can be sent.
pub open spec fn is_sendable(f: (Seq<char>, Seq<char>)) -> bool {
    is_header_name(f.0) && is_header_value(f.1)
}

/// Relies on `hyper::header::HeaderName::from_bytes`, the conversion that the
/// request builder applies to a name given as `&str`: it accepts a non-empty
/// name of at most 65535 bytes each of which its table of token characters
/// maps to a non-zero byte (so no byte above 127).
#[verifier::external_body]
fn name_is_sendable(name: &str) -> (r: bool)
    ensures
        r == is_header_name(name@),
{
    hyper::header::HeaderName::from_bytes(name.as_bytes()).is_ok()
}

/// Relies on `hyper::header::HeaderValue::from_str`, the conversion that the
/// request builder applies to a value given as `&str`: it accepts a value each
/// of whose bytes is a tab or at least 32 and not 127 (bytes of characters
/// beyond ASCII are all above 127).
#[verifier::external_body]
fn value_is_sendable(value: &str) -> (r: bool)
    ensures
        r == is_header_value(value@),
{
    hyper::header::HeaderValue::from_str(value).is_ok()
}

/// The position of the first field that cannot be sent, if any.
pub fn first_unsendable(fields: &Vec<(String, String)>) -> (r: Option<usize>)
    ensures
        match r {
            None => forall|i: int| 0 <= i < fields@.len() ==> is_sendable(#[trigger] field_views(fields@)[i]),
            Some(k) => {
                &&& k < fields@.len()
                &&& !is_sendable(field_views(fields@)[k as int])
                &&& forall|i: int| 0 <= i < k ==> is_sendable(#[trigger] field_views(fields@)[i])
            },
        },
{
    let mut i: usize = 0;
    while i < fields.len()
        invariant
            i <= fields@.len(),
            forall|j: int| 0 <= j < i ==> is_sendable(#[trigger] field_views(fields@)[j]),
        decreases fields@.len() - i,
    {
        let ok = name_is_sendable(fields[i].0.as_str()) && value_is_sendable(fields[i].1.as_str());
        assert(field_views(fields@)[i as int] == (fields@[i as int].0@, fields@[i as int].1@));
        if !ok {
            return Some(i);
        }
        i = i + 1;
    }
    None
}

/// The caller's headers, sorted into the fields to send and the entries that
/// are skipped for lacking a colon.
pub struct PreparedHeaders {
    pub fields: Vec<(String, String)>,
    pub malformed: Vec<String>,
}

/// Parses every raw header. An entry without a colon never fails the request:
/// it is set aside in `malformed`, to be reported as a warning.
pub fn prepare_headers(raw: &Vec<String>) -> (r: PreparedHeaders)
    ensures
        field_views(r.fields@) == header_fields(views(raw@)),
        views(r.malformed@) == malformed_headers(views(raw@)),
{
    let mut fields: Vec<(String, String)> = Vec::new();
    let mut malformed: Vec<String> = Vec::new();
    let mut i: usize = 0;
    while i < raw.len()
        invariant
            i <= raw@.len(),
            field_views(fields@) == header_fields(views(raw@.subrange(0, i as int))),
            views(malformed@) == malformed_headers(views(raw@.subrange(0, i as int))),
        decreases raw@.len() - i,
    {
        let ghost prefix = views(raw@.subrange(0, i as int));
        let ghost next = views(raw@.subrange(0, i + 1));
        assert(next.drop_last() =~= prefix);
        assert(next.last() == raw@[i as int]@);
        match parse_header(raw[i].as_str()) {
            Some(f) => {
                fields.push(f);
                assert(field_views(fields@) =~= header_fields(next));
            },
            None => {
                malformed.push(raw[i].clone());
                assert(views(malformed@) =~= malformed_headers(next));
            },
        }
        assert(field_views(fields@) =~= header_fields(next));
        assert(views(malformed@) =~= malformed_headers(next));
        i = i + 1;
    }
    assert(raw@.subrange(0, i as int) =~= raw@);
    PreparedHeaders { fields, malformed }
}

/// A header without a colon changes nothing that is sent: appending one to a
/// list leaves the fields as they were and only adds it to the skipped entries.
pub proof fn lemma_malformed_header_skipped(raw: Seq<Seq<char>>, bad: Seq<char>)
    requires
        !bad.contains(':'),
    ensures
        header_fields(raw.push(bad)) == header_fields(raw),
        malformed_headers(raw.push(bad)) == malformed_headers(raw).push(bad),
{
    assert(raw.push(bad).drop_last() =~= raw);
}

} // verus!
