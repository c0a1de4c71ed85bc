//! The text codec of the wire protocol.
//!
//! Announcements are emitted, and discovery requests are accepted, in a
//! fixed structured text form: an object of `"key":value` members.
//! This revision's canonical choices, stated once here:
//! - the request field casing is `msg_type`;
//! - a request must carry exactly the members `ip`, `mac` and
//!   `msg_type`, each once, in any order, all string-valued, with
//!   whitespace allowed between tokens;
//! - inside a string, `\"`, `\\`, `\/`, `\n`, `\t` and `\r` are the
//!   accepted escapes; the emitter escapes `"` and `\`;
//! - anything else fails to decode, and a failed decode is silently
//!   dropped by the caller.

use vstd::prelude::*;

use crate::packets::{ConfigPacket, StartupMessage, StripConfigPacket};

verus! {

// ---------------------------------------------------------------------
// String escaping
// ---------------------------------------------------------------------
/// How one character is written inside an emitted string.
pub open spec fn escape_char(c: char) -> Seq<char> {
    if c == '"' {
        seq!['\\', '"']
    } else if c == '\\' {
        seq!['\\', '\\']
    } else {
        seq![c]
    }
}

/// A string's characters, with `"` and `\` escaped.
pub open spec fn json_escape(s: Seq<char>) -> Seq<char>
    decreases s.len(),
{
    if s.len() == 0 {
        Seq::empty()
    } else {
        escape_char(s[0]) + json_escape(s.drop_first())
    }
}

/// An emitted string: quoted and escaped.
pub open spec fn json_string(s: Seq<char>) -> Seq<char> {
    seq!['"'] + json_escape(s) + seq!['"']
}

proof fn lemma_json_escape_push(s: Seq<char>, c: char)
    ensures
        json_escape(s.push(c)) == json_escape(s) + escape_char(c),
    decreases s.len(),
{
    if s.len() == 0 {
        assert(s.push(c)[0] == c);
        assert(s.push(c).drop_first() =~= Seq::<char>::empty());
        assert(json_escape(s.push(c)) =~= escape_char(c) + json_escape(Seq::<char>::empty()));
        assert(json_escape(s.push(c)) =~= escape_char(c));
        assert(json_escape(s) + escape_char(c) =~= escape_char(c));
    } else {
        assert(s.push(c)[0] == s[0]);
        assert(s.push(c).drop_first() =~= s.drop_first().push(c));
        lemma_json_escape_push(s.drop_first(), c);
        assert(json_escape(s.push(c)) =~= json_escape(s) + escape_char(c));
    }
}

// ---------------------------------------------------------------------
// Decimal numerals
// ---------------------------------------------------------------------
/// The decimal digit characters.
pub open spec fn digit_char(d: int) -> char {
    if d == 1 {
        '1'
    } else if d == 2 {
        '2'
    } else if d == 3 {
        '3'
    } else if d == 4 {
        '4'
    } else if d == 5 {
        '5'
    } else if d == 6 {
        '6'
    } else if d == 7 {
        '7'
    } else if d == 8 {
        '8'
    } else if d == 9 {
        '9'
    } else {
        '0'
    }
}

/// The decimal numeral of a non-negative integer, most significant
/// digit first, with no leading zeros.
pub open spec fn dec_digits(n: int) -> Seq<char>
    decreases n,
{
    if n < 10 {
        seq![digit_char(n)]
    } else {
        dec_digits(n / 10) + seq![digit_char(n % 10)]
    }
}

/// Relies on `String::push`: appends the given character to the end of
/// the string.
#[verifier::external_body]
pub(crate) fn push_char(s: &mut String, c: char)
    ensures
        final(s)@ == old(s)@.push(c),
{
    s.push(c);
}

fn exec_digit_char(d: u64) -> (r: char)
    ensures
        r == digit_char(d as int),
{
    if d == 1 {
        '1'
    } else if d == 2 {
        '2'
    } else if d == 3 {
        '3'
    } else if d == 4 {
        '4'
    } else if d == 5 {
        '5'
    } else if d == 6 {
        '6'
    } else if d == 7 {
        '7'
    } else if d == 8 {
        '8'
    } else if d == 9 {
        '9'
    } else {
        '0'
    }
}

/// Appends the decimal numeral of `n` to `out`.
pub(crate) fn append_dec_i64(out: &mut String, n: i64)
    requires
        0 <= n,
    ensures
        final(out)@ == old(out)@ + dec_digits(n as int),
{
    if n == 0 {
        push_char(out, '0');
        proof {
            assert(dec_digits(0) =~= seq!['0']);
            assert(out@ =~= old(out)@ + dec_digits(0));
        }
        return ;
    }
    let mut digits: Vec<char> = Vec::new();
    let mut m: u64 = n as u64;
    proof {
        assert(dec_digits(n as int) + digits@.reverse() =~= dec_digits(n as int));
    }
    while m > 0
        invariant
            dec_digits(n as int) == if m > 0 {
                dec_digits(m as int) + digits@.reverse()
            } else {
                digits@.reverse()
            },
        decreases m,
    {
        let d = m % 10;
        let c = exec_digit_char(d);
        proof {
            assert(digits@.push(c).reverse() =~= seq![c] + digits@.reverse());
            if m >= 10 {
                assert(dec_digits(m as int) == dec_digits(m as int / 10) + seq![
                    digit_char(m as int % 10),
                ]);
                assert(dec_digits(m as int / 10) + digits@.push(c).reverse() =~= dec_digits(
                    m as int,
                ) + digits@.reverse());
            } else {
                assert(dec_digits(m as int) =~= seq![c]);
                assert(digits@.push(c).reverse() =~= dec_digits(m as int) + digits@.reverse());
            }
        }
        digits.push(c);
        m = m / 10;
    }
    let k = digits.len();
    let mut j: usize = 0;
    while j < k
        invariant
            k == digits@.len(),
            j <= k,
            out@ == old(out)@ + digits@.reverse().take(j as int),
        decreases k - j,
    {
        let c = digits[k - 1 - j];
        proof {
            assert(digits@.reverse()[j as int] == digits@[k - 1 - j]);
            assert(digits@.reverse().take(j + 1) =~= digits@.reverse().take(j as int).push(
                digits@.reverse()[j as int],
            ));
        }
        push_char(out, c);
        j = j + 1;
    }
    proof {
        assert(digits@.reverse().take(k as int) =~= digits@.reverse());
    }
}

/// Appends `s` to `out` with `"` and `\` escaped (the body of an
/// emitted string, without the quotes).
fn append_escaped(out: &mut String, s: &str)
    ensures
        final(out)@ == old(out)@ + json_escape(s@),
{
    let n = s.unicode_len();
    let mut i: usize = 0;
    while i < n
        invariant
            n == s@.len(),
            i <= n,
            out@ == old(out)@ + json_escape(s@.take(i as int)),
        decreases n - i,
    {
        let c = s.get_char(i);
        if c == '"' {
            push_char(out, '\\');
            push_char(out, '"');
        } else if c == '\\' {
            push_char(out, '\\');
            push_char(out, '\\');
        } else {
            push_char(out, c);
        }
        proof {
            lemma_json_escape_push(s@.take(i as int), s@[i as int]);
            assert(s@.take(i + 1) =~= s@.take(i as int).push(s@[i as int]));
            assert(out@ =~= old(out)@ + json_escape(s@.take(i + 1)));
        }
        i = i + 1;
    }
    proof {
        assert(s@.take(n as int) =~= s@);
    }
}

/// Appends the emitted form of string `s`: quoted and escaped.
fn append_json_string(out: &mut String, s: &str)
    ensures
        final(out)@ == old(out)@ + json_string(s@),
{
    push_char(out, '"');
    append_escaped(out, s);
    push_char(out, '"');
    proof {
        assert(out@ =~= old(out)@ + json_string(s@));
    }
}

// ---------------------------------------------------------------------
// Announcement emission
// ---------------------------------------------------------------------
/// The emitted form of one strip entry.
pub open spec fn strip_json(p: StripConfigPacket) -> Seq<char> {
    "{\"name\":"@ + json_string(p.name@) + ",\"startAddr\":"@ + dec_digits(p.startAddr as int)
        + ",\"endAddr\":"@ + dec_digits(p.endAddr as int) + ",\"channel\":"@ + dec_digits(
        p.channel as int,
    ) + "}"@
}

/// The emitted forms of strips `1..n`, each preceded by a comma.
pub open spec fn strips_tail_json(ss: Seq<StripConfigPacket>, n: int) -> Seq<char>
    decreases n,
{
    if n <= 1 {
        Seq::empty()
    } else {
        strips_tail_json(ss, n - 1) + seq![','] + strip_json(ss[n - 1])
    }
}

/// The emitted form of the strip array.
pub open spec fn strips_json(ss: Seq<StripConfigPacket>) -> Seq<char> {
    if ss.len() == 0 {
        "[]"@
    } else {
        seq!['['] + strip_json(ss[0]) + strips_tail_json(ss, ss.len() as int) + seq![']']
    }
}

/// The emitted form of a whole configuration announcement: the exact
/// text sent back to a requester.
pub open spec fn config_json(p: ConfigPacket) -> Seq<char> {
    "{\"name\":"@ + json_string(p.name@) + ",\"ip\":"@ + json_string(p.ip@) + ",\"port\":"@
        + dec_digits(p.port as int) + ",\"mac\":"@ + json_string(p.mac@) + ",\"numStrips\":"@
        + dec_digits(p.numStrips as int) + ",\"numAddrs\":"@ + dec_digits(p.numAddrs as int)
        + ",\"strips\":"@ + strips_json(p.strips@) + "}"@
}

fn append_strip(out: &mut String, p: &StripConfigPacket)
    requires
        p.wf(),
    ensures
        final(out)@ == old(out)@ + strip_json(*p),
{
    out.append("{\"name\":");
    append_json_string(out, p.name.as_str());
    out.append(",\"startAddr\":");
    append_dec_i64(out, p.startAddr);
    out.append(",\"endAddr\":");
    append_dec_i64(out, p.endAddr);
    out.append(",\"channel\":");
    append_dec_i64(out, p.channel);
    out.append("}");
    proof {
        assert(out@ =~= old(out)@ + strip_json(*p));
    }
}

/// Emits the configuration announcement `p` as wire text.
pub fn encode_config_packet(p: &ConfigPacket) -> (r: String)
    requires
        p.wf(),
    ensures
        r@ == config_json(*p),
{
    let mut out = String::new();
    out.append("{\"name\":");
    append_json_string(&mut out, p.name.as_str());
    out.append(",\"ip\":");
    append_json_string(&mut out, p.ip.as_str());
    out.append(",\"port\":");
    append_dec_i64(&mut out, p.port);
    out.append(",\"mac\":");
    append_json_string(&mut out, p.mac.as_str());
    out.append(",\"numStrips\":");
    append_dec_i64(&mut out, p.numStrips);
    out.append(",\"numAddrs\":");
    append_dec_i64(&mut out, p.numAddrs);
    out.append(",\"strips\":");
    let ghost head = out@;
    if p.strips.len() == 0 {
        out.append("[]");
    } else {
        push_char(&mut out, '[');
        append_strip(&mut out, &p.strips[0]);
        let mut i: usize = 1;
        while i < p.strips.len()
            invariant
                p.wf(),
                1 <= i <= p.strips@.len(),
                out@ == head + seq!['['] + strip_json(p.strips@[0]) + strips_tail_json(
                    p.strips@,
                    i as int,
                ),
            decreases p.strips@.len() - i,
        {
            push_char(&mut out, ',');
            append_strip(&mut out, &p.strips[i]);
            proof {
                assert(out@ =~= head + seq!['['] + strip_json(p.strips@[0]) + strips_tail_json(
                    p.strips@,
                    i + 1,
                ));
            }
            i = i + 1;
        }
        push_char(&mut out, ']');
    }
    out.append("}");
    proof {
        assert(out@ =~= config_json(*p));
    }
    out
}

// ---------------------------------------------------------------------
// Request parsing: the accepted grammar, as spec functions
// ---------------------------------------------------------------------
/// The whitespace accepted between tokens.
pub open spec fn is_ws(c: char) -> bool {
    c == ' ' || c == '\t' || c == '\n' || c == '\r'
}

/// First position at or after `i` holding no whitespace.
pub open spec fn skip_ws(s: Seq<char>, i: int) -> int
    decreases s.len() - i,
{
    if 0 <= i < s.len() && is_ws(s[i]) {
        skip_ws(s, i + 1)
    } else {
        i
    }
}

/// What each accepted escape character stands for.
pub open spec fn unescape(c: char) -> Option<char> {
    if c == '"' {
        Some('"')
    } else if c == '\\' {
        Some('\\')
    } else if c == '/' {
        Some('/')
    } else if c == 'n' {
        Some('\n')
    } else if c == 't' {
        Some('\t')
    } else if c == 'r' {
        Some('\r')
    } else {
        None
    }
}

/// Scans a string body from `i` (just past the opening quote) to its
/// closing quote: the decoded content and the position after the quote,
/// or `None` when the string is unterminated or an escape is unknown.
pub open spec fn scan_string(s: Seq<char>, i: int) -> Option<(Seq<char>, int)>
    decreases s.len() - i,
{
    if i < 0 || i >= s.len() {
        None
    } else if s[i] == '"' {
        Some((Seq::empty(), i + 1))
    } else if s[i] == '\\' {
        if i + 1 < s.len() && unescape(s[i + 1]) is Some {
            match scan_string(s, i + 2) {
                None => None,
                Some((t, e)) => Some((seq![unescape(s[i + 1]).unwrap()] + t, e)),
            }
        } else {
            None
        }
    } else {
        match scan_string(s, i + 1) {
            None => None,
            Some((t, e)) => Some((seq![s[i]] + t, e)),
        }
    }
}

/// Parses a quoted string whose opening quote stands at `i`.
pub open spec fn parse_string(s: Seq<char>, i: int) -> Option<(Seq<char>, int)> {
    if 0 <= i < s.len() && s[i] == '"' {
        scan_string(s, i + 1)
    } else {
        None
    }
}

/// Parses one `"key" : "value"` member whose key's opening quote
/// stands at `i`.
pub open spec fn parse_pair(s: Seq<char>, i: int) -> Option<((Seq<char>, Seq<char>), int)> {
    match parse_string(s, i) {
        None => None,
        Some((k, i1)) => {
            let i2 = skip_ws(s, i1);
            if i2 < s.len() && s[i2] == ':' {
                let i3 = skip_ws(s, i2 + 1);
                match parse_string(s, i3) {
                    None => None,
                    Some((v, i4)) => Some(((k, v), i4)),
                }
            } else {
                None
            }
        },
    }
}

/// Parses a whole datagram as an object of exactly three string
/// members, tolerating whitespace between tokens and nothing after the
/// closing brace.
pub open spec fn parse_object3(s: Seq<char>) -> Option<Seq<(Seq<char>, Seq<char>)>> {
    let i0 = skip_ws(s, 0);
    if !(i0 < s.len() && s[i0] == '{') {
        None
    } else {
        match parse_pair(s, skip_ws(s, i0 + 1)) {
            None => None,
            Some((p1, e1)) => {
                let c1 = skip_ws(s, e1);
                if !(c1 < s.len() && s[c1] == ',') {
                    None
                } else {
                    match parse_pair(s, skip_ws(s, c1 + 1)) {
                        None => None,
                        Some((p2, e2)) => {
                            let c2 = skip_ws(s, e2);
                            if !(c2 < s.len() && s[c2] == ',') {
                                None
                            } else {
                                match parse_pair(s, skip_ws(s, c2 + 1)) {
                                    None => None,
                                    Some((p3, e3)) => {
                                        let c3 = skip_ws(s, e3);
                                        if c3 < s.len() && s[c3] == '}' && skip_ws(s, c3 + 1)
                                            == s.len() {
                                            Some(seq![p1, p2, p3])
                                        } else {
                                            None
                                        }
                                    },
                                }
                            }
                        },
                    }
                }
            },
        }
    }
}

/// How many members of `ps` carry the key `key`.
pub open spec fn key_count(ps: Seq<(Seq<char>, Seq<char>)>, key: Seq<char>) -> int
    decreases ps.len(),
{
    if ps.len() == 0 {
        0
    } else {
        (if ps[0].0 == key {
            1int
        } else {
            0int
        }) + key_count(ps.drop_first(), key)
    }
}

/// The value of the first member of `ps` carrying the key `key`.
pub open spec fn field_of(ps: Seq<(Seq<char>, Seq<char>)>, key: Seq<char>) -> Seq<char>
    decreases ps.len(),
{
    if ps.len() == 0 {
        Seq::empty()
    } else if ps[0].0 == key {
        ps[0].1
    } else {
        field_of(ps.drop_first(), key)
    }
}

/// The decoding of a datagram as a discovery request: the `ip`, `mac`
/// and `msg_type` fields of an object carrying exactly those three
/// members, each once, in any order; `None` on anything else.
pub open spec fn spec_parse_startup(s: Seq<char>) -> Option<(Seq<char>, Seq<char>, Seq<char>)> {
    match parse_object3(s) {
        None => None,
        Some(ps) => {
            if key_count(ps, "ip"@) == 1 && key_count(ps, "mac"@) == 1 && key_count(
                ps,
                "msg_type"@,
            ) == 1 {
                Some((field_of(ps, "ip"@), field_of(ps, "mac"@), field_of(ps, "msg_type"@)))
            } else {
                None
            }
        },
    }
}

// ---------------------------------------------------------------------
// Request parsing: the executable parser
// ---------------------------------------------------------------------
fn is_ws_exec(c: char) -> (r: bool)
    ensures
        r == is_ws(c),
{
    c == ' ' || c == '\t' || c == '\n' || c == '\r'
}

fn skip_ws_exec(s: &str, n: usize, i: usize) -> (r: usize)
    requires
        n == s@.len(),
        i <= n,
    ensures
        r == skip_ws(s@, i as int),
        i <= r <= n,
{
    let mut j = i;
    while j < n && is_ws_exec(s.get_char(j))
        invariant
            n == s@.len(),
            i <= j <= n,
            skip_ws(s@, i as int) == skip_ws(s@, j as int),
        decreases n - j,
    {
        j = j + 1;
    }
    j
}

fn unescape_exec(c: char) -> (r: Option<char>)
    ensures
        r == unescape(c),
{
    if c == '"' {
        Some('"')
    } else if c == '\\' {
        Some('\\')
    } else if c == '/' {
        Some('/')
    } else if c == 'n' {
        Some('\n')
    } else if c == 't' {
        Some('\t')
    } else if c == 'r' {
        Some('\r')
    } else {
        None
    }
}

/// `r`, with the content `p` put in front of a scanned string body.
pub open spec fn prepend_scan(p: Seq<char>, r: Option<(Seq<char>, int)>) -> Option<
    (Seq<char>, int),
> {
    match r {
        None => None,
        Some((t, e)) => Some((p + t, e)),
    }
}

proof fn lemma_prepend_scan_assoc(a: Seq<char>, b: Seq<char>, r: Option<(Seq<char>, int)>)
    ensures
        prepend_scan(a, prepend_scan(b, r)) == prepend_scan(a + b, r),
{
    match r {
        None => {},
        Some((t, e)) => {
            assert(a + (b + t) =~= (a + b) + t);
        },
    }
}

fn scan_string_exec(s: &str, n: usize, i: usize) -> (r: Option<(String, usize)>)
    requires
        n == s@.len(),
        i <= n,
    ensures
        (r is None) == (scan_string(s@, i as int) is None),
        r matches Some((t, e)) ==> scan_string(s@, i as int) == Some((t@, e as int)) && i < e <= n,
{
    let mut acc = String::new();
    let mut j = i;
    proof {
        assert(prepend_scan(acc@, scan_string(s@, i as int)) == scan_string(s@, i as int)) by {
            match scan_string(s@, i as int) {
                None => {},
                Some((t, e)) => {
                    assert(acc@ + t =~= t);
                },
            }
        }
    }
    loop
        invariant
            n == s@.len(),
            i <= j <= n,
            scan_string(s@, i as int) == prepend_scan(acc@, scan_string(s@, j as int)),
        decreases n - j,
    {
        if j == n {
            return None;
        }
        let c = s.get_char(j);
        if c == '"' {
            proof {
                assert(scan_string(s@, j as int) == Some((Seq::<char>::empty(), j + 1)));
                assert(acc@ + Seq::<char>::empty() =~= acc@);
            }
            return Some((acc, j + 1));
        } else if c == '\\' {
            if j + 1 < n {
                let c2 = s.get_char(j + 1);
                match unescape_exec(c2) {
                    Some(u) => {
                        proof {
                            assert(scan_string(s@, j as int) == prepend_scan(
                                seq![u],
                                scan_string(s@, j + 2),
                            ));
                            lemma_prepend_scan_assoc(acc@, seq![u], scan_string(s@, j + 2));
                            assert(acc@ + seq![u] =~= acc@.push(u));
                        }
                        push_char(&mut acc, u);
                        j = j + 2;
                    },
                    None => {
                        return None;
                    },
                }
            } else {
                return None;
            }
        } else {
            proof {
                assert(scan_string(s@, j as int) == prepend_scan(
                    seq![c],
                    scan_string(s@, j + 1),
                ));
                lemma_prepend_scan_assoc(acc@, seq![c], scan_string(s@, j + 1));
                assert(acc@ + seq![c] =~= acc@.push(c));
            }
            push_char(&mut acc, c);
            j = j + 1;
        }
    }
}

fn parse_string_exec(s: &str, n: usize, i: usize) -> (r: Option<(String, usize)>)
    requires
        n == s@.len(),
        i <= n,
    ensures
        (r is None) == (parse_string(s@, i as int) is None),
        r matches Some((t, e)) ==> parse_string(s@, i as int) == Some((t@, e as int)) && i < e
            <= n,
{
    if i < n && s.get_char(i) == '"' {
        scan_string_exec(s, n, i + 1)
    } else {
        None
    }
}

fn parse_pair_exec(s: &str, n: usize, i: usize) -> (r: Option<(String, String, usize)>)
    requires
        n == s@.len(),
        i <= n,
    ensures
        (r is None) == (parse_pair(s@, i as int) is None),
        r matches Some((k, v, e)) ==> parse_pair(s@, i as int) == Some(((k@, v@), e as int)) && i
            < e <= n,
{
    match parse_string_exec(s, n, i) {
        None => None,
        Some((k, i1)) => {
            let i2 = skip_ws_exec(s, n, i1);
            if i2 < n && s.get_char(i2) == ':' {
                let i3 = skip_ws_exec(s, n, i2 + 1);
                match parse_string_exec(s, n, i3) {
                    None => None,
                    Some((v, i4)) => Some((k, v, i4)),
                }
            } else {
                None
            }
        },
    }
}

proof fn lemma_members3(
    p1: (Seq<char>, Seq<char>),
    p2: (Seq<char>, Seq<char>),
    p3: (Seq<char>, Seq<char>),
    key: Seq<char>,
)
    ensures
        key_count(seq![p1, p2, p3], key) == (if p1.0 == key {
            1int
        } else {
            0int
        }) + (if p2.0 == key {
            1int
        } else {
            0int
        }) + (if p3.0 == key {
            1int
        } else {
            0int
        }),
        field_of(seq![p1, p2, p3], key) == (if p1.0 == key {
            p1.1
        } else if p2.0 == key {
            p2.1
        } else if p3.0 == key {
            p3.1
        } else {
            Seq::<char>::empty()
        }),
{
    reveal_with_fuel(key_count, 5);
    reveal_with_fuel(field_of, 5);
    let ps = seq![p1, p2, p3];
    assert(ps.drop_first() =~= seq![p2, p3]);
    assert(seq![p2, p3].drop_first() =~= seq![p3]);
    assert(seq![p3].drop_first() =~= Seq::<(Seq<char>, Seq<char>)>::empty());
}

/// Decodes a datagram strictly as a discovery request.
///
/// Returns the message exactly when the text matches the canonical
/// request grammar; returns `None` on anything else, and the caller
/// silently drops the datagram.
pub fn parse_startup_message(s: &str) -> (r: Option<StartupMessage>)
    ensures
        (r is None) == (spec_parse_startup(s@) is None),
        r matches Some(m) ==> spec_parse_startup(s@) == Some((m.ip@, m.mac@, m.msg_type@)),
{
    let n = s.unicode_len();
    let i0 = skip_ws_exec(s, n, 0);
    if !(i0 < n && s.get_char(i0) == '{') {
        return None;
    }
    let j1 = skip_ws_exec(s, n, i0 + 1);
    let pr1 = parse_pair_exec(s, n, j1);
    if pr1.is_none() {
        return None;
    }
    let (k1, v1, e1) = pr1.unwrap();
    let c1 = skip_ws_exec(s, n, e1);
    if !(c1 < n && s.get_char(c1) == ',') {
        return None;
    }
    let j2 = skip_ws_exec(s, n, c1 + 1);
    let pr2 = parse_pair_exec(s, n, j2);
    if pr2.is_none() {
        return None;
    }
    let (k2, v2, e2) = pr2.unwrap();
    let c2 = skip_ws_exec(s, n, e2);
    if !(c2 < n && s.get_char(c2) == ',') {
        return None;
    }
    let j3 = skip_ws_exec(s, n, c2 + 1);
    let pr3 = parse_pair_exec(s, n, j3);
    if pr3.is_none() {
        return None;
    }
    let (k3, v3, e3) = pr3.unwrap();
    let c3 = skip_ws_exec(s, n, e3);
    if !(c3 < n && s.get_char(c3) == '}' && skip_ws_exec(s, n, c3 + 1) == n) {
        return None;
    }
    let ghost ps = seq![(k1@, v1@), (k2@, v2@), (k3@, v3@)];
    proof {
        assert(parse_object3(s@) == Some(ps));
        assert(ps.drop_first() =~= seq![(k2@, v2@), (k3@, v3@)]);
        assert(ps.drop_first().drop_first() =~= seq![(k3@, v3@)]);
        assert(ps.drop_first().drop_first().drop_first() =~= Seq::<(Seq<char>, Seq<char>)>::empty());
    }
    let lit_ip = String::from_str("ip");
    let lit_mac = String::from_str("mac");
    let lit_msg = String::from_str("msg_type");
    let k1_ip = k1 == lit_ip;
    let k2_ip = k2 == lit_ip;
    let k3_ip = k3 == lit_ip;
    let k1_mac = k1 == lit_mac;
    let k2_mac = k2 == lit_mac;
    let k3_mac = k3 == lit_mac;
    let k1_msg = k1 == lit_msg;
    let k2_msg = k2 == lit_msg;
    let k3_msg = k3 == lit_msg;
    let ip_once = (k1_ip as u8) + (k2_ip as u8) + (k3_ip as u8) == 1;
    let mac_once = (k1_mac as u8) + (k2_mac as u8) + (k3_mac as u8) == 1;
    let msg_once = (k1_msg as u8) + (k2_msg as u8) + (k3_msg as u8) == 1;
    proof {
        lemma_members3((k1@, v1@), (k2@, v2@), (k3@, v3@), "ip"@);
        lemma_members3((k1@, v1@), (k2@, v2@), (k3@, v3@), "mac"@);
        lemma_members3((k1@, v1@), (k2@, v2@), (k3@, v3@), "msg_type"@);
    }
    if !(ip_once && mac_once && msg_once) {
        return None;
    }
    let ip = if k1_ip {
        v1.clone()
    } else if k2_ip {
        v2.clone()
    } else {
        v3.clone()
    };
    let mac = if k1_mac {
        v1.clone()
    } else if k2_mac {
        v2.clone()
    } else {
        v3.clone()
    };
    let msg_type = if k1_msg {
        v1.clone()
    } else if k2_msg {
        v2.clone()
    } else {
        v3.clone()
    };
    Some(StartupMessage { ip, mac, msg_type })
}

} // verus!
