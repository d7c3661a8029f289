//! The wire encoding shared by server and client: decimal integers, JSON
//! string literals and externally tagged objects.

use vstd::prelude::*;

verus! {

/// A lowercase hexadecimal digit.
pub open spec fn hex_char(d: int) -> char {
    if 0 <= d < 10 {
        digit_char(d as nat)
    } else if d == 10 {
        'a'
    } else if d == 11 {
        'b'
    } else if d == 12 {
        'c'
    } else if d == 13 {
        'd'
    } else if d == 14 {
        'e'
    } else {
        'f'
    }
}

/// How one character is written inside a JSON string literal: quote and
/// backslash escaped, the five named control characters by their letter,
/// other control characters as `\u00xx`, everything else as it is.
pub open spec fn json_escape(c: char) -> Seq<char> {
    if c == '"' {
        seq!['\\', '"']
    } else if c == '\\' {
        seq!['\\', '\\']
    } else if c == '\x08' {
        seq!['\\', 'b']
    } else if c == '\t' {
        seq!['\\', 't']
    } else if c == '\n' {
        seq!['\\', 'n']
    } else if c == '\x0c' {
        seq!['\\', 'f']
    } else if c == '\r' {
        seq!['\\', 'r']
    } else if (c as u32) < 0x20 {
        seq!['\\', 'u', '0', '0', hex_char((c as u32 / 16) as int), hex_char((c as u32 % 16) as int)]
    } else {
        seq![c]
    }
}

/// The escaped characters of `s`, in order.
pub open spec fn json_escaped(s: Seq<char>) -> Seq<char>
    decreases s.len(),
{
    if s.len() == 0 {
        Seq::empty()
    } else {
        json_escaped(s.drop_last()) + json_escape(s.last())
    }
}

/// The JSON string literal that encodes `s`.
pub open spec fn json_string_of(s: Seq<char>) -> Seq<char> {
    seq!['"'] + json_escaped(s) + seq!['"']
}

/// Relies on `serde_json::to_string` applied to a `str`: a quote, each
/// character escaped as its `ESCAPE` table and `write_char_escape` say, and a
/// quote. Writing into its in-memory buffer cannot fail for a `str`.
#[verifier::external_body]
pub(crate) fn json_string(s: &str) -> (r: String)
    ensures
        r@ == json_string_of(s@),
{
    serde_json::to_string(s).unwrap_or_default()
}

/// The character of a decimal digit.
pub open spec fn digit_char(d: nat) -> char {
    if d == 0 {
        '0'
    } else if d == 1 {
        '1'
    } else if d == 2 {
        '2'
    } else if d == 3 {
        '3'
    } else if d == 4 {
        '4'
    } else if d == 5 {
        '5'
    } else if d == 6 {
        '6'
    } else if d == 7 {
        '7'
    } else if d == 8 {
        '8'
    } else {
        '9'
    }
}

/// The decimal digits of a natural number, most significant first.
pub open spec fn decimal_nat(n: nat) -> Seq<char>
    decreases n,
{
    if n < 10 {
        seq![digit_char(n)]
    } else {
        decimal_nat(n / 10).push(digit_char(n % 10))
    }
}

/// The decimal text of an integer, with a leading `-` when negative.
pub open spec fn decimal(i: int) -> Seq<char> {
    if i < 0 {
        seq!['-'] + decimal_nat((-i) as nat)
    } else {
        decimal_nat(i as nat)
    }
}

fn digit_str(d: u64) -> (r: &'static str)
    requires
        d < 10,
    ensures
        r@ == seq![digit_char(d as nat)],
{
    proof {
        reveal_strlit("0");
        reveal_strlit("1");
        reveal_strlit("2");
        reveal_strlit("3");
        reveal_strlit("4");
        reveal_strlit("5");
        reveal_strlit("6");
        reveal_strlit("7");
        reveal_strlit("8");
        reveal_strlit("9");
    }
    let r = if d == 0 {
        "0"
    } else if d == 1 {
        "1"
    } else if d == 2 {
        "2"
    } else if d == 3 {
        "3"
    } else if d == 4 {
        "4"
    } else if d == 5 {
        "5"
    } else if d == 6 {
        "6"
    } else if d == 7 {
        "7"
    } else if d == 8 {
        "8"
    } else {
        "9"
    };
    assert(r@ =~= seq![digit_char(d as nat)]);
    r
}

fn push_decimal_nat(n: u64, out: &mut String)
    ensures
        final(out)@ == old(out)@ + decimal_nat(n as nat),
    decreases n,
{
    if n >= 10 {
        push_decimal_nat(n / 10, out);
    }
    out.append(digit_str(n % 10));
    proof {
        if n >= 10 {
            assert(decimal_nat(n as nat) == decimal_nat((n / 10) as nat).push(
                digit_char((n % 10) as nat),
            ));
        }
        assert(final(out)@ =~= old(out)@ + decimal_nat(n as nat));
    }
}

/// The decimal text of `i`, as a JSON number.
pub fn render_decimal(i: i32) -> (r: String)
    ensures
        r@ == decimal(i as int),
{
    if i < 0 {
        let mut s = String::from_str("-");
        proof {
            reveal_strlit("-");
        }
        let wide: i64 = i as i64;
        push_decimal_nat((-wide) as u64, &mut s);
        assert(s@ =~= decimal(i as int));
        s
    } else {
        let mut s = String::new();
        push_decimal_nat(i as u64, &mut s);
        assert(s@ =~= decimal(i as int));
        s
    }
}

/// The externally tagged object `{"tag":payload}`: a single key, the variant
/// or operation name, whose value is the payload's encoding.
pub open spec fn tagged(tag: Seq<char>, payload: Seq<char>) -> Seq<char> {
    seq!['{', '"'] + tag + seq!['"', ':'] + payload + seq!['}']
}

/// A tag that needs no escaping inside its quotes.
pub open spec fn plain_tag(tag: Seq<char>) -> bool {
    forall|k: int| 0 <= k < tag.len() ==> #[trigger] tag[k] != '"' && tag[k] != '\\'
}

/// Wraps `payload` in the object whose single key is `tag`.
pub fn frame_tagged(tag: &str, payload: &str) -> (r: String)
    ensures
        r@ == tagged(tag@, payload@),
{
    proof {
        reveal_strlit("{\"");
        reveal_strlit("\":");
        reveal_strlit("}");
    }
    let mut r = String::from_str("{\"");
    r.append(tag);
    r.append("\":");
    r.append(payload);
    r.append("}");
    assert(r@ =~= tagged(tag@, payload@));
    r
}

/// JSON's insignificant whitespace.
pub open spec fn json_ws(c: char) -> bool {
    c == ' ' || c == '\t' || c == '\n' || c == '\r'
}

pub open spec fn all_ws(s: Seq<char>) -> bool {
    forall|k: int| 0 <= k < s.len() ==> json_ws(#[trigger] s[k])
}

/// A tagged object with whitespace `a` before it, `b` after its `{`, `c`
/// before its `:` and `d` after it. Whitespace around the payload belongs to
/// the payload's text.
pub open spec fn spaced(
    a: Seq<char>,
    b: Seq<char>,
    t: Seq<char>,
    c: Seq<char>,
    p: Seq<char>,
    d: Seq<char>,
) -> Seq<char> {
    a + seq!['{'] + b + seq!['"'] + t + seq!['"'] + c + seq![':'] + p + seq!['}'] + d
}

/// `s` is the object with tag `t` and payload text `p`, up to whitespace.
pub open spec fn reads_as(s: Seq<char>, t: Seq<char>, p: Seq<char>) -> bool {
    exists|a: Seq<char>, b: Seq<char>, c: Seq<char>, d: Seq<char>|
        all_ws(a) && all_ws(b) && all_ws(c) && all_ws(d) && s == #[trigger] spaced(a, b, t, c, p, d)
}

proof fn lemma_spaced_shape(
    a: Seq<char>,
    b: Seq<char>,
    t: Seq<char>,
    c: Seq<char>,
    p: Seq<char>,
    d: Seq<char>,
)
    ensures
        ({
            let s = spaced(a, b, t, c, p, d);
            let ia = a.len() as int;
            let ib = ia + 1 + b.len();
            let iq = ib + 1 + t.len();
            let ic = iq + 1 + c.len();
            let ie = s.len() - d.len() - 1;
            &&& s.len() == a.len() + b.len() + t.len() + c.len() + p.len() + d.len() + 5
            &&& ie == ic + 1 + p.len()
            &&& s.subrange(0, ia) == a
            &&& s[ia] == '{'
            &&& s.subrange(ia + 1, ib) == b
            &&& s[ib] == '"'
            &&& s.subrange(ib + 1, iq) == t
            &&& s[iq] == '"'
            &&& s.subrange(iq + 1, ic) == c
            &&& s[ic] == ':'
            &&& s.subrange(ic + 1, ie) == p
            &&& s[ie] == '}'
            &&& s.subrange(ie + 1, s.len() as int) == d
        }),
{
    let s = spaced(a, b, t, c, p, d);
    let ia = a.len() as int;
    let ib = ia + 1 + b.len();
    let iq = ib + 1 + t.len();
    let ic = iq + 1 + c.len();
    let ie = s.len() - d.len() - 1;
    assert(s.subrange(0, ia) =~= a);
    assert(s.subrange(ia + 1, ib) =~= b);
    assert(s.subrange(ib + 1, iq) =~= t);
    assert(s.subrange(iq + 1, ic) =~= c);
    assert(s.subrange(ic + 1, ie) =~= p);
    assert(s.subrange(ie + 1, s.len() as int) =~= d);
}

/// The positions of a reading, for the parser's proof: where each delimiter
/// stands is forced by the whitespace and the plain tag around it.
proof fn lemma_reading_positions(
    s: Seq<char>,
    a: Seq<char>,
    b: Seq<char>,
    t: Seq<char>,
    c: Seq<char>,
    p: Seq<char>,
    d: Seq<char>,
)
    requires
        all_ws(a),
        all_ws(b),
        all_ws(c),
        all_ws(d),
        plain_tag(t),
        s == spaced(a, b, t, c, p, d),
    ensures
        ({
            let ia = a.len() as int;
            let ib = ia + 1 + b.len();
            let iq = ib + 1 + t.len();
            let ic = iq + 1 + c.len();
            let ie = s.len() - d.len() - 1;
            &&& ia < ib < iq < ic < ie < s.len()
            &&& forall|k: int| 0 <= k < ia ==> json_ws(#[trigger] s[k])
            &&& s[ia] == '{'
            &&& forall|k: int| ia < k < ib ==> json_ws(#[trigger] s[k])
            &&& s[ib] == '"'
            &&& forall|k: int| ib < k < iq ==> #[trigger] s[k] != '"' && s[k] != '\\'
            &&& s[iq] == '"'
            &&& forall|k: int| iq < k < ic ==> json_ws(#[trigger] s[k])
            &&& s[ic] == ':'
            &&& s[ie] == '}'
            &&& forall|k: int| ie < k < s.len() ==> json_ws(#[trigger] s[k])
            &&& s.subrange(ib + 1, iq) == t
            &&& s.subrange(ic + 1, ie) == p
        }),
{
    lemma_spaced_shape(a, b, t, c, p, d);
    let ia = a.len() as int;
    let ib = ia + 1 + b.len();
    let iq = ib + 1 + t.len();
    let ic = iq + 1 + c.len();
    let ie = s.len() - d.len() - 1;
    assert forall|k: int| 0 <= k < ia implies json_ws(#[trigger] s[k]) by {
        assert(s.subrange(0, ia)[k] == s[k]);
    }
    assert forall|k: int| ia < k < ib implies json_ws(#[trigger] s[k]) by {
        assert(s.subrange(ia + 1, ib)[k - ia - 1] == s[k]);
    }
    assert forall|k: int| ib < k < iq implies #[trigger] s[k] != '"' && s[k] != '\\' by {
        assert(s.subrange(ib + 1, iq)[k - ib - 1] == s[k]);
    }
    assert forall|k: int| iq < k < ic implies json_ws(#[trigger] s[k]) by {
        assert(s.subrange(iq + 1, ic)[k - iq - 1] == s[k]);
    }
    assert forall|k: int| ie < k < s.len() implies json_ws(#[trigger] s[k]) by {
        assert(s.subrange(ie + 1, s.len() as int)[k - ie - 1] == s[k]);
    }
}

/// Where the outer scans of the parser stop on a text that reads as an
/// object: at the `{` and just after the `}`.
proof fn lemma_outer_forced(
    s: Seq<char>,
    i0: int,
    e: int,
    a: Seq<char>,
    b: Seq<char>,
    t: Seq<char>,
    c: Seq<char>,
    p: Seq<char>,
    d: Seq<char>,
)
    requires
        all_ws(a),
        all_ws(b),
        all_ws(c),
        all_ws(d),
        plain_tag(t),
        s == spaced(a, b, t, c, p, d),
        0 <= i0 <= e <= s.len(),
        forall|k: int| 0 <= k < i0 ==> json_ws(#[trigger] s[k]),
        i0 == s.len() || !json_ws(s[i0]),
        forall|k: int| e <= k < s.len() ==> json_ws(#[trigger] s[k]),
        e == i0 || !json_ws(s[e - 1]),
    ensures
        i0 == a.len(),
        e == s.len() - d.len(),
{
    lemma_reading_positions(s, a, b, t, c, p, d);
    let ia = a.len() as int;
    let ie = s.len() - d.len() - 1;
    if i0 < ia {
        assert(json_ws(s[i0]));
    } else if i0 > ia {
        assert(json_ws(s[ia]));
    }
    if e > ie + 1 {
        assert(json_ws(s[e - 1]));
    } else if e < ie + 1 {
        assert(json_ws(s[ie]));
    }
}

proof fn lemma_no_reading_outer(s: Seq<char>, i0: int, e: int)
    requires
        0 <= i0 <= e <= s.len(),
        forall|k: int| 0 <= k < i0 ==> json_ws(#[trigger] s[k]),
        i0 == s.len() || !json_ws(s[i0]),
        forall|k: int| e <= k < s.len() ==> json_ws(#[trigger] s[k]),
        e == i0 || !json_ws(s[e - 1]),
        e - i0 < 2 || s[i0] != '{' || s[e - 1] != '}',
    ensures
        forall|t: Seq<char>, p: Seq<char>| plain_tag(t) ==> !reads_as(s, t, p),
{
    assert forall|t: Seq<char>, p: Seq<char>| plain_tag(t) implies !reads_as(s, t, p) by {
        if reads_as(s, t, p) {
            let (a, b, c, d) = choose|a: Seq<char>, b: Seq<char>, c: Seq<char>, d: Seq<char>|
                all_ws(a) && all_ws(b) && all_ws(c) && all_ws(d) && s == #[trigger] spaced(
                    a,
                    b,
                    t,
                    c,
                    p,
                    d,
                );
            lemma_reading_positions(s, a, b, t, c, p, d);
            lemma_outer_forced(s, i0, e, a, b, t, c, p, d);
        }
    }
}

proof fn lemma_no_reading_inner(
    s: Seq<char>,
    i0: int,
    e: int,
    i1: int,
    q: int,
    i3: int,
    ok1: bool,
    ok2: bool,
)
    requires
        0 <= i0 <= e <= s.len(),
        forall|k: int| 0 <= k < i0 ==> json_ws(#[trigger] s[k]),
        i0 == s.len() || !json_ws(s[i0]),
        forall|k: int| e <= k < s.len() ==> json_ws(#[trigger] s[k]),
        e == i0 || !json_ws(s[e - 1]),
        i0 < i1 <= e - 1,
        forall|k: int| i0 < k < i1 ==> json_ws(#[trigger] s[k]),
        i1 == e - 1 || !json_ws(s[i1]),
        ok1 == (i1 < e - 1 && s[i1] == '"'),
        q <= e - 1,
        ok1 ==> i1 < q,
        ok1 ==> forall|k: int| i1 < k < q ==> #[trigger] s[k] != '"' && s[k] != '\\',
        q == e - 1 || s[q] == '"' || s[q] == '\\',
        ok2 == (ok1 && q < e - 1 && s[q] == '"'),
        i3 <= e - 1,
        ok2 ==> q < i3,
        ok2 ==> forall|k: int| q < k < i3 ==> json_ws(#[trigger] s[k]),
        i3 == e - 1 || !json_ws(s[i3]),
        !(ok2 && i3 < e - 1 && s[i3] == ':'),
    ensures
        forall|t: Seq<char>, p: Seq<char>| plain_tag(t) ==> !reads_as(s, t, p),
{
    assert forall|t: Seq<char>, p: Seq<char>| plain_tag(t) implies !reads_as(s, t, p) by {
        if reads_as(s, t, p) {
            let (a, b, c, d) = choose|a: Seq<char>, b: Seq<char>, c: Seq<char>, d: Seq<char>|
                all_ws(a) && all_ws(b) && all_ws(c) && all_ws(d) && s == #[trigger] spaced(
                    a,
                    b,
                    t,
                    c,
                    p,
                    d,
                );
            lemma_reading_positions(s, a, b, t, c, p, d);
            lemma_outer_forced(s, i0, e, a, b, t, c, p, d);
            let ia = a.len() as int;
            let ib = ia + 1 + b.len();
            let iq = ib + 1 + t.len();
            let ic = iq + 1 + c.len();
            if i1 < ib {
                assert(json_ws(s[i1]));
            } else if i1 > ib {
                assert(json_ws(s[ib]));
            }
            assert(ok1);
            if q < iq {
                assert(s[q] == t[q - ib - 1]);
            } else if q > iq {
                assert(s[iq] != '"');
            }
            assert(ok2);
            if i3 < ic {
                assert(json_ws(s[i3]));
            } else if i3 > ic {
                assert(json_ws(s[ic]));
            }
        }
    }
}

fn is_json_ws(c: char) -> (r: bool)
    ensures
        r == json_ws(c),
{
    c == ' ' || c == '\t' || c == '\n' || c == '\r'
}

/// Splits an externally tagged object into its tag and the text of its
/// payload, allowing JSON whitespace around the object and around its tag.
/// It succeeds exactly on the texts that read as such an object with a plain
/// tag, which includes all that `frame_tagged` produces.
pub fn parse_tagged(s: &str) -> (r: Option<(String, String)>)
    ensures
        r matches Some((t, p)) ==> plain_tag(t@) && reads_as(s@, t@, p@),
        r is None ==> forall|t: Seq<char>, p: Seq<char>| plain_tag(t) ==> !reads_as(s@, t, p),
{
    let n = s.unicode_len();
    let mut i0: usize = 0;
    while i0 < n && is_json_ws(s.get_char(i0))
        invariant
            i0 <= n,
            n == s@.len(),
            forall|k: int| 0 <= k < i0 ==> json_ws(#[trigger] s@[k]),
        decreases n - i0,
    {
        i0 += 1;
    }
    let mut e: usize = n;
    while e > i0 && is_json_ws(s.get_char(e - 1))
        invariant
            i0 <= e <= n,
            n == s@.len(),
            forall|k: int| e <= k < n ==> json_ws(#[trigger] s@[k]),
        decreases e,
    {
        e -= 1;
    }
    if e - i0 < 2 || s.get_char(i0) != '{' || s.get_char(e - 1) != '}' {
        proof {
            lemma_no_reading_outer(s@, i0 as int, e as int);
        }
        return None;
    }
    let close = e - 1;
    let mut i1: usize = i0 + 1;
    while i1 < close && is_json_ws(s.get_char(i1))
        invariant
            i0 < i1 <= close < n,
            n == s@.len(),
            forall|k: int| i0 < k < i1 ==> json_ws(#[trigger] s@[k]),
        decreases close - i1,
    {
        i1 += 1;
    }
    let ok1 = i1 < close && s.get_char(i1) == '"';
    let mut q: usize = if ok1 { i1 + 1 } else { close };
    while q < close && s.get_char(q) != '"' && s.get_char(q) != '\\'
        invariant
            ok1 ==> i1 < q,
            q <= close < n,
            n == s@.len(),
            ok1 ==> forall|k: int| i1 < k < q ==> #[trigger] s@[k] != '"' && s@[k] != '\\',
        decreases close - q,
    {
        q += 1;
    }
    let ok2 = ok1 && q < close && s.get_char(q) == '"';
    let mut i3: usize = if ok2 { q + 1 } else { close };
    while i3 < close && is_json_ws(s.get_char(i3))
        invariant
            ok2 ==> q < i3,
            i3 <= close < n,
            n == s@.len(),
            ok2 ==> forall|k: int| q < k < i3 ==> json_ws(#[trigger] s@[k]),
        decreases close - i3,
    {
        i3 += 1;
    }
    let ok3 = ok2 && i3 < close && s.get_char(i3) == ':';
    if !ok3 {
        proof {
            lemma_no_reading_inner(
                s@,
                i0 as int,
                e as int,
                i1 as int,
                q as int,
                i3 as int,
                ok1,
                ok2,
            );
        }
        return None;
    }
    let t = String::from_str(s.substring_char(i1 + 1, q));
    let p = String::from_str(s.substring_char(i3 + 1, close));
    proof {
        assert forall|k: int| 0 <= k < t@.len() implies #[trigger] t@[k] != '"' && t@[k] != '\\' by {
            assert(t@[k] == s@[k + i1 + 1]);
        }
        let a = s@.subrange(0, i0 as int);
        let b = s@.subrange(i0 + 1, i1 as int);
        let c = s@.subrange(q + 1, i3 as int);
        let d = s@.subrange(e as int, n as int);
        assert forall|k: int| 0 <= k < a.len() implies json_ws(#[trigger] a[k]) by {
            assert(a[k] == s@[k]);
        }
        assert forall|k: int| 0 <= k < b.len() implies json_ws(#[trigger] b[k]) by {
            assert(b[k] == s@[k + i0 + 1]);
        }
        assert forall|k: int| 0 <= k < c.len() implies json_ws(#[trigger] c[k]) by {
            assert(c[k] == s@[k + q + 1]);
        }
        assert forall|k: int| 0 <= k < d.len() implies json_ws(#[trigger] d[k]) by {
            assert(d[k] == s@[k + e]);
        }
        assert(s@ =~= spaced(a, b, t@, c, p@, d));
    }
    Some((t, p))
}

/// The tag and payload of a reading are unique: a text reads as at most one
/// plain tag and payload.
pub proof fn lemma_reading_unique(
    s: Seq<char>,
    t: Seq<char>,
    p: Seq<char>,
    t2: Seq<char>,
    p2: Seq<char>,
)
    requires
        plain_tag(t),
        plain_tag(t2),
        reads_as(s, t, p),
        reads_as(s, t2, p2),
    ensures
        t == t2,
        p == p2,
{
    let (a, b, c, d) = choose|a: Seq<char>, b: Seq<char>, c: Seq<char>, d: Seq<char>|
        all_ws(a) && all_ws(b) && all_ws(c) && all_ws(d) && s == #[trigger] spaced(a, b, t, c, p, d);
    let (a2, b2, c2, d2) = choose|a: Seq<char>, b: Seq<char>, c: Seq<char>, d: Seq<char>|
        all_ws(a) && all_ws(b) && all_ws(c) && all_ws(d) && s == #[trigger] spaced(
            a,
            b,
            t2,
            c,
            p2,
            d,
        );
    lemma_reading_positions(s, a, b, t, c, p, d);
    lemma_reading_positions(s, a2, b2, t2, c2, p2, d2);
    let ia = a.len() as int;
    let ia2 = a2.len() as int;
    if ia < ia2 {
        assert(json_ws(s[ia]));
    } else if ia2 < ia {
        assert(json_ws(s[ia2]));
    }
    let ib = ia + 1 + b.len();
    let ib2 = ia2 + 1 + b2.len();
    if ib < ib2 {
        assert(json_ws(s[ib]));
    } else if ib2 < ib {
        assert(json_ws(s[ib2]));
    }
    let iq = ib + 1 + t.len();
    let iq2 = ib2 + 1 + t2.len();
    if iq < iq2 {
        assert(s[iq] != '"');
    } else if iq2 < iq {
        assert(s[iq2] != '"');
    }
    let ic = iq + 1 + c.len();
    let ic2 = iq2 + 1 + c2.len();
    if ic < ic2 {
        assert(json_ws(s[ic]));
    } else if ic2 < ic {
        assert(json_ws(s[ic2]));
    }
    let ie = s.len() - d.len() - 1;
    let ie2 = s.len() - d2.len() - 1;
    if ie < ie2 {
        assert(json_ws(s[ie2]));
    } else if ie2 < ie {
        assert(json_ws(s[ie]));
    }
}

/// A framed object reads as its own tag and payload.
pub proof fn lemma_framed_reads_as(t: Seq<char>, p: Seq<char>)
    ensures
        reads_as(tagged(t, p), t, p),
{
    let e = Seq::<char>::empty();
    assert(tagged(t, p) =~= spaced(e, e, t, e, p, e));
}

/// The tag framing is lossless: whatever tag and payload a framed object is
/// read as are the ones that were framed.
pub proof fn lemma_tagged_round_trip(t: Seq<char>, p: Seq<char>, t2: Seq<char>, p2: Seq<char>)
    requires
        plain_tag(t),
        plain_tag(t2),
        reads_as(tagged(t, p), t2, p2),
    ensures
        t == t2,
        p == p2,
{
    lemma_framed_reads_as(t, p);
    lemma_reading_unique(tagged(t, p), t, p, t2, p2);
}

} // verus!
