//! The structured-payload bridge for INFO and CONNECT.
//!
//! Rendering writes the two fixed schemas as compact JSON objects with
//! fields in declaration order, absent optional fields omitted entirely.
//! Decoding hands the text to an outside JSON parser and then assembles a
//! typed value from the extracted members; the assembly is verified, and
//! exactly which member states make it succeed is part of its contract.

use vstd::prelude::*;

verus! {

use crate::text::dec_str;

/// Characters that JSON string encoding cannot write bare: the quote,
/// the backslash, and the control characters.
pub open spec fn needs_escape(c: char) -> bool {
    c == '"' || c == '\\' || (c as u32) < 32
}

pub open spec fn hex_char(d: nat) -> char
    recommends
        d < 16,
{
    if d == 0 {
        '0'
    } else if d == 1 {
        '1'
    } else if d == 2 {
        '2'
    } else if d == 3 {
        '3'
    } else if d == 4 {
        '4'
    } else if d == 5 {
        '5'
    } else if d == 6 {
        '6'
    } else if d == 7 {
        '7'
    } else if d == 8 {
        '8'
    } else if d == 9 {
        '9'
    } else if d == 10 {
        'a'
    } else if d == 11 {
        'b'
    } else if d == 12 {
        'c'
    } else if d == 13 {
        'd'
    } else if d == 14 {
        'e'
    } else {
        'f'
    }
}

/// How one character appears inside a JSON string: the named short
/// escapes, `\u00` plus two lowercase hex digits for other control
/// characters, and every other character as itself.
pub open spec fn json_escape_char(c: char) -> Seq<char> {
    if c == '"' {
        seq!['\\', '"']
    } else if c == '\\' {
        seq!['\\', '\\']
    } else if c == '\u{8}' {
        seq!['\\', 'b']
    } else if c == '\t' {
        seq!['\\', 't']
    } else if c == '\n' {
        seq!['\\', 'n']
    } else if c == '\u{c}' {
        seq!['\\', 'f']
    } else if c == '\r' {
        seq!['\\', 'r']
    } else if (c as u32) < 32 {
        seq!['\\', 'u', '0', '0', hex_char((c as u32 / 16) as nat), hex_char((c as u32 % 16) as nat)]
    } else {
        seq![c]
    }
}

pub open spec fn json_escape(s: Seq<char>) -> Seq<char>
    decreases s.len(),
{
    if s.len() == 0 {
        seq![]
    } else {
        json_escape_char(s[0]) + json_escape(s.drop_first())
    }
}

/// A JSON string: quotes around the escaped text.
pub open spec fn json_quote(s: Seq<char>) -> Seq<char> {
    seq!['"'] + json_escape(s) + seq!['"']
}

pub proof fn lemma_json_escape_singleton(c: char)
    ensures
        json_escape(seq![c]) == json_escape_char(c),
{
    let s = seq![c];
    assert(s.drop_first() =~= Seq::<char>::empty());
    assert(json_escape(s.drop_first()) =~= Seq::<char>::empty());
    assert(json_escape(s) =~= json_escape_char(c));
}

pub proof fn lemma_json_escape_concat(a: Seq<char>, b: Seq<char>)
    ensures
        json_escape(a + b) == json_escape(a) + json_escape(b),
    decreases a.len(),
{
    if a.len() == 0 {
        assert(a + b =~= b);
        assert(json_escape(a) =~= Seq::<char>::empty());
        assert(json_escape(a) + json_escape(b) =~= json_escape(b));
    } else {
        assert((a + b)[0] == a[0]);
        assert((a + b).drop_first() =~= a.drop_first() + b);
        lemma_json_escape_concat(a.drop_first(), b);
        assert(json_escape(a + b) =~= json_escape_char(a[0]) + (json_escape(a.drop_first())
            + json_escape(b)));
        assert(json_escape_char(a[0]) + (json_escape(a.drop_first()) + json_escape(b)) =~= (
        json_escape_char(a[0]) + json_escape(a.drop_first())) + json_escape(b));
    }
}

/// Text with nothing to escape passes through unchanged.
pub proof fn lemma_json_escape_plain(s: Seq<char>)
    requires
        forall|i: int| 0 <= i < s.len() ==> !needs_escape(s[i]),
    ensures
        json_escape(s) == s,
    decreases s.len(),
{
    if s.len() == 0 {
        assert(json_escape(s) =~= s);
    } else {
        assert(!needs_escape(s[0]));
        assert(json_escape_char(s[0]) == seq![s[0]]);
        assert forall|i: int| 0 <= i < s.drop_first().len() implies !needs_escape(
            s.drop_first()[i],
        ) by {
            assert(s.drop_first()[i] == s[i + 1]);
        }
        lemma_json_escape_plain(s.drop_first());
        assert(json_escape(s) =~= s);
    }
}

fn hex_to_str(d: u32) -> (r: &'static str)
    requires
        d < 16,
    ensures
        r@ == seq![hex_char(d as nat)],
{
    proof {
        reveal_strlit("0");
        reveal_strlit("1");
        reveal_strlit("2");
        reveal_strlit("3");
        reveal_strlit("4");
        reveal_strlit("5");
        reveal_strlit("6");
        reveal_strlit("7");
        reveal_strlit("8");
        reveal_strlit("9");
        reveal_strlit("a");
        reveal_strlit("b");
        reveal_strlit("c");
        reveal_strlit("d");
        reveal_strlit("e");
        reveal_strlit("f");
    }
    let r = if d == 0 {
        "0"
    } else if d == 1 {
        "1"
    } else if d == 2 {
        "2"
    } else if d == 3 {
        "3"
    } else if d == 4 {
        "4"
    } else if d == 5 {
        "5"
    } else if d == 6 {
        "6"
    } else if d == 7 {
        "7"
    } else if d == 8 {
        "8"
    } else if d == 9 {
        "9"
    } else if d == 10 {
        "a"
    } else if d == 11 {
        "b"
    } else if d == 12 {
        "c"
    } else if d == 13 {
        "d"
    } else if d == 14 {
        "e"
    } else {
        "f"
    };
    proof {
        assert(r@ =~= seq![hex_char(d as nat)]);
    }
    r
}

/// The escape text of one character that needs escaping.
fn escape_code_text(c: char) -> (r: String)
    requires
        needs_escape(c),
    ensures
        r@ == json_escape_char(c),
{
    proof {
        reveal_strlit("\\\"");
        reveal_strlit("\\\\");
        reveal_strlit("\\b");
        reveal_strlit("\\t");
        reveal_strlit("\\n");
        reveal_strlit("\\f");
        reveal_strlit("\\r");
        reveal_strlit("\\u00");
    }
    if c == '"' {
        let r = String::from_str("\\\"");
        proof {
            assert(r@ =~= json_escape_char(c));
        }
        r
    } else if c == '\\' {
        let r = String::from_str("\\\\");
        proof {
            assert(r@ =~= json_escape_char(c));
        }
        r
    } else if c == '\u{8}' {
        let r = String::from_str("\\b");
        proof {
            assert(r@ =~= json_escape_char(c));
        }
        r
    } else if c == '\t' {
        let r = String::from_str("\\t");
        proof {
            assert(r@ =~= json_escape_char(c));
        }
        r
    } else if c == '\n' {
        let r = String::from_str("\\n");
        proof {
            assert(r@ =~= json_escape_char(c));
        }
        r
    } else if c == '\u{c}' {
        let r = String::from_str("\\f");
        proof {
            assert(r@ =~= json_escape_char(c));
        }
        r
    } else if c == '\r' {
        let r = String::from_str("\\r");
        proof {
            assert(r@ =~= json_escape_char(c));
        }
        r
    } else {
        let v = c as u32;
        let mut r = String::from_str("\\u00");
        r.append(hex_to_str(v / 16));
        r.append(hex_to_str(v % 16));
        proof {
            assert(r@ =~= json_escape_char(c));
        }
        r
    }
}

/// Append `s` to `out` in JSON string escaping.
fn append_escaped(out: &mut String, s: &str)
    ensures
        final(out)@ == old(out)@ + json_escape(s@),
{
    let n = s.unicode_len();
    let mut start: usize = 0;
    let mut i: usize = 0;
    while i < n
        invariant
            n == s@.len(),
            0 <= start <= i <= n,
            forall|k: int| start <= k < i ==> !needs_escape(s@[k]),
            out@ == old(out)@ + json_escape(s@.take(start as int)),
        decreases n - i,
    {
        let c = s.get_char(i);
        if c == '"' || c == '\\' || (c as u32) < 32 {
            let chunk = s.substring_char(start, i);
            out.append(chunk);
            let esc = escape_code_text(c);
            out.append(esc.as_str());
            proof {
                assert(chunk@ =~= s@.subrange(start as int, i as int));
                lemma_json_escape_plain(chunk@);
                lemma_json_escape_concat(s@.take(start as int), chunk@);
                assert(s@.take(start as int) + chunk@ =~= s@.take(i as int));
                lemma_json_escape_concat(s@.take(i as int), seq![s@[i as int]]);
                assert(s@.take(i as int) + seq![s@[i as int]] =~= s@.take(i + 1));
                lemma_json_escape_singleton(s@[i as int]);
                assert(out@ =~= old(out)@ + json_escape(s@.take(i + 1)));
            }
            i = i + 1;
            start = i;
        } else {
            i = i + 1;
        }
    }
    let chunk = s.substring_char(start, n);
    out.append(chunk);
    proof {
        assert(chunk@ =~= s@.subrange(start as int, n as int));
        lemma_json_escape_plain(chunk@);
        lemma_json_escape_concat(s@.take(start as int), chunk@);
        assert(s@.take(start as int) + chunk@ =~= s@);
        assert(out@ =~= old(out)@ + json_escape(s@));
    }
}

/// Append `s` to `out` as a JSON string, quotes included.
fn append_quoted(out: &mut String, s: &str)
    ensures
        final(out)@ == old(out)@ + json_quote(s@),
{
    proof {
        reveal_strlit("\"");
    }
    out.append("\"");
    append_escaped(out, s);
    out.append("\"");
    proof {
        assert(out@ =~= old(out)@ + json_quote(s@));
    }
}

} // verus!

verus! {

/// One `"key":value` member; the value text is already encoded.
pub open spec fn member_text(k: Seq<char>, v: Seq<char>) -> Seq<char> {
    json_quote(k) + seq![':'] + v
}

/// The members of an object, comma-separated, in order.
pub open spec fn json_members(ps: Seq<(Seq<char>, Seq<char>)>) -> Seq<char>
    decreases ps.len(),
{
    if ps.len() == 0 {
        seq![]
    } else if ps.len() == 1 {
        member_text(ps[0].0, ps[0].1)
    } else {
        member_text(ps[0].0, ps[0].1) + seq![','] + json_members(ps.drop_first())
    }
}

/// A compact JSON object over ordered members.
pub open spec fn json_object_text(ps: Seq<(Seq<char>, Seq<char>)>) -> Seq<char> {
    seq!['{'] + json_members(ps) + seq!['}']
}

pub proof fn lemma_members_push(ps: Seq<(Seq<char>, Seq<char>)>, k: Seq<char>, v: Seq<char>)
    ensures
        ps.len() == 0 ==> json_members(ps.push((k, v))) == member_text(k, v),
        ps.len() > 0 ==> json_members(ps.push((k, v))) == json_members(ps) + seq![',']
            + member_text(k, v),
    decreases ps.len(),
{
    let q = ps.push((k, v));
    if ps.len() == 0 {
        assert(q.len() == 1);
        assert(q[0] == (k, v));
        assert(json_members(q) =~= member_text(k, v));
    } else {
        assert(q[0] == ps[0]);
        assert(q.drop_first() =~= ps.drop_first().push((k, v)));
        lemma_members_push(ps.drop_first(), k, v);
        if ps.len() == 1 {
            assert(ps.drop_first().len() == 0);
            assert(json_members(q) =~= json_members(ps) + seq![','] + member_text(k, v));
        } else {
            assert(json_members(ps) =~= member_text(ps[0].0, ps[0].1) + seq![','] + json_members(
                ps.drop_first(),
            ));
            assert(json_members(q) =~= json_members(ps) + seq![','] + member_text(k, v));
        }
    }
}

/// The elements of a JSON array of strings, comma-separated.
pub open spec fn json_arr_members(xs: Seq<Seq<char>>) -> Seq<char>
    decreases xs.len(),
{
    if xs.len() == 0 {
        seq![]
    } else if xs.len() == 1 {
        json_quote(xs[0])
    } else {
        json_quote(xs[0]) + seq![','] + json_arr_members(xs.drop_first())
    }
}

pub open spec fn json_str_array_text(xs: Seq<Seq<char>>) -> Seq<char> {
    seq!['['] + json_arr_members(xs) + seq![']']
}

pub proof fn lemma_arr_members_push(xs: Seq<Seq<char>>, x: Seq<char>)
    ensures
        xs.len() == 0 ==> json_arr_members(xs.push(x)) == json_quote(x),
        xs.len() > 0 ==> json_arr_members(xs.push(x)) == json_arr_members(xs) + seq![',']
            + json_quote(x),
    decreases xs.len(),
{
    let q = xs.push(x);
    if xs.len() == 0 {
        assert(q.len() == 1);
        assert(q[0] == x);
        assert(json_arr_members(q) =~= json_quote(x));
    } else {
        assert(q[0] == xs[0]);
        assert(q.drop_first() =~= xs.drop_first().push(x));
        lemma_arr_members_push(xs.drop_first(), x);
        if xs.len() == 1 {
            assert(xs.drop_first().len() == 0);
            assert(json_arr_members(q) =~= json_arr_members(xs) + seq![','] + json_quote(x));
        } else {
            assert(json_arr_members(xs) =~= json_quote(xs[0]) + seq![','] + json_arr_members(
                xs.drop_first(),
            ));
            assert(json_arr_members(q) =~= json_arr_members(xs) + seq![','] + json_quote(x));
        }
    }
}

pub open spec fn json_bool_text(b: bool) -> Seq<char> {
    if b {
        "true"@
    } else {
        "false"@
    }
}

/// The members an optional string field contributes: none when absent.
pub open spec fn opt_str_pairs(k: Seq<char>, v: Option<Seq<char>>) -> Seq<(Seq<char>, Seq<char>)> {
    match v {
        None => seq![],
        Some(s) => seq![(k, json_quote(s))],
    }
}

pub open spec fn opt_u64_pairs(k: Seq<char>, v: Option<u64>) -> Seq<(Seq<char>, Seq<char>)> {
    match v {
        None => seq![],
        Some(n) => seq![(k, dec_str(n as nat))],
    }
}

pub open spec fn opt_usize_pairs(k: Seq<char>, v: Option<usize>) -> Seq<(Seq<char>, Seq<char>)> {
    match v {
        None => seq![],
        Some(n) => seq![(k, dec_str(n as nat))],
    }
}

pub open spec fn opt_arr_pairs(k: Seq<char>, v: Option<Seq<Seq<char>>>) -> Seq<
    (Seq<char>, Seq<char>),
> {
    match v {
        None => seq![],
        Some(xs) => seq![(k, json_str_array_text(xs))],
    }
}

/// The members of a rendered CONNECT body, in declaration order, with
/// absent optional fields contributing no member at all.
pub open spec fn connect_pairs(m: crate::ConnectionInformationModel) -> Seq<
    (Seq<char>, Seq<char>),
> {
    seq![("verbose"@, json_bool_text(m.verbose))] + seq![("pedantic"@, json_bool_text(m.pedantic))]
        + seq![("tls_required"@, json_bool_text(m.tls_required))] + opt_str_pairs(
        "auth_token"@,
        m.auth_token,
    ) + opt_str_pairs("user"@, m.user) + opt_str_pairs("pass"@, m.pass) + seq![
        ("lang"@, json_quote(m.lang)),
    ] + seq![("name"@, json_quote(m.name))] + seq![("version"@, json_quote(m.version))]
        + opt_u64_pairs("protocol"@, m.protocol) + opt_str_pairs("sig"@, m.sig) + opt_str_pairs(
        "jwt"@,
        m.jwt,
    )
}

pub open spec fn connect_json(m: crate::ConnectionInformationModel) -> Seq<char> {
    json_object_text(connect_pairs(m))
}

/// The members of a rendered INFO body, in declaration order.
pub open spec fn info_pairs(m: crate::ServerInformationModel) -> Seq<(Seq<char>, Seq<char>)> {
    seq![("server_id"@, json_quote(m.server_id))] + seq![("version"@, json_quote(m.version))]
        + opt_usize_pairs("proto"@, m.proto) + seq![("go"@, json_quote(m.go))] + seq![
        ("host"@, json_quote(m.host)),
    ] + seq![("port"@, dec_str(m.port as nat))] + seq![
        ("auth_required"@, json_bool_text(m.auth_required)),
    ] + seq![("tls_required"@, json_bool_text(m.tls_required))] + seq![
        ("max_payload"@, dec_str(m.max_payload as nat)),
    ] + opt_usize_pairs("client_id"@, m.client_id) + opt_arr_pairs(
        "connect_urls"@,
        m.connect_urls,
    ) + opt_str_pairs("nonce"@, m.nonce)
}

pub open spec fn info_json(m: crate::ServerInformationModel) -> Seq<char> {
    json_object_text(info_pairs(m))
}

} // verus!

verus! {

use crate::text::u64_to_string;
use crate::{ConnectionInformation, ServerInformation};

fn bool_str(b: bool) -> (r: &'static str)
    ensures
        r@ == json_bool_text(b),
{
    if b {
        "true"
    } else {
        "false"
    }
}

/// Append one member whose value text is already encoded, with a leading
/// comma when it does not open the object.
fn append_member_raw(out: &mut String, comma: bool, key: &str, val: &str)
    ensures
        comma ==> final(out)@ == old(out)@ + seq![','] + member_text(key@, val@),
        !comma ==> final(out)@ == old(out)@ + member_text(key@, val@),
{
    proof {
        reveal_strlit(",");
        reveal_strlit(":");
    }
    if comma {
        out.append(",");
    }
    append_quoted(out, key);
    out.append(":");
    out.append(val);
    proof {
        if comma {
            assert(out@ =~= old(out)@ + seq![','] + member_text(key@, val@));
        } else {
            assert(out@ =~= old(out)@ + member_text(key@, val@));
        }
    }
}

/// Append one string-valued member.
fn append_member_str(out: &mut String, comma: bool, key: &str, val: &str)
    ensures
        comma ==> final(out)@ == old(out)@ + seq![','] + member_text(key@, json_quote(val@)),
        !comma ==> final(out)@ == old(out)@ + member_text(key@, json_quote(val@)),
{
    proof {
        reveal_strlit(",");
        reveal_strlit(":");
    }
    if comma {
        out.append(",");
    }
    append_quoted(out, key);
    out.append(":");
    append_quoted(out, val);
    proof {
        if comma {
            assert(out@ =~= old(out)@ + seq![','] + member_text(key@, json_quote(val@)));
        } else {
            assert(out@ =~= old(out)@ + member_text(key@, json_quote(val@)));
        }
    }
}

/// Append one number-valued member.
fn append_member_u64(out: &mut String, comma: bool, key: &str, v: u64)
    ensures
        comma ==> final(out)@ == old(out)@ + seq![','] + member_text(key@, dec_str(v as nat)),
        !comma ==> final(out)@ == old(out)@ + member_text(key@, dec_str(v as nat)),
{
    let s = u64_to_string(v);
    append_member_raw(out, comma, key, s.as_str());
}

/// A JSON array of strings.
#[verifier::rlimit(50)]
fn str_array_text(xs: &Vec<String>) -> (r: String)
    ensures
        r@ == json_str_array_text(xs.deep_view()),
{
    proof {
        reveal_strlit("[");
        reveal_strlit("]");
        reveal_strlit(",");
    }
    let mut out = String::from_str("[");
    let mut i: usize = 0;
    proof {
        assert(xs.deep_view().take(0) =~= Seq::<Seq<char>>::empty());
        assert(out@ =~= seq!['['] + json_arr_members(xs.deep_view().take(0)));
    }
    while i < xs.len()
        invariant
            0 <= i <= xs@.len(),
            out@ == seq!['['] + json_arr_members(xs.deep_view().take(i as int)),
        decreases xs@.len() - i,
    {
        proof {
            assert(xs.deep_view().take(i as int).len() == i);
        }
        if i > 0 {
            proof {
                reveal_strlit(",");
            }
            out.append(",");
            append_quoted(&mut out, xs[i].as_str());
            proof {
                let prev = xs.deep_view().take(i as int);
                lemma_arr_members_push(prev, xs.deep_view()[i as int]);
                assert(prev.push(xs.deep_view()[i as int]) =~= xs.deep_view().take(i + 1));
                assert(xs.deep_view()[i as int] == xs@[i as int]@);
                assert(out@ =~= seq!['['] + json_arr_members(xs.deep_view().take(i + 1)));
            }
        } else {
            append_quoted(&mut out, xs[i].as_str());
            proof {
                let prev = xs.deep_view().take(i as int);
                lemma_arr_members_push(prev, xs.deep_view()[i as int]);
                assert(prev.push(xs.deep_view()[i as int]) =~= xs.deep_view().take(i + 1));
                assert(xs.deep_view()[i as int] == xs@[i as int]@);
                assert(out@ =~= seq!['['] + json_arr_members(xs.deep_view().take(i + 1)));
            }
        }
        i = i + 1;
    }
    out.append("]");
    proof {
        assert(xs.deep_view().take(xs@.len() as int) =~= xs.deep_view());
        assert(out@ =~= json_str_array_text(xs.deep_view()));
    }
    out
}

} // verus!

verus! {

/// The text an optional member contributes after the opening members of
/// an object: nothing when absent, a comma and the member when present.
pub open spec fn opt_str_member_text(k: Seq<char>, v: Option<Seq<char>>) -> Seq<char> {
    match v {
        None => seq![],
        Some(s) => seq![','] + member_text(k, json_quote(s)),
    }
}

pub open spec fn opt_u64_member_text(k: Seq<char>, v: Option<u64>) -> Seq<char> {
    match v {
        None => seq![],
        Some(n) => seq![','] + member_text(k, dec_str(n as nat)),
    }
}

pub open spec fn opt_usize_member_text(k: Seq<char>, v: Option<usize>) -> Seq<char> {
    match v {
        None => seq![],
        Some(n) => seq![','] + member_text(k, dec_str(n as nat)),
    }
}

pub open spec fn opt_arr_member_text(k: Seq<char>, v: Option<Seq<Seq<char>>>) -> Seq<char> {
    match v {
        None => seq![],
        Some(xs) => seq![','] + member_text(k, json_str_array_text(xs)),
    }
}

pub proof fn lemma_members_concat_one(ps: Seq<(Seq<char>, Seq<char>)>, k: Seq<char>, v: Seq<char>)
    requires
        ps.len() > 0,
    ensures
        json_members(ps + seq![(k, v)]) == json_members(ps) + seq![','] + member_text(k, v),
{
    assert(ps + seq![(k, v)] =~= ps.push((k, v)));
    lemma_members_push(ps, k, v);
}

pub proof fn lemma_members_opt_str(
    ps: Seq<(Seq<char>, Seq<char>)>,
    k: Seq<char>,
    ov: Option<Seq<char>>,
)
    requires
        ps.len() > 0,
    ensures
        json_members(ps + opt_str_pairs(k, ov)) == json_members(ps) + opt_str_member_text(k, ov),
{
    match ov {
        None => {
            assert(ps + opt_str_pairs(k, ov) =~= ps);
            assert(json_members(ps) + opt_str_member_text(k, ov) =~= json_members(ps));
        },
        Some(s) => {
            lemma_members_concat_one(ps, k, json_quote(s));
            assert(json_members(ps) + seq![','] + member_text(k, json_quote(s)) =~= json_members(
                ps,
            ) + opt_str_member_text(k, ov));
        },
    }
}

pub proof fn lemma_members_opt_u64(ps: Seq<(Seq<char>, Seq<char>)>, k: Seq<char>, ov: Option<u64>)
    requires
        ps.len() > 0,
    ensures
        json_members(ps + opt_u64_pairs(k, ov)) == json_members(ps) + opt_u64_member_text(k, ov),
{
    match ov {
        None => {
            assert(ps + opt_u64_pairs(k, ov) =~= ps);
            assert(json_members(ps) + opt_u64_member_text(k, ov) =~= json_members(ps));
        },
        Some(n) => {
            lemma_members_concat_one(ps, k, dec_str(n as nat));
            assert(json_members(ps) + seq![','] + member_text(k, dec_str(n as nat))
                =~= json_members(ps) + opt_u64_member_text(k, ov));
        },
    }
}

pub proof fn lemma_members_opt_usize(
    ps: Seq<(Seq<char>, Seq<char>)>,
    k: Seq<char>,
    ov: Option<usize>,
)
    requires
        ps.len() > 0,
    ensures
        json_members(ps + opt_usize_pairs(k, ov)) == json_members(ps) + opt_usize_member_text(
            k,
            ov,
        ),
{
    match ov {
        None => {
            assert(ps + opt_usize_pairs(k, ov) =~= ps);
            assert(json_members(ps) + opt_usize_member_text(k, ov) =~= json_members(ps));
        },
        Some(n) => {
            lemma_members_concat_one(ps, k, dec_str(n as nat));
            assert(json_members(ps) + seq![','] + member_text(k, dec_str(n as nat))
                =~= json_members(ps) + opt_usize_member_text(k, ov));
        },
    }
}

pub proof fn lemma_members_opt_arr(
    ps: Seq<(Seq<char>, Seq<char>)>,
    k: Seq<char>,
    ov: Option<Seq<Seq<char>>>,
)
    requires
        ps.len() > 0,
    ensures
        json_members(ps + opt_arr_pairs(k, ov)) == json_members(ps) + opt_arr_member_text(k, ov),
{
    match ov {
        None => {
            assert(ps + opt_arr_pairs(k, ov) =~= ps);
            assert(json_members(ps) + opt_arr_member_text(k, ov) =~= json_members(ps));
        },
        Some(xs) => {
            lemma_members_concat_one(ps, k, json_str_array_text(xs));
            assert(json_members(ps) + seq![','] + member_text(k, json_str_array_text(xs))
                =~= json_members(ps) + opt_arr_member_text(k, ov));
        },
    }
}

} // verus!

verus! {

use crate::{ConnectionInformationModel, ServerInformationModel};

/// One member opens the object.
proof fn lemma_obj_first(k: Seq<char>, v: Seq<char>)
    ensures
        seq!['{'] + json_members(seq![(k, v)]) == seq!['{'] + member_text(k, v),
{
    assert(json_members(seq![(k, v)]) =~= member_text(k, v));
}

/// A further required member extends the text with a comma and itself.
proof fn lemma_obj_step_one(ps: Seq<(Seq<char>, Seq<char>)>, k: Seq<char>, v: Seq<char>)
    requires
        ps.len() > 0,
    ensures
        seq!['{'] + json_members(ps + seq![(k, v)]) == seq!['{'] + json_members(ps) + seq![',']
            + member_text(k, v),
{
    lemma_members_concat_one(ps, k, v);
    assert(seq!['{'] + json_members(ps + seq![(k, v)]) =~= seq!['{'] + json_members(ps) + seq![',']
        + member_text(k, v));
}

/// An optional member extends the text with what it contributes.
proof fn lemma_obj_step_opt_str(ps: Seq<(Seq<char>, Seq<char>)>, k: Seq<char>, ov: Option<Seq<char>>)
    requires
        ps.len() > 0,
    ensures
        seq!['{'] + json_members(ps + opt_str_pairs(k, ov)) == seq!['{'] + json_members(ps)
            + opt_str_member_text(k, ov),
{
    lemma_members_opt_str(ps, k, ov);
    assert(seq!['{'] + json_members(ps + opt_str_pairs(k, ov)) =~= seq!['{'] + json_members(ps)
        + opt_str_member_text(k, ov));
}

proof fn lemma_obj_step_opt_u64(ps: Seq<(Seq<char>, Seq<char>)>, k: Seq<char>, ov: Option<u64>)
    requires
        ps.len() > 0,
    ensures
        seq!['{'] + json_members(ps + opt_u64_pairs(k, ov)) == seq!['{'] + json_members(ps)
            + opt_u64_member_text(k, ov),
{
    lemma_members_opt_u64(ps, k, ov);
    assert(seq!['{'] + json_members(ps + opt_u64_pairs(k, ov)) =~= seq!['{'] + json_members(ps)
        + opt_u64_member_text(k, ov));
}

proof fn lemma_obj_step_opt_usize(ps: Seq<(Seq<char>, Seq<char>)>, k: Seq<char>, ov: Option<usize>)
    requires
        ps.len() > 0,
    ensures
        seq!['{'] + json_members(ps + opt_usize_pairs(k, ov)) == seq!['{'] + json_members(ps)
            + opt_usize_member_text(k, ov),
{
    lemma_members_opt_usize(ps, k, ov);
    assert(seq!['{'] + json_members(ps + opt_usize_pairs(k, ov)) =~= seq!['{'] + json_members(ps)
        + opt_usize_member_text(k, ov));
}

proof fn lemma_obj_step_opt_arr(
    ps: Seq<(Seq<char>, Seq<char>)>,
    k: Seq<char>,
    ov: Option<Seq<Seq<char>>>,
)
    requires
        ps.len() > 0,
    ensures
        seq!['{'] + json_members(ps + opt_arr_pairs(k, ov)) == seq!['{'] + json_members(ps)
            + opt_arr_member_text(k, ov),
{
    lemma_members_opt_arr(ps, k, ov);
    assert(seq!['{'] + json_members(ps + opt_arr_pairs(k, ov)) =~= seq!['{'] + json_members(ps)
        + opt_arr_member_text(k, ov));
}

/// `connect_json` spelled out member by member.
#[verifier::rlimit(100)]
pub proof fn lemma_connect_json_unfold(m: ConnectionInformationModel)
    ensures
        connect_json(m) == seq!['{'] + member_text("verbose"@, json_bool_text(m.verbose)) + seq![
            ',',
        ] + member_text("pedantic"@, json_bool_text(m.pedantic)) + seq![','] + member_text(
            "tls_required"@,
            json_bool_text(m.tls_required),
        ) + opt_str_member_text("auth_token"@, m.auth_token) + opt_str_member_text(
            "user"@,
            m.user,
        ) + opt_str_member_text("pass"@, m.pass) + seq![','] + member_text(
            "lang"@,
            json_quote(m.lang),
        ) + seq![','] + member_text("name"@, json_quote(m.name)) + seq![','] + member_text(
            "version"@,
            json_quote(m.version),
        ) + opt_u64_member_text("protocol"@, m.protocol) + opt_str_member_text("sig"@, m.sig)
            + opt_str_member_text("jwt"@, m.jwt) + seq!['}'],
{
    let q1 = seq![("verbose"@, json_bool_text(m.verbose))];
    let q2 = q1 + seq![("pedantic"@, json_bool_text(m.pedantic))];
    let q3 = q2 + seq![("tls_required"@, json_bool_text(m.tls_required))];
    let q4 = q3 + opt_str_pairs("auth_token"@, m.auth_token);
    let q5 = q4 + opt_str_pairs("user"@, m.user);
    let q6 = q5 + opt_str_pairs("pass"@, m.pass);
    let q7 = q6 + seq![("lang"@, json_quote(m.lang))];
    let q8 = q7 + seq![("name"@, json_quote(m.name))];
    let q9 = q8 + seq![("version"@, json_quote(m.version))];
    let q10 = q9 + opt_u64_pairs("protocol"@, m.protocol);
    let q11 = q10 + opt_str_pairs("sig"@, m.sig);
    let q12 = q11 + opt_str_pairs("jwt"@, m.jwt);
    lemma_obj_first("verbose"@, json_bool_text(m.verbose));
    lemma_obj_step_one(q1, "pedantic"@, json_bool_text(m.pedantic));
    lemma_obj_step_one(q2, "tls_required"@, json_bool_text(m.tls_required));
    lemma_obj_step_opt_str(q3, "auth_token"@, m.auth_token);
    lemma_obj_step_opt_str(q4, "user"@, m.user);
    lemma_obj_step_opt_str(q5, "pass"@, m.pass);
    lemma_obj_step_one(q6, "lang"@, json_quote(m.lang));
    lemma_obj_step_one(q7, "name"@, json_quote(m.name));
    lemma_obj_step_one(q8, "version"@, json_quote(m.version));
    lemma_obj_step_opt_u64(q9, "protocol"@, m.protocol);
    lemma_obj_step_opt_str(q10, "sig"@, m.sig);
    lemma_obj_step_opt_str(q11, "jwt"@, m.jwt);
    assert(connect_pairs(m) == q12);
}

/// `info_json` spelled out member by member.
#[verifier::rlimit(100)]
pub proof fn lemma_info_json_unfold(m: ServerInformationModel)
    ensures
        info_json(m) == seq!['{'] + member_text("server_id"@, json_quote(m.server_id)) + seq![',']
            + member_text("version"@, json_quote(m.version)) + opt_usize_member_text(
            "proto"@,
            m.proto,
        ) + seq![','] + member_text("go"@, json_quote(m.go)) + seq![','] + member_text(
            "host"@,
            json_quote(m.host),
        ) + seq![','] + member_text("port"@, dec_str(m.port as nat)) + seq![','] + member_text(
            "auth_required"@,
            json_bool_text(m.auth_required),
        ) + seq![','] + member_text("tls_required"@, json_bool_text(m.tls_required)) + seq![',']
            + member_text("max_payload"@, dec_str(m.max_payload as nat)) + opt_usize_member_text(
            "client_id"@,
            m.client_id,
        ) + opt_arr_member_text("connect_urls"@, m.connect_urls) + opt_str_member_text(
            "nonce"@,
            m.nonce,
        ) + seq!['}'],
{
    let q1 = seq![("server_id"@, json_quote(m.server_id))];
    let q2 = q1 + seq![("version"@, json_quote(m.version))];
    let q3 = q2 + opt_usize_pairs("proto"@, m.proto);
    let q4 = q3 + seq![("go"@, json_quote(m.go))];
    let q5 = q4 + seq![("host"@, json_quote(m.host))];
    let q6 = q5 + seq![("port"@, dec_str(m.port as nat))];
    let q7 = q6 + seq![("auth_required"@, json_bool_text(m.auth_required))];
    let q8 = q7 + seq![("tls_required"@, json_bool_text(m.tls_required))];
    let q9 = q8 + seq![("max_payload"@, dec_str(m.max_payload as nat))];
    let q10 = q9 + opt_usize_pairs("client_id"@, m.client_id);
    let q11 = q10 + opt_arr_pairs("connect_urls"@, m.connect_urls);
    let q12 = q11 + opt_str_pairs("nonce"@, m.nonce);
    lemma_obj_first("server_id"@, json_quote(m.server_id));
    lemma_obj_step_one(q1, "version"@, json_quote(m.version));
    lemma_obj_step_opt_usize(q2, "proto"@, m.proto);
    lemma_obj_step_one(q3, "go"@, json_quote(m.go));
    lemma_obj_step_one(q4, "host"@, json_quote(m.host));
    lemma_obj_step_one(q5, "port"@, dec_str(m.port as nat));
    lemma_obj_step_one(q6, "auth_required"@, json_bool_text(m.auth_required));
    lemma_obj_step_one(q7, "tls_required"@, json_bool_text(m.tls_required));
    lemma_obj_step_one(q8, "max_payload"@, dec_str(m.max_payload as nat));
    lemma_obj_step_opt_usize(q9, "client_id"@, m.client_id);
    lemma_obj_step_opt_arr(q10, "connect_urls"@, m.connect_urls);
    lemma_obj_step_opt_str(q11, "nonce"@, m.nonce);
    assert(info_pairs(m) == q12);
}

} // verus!

verus! {

/// Append an optional string member, contributing nothing when absent.
fn append_opt_str_member(out: &mut String, key: &str, v: &Option<String>)
    ensures
        final(out)@ == old(out)@ + opt_str_member_text(key@, v.deep_view()),
{
    match v {
        Some(s) => {
            append_member_str(out, true, key, s.as_str());
            proof {
                assert(out@ =~= old(out)@ + opt_str_member_text(key@, v.deep_view()));
            }
        },
        None => {
            proof {
                assert(out@ =~= old(out)@ + opt_str_member_text(key@, v.deep_view()));
            }
        },
    }
}

fn append_opt_u64_member(out: &mut String, key: &str, v: &Option<u64>)
    ensures
        final(out)@ == old(out)@ + opt_u64_member_text(key@, *v),
{
    match v {
        Some(n) => {
            append_member_u64(out, true, key, *n);
            proof {
                assert(out@ =~= old(out)@ + opt_u64_member_text(key@, *v));
            }
        },
        None => {
            proof {
                assert(out@ =~= old(out)@ + opt_u64_member_text(key@, *v));
            }
        },
    }
}

fn append_opt_usize_member(out: &mut String, key: &str, v: &Option<usize>)
    ensures
        final(out)@ == old(out)@ + opt_usize_member_text(key@, *v),
{
    match v {
        Some(n) => {
            append_member_u64(out, true, key, *n as u64);
            proof {
                assert(out@ =~= old(out)@ + opt_usize_member_text(key@, *v));
            }
        },
        None => {
            proof {
                assert(out@ =~= old(out)@ + opt_usize_member_text(key@, *v));
            }
        },
    }
}

fn append_opt_arr_member(out: &mut String, key: &str, v: &Option<Vec<String>>)
    ensures
        final(out)@ == old(out)@ + opt_arr_member_text(key@, v.deep_view()),
{
    match v {
        Some(xs) => {
            let arr = str_array_text(xs);
            append_member_raw(out, true, key, arr.as_str());
            proof {
                assert(out@ =~= old(out)@ + opt_arr_member_text(key@, v.deep_view()));
            }
        },
        None => {
            proof {
                assert(out@ =~= old(out)@ + opt_arr_member_text(key@, v.deep_view()));
            }
        },
    }
}

/// The canonical CONNECT body: every field in declaration order, absent
/// optional fields omitted.
#[verifier::rlimit(100)]
pub fn connect_json_string(ci: &ConnectionInformation) -> (r: String)
    ensures
        r@ == connect_json(ci@),
{
    proof {
        reveal_strlit("{");
        reveal_strlit("}");
    }
    let mut out = String::from_str("{");
    proof {
        assert(out@ =~= seq!['{']);
    }
    append_member_raw(&mut out, false, "verbose", bool_str(ci.verbose));
    append_member_raw(&mut out, true, "pedantic", bool_str(ci.pedantic));
    append_member_raw(&mut out, true, "tls_required", bool_str(ci.tls_required));
    append_opt_str_member(&mut out, "auth_token", &ci.auth_token);
    append_opt_str_member(&mut out, "user", &ci.user);
    append_opt_str_member(&mut out, "pass", &ci.pass);
    append_member_str(&mut out, true, "lang", ci.lang.as_str());
    append_member_str(&mut out, true, "name", ci.name.as_str());
    append_member_str(&mut out, true, "version", ci.version.as_str());
    append_opt_u64_member(&mut out, "protocol", &ci.protocol);
    append_opt_str_member(&mut out, "sig", &ci.sig);
    append_opt_str_member(&mut out, "jwt", &ci.jwt);
    out.append("}");
    proof {
        lemma_connect_json_unfold(ci@);
        assert(out@ =~= connect_json(ci@));
    }
    out
}

/// The canonical INFO body: every field in declaration order, absent
/// optional fields omitted.
#[verifier::rlimit(100)]
pub fn info_json_string(si: &ServerInformation) -> (r: String)
    ensures
        r@ == info_json(si@),
{
    proof {
        reveal_strlit("{");
        reveal_strlit("}");
    }
    let mut out = String::from_str("{");
    proof {
        assert(out@ =~= seq!['{']);
    }
    append_member_str(&mut out, false, "server_id", si.server_id.as_str());
    append_member_str(&mut out, true, "version", si.version.as_str());
    append_opt_usize_member(&mut out, "proto", &si.proto);
    append_member_str(&mut out, true, "go", si.go.as_str());
    append_member_str(&mut out, true, "host", si.host.as_str());
    append_member_u64(&mut out, true, "port", si.port);
    append_member_raw(&mut out, true, "auth_required", bool_str(si.auth_required));
    append_member_raw(&mut out, true, "tls_required", bool_str(si.tls_required));
    append_member_u64(&mut out, true, "max_payload", si.max_payload);
    append_opt_usize_member(&mut out, "client_id", &si.client_id);
    append_opt_arr_member(&mut out, "connect_urls", &si.connect_urls);
    append_opt_str_member(&mut out, "nonce", &si.nonce);
    out.append("}");
    proof {
        lemma_info_json_unfold(si@);
        assert(out@ =~= info_json(si@));
    }
    out
}

} // verus!

verus! {

use crate::text::{str_starts_with, trim_spec, trim_str, starts_with};
use crate::parser::{kw_connect, kw_info};
use crate::NatsParseError;

#[verifier::external_type_specification]
#[verifier::external_body]
pub struct ExValue(serde_json::Value);

#[verifier::external_type_specification]
#[verifier::external_body]
pub struct ExJsonError(serde_json::Error);

/// Whether a text is well-formed JSON, as the outside parser judges it:
/// a function of the text alone.
pub uninterp spec fn json_well_formed(s: Seq<char>) -> bool;

/// Relies on `serde_json::from_str::<Value>`: parse arbitrary JSON text
/// into a generic value; it succeeds exactly on well-formed JSON, which
/// depends on the text alone, and otherwise reports a decode error.
#[verifier::external_body]
fn json_parse(s: &str) -> (r: Result<serde_json::Value, serde_json::Error>)
    ensures
        r is Ok <==> json_well_formed(s@),
{
    serde_json::from_str(s)
}

/// Relies on `serde_json::Error`'s display through `ToString::to_string`:
/// the decode diagnostic as text.
#[verifier::external_body]
fn json_error_text(e: &serde_json::Error) -> (r: String) {
    e.to_string()
}

/// Relies on `serde_json::Value::get` with a string index: the member of
/// an object under that key, or `None` when there is none.
#[verifier::external_body]
fn json_get<'a>(v: &'a serde_json::Value, key: &str) -> (r: Option<&'a serde_json::Value>) {
    v.get(key)
}

/// Relies on `serde_json::Value::is_null`.
#[verifier::external_body]
fn json_is_null(v: &serde_json::Value) -> (r: bool) {
    v.is_null()
}

/// Relies on `serde_json::Value::as_bool`: `Some` exactly for a JSON
/// boolean.
#[verifier::external_body]
fn json_as_bool(v: &serde_json::Value) -> (r: Option<bool>) {
    v.as_bool()
}

/// Relies on `serde_json::Value::as_u64`: `Some` exactly for a JSON
/// number representable as `u64`.
#[verifier::external_body]
fn json_as_u64(v: &serde_json::Value) -> (r: Option<u64>) {
    v.as_u64()
}

/// Relies on `serde_json::Value::as_str`: `Some` exactly for a JSON
/// string, copied out.
#[verifier::external_body]
fn json_as_str(v: &serde_json::Value) -> (r: Option<String>) {
    match v.as_str() {
        Some(s) => Some(s.to_string()),
        None => None,
    }
}

/// Relies on `serde_json::Value::as_array`: `Some` exactly for a JSON
/// array.
#[verifier::external_body]
fn json_as_array<'a>(v: &'a serde_json::Value) -> (r: Option<&'a Vec<serde_json::Value>>) {
    v.as_array()
}

/// What one member of the decoded object held, as far as the schema is
/// concerned: no such key, an explicit null, a value of the expected
/// type, or a value of some other type.
pub enum JsonField<T> {
    Missing,
    Null,
    Typed(T),
    Mistyped,
}

impl<T: DeepView> View for JsonField<T> {
    type V = JsonField<T::V>;

    open spec fn view(&self) -> JsonField<T::V> {
        match self {
            JsonField::Missing => JsonField::Missing,
            JsonField::Null => JsonField::Null,
            JsonField::Typed(t) => JsonField::Typed(t.deep_view()),
            JsonField::Mistyped => JsonField::Mistyped,
        }
    }
}

fn lookup_bool(v: &serde_json::Value, key: &str) -> JsonField<bool> {
    match json_get(v, key) {
        None => JsonField::Missing,
        Some(f) => {
            if json_is_null(f) {
                JsonField::Null
            } else {
                match json_as_bool(f) {
                    Some(b) => JsonField::Typed(b),
                    None => JsonField::Mistyped,
                }
            }
        },
    }
}

fn lookup_u64(v: &serde_json::Value, key: &str) -> JsonField<u64> {
    match json_get(v, key) {
        None => JsonField::Missing,
        Some(f) => {
            if json_is_null(f) {
                JsonField::Null
            } else {
                match json_as_u64(f) {
                    Some(n) => JsonField::Typed(n),
                    None => JsonField::Mistyped,
                }
            }
        },
    }
}

fn lookup_string(v: &serde_json::Value, key: &str) -> JsonField<String> {
    match json_get(v, key) {
        None => JsonField::Missing,
        Some(f) => {
            if json_is_null(f) {
                JsonField::Null
            } else {
                match json_as_str(f) {
                    Some(s) => JsonField::Typed(s),
                    None => JsonField::Mistyped,
                }
            }
        },
    }
}

fn lookup_str_array(v: &serde_json::Value, key: &str) -> JsonField<Vec<String>> {
    match json_get(v, key) {
        None => JsonField::Missing,
        Some(f) => {
            if json_is_null(f) {
                JsonField::Null
            } else {
                match json_as_array(f) {
                    None => JsonField::Mistyped,
                    Some(items) => {
                        let mut urls: Vec<String> = Vec::new();
                        let mut i: usize = 0;
                        while i < items.len()
                            decreases items@.len() - i,
                        {
                            match json_as_str(&items[i]) {
                                Some(s) => {
                                    urls.push(s);
                                },
                                None => {
                                    return JsonField::Mistyped;
                                },
                            }
                            i = i + 1;
                        }
                        JsonField::Typed(urls)
                    },
                }
            }
        },
    }
}

/// What a required field of plain type decodes to: only a value of the
/// right type is accepted.
pub open spec fn req_bool_field(f: JsonField<bool>) -> Option<bool> {
    match f {
        JsonField::Typed(b) => Some(b),
        _ => None,
    }
}

pub open spec fn req_string_field(f: JsonField<Seq<char>>) -> Option<Seq<char>> {
    match f {
        JsonField::Typed(s) => Some(s),
        _ => None,
    }
}

pub open spec fn req_u64_field(f: JsonField<u64>) -> Option<u64> {
    match f {
        JsonField::Typed(n) => Some(n),
        _ => None,
    }
}

/// A field with a default: an absent key decodes to the default, a null
/// or mistyped value is an error.
pub open spec fn default_bool_field(f: JsonField<bool>) -> Option<bool> {
    match f {
        JsonField::Missing => Some(false),
        JsonField::Typed(b) => Some(b),
        _ => None,
    }
}

pub open spec fn default_u64_field(f: JsonField<u64>) -> Option<u64> {
    match f {
        JsonField::Missing => Some(0),
        JsonField::Typed(n) => Some(n),
        _ => None,
    }
}

/// An optional field: an absent key or an explicit null decodes to the
/// explicit absent value, never to an empty one; a mistyped value is an
/// error.
pub open spec fn opt_string_field(f: JsonField<Seq<char>>) -> Option<Option<Seq<char>>> {
    match f {
        JsonField::Missing => Some(None),
        JsonField::Null => Some(None),
        JsonField::Typed(s) => Some(Some(s)),
        JsonField::Mistyped => None,
    }
}

pub open spec fn opt_u64_field(f: JsonField<u64>) -> Option<Option<u64>> {
    match f {
        JsonField::Missing => Some(None),
        JsonField::Null => Some(None),
        JsonField::Typed(n) => Some(Some(n)),
        JsonField::Mistyped => None,
    }
}

pub open spec fn opt_usize_field(f: JsonField<u64>) -> Option<Option<usize>> {
    match f {
        JsonField::Missing => Some(None),
        JsonField::Null => Some(None),
        JsonField::Typed(n) => if n <= usize::MAX {
            Some(Some(n as usize))
        } else {
            None
        },
        JsonField::Mistyped => None,
    }
}

pub open spec fn opt_str_array_field(f: JsonField<Seq<Seq<char>>>) -> Option<
    Option<Seq<Seq<char>>>,
> {
    match f {
        JsonField::Missing => Some(None),
        JsonField::Null => Some(None),
        JsonField::Typed(xs) => Some(Some(xs)),
        JsonField::Mistyped => None,
    }
}

} // verus!

verus! {

pub open spec fn err_text_info_prefix() -> Seq<char> {
    "Failed to parse server info JSON: "@
}

pub open spec fn err_text_info_schema() -> Seq<char> {
    "Failed to parse server info JSON: "@ + "schema mismatch"@
}

/// The failure value for an INFO body whose members do not fit the
/// schema.
fn info_schema_error() -> (r: NatsParseError)
    ensures
        r@ == err_text_info_schema(),
{
    let mut msg = String::from_str("Failed to parse server info JSON: ");
    msg.append("schema mismatch");
    NatsParseError::from_string(msg)
}

pub open spec fn err_text_connect_schema() -> Seq<char> {
    "Failed to parse connection info JSON: "@ + "schema mismatch"@
}

/// The failure value for a CONNECT body whose members do not fit the
/// schema.
fn connect_schema_error() -> (r: NatsParseError)
    ensures
        r@ == err_text_connect_schema(),
{
    let mut msg = String::from_str("Failed to parse connection info JSON: ");
    msg.append("schema mismatch");
    NatsParseError::from_string(msg)
}

/// The schema rule for a CONNECT body, over the decoded members: the
/// three flags and the three identification strings are required, every
/// other field is optional, and a present member of the wrong type
/// rejects the body.
pub open spec fn connect_fields_spec(
    verbose: JsonField<bool>,
    pedantic: JsonField<bool>,
    tls_required: JsonField<bool>,
    auth_token: JsonField<Seq<char>>,
    user: JsonField<Seq<char>>,
    pass: JsonField<Seq<char>>,
    lang: JsonField<Seq<char>>,
    name: JsonField<Seq<char>>,
    version: JsonField<Seq<char>>,
    protocol: JsonField<u64>,
    sig: JsonField<Seq<char>>,
    jwt: JsonField<Seq<char>>,
) -> Option<crate::ConnectionInformationModel> {
    if req_bool_field(verbose) is Some && req_bool_field(pedantic) is Some && req_bool_field(
        tls_required,
    ) is Some && opt_string_field(auth_token) is Some && opt_string_field(user) is Some
        && opt_string_field(pass) is Some && req_string_field(lang) is Some && req_string_field(
        name,
    ) is Some && req_string_field(version) is Some && opt_u64_field(protocol) is Some
        && opt_string_field(sig) is Some && opt_string_field(jwt) is Some {
        Some(
            crate::ConnectionInformationModel {
                verbose: req_bool_field(verbose)->0,
                pedantic: req_bool_field(pedantic)->0,
                tls_required: req_bool_field(tls_required)->0,
                auth_token: opt_string_field(auth_token)->0,
                user: opt_string_field(user)->0,
                pass: opt_string_field(pass)->0,
                lang: req_string_field(lang)->0,
                name: req_string_field(name)->0,
                version: req_string_field(version)->0,
                protocol: opt_u64_field(protocol)->0,
                sig: opt_string_field(sig)->0,
                jwt: opt_string_field(jwt)->0,
            },
        )
    } else {
        None
    }
}

/// Build connection information from the decoded members; succeeds for
/// exactly the member states `connect_fields_spec` accepts.
pub fn assemble_connection_information(
    verbose: JsonField<bool>,
    pedantic: JsonField<bool>,
    tls_required: JsonField<bool>,
    auth_token: JsonField<String>,
    user: JsonField<String>,
    pass: JsonField<String>,
    lang: JsonField<String>,
    name: JsonField<String>,
    version: JsonField<String>,
    protocol: JsonField<u64>,
    sig: JsonField<String>,
    jwt: JsonField<String>,
) -> (r: Result<crate::ConnectionInformation, NatsParseError>)
    ensures
        r is Ok <==> connect_fields_spec(
            verbose@,
            pedantic@,
            tls_required@,
            auth_token@,
            user@,
            pass@,
            lang@,
            name@,
            version@,
            protocol@,
            sig@,
            jwt@,
        ) is Some,
        r is Ok ==> r->Ok_0@ == connect_fields_spec(
            verbose@,
            pedantic@,
            tls_required@,
            auth_token@,
            user@,
            pass@,
            lang@,
            name@,
            version@,
            protocol@,
            sig@,
            jwt@,
        )->0,
        r is Err ==> r->Err_0@ == err_text_connect_schema(),
{
    let verbose = match verbose {
        JsonField::Typed(b) => b,
        _ => {
            return Err(connect_schema_error());
        },
    };
    let pedantic = match pedantic {
        JsonField::Typed(b) => b,
        _ => {
            return Err(connect_schema_error());
        },
    };
    let tls_required = match tls_required {
        JsonField::Typed(b) => b,
        _ => {
            return Err(connect_schema_error());
        },
    };
    let auth_token = match auth_token {
        JsonField::Missing => None,
        JsonField::Null => None,
        JsonField::Typed(s) => Some(s),
        JsonField::Mistyped => {
            return Err(connect_schema_error());
        },
    };
    let user = match user {
        JsonField::Missing => None,
        JsonField::Null => None,
        JsonField::Typed(s) => Some(s),
        JsonField::Mistyped => {
            return Err(connect_schema_error());
        },
    };
    let pass = match pass {
        JsonField::Missing => None,
        JsonField::Null => None,
        JsonField::Typed(s) => Some(s),
        JsonField::Mistyped => {
            return Err(connect_schema_error());
        },
    };
    let lang = match lang {
        JsonField::Typed(s) => s,
        _ => {
            return Err(connect_schema_error());
        },
    };
    let name = match name {
        JsonField::Typed(s) => s,
        _ => {
            return Err(connect_schema_error());
        },
    };
    let version = match version {
        JsonField::Typed(s) => s,
        _ => {
            return Err(connect_schema_error());
        },
    };
    let protocol = match protocol {
        JsonField::Missing => None,
        JsonField::Null => None,
        JsonField::Typed(n) => Some(n),
        JsonField::Mistyped => {
            return Err(connect_schema_error());
        },
    };
    let sig = match sig {
        JsonField::Missing => None,
        JsonField::Null => None,
        JsonField::Typed(s) => Some(s),
        JsonField::Mistyped => {
            return Err(connect_schema_error());
        },
    };
    let jwt = match jwt {
        JsonField::Missing => None,
        JsonField::Null => None,
        JsonField::Typed(s) => Some(s),
        JsonField::Mistyped => {
            return Err(connect_schema_error());
        },
    };
    Ok(
        crate::ConnectionInformation {
            verbose,
            pedantic,
            tls_required,
            auth_token,
            user,
            pass,
            lang,
            name,
            version,
            protocol,
            sig,
            jwt,
        },
    )
}

/// The schema rule for an INFO body: identification strings and the port
/// are required, the flags and payload limit default when absent, the
/// rest is optional.
pub open spec fn info_fields_spec(
    server_id: JsonField<Seq<char>>,
    version: JsonField<Seq<char>>,
    proto: JsonField<u64>,
    go: JsonField<Seq<char>>,
    host: JsonField<Seq<char>>,
    port: JsonField<u64>,
    auth_required: JsonField<bool>,
    tls_required: JsonField<bool>,
    max_payload: JsonField<u64>,
    client_id: JsonField<u64>,
    connect_urls: JsonField<Seq<Seq<char>>>,
    nonce: JsonField<Seq<char>>,
) -> Option<crate::ServerInformationModel> {
    if req_string_field(server_id) is Some && req_string_field(version) is Some && opt_usize_field(
        proto,
    ) is Some && req_string_field(go) is Some && req_string_field(host) is Some && req_u64_field(
        port,
    ) is Some && default_bool_field(auth_required) is Some && default_bool_field(
        tls_required,
    ) is Some && default_u64_field(max_payload) is Some && opt_usize_field(client_id) is Some
        && opt_str_array_field(connect_urls) is Some && opt_string_field(nonce) is Some {
        Some(
            crate::ServerInformationModel {
                server_id: req_string_field(server_id)->0,
                version: req_string_field(version)->0,
                proto: opt_usize_field(proto)->0,
                go: req_string_field(go)->0,
                host: req_string_field(host)->0,
                port: req_u64_field(port)->0,
                auth_required: default_bool_field(auth_required)->0,
                tls_required: default_bool_field(tls_required)->0,
                max_payload: default_u64_field(max_payload)->0,
                client_id: opt_usize_field(client_id)->0,
                connect_urls: opt_str_array_field(connect_urls)->0,
                nonce: opt_string_field(nonce)->0,
            },
        )
    } else {
        None
    }
}

/// Build server information from the decoded members; succeeds for
/// exactly the member states `info_fields_spec` accepts.
pub fn assemble_server_information(
    server_id: JsonField<String>,
    version: JsonField<String>,
    proto: JsonField<u64>,
    go: JsonField<String>,
    host: JsonField<String>,
    port: JsonField<u64>,
    auth_required: JsonField<bool>,
    tls_required: JsonField<bool>,
    max_payload: JsonField<u64>,
    client_id: JsonField<u64>,
    connect_urls: JsonField<Vec<String>>,
    nonce: JsonField<String>,
) -> (r: Result<crate::ServerInformation, NatsParseError>)
    ensures
        r is Ok <==> info_fields_spec(
            server_id@,
            version@,
            proto@,
            go@,
            host@,
            port@,
            auth_required@,
            tls_required@,
            max_payload@,
            client_id@,
            connect_urls@,
            nonce@,
        ) is Some,
        r is Ok ==> r->Ok_0@ == info_fields_spec(
            server_id@,
            version@,
            proto@,
            go@,
            host@,
            port@,
            auth_required@,
            tls_required@,
            max_payload@,
            client_id@,
            connect_urls@,
            nonce@,
        )->0,
        r is Err ==> r->Err_0@ == err_text_info_schema(),
{
    let server_id = match server_id {
        JsonField::Typed(s) => s,
        _ => {
            return Err(info_schema_error());
        },
    };
    let version = match version {
        JsonField::Typed(s) => s,
        _ => {
            return Err(info_schema_error());
        },
    };
    let proto = match proto {
        JsonField::Missing => None,
        JsonField::Null => None,
        JsonField::Typed(n) => {
            if n <= usize::MAX as u64 {
                Some(n as usize)
            } else {
                return Err(info_schema_error());
            }
        },
        JsonField::Mistyped => {
            return Err(info_schema_error());
        },
    };
    let go = match go {
        JsonField::Typed(s) => s,
        _ => {
            return Err(info_schema_error());
        },
    };
    let host = match host {
        JsonField::Typed(s) => s,
        _ => {
            return Err(info_schema_error());
        },
    };
    let port = match port {
        JsonField::Typed(n) => n,
        _ => {
            return Err(info_schema_error());
        },
    };
    let auth_required = match auth_required {
        JsonField::Missing => false,
        JsonField::Typed(b) => b,
        _ => {
            return Err(info_schema_error());
        },
    };
    let tls_required = match tls_required {
        JsonField::Missing => false,
        JsonField::Typed(b) => b,
        _ => {
            return Err(info_schema_error());
        },
    };
    let max_payload = match max_payload {
        JsonField::Missing => 0u64,
        JsonField::Typed(n) => n,
        _ => {
            return Err(info_schema_error());
        },
    };
    let client_id = match client_id {
        JsonField::Missing => None,
        JsonField::Null => None,
        JsonField::Typed(n) => {
            if n <= usize::MAX as u64 {
                Some(n as usize)
            } else {
                return Err(info_schema_error());
            }
        },
        JsonField::Mistyped => {
            return Err(info_schema_error());
        },
    };
    let connect_urls = match connect_urls {
        JsonField::Missing => None,
        JsonField::Null => None,
        JsonField::Typed(xs) => Some(xs),
        JsonField::Mistyped => {
            return Err(info_schema_error());
        },
    };
    let nonce = match nonce {
        JsonField::Missing => None,
        JsonField::Null => None,
        JsonField::Typed(s) => Some(s),
        JsonField::Mistyped => {
            return Err(info_schema_error());
        },
    };
    Ok(
        crate::ServerInformation {
            server_id,
            version,
            proto,
            go,
            host,
            port,
            auth_required,
            tls_required,
            max_payload,
            client_id,
            connect_urls,
            nonce,
        },
    )
}

/// The JSON text of an INFO message: the keyword stripped when present,
/// surrounding whitespace trimmed.
pub open spec fn info_body_spec(s: Seq<char>) -> Seq<char> {
    if starts_with(s, kw_info()) {
        trim_spec(s.skip(4))
    } else {
        trim_spec(s)
    }
}

fn info_body<'a>(s: &'a str) -> (r: &'a str)
    ensures
        r@ == info_body_spec(s@),
{
    proof {
        reveal_strlit("INFO");
        assert("INFO"@ =~= kw_info());
    }
    if str_starts_with(s, "INFO") {
        let n = s.unicode_len();
        let rest = s.substring_char(4, n);
        proof {
            assert(rest@ =~= s@.skip(4));
        }
        trim_str(rest)
    } else {
        trim_str(s)
    }
}

/// The JSON text of a CONNECT message.
pub open spec fn connect_body_spec(s: Seq<char>) -> Seq<char> {
    if starts_with(s, kw_connect()) {
        trim_spec(s.skip(7))
    } else {
        trim_spec(s)
    }
}

fn connect_body<'a>(s: &'a str) -> (r: &'a str)
    ensures
        r@ == connect_body_spec(s@),
{
    proof {
        reveal_strlit("CONNECT");
        assert("CONNECT"@ =~= kw_connect());
    }
    if str_starts_with(s, "CONNECT") {
        let n = s.unicode_len();
        let rest = s.substring_char(7, n);
        proof {
            assert(rest@ =~= s@.skip(7));
        }
        trim_str(rest)
    } else {
        trim_str(s)
    }
}

/// Decode an INFO body through the outside JSON parser and the verified
/// schema assembly. A body that is not well-formed JSON always fails,
/// and success only ever comes from a well-formed body; a failure
/// carries the INFO failure prefix, followed by the decode diagnostic or
/// the schema complaint. The exact schema rule lives in
/// `assemble_server_information`.
pub fn server_information_from_str(s: &str) -> (r: Result<crate::ServerInformation, NatsParseError>)
    ensures
        r is Ok ==> json_well_formed(info_body_spec(s@)),
        !json_well_formed(info_body_spec(s@)) ==> r is Err,
        r is Err ==> starts_with(r->Err_0@, err_text_info_prefix()),
{
    let body = info_body(s);
    match json_parse(body) {
        Err(e) => {
            let mut msg = String::from_str("Failed to parse server info JSON: ");
            let detail = json_error_text(&e);
            msg.append(detail.as_str());
            proof {
                assert forall|i: int|
                    0 <= i < "Failed to parse server info JSON: "@.len() implies msg@[i]
                    == "Failed to parse server info JSON: "@[i] by {}
            }
            Err(NatsParseError::from_string(msg))
        },
        Ok(v) => {
            let server_id = lookup_string(&v, "server_id");
            let version = lookup_string(&v, "version");
            let proto = lookup_u64(&v, "proto");
            let go = lookup_string(&v, "go");
            let host = lookup_string(&v, "host");
            let port = lookup_u64(&v, "port");
            let auth_required = lookup_bool(&v, "auth_required");
            let tls_required = lookup_bool(&v, "tls_required");
            let max_payload = lookup_u64(&v, "max_payload");
            let client_id = lookup_u64(&v, "client_id");
            let connect_urls = lookup_str_array(&v, "connect_urls");
            let nonce = lookup_string(&v, "nonce");
            let r = assemble_server_information(
                server_id,
                version,
                proto,
                go,
                host,
                port,
                auth_required,
                tls_required,
                max_payload,
                client_id,
                connect_urls,
                nonce,
            );
            proof {
                if r is Err {
                    assert forall|i: int|
                        0 <= i < "Failed to parse server info JSON: "@.len() implies r->Err_0@[i]
                        == "Failed to parse server info JSON: "@[i] by {}
                }
            }
            r
        },
    }
}

/// Decode a CONNECT body; as above, the schema rule lives in
/// `assemble_connection_information`. A body that is not well-formed
/// JSON always fails, success only ever comes from a well-formed body,
/// and a failure carries the CONNECT failure prefix, followed by the
/// decode diagnostic or the schema complaint.
pub fn connection_information_from_str(s: &str) -> (r: Result<
    crate::ConnectionInformation,
    NatsParseError,
>)
    ensures
        r is Ok ==> json_well_formed(connect_body_spec(s@)),
        !json_well_formed(connect_body_spec(s@)) ==> r is Err,
        r is Err ==> starts_with(r->Err_0@, "Failed to parse connection info JSON: "@),
{
    let body = connect_body(s);
    match json_parse(body) {
        Err(e) => {
            let mut msg = String::from_str("Failed to parse connection info JSON: ");
            let detail = json_error_text(&e);
            msg.append(detail.as_str());
            proof {
                assert forall|i: int|
                    0 <= i < "Failed to parse connection info JSON: "@.len() implies msg@[i]
                    == "Failed to parse connection info JSON: "@[i] by {}
            }
            Err(NatsParseError::from_string(msg))
        },
        Ok(v) => {
            let verbose = lookup_bool(&v, "verbose");
            let pedantic = lookup_bool(&v, "pedantic");
            let tls_required = lookup_bool(&v, "tls_required");
            let auth_token = lookup_string(&v, "auth_token");
            let user = lookup_string(&v, "user");
            let pass = lookup_string(&v, "pass");
            let lang = lookup_string(&v, "lang");
            let name = lookup_string(&v, "name");
            let version = lookup_string(&v, "version");
            let protocol = lookup_u64(&v, "protocol");
            let sig = lookup_string(&v, "sig");
            let jwt = lookup_string(&v, "jwt");
            let r = assemble_connection_information(
                verbose,
                pedantic,
                tls_required,
                auth_token,
                user,
                pass,
                lang,
                name,
                version,
                protocol,
                sig,
                jwt,
            );
            proof {
                if r is Err {
                    assert forall|i: int|
                        0 <= i < "Failed to parse connection info JSON: "@.len() implies r->Err_0@[i]
                        == "Failed to parse connection info JSON: "@[i] by {}
                }
            }
            r
        },
    }
}

} // verus!
