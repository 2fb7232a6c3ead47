//! Header grammars and the two-line framer.
//!
//! Each message kind has a positional grammar over the tokens of its
//! header line: optional fields are detected by the token count alone,
//! never by inspecting a token's content. Numeric fields are base-ten
//! unsigned integers, and a non-digit in a numeric position is a grammar
//! failure. The framer separates a CRLF-terminated header line from the
//! payload segment that follows it.

use vstd::prelude::*;

verus! {

use crate::text::{
    all_digits, contains_cr_or_lf, dec_val, find_char_from, find_crlf, find_crlf_from,
    lemma_find_crlf_from, no_cr_lf, parse_u64_token, starts_with, str_eq, str_starts_with,
    strip_crlf, strip_crlf_line, tokenize, tokenize_line,
};
use vstd::utf8::encode_utf8;

/// The keyword tokens of the protocol, as character sequences.
pub open spec fn kw_msg() -> Seq<char> {
    seq!['M', 'S', 'G']
}

pub open spec fn kw_pub() -> Seq<char> {
    seq!['P', 'U', 'B']
}

pub open spec fn kw_sub() -> Seq<char> {
    seq!['S', 'U', 'B']
}

pub open spec fn kw_unsub() -> Seq<char> {
    seq!['U', 'N', 'S', 'U', 'B']
}

pub open spec fn kw_ping() -> Seq<char> {
    seq!['P', 'I', 'N', 'G']
}

pub open spec fn kw_pong() -> Seq<char> {
    seq!['P', 'O', 'N', 'G']
}

pub open spec fn kw_ok() -> Seq<char> {
    seq!['+', 'O', 'K']
}

pub open spec fn kw_err() -> Seq<char> {
    seq!['-', 'E', 'R', 'R']
}

pub open spec fn kw_info() -> Seq<char> {
    seq!['I', 'N', 'F', 'O']
}

pub open spec fn kw_connect() -> Seq<char> {
    seq!['C', 'O', 'N', 'N', 'E', 'C', 'T']
}

/// The fixed opening of an error header: the keyword, one space, one
/// opening single quote.
pub open spec fn err_prefix() -> Seq<char> {
    seq!['-', 'E', 'R', 'R', ' ', '\'']
}

/// A token that denotes a `u64`: non-empty, all digits, in range.
pub open spec fn is_u64_token(t: Seq<char>) -> bool {
    t.len() > 0 && all_digits(t) && dec_val(t) <= u64::MAX
}

// MSG <subject> <sid> [reply-to] <#bytes>
pub struct MessageHeaderModel {
    pub subject: Seq<char>,
    pub sid: u64,
    pub reply_to: Option<Seq<char>>,
    pub message_len: u64,
}

#[derive(Debug)]
pub struct MessageHeader {
    pub subject: String,
    pub sid: u64,
    pub reply_to: Option<String>,
    pub message_len: u64,
}

impl View for MessageHeader {
    type V = MessageHeaderModel;

    open spec fn view(&self) -> MessageHeaderModel {
        MessageHeaderModel {
            subject: self.subject@,
            sid: self.sid,
            reply_to: self.reply_to.deep_view(),
            message_len: self.message_len,
        }
    }
}

// PUB <subject> [reply-to] <#bytes>
pub struct PubHeaderModel {
    pub subject: Seq<char>,
    pub reply_to: Option<Seq<char>>,
    pub message_len: u64,
}

#[derive(Debug)]
pub struct PubHeader {
    pub subject: String,
    pub reply_to: Option<String>,
    pub message_len: u64,
}

impl View for PubHeader {
    type V = PubHeaderModel;

    open spec fn view(&self) -> PubHeaderModel {
        PubHeaderModel {
            subject: self.subject@,
            reply_to: self.reply_to.deep_view(),
            message_len: self.message_len,
        }
    }
}

// SUB <subject> [queue group] <sid>
pub struct SubHeaderModel {
    pub subject: Seq<char>,
    pub queue_group: Option<Seq<char>>,
    pub sid: u64,
}

#[derive(Debug)]
pub struct SubHeader {
    pub subject: String,
    pub queue_group: Option<String>,
    pub sid: u64,
}

impl View for SubHeader {
    type V = SubHeaderModel;

    open spec fn view(&self) -> SubHeaderModel {
        SubHeaderModel {
            subject: self.subject@,
            queue_group: self.queue_group.deep_view(),
            sid: self.sid,
        }
    }
}

// UNSUB <sid> [max_msgs]
pub struct UnsubHeaderModel {
    pub sid: u64,
    pub max_messages: Option<u64>,
}

#[derive(Debug)]
pub struct UnsubHeader {
    pub sid: u64,
    pub max_messages: Option<u64>,
}

impl View for UnsubHeader {
    type V = UnsubHeaderModel;

    open spec fn view(&self) -> UnsubHeaderModel {
        UnsubHeaderModel { sid: self.sid, max_messages: self.max_messages }
    }
}

// -ERR '<error message>'
#[derive(Debug)]
pub struct ErrorHeader {
    pub message: String,
}

impl View for ErrorHeader {
    type V = Seq<char>;

    open spec fn view(&self) -> Seq<char> {
        self.message@
    }
}

/// The MSG grammar over the tokens of a header line: the reply-to field
/// is present exactly when five tokens stand in place of four.
pub open spec fn msg_tokens_spec(ts: Seq<Seq<char>>) -> Option<MessageHeaderModel> {
    if ts.len() == 4 && ts[0] == kw_msg() && is_u64_token(ts[2]) && is_u64_token(ts[3]) {
        Some(
            MessageHeaderModel {
                subject: ts[1],
                sid: dec_val(ts[2]) as u64,
                reply_to: None,
                message_len: dec_val(ts[3]) as u64,
            },
        )
    } else if ts.len() == 5 && ts[0] == kw_msg() && is_u64_token(ts[2]) && is_u64_token(ts[4]) {
        Some(
            MessageHeaderModel {
                subject: ts[1],
                sid: dec_val(ts[2]) as u64,
                reply_to: Some(ts[3]),
                message_len: dec_val(ts[4]) as u64,
            },
        )
    } else {
        None
    }
}

/// The PUB grammar: the reply-to field is present exactly when four
/// tokens stand in place of three.
pub open spec fn pub_tokens_spec(ts: Seq<Seq<char>>) -> Option<PubHeaderModel> {
    if ts.len() == 3 && ts[0] == kw_pub() && is_u64_token(ts[2]) {
        Some(PubHeaderModel { subject: ts[1], reply_to: None, message_len: dec_val(ts[2]) as u64 })
    } else if ts.len() == 4 && ts[0] == kw_pub() && is_u64_token(ts[3]) {
        Some(
            PubHeaderModel {
                subject: ts[1],
                reply_to: Some(ts[2]),
                message_len: dec_val(ts[3]) as u64,
            },
        )
    } else {
        None
    }
}

/// The SUB grammar: the queue group is present exactly when four tokens
/// stand in place of three.
pub open spec fn sub_tokens_spec(ts: Seq<Seq<char>>) -> Option<SubHeaderModel> {
    if ts.len() == 3 && ts[0] == kw_sub() && is_u64_token(ts[2]) {
        Some(SubHeaderModel { subject: ts[1], queue_group: None, sid: dec_val(ts[2]) as u64 })
    } else if ts.len() == 4 && ts[0] == kw_sub() && is_u64_token(ts[3]) {
        Some(
            SubHeaderModel {
                subject: ts[1],
                queue_group: Some(ts[2]),
                sid: dec_val(ts[3]) as u64,
            },
        )
    } else {
        None
    }
}

/// The UNSUB grammar: the maximum-messages field is present exactly when
/// a third token follows the subscription id.
pub open spec fn unsub_tokens_spec(ts: Seq<Seq<char>>) -> Option<UnsubHeaderModel> {
    if ts.len() == 2 && ts[0] == kw_unsub() && is_u64_token(ts[1]) {
        Some(UnsubHeaderModel { sid: dec_val(ts[1]) as u64, max_messages: None })
    } else if ts.len() == 3 && ts[0] == kw_unsub() && is_u64_token(ts[1]) && is_u64_token(ts[2]) {
        Some(
            UnsubHeaderModel {
                sid: dec_val(ts[1]) as u64,
                max_messages: Some(dec_val(ts[2]) as u64),
            },
        )
    } else {
        None
    }
}

/// A header line for the token grammars: one trailing CRLF is tolerated,
/// any other carriage return or line feed is a grammar failure.
pub open spec fn header_line(s: Seq<char>) -> Option<Seq<char>> {
    let line = strip_crlf(s);
    if no_cr_lf(line) {
        Some(line)
    } else {
        None
    }
}

pub open spec fn msg_header_spec(s: Seq<char>) -> Option<MessageHeaderModel> {
    match header_line(s) {
        Some(line) => msg_tokens_spec(tokenize(line)),
        None => None,
    }
}

pub open spec fn pub_header_spec(s: Seq<char>) -> Option<PubHeaderModel> {
    match header_line(s) {
        Some(line) => pub_tokens_spec(tokenize(line)),
        None => None,
    }
}

pub open spec fn sub_header_spec(s: Seq<char>) -> Option<SubHeaderModel> {
    match header_line(s) {
        Some(line) => sub_tokens_spec(tokenize(line)),
        None => None,
    }
}

pub open spec fn unsub_header_spec(s: Seq<char>) -> Option<UnsubHeaderModel> {
    match header_line(s) {
        Some(line) => unsub_tokens_spec(tokenize(line)),
        None => None,
    }
}

/// The ERR grammar: the fixed prefix `-ERR '`, then at least one
/// character of message text up to the first closing quote. Whatever
/// follows the closing quote is ignored.
pub open spec fn err_header_spec(s: Seq<char>) -> Option<Seq<char>> {
    if starts_with(s, err_prefix()) {
        let q = find_char_from(s, 6, '\'');
        if 6 < q && q < s.len() {
            Some(s.subrange(6, q))
        } else {
            None
        }
    } else {
        None
    }
}

/// Character test for error-message text, which runs to the first single
/// quote.
pub fn is_not_tick(chr: char) -> (r: bool)
    ensures
        r == (chr != '\''),
{
    chr != '\''
}

} // verus!

verus! {

/// Parse a MSG header line.
pub fn parse_msg_header(header: &str) -> (r: Option<MessageHeader>)
    ensures
        r is Some <==> msg_header_spec(header@) is Some,
        r is Some ==> r->0@ == msg_header_spec(header@)->0,
{
    let line = strip_crlf_line(header);
    if contains_cr_or_lf(line) {
        return None;
    }
    let ts = tokenize_line(line);
    proof {
        reveal_strlit("MSG");
        assert("MSG"@ =~= kw_msg());
    }
    if ts.len() == 4 {
        if !str_eq(ts[0].as_str(), "MSG") {
            return None;
        }
        let sid = match parse_u64_token(ts[2].as_str()) {
            Some(v) => v,
            None => {
                return None;
            },
        };
        let message_len = match parse_u64_token(ts[3].as_str()) {
            Some(v) => v,
            None => {
                return None;
            },
        };
        let h = MessageHeader { subject: ts[1].clone(), sid, reply_to: None, message_len };
        proof {
            assert(ts.deep_view()[0] == ts@[0]@);
            assert(ts.deep_view()[1] == ts@[1]@);
            assert(ts.deep_view()[2] == ts@[2]@);
            assert(ts.deep_view()[3] == ts@[3]@);
        }
        Some(h)
    } else if ts.len() == 5 {
        if !str_eq(ts[0].as_str(), "MSG") {
            return None;
        }
        let sid = match parse_u64_token(ts[2].as_str()) {
            Some(v) => v,
            None => {
                return None;
            },
        };
        let message_len = match parse_u64_token(ts[4].as_str()) {
            Some(v) => v,
            None => {
                return None;
            },
        };
        let h = MessageHeader {
            subject: ts[1].clone(),
            sid,
            reply_to: Some(ts[3].clone()),
            message_len,
        };
        proof {
            assert(ts.deep_view()[0] == ts@[0]@);
            assert(ts.deep_view()[1] == ts@[1]@);
            assert(ts.deep_view()[2] == ts@[2]@);
            assert(ts.deep_view()[3] == ts@[3]@);
            assert(ts.deep_view()[4] == ts@[4]@);
        }
        Some(h)
    } else {
        None
    }
}

/// Parse a PUB header line.
pub fn parse_pub_header(header: &str) -> (r: Option<PubHeader>)
    ensures
        r is Some <==> pub_header_spec(header@) is Some,
        r is Some ==> r->0@ == pub_header_spec(header@)->0,
{
    let line = strip_crlf_line(header);
    if contains_cr_or_lf(line) {
        return None;
    }
    let ts = tokenize_line(line);
    proof {
        reveal_strlit("PUB");
        assert("PUB"@ =~= kw_pub());
    }
    if ts.len() == 3 {
        if !str_eq(ts[0].as_str(), "PUB") {
            return None;
        }
        let message_len = match parse_u64_token(ts[2].as_str()) {
            Some(v) => v,
            None => {
                return None;
            },
        };
        let h = PubHeader { subject: ts[1].clone(), reply_to: None, message_len };
        proof {
            assert(ts.deep_view()[0] == ts@[0]@);
            assert(ts.deep_view()[1] == ts@[1]@);
            assert(ts.deep_view()[2] == ts@[2]@);
        }
        Some(h)
    } else if ts.len() == 4 {
        if !str_eq(ts[0].as_str(), "PUB") {
            return None;
        }
        let message_len = match parse_u64_token(ts[3].as_str()) {
            Some(v) => v,
            None => {
                return None;
            },
        };
        let h = PubHeader { subject: ts[1].clone(), reply_to: Some(ts[2].clone()), message_len };
        proof {
            assert(ts.deep_view()[0] == ts@[0]@);
            assert(ts.deep_view()[1] == ts@[1]@);
            assert(ts.deep_view()[2] == ts@[2]@);
            assert(ts.deep_view()[3] == ts@[3]@);
        }
        Some(h)
    } else {
        None
    }
}

/// Parse a SUB header line.
pub fn parse_sub_header(header: &str) -> (r: Option<SubHeader>)
    ensures
        r is Some <==> sub_header_spec(header@) is Some,
        r is Some ==> r->0@ == sub_header_spec(header@)->0,
{
    let line = strip_crlf_line(header);
    if contains_cr_or_lf(line) {
        return None;
    }
    let ts = tokenize_line(line);
    proof {
        reveal_strlit("SUB");
        assert("SUB"@ =~= kw_sub());
    }
    if ts.len() == 3 {
        if !str_eq(ts[0].as_str(), "SUB") {
            return None;
        }
        let sid = match parse_u64_token(ts[2].as_str()) {
            Some(v) => v,
            None => {
                return None;
            },
        };
        let h = SubHeader { subject: ts[1].clone(), queue_group: None, sid };
        proof {
            assert(ts.deep_view()[0] == ts@[0]@);
            assert(ts.deep_view()[1] == ts@[1]@);
            assert(ts.deep_view()[2] == ts@[2]@);
        }
        Some(h)
    } else if ts.len() == 4 {
        if !str_eq(ts[0].as_str(), "SUB") {
            return None;
        }
        let sid = match parse_u64_token(ts[3].as_str()) {
            Some(v) => v,
            None => {
                return None;
            },
        };
        let h = SubHeader { subject: ts[1].clone(), queue_group: Some(ts[2].clone()), sid };
        proof {
            assert(ts.deep_view()[0] == ts@[0]@);
            assert(ts.deep_view()[1] == ts@[1]@);
            assert(ts.deep_view()[2] == ts@[2]@);
            assert(ts.deep_view()[3] == ts@[3]@);
        }
        Some(h)
    } else {
        None
    }
}

/// Parse an UNSUB header line.
pub fn parse_unsub_header(header: &str) -> (r: Option<UnsubHeader>)
    ensures
        r is Some <==> unsub_header_spec(header@) is Some,
        r is Some ==> r->0@ == unsub_header_spec(header@)->0,
{
    let line = strip_crlf_line(header);
    if contains_cr_or_lf(line) {
        return None;
    }
    let ts = tokenize_line(line);
    proof {
        reveal_strlit("UNSUB");
        assert("UNSUB"@ =~= kw_unsub());
    }
    if ts.len() == 2 {
        if !str_eq(ts[0].as_str(), "UNSUB") {
            return None;
        }
        let sid = match parse_u64_token(ts[1].as_str()) {
            Some(v) => v,
            None => {
                return None;
            },
        };
        let h = UnsubHeader { sid, max_messages: None };
        proof {
            assert(ts.deep_view()[0] == ts@[0]@);
            assert(ts.deep_view()[1] == ts@[1]@);
        }
        Some(h)
    } else if ts.len() == 3 {
        if !str_eq(ts[0].as_str(), "UNSUB") {
            return None;
        }
        let sid = match parse_u64_token(ts[1].as_str()) {
            Some(v) => v,
            None => {
                return None;
            },
        };
        let max = match parse_u64_token(ts[2].as_str()) {
            Some(v) => v,
            None => {
                return None;
            },
        };
        let h = UnsubHeader { sid, max_messages: Some(max) };
        proof {
            assert(ts.deep_view()[0] == ts@[0]@);
            assert(ts.deep_view()[1] == ts@[1]@);
            assert(ts.deep_view()[2] == ts@[2]@);
        }
        Some(h)
    } else {
        None
    }
}

/// Parse an ERR header.
pub fn parse_err_header(header: &str) -> (r: Option<ErrorHeader>)
    ensures
        r is Some <==> err_header_spec(header@) is Some,
        r is Some ==> r->0@ == err_header_spec(header@)->0,
{
    proof {
        reveal_strlit("-ERR '");
        assert("-ERR '"@ =~= err_prefix());
    }
    if !str_starts_with(header, "-ERR '") {
        return None;
    }
    let n = header.unicode_len();
    let mut q: usize = 6;
    loop
        invariant_except_break
            n == header@.len(),
            6 <= q <= n,
            find_char_from(header@, 6, '\'') == find_char_from(header@, q as int, '\''),
        ensures
            n == header@.len(),
            6 <= q <= n,
            find_char_from(header@, 6, '\'') == q,
        decreases n - q,
    {
        if q == n {
            break ;
        }
        if !is_not_tick(header.get_char(q)) {
            break ;
        }
        q = q + 1;
    }
    if q == n || q == 6 {
        return None;
    }
    let h = ErrorHeader { message: header.substring_char(6, q).to_owned() };
    proof {
        assert(header@.subrange(6, q as int) == h.message@);
    }
    Some(h)
}

/// The framing rule for the two payload-bearing kinds: the header line is
/// everything before the first CRLF, the payload is the raw bytes between
/// that CRLF and the next one (or the end when there is no second CRLF).
pub open spec fn split_spec(s: Seq<char>) -> Option<(Seq<char>, Seq<u8>)> {
    let h = find_crlf_from(s, 0);
    if h == s.len() {
        None
    } else {
        let rest = s.skip(h + 2);
        let p = find_crlf_from(rest, 0);
        Some((s.take(h), encode_utf8(rest.take(p))))
    }
}

/// Split raw input into a header line and the payload bytes after it.
/// `None` when the input holds no CRLF at all. Declared lengths play no
/// part here: the split goes by CRLF alone.
pub fn split_header_and_payload(source: &str) -> (r: Option<(String, Vec<u8>)>)
    ensures
        r is Some <==> split_spec(source@) is Some,
        r is Some ==> (r->0).0@ == (split_spec(source@)->0).0 && (r->0).1@ == (split_spec(
            source@,
        )->0).1,
{
    match find_crlf(source) {
        None => None,
        Some(h) => {
            let n = source.unicode_len();
            proof {
                lemma_find_crlf_from(source@, 0);
            }
            let header = source.substring_char(0, h).to_owned();
            let rest = source.substring_char(h + 2, n);
            let p = match find_crlf(rest) {
                Some(p) => p,
                None => rest.unicode_len(),
            };
            let payload_str = rest.substring_char(0, p);
            let payload = payload_str.as_bytes_vec();
            proof {
                assert(rest@ =~= source@.skip(h + 2));
                assert(header@ =~= source@.take(h as int));
                assert(payload_str@ =~= rest@.take(find_crlf_from(rest@, 0)));
            }
            Some((header, payload))
        },
    }
}

} // verus!
