//! The canonical formatter: every message kind renders to its wire form
//! with exactly one space between fields and a trailing CRLF, whatever
//! separators the input carried.

use vstd::prelude::*;

verus! {

use crate::text::{dec_str, join_tokens, u64_to_string};
use vstd::utf8::{decode_utf8, valid_utf8};

pub open spec fn sp() -> Seq<char> {
    seq![' ']
}

pub open spec fn crlf() -> Seq<char> {
    seq!['\r', '\n']
}

/// How payload bytes appear in rendered text: decoded as UTF-8 when they
/// are valid UTF-8, else replaced by a fixed marker.
pub open spec fn payload_str_spec(b: Seq<u8>) -> Seq<char> {
    if valid_utf8(b) {
        decode_utf8(b)
    } else {
        "<<BAD PAYLOAD>>"@
    }
}

/// Relies on `core::str::from_utf8`: it returns `Ok` exactly on valid
/// UTF-8 input and decodes those bytes, as vstd's UTF-8 model states it.
#[verifier::external_body]
fn bytes_to_utf8_string(bytes: &Vec<u8>) -> (r: Option<String>)
    ensures
        r is Some <==> valid_utf8(bytes@),
        r is Some ==> r->0@ == decode_utf8(bytes@),
{
    match core::str::from_utf8(bytes.as_slice()) {
        Ok(s) => Some(s.to_string()),
        Err(_) => None,
    }
}

/// Payload bytes as text, with the marker for bytes no text can show.
pub fn vec_to_str(bytes: &Vec<u8>) -> (r: String)
    ensures
        r@ == payload_str_spec(bytes@),
{
    match bytes_to_utf8_string(bytes) {
        Some(s) => s,
        None => {
            let r = String::from_str("<<BAD PAYLOAD>>");
            r
        },
    }
}

/// Unfoldings of `join_tokens` for the token counts the renderer uses.
pub proof fn lemma_join2(a: Seq<char>, b: Seq<char>)
    ensures
        join_tokens(seq![a, b]) == a + sp() + b,
{
    let ts = seq![a, b];
    assert(ts.drop_first() =~= seq![b]);
    assert(join_tokens(seq![b]) == b);
    assert(join_tokens(ts) =~= a + sp() + b);
}

pub proof fn lemma_join3(a: Seq<char>, b: Seq<char>, c: Seq<char>)
    ensures
        join_tokens(seq![a, b, c]) == a + sp() + (b + sp() + c),
{
    let ts = seq![a, b, c];
    assert(ts.drop_first() =~= seq![b, c]);
    lemma_join2(b, c);
    assert(join_tokens(ts) =~= a + sp() + (b + sp() + c));
}

pub proof fn lemma_join4(a: Seq<char>, b: Seq<char>, c: Seq<char>, d: Seq<char>)
    ensures
        join_tokens(seq![a, b, c, d]) == a + sp() + (b + sp() + (c + sp() + d)),
{
    let ts = seq![a, b, c, d];
    assert(ts.drop_first() =~= seq![b, c, d]);
    lemma_join3(b, c, d);
    assert(join_tokens(ts) =~= a + sp() + (b + sp() + (c + sp() + d)));
}

} // verus!

verus! {

use crate::json::{connect_json, connect_json_string, info_json, info_json_string};
use crate::parser::{
    kw_connect, kw_err, kw_info, kw_msg, kw_ok, kw_ping, kw_pong, kw_pub, kw_sub, kw_unsub,
};
use crate::{
    DeliveredMessage, DeliveredModel, MessageModel, ProtocolMessage, PublishMessage, PublishModel,
    ServerInformation, SubscribeMessage, SubscribeModel, UnsubscribeMessage, UnsubscribeModel,
    ConnectionInformation,
};

/// The header fields of a publish message, in wire order; the reply-to
/// token stands between subject and size exactly when it is present.
pub open spec fn pub_tokens_of(m: PublishModel) -> Seq<Seq<char>> {
    match m.reply_to {
        None => seq![kw_pub(), m.subject, dec_str(m.payload_size as nat)],
        Some(rt) => seq![kw_pub(), m.subject, rt, dec_str(m.payload_size as nat)],
    }
}

pub open spec fn msg_tokens_of(m: DeliveredModel) -> Seq<Seq<char>> {
    match m.reply_to {
        None => seq![
            kw_msg(),
            m.subject,
            dec_str(m.subscription_id as nat),
            dec_str(m.payload_size as nat),
        ],
        Some(rt) => seq![
            kw_msg(),
            m.subject,
            dec_str(m.subscription_id as nat),
            rt,
            dec_str(m.payload_size as nat),
        ],
    }
}

pub open spec fn sub_tokens_of(m: SubscribeModel) -> Seq<Seq<char>> {
    match m.queue_group {
        None => seq![kw_sub(), m.subject, dec_str(m.subscription_id as nat)],
        Some(qg) => seq![kw_sub(), m.subject, qg, dec_str(m.subscription_id as nat)],
    }
}

pub open spec fn unsub_tokens_of(m: UnsubscribeModel) -> Seq<Seq<char>> {
    match m.max_messages {
        None => seq![kw_unsub(), dec_str(m.subscription_id as nat)],
        Some(mm) => seq![kw_unsub(), dec_str(m.subscription_id as nat), dec_str(mm as nat)],
    }
}

/// Canonical wire forms. Header fields are joined by single spaces, the
/// two payload-bearing kinds append the payload between CRLFs, and every
/// kind ends with one CRLF.
pub open spec fn render_publish(m: PublishModel) -> Seq<char> {
    join_tokens(pub_tokens_of(m)) + crlf() + payload_str_spec(m.payload) + crlf()
}

pub open spec fn render_delivered(m: DeliveredModel) -> Seq<char> {
    join_tokens(msg_tokens_of(m)) + crlf() + payload_str_spec(m.payload) + crlf()
}

pub open spec fn render_subscribe(m: SubscribeModel) -> Seq<char> {
    join_tokens(sub_tokens_of(m)) + crlf()
}

pub open spec fn render_unsubscribe(m: UnsubscribeModel) -> Seq<char> {
    join_tokens(unsub_tokens_of(m)) + crlf()
}

pub open spec fn render_error(text: Seq<char>) -> Seq<char> {
    kw_err() + seq![' ', '\''] + text + seq!['\''] + crlf()
}

pub open spec fn render_info(m: crate::ServerInformationModel) -> Seq<char> {
    kw_info() + sp() + info_json(m) + crlf()
}

pub open spec fn render_connect(m: crate::ConnectionInformationModel) -> Seq<char> {
    kw_connect() + sp() + connect_json(m) + crlf()
}

/// What rendering a message writes, for every message kind.
pub open spec fn render_spec(m: MessageModel) -> Seq<char> {
    match m {
        MessageModel::Unsubscribe(u) => render_unsubscribe(u),
        MessageModel::Publish(p) => render_publish(p),
        MessageModel::Message(d) => render_delivered(d),
        MessageModel::Subscribe(sb) => render_subscribe(sb),
        MessageModel::Ping => kw_ping() + crlf(),
        MessageModel::Pong => kw_pong() + crlf(),
        MessageModel::Okay => kw_ok() + crlf(),
        MessageModel::Error(t) => render_error(t),
        MessageModel::Info(i) => render_info(i),
        MessageModel::Connect(c) => render_connect(c),
    }
}

impl PublishMessage {
    /// The canonical wire form of this message.
    pub fn render(&self) -> (r: String)
        ensures
            r@ == render_publish(self@),
    {
        proof {
            reveal_strlit("PUB ");
            reveal_strlit(" ");
            reveal_strlit("\r\n");
        }
        let mut out = String::from_str("PUB ");
        out.append(self.subject.as_str());
        out.append(" ");
        match &self.reply_to {
            Some(rt) => {
                out.append(rt.as_str());
                out.append(" ");
            },
            None => {},
        }
        let num = u64_to_string(self.payload_size as u64);
        out.append(num.as_str());
        out.append("\r\n");
        let ps = vec_to_str(&self.payload);
        out.append(ps.as_str());
        out.append("\r\n");
        proof {
            if self@.reply_to is Some {
                lemma_join4(
                    kw_pub(),
                    self@.subject,
                    self@.reply_to->0,
                    dec_str(self@.payload_size as nat),
                );
            } else {
                lemma_join3(kw_pub(), self@.subject, dec_str(self@.payload_size as nat));
            }
            assert(out@ =~= render_publish(self@));
        }
        out
    }
}

impl DeliveredMessage {
    /// The canonical wire form of this message.
    pub fn render(&self) -> (r: String)
        ensures
            r@ == render_delivered(self@),
    {
        proof {
            reveal_strlit("MSG ");
            reveal_strlit(" ");
            reveal_strlit("\r\n");
        }
        let mut out = String::from_str("MSG ");
        out.append(self.subject.as_str());
        out.append(" ");
        let sid = u64_to_string(self.subscription_id as u64);
        out.append(sid.as_str());
        out.append(" ");
        match &self.reply_to {
            Some(rt) => {
                out.append(rt.as_str());
                out.append(" ");
            },
            None => {},
        }
        let num = u64_to_string(self.payload_size as u64);
        out.append(num.as_str());
        out.append("\r\n");
        let ps = vec_to_str(&self.payload);
        out.append(ps.as_str());
        out.append("\r\n");
        proof {
            if self@.reply_to is Some {
                lemma_join5(
                    kw_msg(),
                    self@.subject,
                    dec_str(self@.subscription_id as nat),
                    self@.reply_to->0,
                    dec_str(self@.payload_size as nat),
                );
            } else {
                lemma_join4(
                    kw_msg(),
                    self@.subject,
                    dec_str(self@.subscription_id as nat),
                    dec_str(self@.payload_size as nat),
                );
            }
            assert(out@ =~= render_delivered(self@));
        }
        out
    }
}

impl SubscribeMessage {
    /// The canonical wire form of this message.
    pub fn render(&self) -> (r: String)
        ensures
            r@ == render_subscribe(self@),
    {
        proof {
            reveal_strlit("SUB ");
            reveal_strlit(" ");
            reveal_strlit("\r\n");
        }
        let mut out = String::from_str("SUB ");
        out.append(self.subject.as_str());
        out.append(" ");
        match &self.queue_group {
            Some(qg) => {
                out.append(qg.as_str());
                out.append(" ");
            },
            None => {},
        }
        let sid = u64_to_string(self.subscription_id as u64);
        out.append(sid.as_str());
        out.append("\r\n");
        proof {
            if self@.queue_group is Some {
                lemma_join4(
                    kw_sub(),
                    self@.subject,
                    self@.queue_group->0,
                    dec_str(self@.subscription_id as nat),
                );
            } else {
                lemma_join3(kw_sub(), self@.subject, dec_str(self@.subscription_id as nat));
            }
            assert(out@ =~= render_subscribe(self@));
        }
        out
    }
}

impl UnsubscribeMessage {
    /// The canonical wire form of this message.
    pub fn render(&self) -> (r: String)
        ensures
            r@ == render_unsubscribe(self@),
    {
        proof {
            reveal_strlit("UNSUB ");
            reveal_strlit(" ");
            reveal_strlit("\r\n");
        }
        let mut out = String::from_str("UNSUB ");
        let sid = u64_to_string(self.subscription_id as u64);
        out.append(sid.as_str());
        match self.max_messages {
            Some(mm) => {
                out.append(" ");
                let mms = u64_to_string(mm as u64);
                out.append(mms.as_str());
            },
            None => {},
        }
        out.append("\r\n");
        proof {
            if self@.max_messages is Some {
                lemma_join3(
                    kw_unsub(),
                    dec_str(self@.subscription_id as nat),
                    dec_str(self@.max_messages->0 as nat),
                );
            } else {
                lemma_join2(kw_unsub(), dec_str(self@.subscription_id as nat));
            }
            assert(out@ =~= render_unsubscribe(self@));
        }
        out
    }
}

impl ServerInformation {
    /// The canonical wire form of this message.
    pub fn render(&self) -> (r: String)
        ensures
            r@ == render_info(self@),
    {
        proof {
            reveal_strlit("INFO ");
            reveal_strlit("\r\n");
        }
        let mut out = String::from_str("INFO ");
        let body = info_json_string(self);
        out.append(body.as_str());
        out.append("\r\n");
        proof {
            assert(out@ =~= render_info(self@));
        }
        out
    }
}

impl ConnectionInformation {
    /// The canonical wire form of this message.
    pub fn render(&self) -> (r: String)
        ensures
            r@ == render_connect(self@),
    {
        proof {
            reveal_strlit("CONNECT ");
            reveal_strlit("\r\n");
        }
        let mut out = String::from_str("CONNECT ");
        let body = connect_json_string(self);
        out.append(body.as_str());
        out.append("\r\n");
        proof {
            assert(out@ =~= render_connect(self@));
        }
        out
    }
}

impl ProtocolMessage {
    /// The canonical wire form of any protocol message.
    pub fn render(&self) -> (r: String)
        ensures
            r@ == render_spec(self@),
    {
        match self {
            ProtocolMessage::Unsubscribe(m) => m.render(),
            ProtocolMessage::Subscribe(m) => m.render(),
            ProtocolMessage::Publish(m) => m.render(),
            ProtocolMessage::Message(m) => m.render(),
            ProtocolMessage::Ping => {
                let r = String::from_str("PING\r\n");
                proof {
                    reveal_strlit("PING\r\n");
                    assert(r@ =~= kw_ping() + crlf());
                }
                r
            },
            ProtocolMessage::Pong => {
                let r = String::from_str("PONG\r\n");
                proof {
                    reveal_strlit("PONG\r\n");
                    assert(r@ =~= kw_pong() + crlf());
                }
                r
            },
            ProtocolMessage::Okay => {
                let r = String::from_str("+OK\r\n");
                proof {
                    reveal_strlit("+OK\r\n");
                    assert(r@ =~= kw_ok() + crlf());
                }
                r
            },
            ProtocolMessage::Error(s) => {
                proof {
                    reveal_strlit("-ERR '");
                    reveal_strlit("'");
                    reveal_strlit("\r\n");
                }
                let mut out = String::from_str("-ERR '");
                out.append(s.as_str());
                out.append("'");
                out.append("\r\n");
                proof {
                    assert(out@ =~= render_error(s@));
                }
                out
            },
            ProtocolMessage::Info(i) => i.render(),
            ProtocolMessage::Connect(c) => c.render(),
        }
    }
}

/// One more unfolding of `join_tokens`, for the five-field MSG header.
pub proof fn lemma_join5(a: Seq<char>, b: Seq<char>, c: Seq<char>, d: Seq<char>, e: Seq<char>)
    ensures
        join_tokens(seq![a, b, c, d, e]) == a + sp() + (b + sp() + (c + sp() + (d + sp() + e))),
{
    let ts = seq![a, b, c, d, e];
    assert(ts.drop_first() =~= seq![b, c, d, e]);
    lemma_join4(b, c, d, e);
    assert(join_tokens(ts) =~= a + sp() + (b + sp() + (c + sp() + (d + sp() + e))));
}

} // verus!
