//! Types and codecs for the NATS wire protocol.
//!
//! A `ProtocolMessage` is the typed form of one protocol message. Parsing
//! turns wire text into a `ProtocolMessage`; rendering produces the
//! canonical wire form, with single-space separators and CRLF terminators.

use vstd::prelude::*;

pub mod json;
pub mod laws;
pub mod parser;
pub mod render;
pub mod text;

verus! {

/// A separator in a protocol header line: any run of spaces and horizontal
/// tabs delimits fields, however long the run is.
pub open spec fn is_sep(c: char) -> bool {
    c == ' ' || c == '\t'
}

/// Character test for numeric fields: the ten decimal digits.
pub fn is_digit(chr: char) -> (r: bool)
    ensures
        r == ('0' <= chr && chr <= '9'),
{
    chr == '1' || chr == '0' || chr == '2' || chr == '3' || chr == '4' || chr == '5' || chr == '6'
        || chr == '7' || chr == '8' || chr == '9'
}

} // verus!

verus! {

use crate::parser::{
    msg_header_spec, pub_header_spec, split_spec, sub_header_spec, unsub_header_spec,
};
use crate::text::{no_cr_lf, token_wf};
use vstd::utf8::{decode_utf8, valid_utf8};

/// A field value of a header line: non-empty, free of separators, free of
/// carriage returns and line feeds. Rendering such a field and tokenizing
/// the result gives it back unchanged.
pub open spec fn field_wf(t: Seq<char>) -> bool {
    token_wf(t) && no_cr_lf(t)
}

pub open spec fn opt_field_wf(t: Option<Seq<char>>) -> bool {
    match t {
        Some(s) => field_wf(s),
        None => true,
    }
}

/// No CRLF pair anywhere in the text.
pub open spec fn no_crlf_pair(s: Seq<char>) -> bool {
    forall|i: int| 0 <= i && i + 1 < s.len() ==> !((#[trigger] s[i]) == '\r' && s[i + 1] == '\n')
}

/// A payload that survives the framer unchanged: valid UTF-8 whose text
/// holds no CRLF pair.
pub open spec fn payload_wf(b: Seq<u8>) -> bool {
    valid_utf8(b) && no_crlf_pair(decode_utf8(b))
}

/// Represents a publish message. This message conforms to the following
/// format from the NATS protocol documentation:
/// ```text
/// PUB <subject> [reply-to] <#bytes>\r\n[payload]\r\n
/// ```
#[derive(Debug, Clone, PartialEq)]
pub struct PublishMessage {
    pub subject: String,
    pub reply_to: Option<String>,
    pub payload_size: usize,
    pub payload: Vec<u8>,
}

pub struct PublishModel {
    pub subject: Seq<char>,
    pub reply_to: Option<Seq<char>>,
    pub payload_size: usize,
    pub payload: Seq<u8>,
}

impl View for PublishMessage {
    type V = PublishModel;

    open spec fn view(&self) -> PublishModel {
        PublishModel {
            subject: self.subject@,
            reply_to: self.reply_to.deep_view(),
            payload_size: self.payload_size,
            payload: self.payload@,
        }
    }
}

impl PublishModel {
    pub open spec fn wf(self) -> bool {
        field_wf(self.subject) && opt_field_wf(self.reply_to) && payload_wf(self.payload)
    }
}

/// Represents a message as per the NATS protocol documentation:
/// ```text
/// MSG <subject> <sid> [reply-to] <#bytes>\r\n[payload]\r\n
/// ```
#[derive(Debug, Clone, PartialEq)]
pub struct DeliveredMessage {
    pub subject: String,
    pub subscription_id: usize,
    pub reply_to: Option<String>,
    pub payload_size: usize,
    pub payload: Vec<u8>,
}

pub struct DeliveredModel {
    pub subject: Seq<char>,
    pub subscription_id: usize,
    pub reply_to: Option<Seq<char>>,
    pub payload_size: usize,
    pub payload: Seq<u8>,
}

impl View for DeliveredMessage {
    type V = DeliveredModel;

    open spec fn view(&self) -> DeliveredModel {
        DeliveredModel {
            subject: self.subject@,
            subscription_id: self.subscription_id,
            reply_to: self.reply_to.deep_view(),
            payload_size: self.payload_size,
            payload: self.payload@,
        }
    }
}

impl DeliveredModel {
    pub open spec fn wf(self) -> bool {
        field_wf(self.subject) && opt_field_wf(self.reply_to) && payload_wf(self.payload)
    }
}

/// A struct that represents a subscription message. This message conforms
/// to the following format from the NATS protocol definition:
/// ```text
/// SUB <subject> [queue group] <sid>\r\n
/// ```
#[derive(Debug, Clone, PartialEq)]
pub struct SubscribeMessage {
    pub subject: String,
    pub queue_group: Option<String>,
    pub subscription_id: usize,
}

pub struct SubscribeModel {
    pub subject: Seq<char>,
    pub queue_group: Option<Seq<char>>,
    pub subscription_id: usize,
}

impl View for SubscribeMessage {
    type V = SubscribeModel;

    open spec fn view(&self) -> SubscribeModel {
        SubscribeModel {
            subject: self.subject@,
            queue_group: self.queue_group.deep_view(),
            subscription_id: self.subscription_id,
        }
    }
}

impl SubscribeModel {
    pub open spec fn wf(self) -> bool {
        field_wf(self.subject) && opt_field_wf(self.queue_group)
    }
}

/// A struct that represents an unsubscribe message. This message conforms
/// to the following format from the NATS protocol definition:
/// ```text
/// UNSUB <sid> [max_msgs]
/// ```
#[derive(Debug, Clone, PartialEq)]
pub struct UnsubscribeMessage {
    pub subscription_id: usize,
    pub max_messages: Option<usize>,
}

pub struct UnsubscribeModel {
    pub subscription_id: usize,
    pub max_messages: Option<usize>,
}

impl View for UnsubscribeMessage {
    type V = UnsubscribeModel;

    open spec fn view(&self) -> UnsubscribeModel {
        UnsubscribeModel {
            subscription_id: self.subscription_id,
            max_messages: self.max_messages,
        }
    }
}

/// Represents a NATS server information message, defined according to the
/// NATS protocol documentation:
/// ```text
/// INFO {["option_name":option_value],...}
/// ```
#[derive(Debug, Clone, PartialEq)]
pub struct ServerInformation {
    pub server_id: String,
    pub version: String,
    pub proto: Option<usize>,
    pub go: String,
    pub host: String,
    pub port: u64,
    pub auth_required: bool,
    pub tls_required: bool,
    pub max_payload: u64,
    pub client_id: Option<usize>,
    pub connect_urls: Option<Vec<String>>,
    pub nonce: Option<String>,
}

pub struct ServerInformationModel {
    pub server_id: Seq<char>,
    pub version: Seq<char>,
    pub proto: Option<usize>,
    pub go: Seq<char>,
    pub host: Seq<char>,
    pub port: u64,
    pub auth_required: bool,
    pub tls_required: bool,
    pub max_payload: u64,
    pub client_id: Option<usize>,
    pub connect_urls: Option<Seq<Seq<char>>>,
    pub nonce: Option<Seq<char>>,
}

impl View for ServerInformation {
    type V = ServerInformationModel;

    open spec fn view(&self) -> ServerInformationModel {
        ServerInformationModel {
            server_id: self.server_id@,
            version: self.version@,
            proto: self.proto,
            go: self.go@,
            host: self.host@,
            port: self.port,
            auth_required: self.auth_required,
            tls_required: self.tls_required,
            max_payload: self.max_payload,
            client_id: self.client_id,
            connect_urls: self.connect_urls.deep_view(),
            nonce: self.nonce.deep_view(),
        }
    }
}

/// Represents server connection information sent by the client to
/// configure the connection immediately after connecting:
/// ```text
/// CONNECT [json]
/// ```
#[derive(Debug, Clone, PartialEq)]
pub struct ConnectionInformation {
    pub verbose: bool,
    pub pedantic: bool,
    pub tls_required: bool,
    pub auth_token: Option<String>,
    pub user: Option<String>,
    pub pass: Option<String>,
    pub lang: String,
    pub name: String,
    pub version: String,
    pub protocol: Option<u64>,
    pub sig: Option<String>,
    pub jwt: Option<String>,
}

pub struct ConnectionInformationModel {
    pub verbose: bool,
    pub pedantic: bool,
    pub tls_required: bool,
    pub auth_token: Option<Seq<char>>,
    pub user: Option<Seq<char>>,
    pub pass: Option<Seq<char>>,
    pub lang: Seq<char>,
    pub name: Seq<char>,
    pub version: Seq<char>,
    pub protocol: Option<u64>,
    pub sig: Option<Seq<char>>,
    pub jwt: Option<Seq<char>>,
}

impl View for ConnectionInformation {
    type V = ConnectionInformationModel;

    open spec fn view(&self) -> ConnectionInformationModel {
        ConnectionInformationModel {
            verbose: self.verbose,
            pedantic: self.pedantic,
            tls_required: self.tls_required,
            auth_token: self.auth_token.deep_view(),
            user: self.user.deep_view(),
            pass: self.pass.deep_view(),
            lang: self.lang@,
            name: self.name@,
            version: self.version@,
            protocol: self.protocol,
            sig: self.sig.deep_view(),
            jwt: self.jwt.deep_view(),
        }
    }
}

/// An enum whose variants are all of the available protocol messages as
/// defined by the NATS protocol documentation.
#[derive(Debug, Clone, PartialEq)]
pub enum ProtocolMessage {
    Unsubscribe(UnsubscribeMessage),
    Publish(PublishMessage),
    Message(DeliveredMessage),
    Subscribe(SubscribeMessage),
    Ping,
    Pong,
    Okay,
    Error(String),
    Info(ServerInformation),
    Connect(ConnectionInformation),
}

pub enum MessageModel {
    Unsubscribe(UnsubscribeModel),
    Publish(PublishModel),
    Message(DeliveredModel),
    Subscribe(SubscribeModel),
    Ping,
    Pong,
    Okay,
    Error(Seq<char>),
    Info(ServerInformationModel),
    Connect(ConnectionInformationModel),
}

impl View for ProtocolMessage {
    type V = MessageModel;

    open spec fn view(&self) -> MessageModel {
        match self {
            ProtocolMessage::Unsubscribe(m) => MessageModel::Unsubscribe(m@),
            ProtocolMessage::Publish(m) => MessageModel::Publish(m@),
            ProtocolMessage::Message(m) => MessageModel::Message(m@),
            ProtocolMessage::Subscribe(m) => MessageModel::Subscribe(m@),
            ProtocolMessage::Ping => MessageModel::Ping,
            ProtocolMessage::Pong => MessageModel::Pong,
            ProtocolMessage::Okay => MessageModel::Okay,
            ProtocolMessage::Error(s) => MessageModel::Error(s@),
            ProtocolMessage::Info(i) => MessageModel::Info(i@),
            ProtocolMessage::Connect(c) => MessageModel::Connect(c@),
        }
    }
}

/// Error text that renders and parses back unchanged: at least one
/// character, none of them a single quote.
pub open spec fn error_text_wf(s: Seq<char>) -> bool {
    s.len() > 0 && forall|i: int| 0 <= i < s.len() ==> s[i] != '\''
}

impl MessageModel {
    /// A message whose fields respect the wire grammar's invariants: no
    /// separator or line break inside a token, no CRLF pair inside a
    /// payload's text, no quote inside error text.
    pub open spec fn wf(self) -> bool {
        match self {
            MessageModel::Unsubscribe(_) => true,
            MessageModel::Publish(p) => p.wf(),
            MessageModel::Message(d) => d.wf(),
            MessageModel::Subscribe(s) => s.wf(),
            MessageModel::Ping => true,
            MessageModel::Pong => true,
            MessageModel::Okay => true,
            MessageModel::Error(t) => error_text_wf(t),
            MessageModel::Info(_) => true,
            MessageModel::Connect(_) => true,
        }
    }
}

/// Indicates an error occurred during parsing of a NATS protocol message.
/// The carried text names what failed.
#[derive(Debug)]
pub struct NatsParseError {
    msg: String,
}

impl View for NatsParseError {
    type V = Seq<char>;

    closed spec fn view(&self) -> Seq<char> {
        self.msg@
    }
}

impl NatsParseError {
    /// The description of the failure.
    pub fn message(&self) -> (r: &str)
        ensures
            r@ == self@,
    {
        self.msg.as_str()
    }

    pub(crate) fn with_text(text: &str) -> (r: NatsParseError)
        ensures
            r@ == text@,
    {
        NatsParseError { msg: String::from_str(text) }
    }

    pub(crate) fn from_string(msg: String) -> (r: NatsParseError)
        ensures
            r@ == msg@,
    {
        NatsParseError { msg }
    }
}

} // verus!

verus! {

impl PublishMessage {
    /// Constructor to create a new publish message; the declared payload
    /// size is the payload's byte count.
    pub fn new(subject: String, reply_to: Option<String>, payload: Vec<u8>) -> (r: PublishMessage)
        ensures
            r@.subject == subject@,
            r@.reply_to == reply_to.deep_view(),
            r@.payload_size == payload@.len(),
            r@.payload == payload@,
    {
        let payload_size = payload.len();
        PublishMessage { subject, reply_to, payload_size, payload }
    }
}

impl DeliveredMessage {
    /// Constructor to build a new message from a given subject, payload,
    /// etc; the declared payload size is the payload's byte count.
    pub fn new(
        subject: String,
        subscription_id: usize,
        reply_to: Option<String>,
        payload: Vec<u8>,
    ) -> (r: DeliveredMessage)
        ensures
            r@.subject == subject@,
            r@.subscription_id == subscription_id,
            r@.reply_to == reply_to.deep_view(),
            r@.payload_size == payload@.len(),
            r@.payload == payload@,
    {
        let payload_size = payload.len();
        DeliveredMessage { subject, subscription_id, reply_to, payload_size, payload }
    }
}

impl SubscribeMessage {
    /// Constructor to create a new subscription message.
    pub fn new(subject: String, queue_group: Option<String>, subscription_id: usize) -> (r:
        SubscribeMessage)
        ensures
            r@.subject == subject@,
            r@.queue_group == queue_group.deep_view(),
            r@.subscription_id == subscription_id,
    {
        SubscribeMessage { subject, queue_group, subscription_id }
    }
}

impl UnsubscribeMessage {
    /// Constructor to create a new unsub message.
    pub fn new(subscription_id: usize, max_messages: Option<usize>) -> (r: UnsubscribeMessage)
        ensures
            r@.subscription_id == subscription_id,
            r@.max_messages == max_messages,
    {
        UnsubscribeMessage { subscription_id, max_messages }
    }
}

impl ServerInformation {
    /// Constructor to create a new server information.
    pub fn new(
        server_id: String,
        version: String,
        proto: Option<usize>,
        go: String,
        host: String,
        port: u64,
        auth_required: bool,
        tls_required: bool,
        max_payload: u64,
        client_id: Option<usize>,
        connect_urls: Option<Vec<String>>,
        nonce: Option<String>,
    ) -> (r: ServerInformation)
        ensures
            r@.server_id == server_id@,
            r@.version == version@,
            r@.proto == proto,
            r@.go == go@,
            r@.host == host@,
            r@.port == port,
            r@.auth_required == auth_required,
            r@.tls_required == tls_required,
            r@.max_payload == max_payload,
            r@.client_id == client_id,
            r@.connect_urls == connect_urls.deep_view(),
            r@.nonce == nonce.deep_view(),
    {
        ServerInformation {
            server_id,
            version,
            proto,
            go,
            host,
            port,
            auth_required,
            tls_required,
            max_payload,
            client_id,
            connect_urls,
            nonce,
        }
    }
}

impl ConnectionInformation {
    /// Constructor to create a new connection information struct.
    pub fn new(
        verbose: bool,
        pedantic: bool,
        tls_required: bool,
        auth_token: Option<String>,
        user: Option<String>,
        pass: Option<String>,
        lang: String,
        name: String,
        version: String,
        protocol: Option<u64>,
        sig: Option<String>,
        jwt: Option<String>,
    ) -> (r: ConnectionInformation)
        ensures
            r@.verbose == verbose,
            r@.pedantic == pedantic,
            r@.tls_required == tls_required,
            r@.auth_token == auth_token.deep_view(),
            r@.user == user.deep_view(),
            r@.pass == pass.deep_view(),
            r@.lang == lang@,
            r@.name == name@,
            r@.version == version@,
            r@.protocol == protocol,
            r@.sig == sig.deep_view(),
            r@.jwt == jwt.deep_view(),
    {
        ConnectionInformation {
            verbose,
            pedantic,
            tls_required,
            auth_token,
            user,
            pass,
            lang,
            name,
            version,
            protocol,
            sig,
            jwt,
        }
    }
}

/// The failure texts of the parsers, exactly as callers receive them.
pub open spec fn err_text_publish() -> Seq<char> {
    "Failed to parse Publish message"@
}

pub open spec fn err_text_publish_frame() -> Seq<char> {
    "Failed to parse Publish message - possibly not a 2-line message"@
}

pub open spec fn err_text_delivered() -> Seq<char> {
    "Failed to parse delivered message"@
}

pub open spec fn err_text_delivered_frame() -> Seq<char> {
    "Failed to parse message - possibly not a 2-line message"@
}

pub open spec fn err_text_subscribe() -> Seq<char> {
    "Failed to parse Subscribe message"@
}

pub open spec fn err_text_unsubscribe() -> Seq<char> {
    "Failed to parse Unsubscribe message"@
}

pub open spec fn err_text_err_header() -> Seq<char> {
    "Failed to parse protocol message of type ERR"@
}

pub open spec fn err_text_unknown() -> Seq<char> {
    "Failed to parse protocol message - unknown message type?"@
}

pub open spec fn fits_usize(v: u64) -> bool {
    v <= usize::MAX
}

/// What parsing a SUB line yields: the header grammar, with both numeric
/// fields required to fit the platform's sizes.
pub open spec fn sub_message_spec(s: Seq<char>) -> Result<SubscribeModel, Seq<char>> {
    match sub_header_spec(s) {
        Some(h) => if fits_usize(h.sid) {
            Ok(
                SubscribeModel {
                    subject: h.subject,
                    queue_group: h.queue_group,
                    subscription_id: h.sid as usize,
                },
            )
        } else {
            Err(err_text_subscribe())
        },
        None => Err(err_text_subscribe()),
    }
}

/// What parsing an UNSUB line yields.
pub open spec fn unsub_message_spec(s: Seq<char>) -> Result<UnsubscribeModel, Seq<char>> {
    match unsub_header_spec(s) {
        Some(h) => if fits_usize(h.sid) && (h.max_messages is None || fits_usize(
            h.max_messages->0,
        )) {
            Ok(
                UnsubscribeModel {
                    subscription_id: h.sid as usize,
                    max_messages: match h.max_messages {
                        Some(m) => Some(m as usize),
                        None => None,
                    },
                },
            )
        } else {
            Err(err_text_unsubscribe())
        },
        None => Err(err_text_unsubscribe()),
    }
}

/// What parsing a PUB frame yields: framer first, then the header
/// grammar; the payload is taken verbatim and the declared size verbatim,
/// never reconciled.
pub open spec fn pub_message_spec(s: Seq<char>) -> Result<PublishModel, Seq<char>> {
    match split_spec(s) {
        None => Err(err_text_publish_frame()),
        Some(hp) => match pub_header_spec(hp.0) {
            Some(h) => if fits_usize(h.message_len) {
                Ok(
                    PublishModel {
                        subject: h.subject,
                        reply_to: h.reply_to,
                        payload_size: h.message_len as usize,
                        payload: hp.1,
                    },
                )
            } else {
                Err(err_text_publish())
            },
            None => Err(err_text_publish()),
        },
    }
}

/// What parsing a MSG frame yields.
pub open spec fn msg_message_spec(s: Seq<char>) -> Result<DeliveredModel, Seq<char>> {
    match split_spec(s) {
        None => Err(err_text_delivered_frame()),
        Some(hp) => match msg_header_spec(hp.0) {
            Some(h) => if fits_usize(h.sid) && fits_usize(h.message_len) {
                Ok(
                    DeliveredModel {
                        subject: h.subject,
                        subscription_id: h.sid as usize,
                        reply_to: h.reply_to,
                        payload_size: h.message_len as usize,
                        payload: hp.1,
                    },
                )
            } else {
                Err(err_text_delivered())
            },
            None => Err(err_text_delivered()),
        },
    }
}

impl SubscribeMessage {
    /// Parse a SUB header line into a subscription message.
    pub fn from_str(s: &str) -> (r: Result<SubscribeMessage, NatsParseError>)
        ensures
            sub_message_spec(s@) is Ok ==> r is Ok && r->Ok_0@ == sub_message_spec(s@)->Ok_0,
            sub_message_spec(s@) is Err ==> r is Err && r->Err_0@ == sub_message_spec(s@)->Err_0,
    {
        match crate::parser::parse_sub_header(s) {
            Some(h) => {
                if h.sid <= usize::MAX as u64 {
                    Ok(
                        SubscribeMessage {
                            subject: h.subject,
                            queue_group: h.queue_group,
                            subscription_id: h.sid as usize,
                        },
                    )
                } else {
                    Err(NatsParseError { msg: String::from_str("Failed to parse Subscribe message") })
                }
            },
            None => Err(NatsParseError { msg: String::from_str("Failed to parse Subscribe message") }),
        }
    }
}

impl UnsubscribeMessage {
    /// Parse an UNSUB header line into an unsubscribe message.
    pub fn from_str(s: &str) -> (r: Result<UnsubscribeMessage, NatsParseError>)
        ensures
            unsub_message_spec(s@) is Ok ==> r is Ok && r->Ok_0@ == unsub_message_spec(s@)->Ok_0,
            unsub_message_spec(s@) is Err ==> r is Err && r->Err_0@ == unsub_message_spec(
                s@,
            )->Err_0,
    {
        match crate::parser::parse_unsub_header(s) {
            Some(h) => {
                if h.sid <= usize::MAX as u64 {
                    match h.max_messages {
                        Some(m) => {
                            if m <= usize::MAX as u64 {
                                Ok(
                                    UnsubscribeMessage {
                                        subscription_id: h.sid as usize,
                                        max_messages: Some(m as usize),
                                    },
                                )
                            } else {
                                Err(
                                    NatsParseError {
                                        msg: String::from_str(
                                            "Failed to parse Unsubscribe message",
                                        ),
                                    },
                                )
                            }
                        },
                        None => Ok(
                            UnsubscribeMessage {
                                subscription_id: h.sid as usize,
                                max_messages: None,
                            },
                        ),
                    }
                } else {
                    Err(
                        NatsParseError {
                            msg: String::from_str("Failed to parse Unsubscribe message"),
                        },
                    )
                }
            },
            None => Err(
                NatsParseError { msg: String::from_str("Failed to parse Unsubscribe message") },
            ),
        }
    }
}

impl PublishMessage {
    /// Parse a PUB frame (header line and payload) into a publish message.
    pub fn from_str(s: &str) -> (r: Result<PublishMessage, NatsParseError>)
        ensures
            pub_message_spec(s@) is Ok ==> r is Ok && r->Ok_0@ == pub_message_spec(s@)->Ok_0,
            pub_message_spec(s@) is Err ==> r is Err && r->Err_0@ == pub_message_spec(s@)->Err_0,
    {
        match crate::parser::split_header_and_payload(s) {
            None => Err(
                NatsParseError {
                    msg: String::from_str(
                        "Failed to parse Publish message - possibly not a 2-line message",
                    ),
                },
            ),
            Some((header, payload)) => {
                match crate::parser::parse_pub_header(header.as_str()) {
                    Some(h) => {
                        if h.message_len <= usize::MAX as u64 {
                            Ok(
                                PublishMessage {
                                    subject: h.subject,
                                    reply_to: h.reply_to,
                                    payload_size: h.message_len as usize,
                                    payload,
                                },
                            )
                        } else {
                            Err(
                                NatsParseError {
                                    msg: String::from_str("Failed to parse Publish message"),
                                },
                            )
                        }
                    },
                    None => Err(
                        NatsParseError { msg: String::from_str("Failed to parse Publish message") },
                    ),
                }
            },
        }
    }
}

impl DeliveredMessage {
    /// Parse a MSG frame (header line and payload) into a delivered
    /// message.
    pub fn from_str(s: &str) -> (r: Result<DeliveredMessage, NatsParseError>)
        ensures
            msg_message_spec(s@) is Ok ==> r is Ok && r->Ok_0@ == msg_message_spec(s@)->Ok_0,
            msg_message_spec(s@) is Err ==> r is Err && r->Err_0@ == msg_message_spec(s@)->Err_0,
    {
        match crate::parser::split_header_and_payload(s) {
            None => Err(
                NatsParseError {
                    msg: String::from_str("Failed to parse message - possibly not a 2-line message"),
                },
            ),
            Some((header, payload)) => {
                match crate::parser::parse_msg_header(header.as_str()) {
                    Some(h) => {
                        if h.sid <= usize::MAX as u64 && h.message_len <= usize::MAX as u64 {
                            Ok(
                                DeliveredMessage {
                                    subject: h.subject,
                                    subscription_id: h.sid as usize,
                                    reply_to: h.reply_to,
                                    payload_size: h.message_len as usize,
                                    payload,
                                },
                            )
                        } else {
                            Err(
                                NatsParseError {
                                    msg: String::from_str("Failed to parse delivered message"),
                                },
                            )
                        }
                    },
                    None => Err(
                        NatsParseError {
                            msg: String::from_str("Failed to parse delivered message"),
                        },
                    ),
                }
            },
        }
    }
}

} // verus!

verus! {

use crate::parser::{
    err_header_spec, kw_connect, kw_err, kw_info, kw_msg, kw_ok, kw_ping, kw_pong, kw_pub, kw_sub,
    kw_unsub,
};
use crate::text::{starts_with, str_starts_with};

impl ServerInformation {
    /// Parse an INFO message: strip the keyword, trim, and decode the
    /// JSON body through the structured-payload bridge.
    pub fn from_str(s: &str) -> (r: Result<ServerInformation, NatsParseError>)
        ensures
            r is Ok ==> crate::json::json_well_formed(crate::json::info_body_spec(s@)),
            !crate::json::json_well_formed(crate::json::info_body_spec(s@)) ==> r is Err,
            r is Err ==> crate::text::starts_with(r->Err_0@, crate::json::err_text_info_prefix()),
    {
        crate::json::server_information_from_str(s)
    }
}

impl ConnectionInformation {
    /// Parse a CONNECT message: strip the keyword, trim, and decode the
    /// JSON body through the structured-payload bridge.
    pub fn from_str(s: &str) -> (r: Result<ConnectionInformation, NatsParseError>)
        ensures
            r is Ok ==> crate::json::json_well_formed(crate::json::connect_body_spec(s@)),
            !crate::json::json_well_formed(crate::json::connect_body_spec(s@)) ==> r is Err,
            r is Err ==> crate::text::starts_with(
                r->Err_0@,
                "Failed to parse connection info JSON: "@,
            ),
    {
        crate::json::connection_information_from_str(s)
    }
}

/// The outcome the dispatcher owes for a given input. `None` stands for
/// the two structured-payload kinds, whose outcome depends on the outside
/// JSON codec; for every other input the exact result, success or
/// failure text, is pinned down. The keywords are tried in a fixed
/// order, so that UNSUB is recognized before SUB ever gets a chance.
pub open spec fn protocol_parse_spec(s: Seq<char>) -> Option<Result<MessageModel, Seq<char>>> {
    if starts_with(s, kw_unsub()) {
        Some(
            match unsub_message_spec(s) {
                Ok(m) => Ok(MessageModel::Unsubscribe(m)),
                Err(e) => Err(e),
            },
        )
    } else if starts_with(s, kw_pub()) {
        Some(
            match pub_message_spec(s) {
                Ok(m) => Ok(MessageModel::Publish(m)),
                Err(e) => Err(e),
            },
        )
    } else if starts_with(s, kw_msg()) {
        Some(
            match msg_message_spec(s) {
                Ok(m) => Ok(MessageModel::Message(m)),
                Err(e) => Err(e),
            },
        )
    } else if starts_with(s, kw_sub()) {
        Some(
            match sub_message_spec(s) {
                Ok(m) => Ok(MessageModel::Subscribe(m)),
                Err(e) => Err(e),
            },
        )
    } else if starts_with(s, kw_ping()) {
        Some(Ok(MessageModel::Ping))
    } else if starts_with(s, kw_pong()) {
        Some(Ok(MessageModel::Pong))
    } else if starts_with(s, kw_ok()) {
        Some(Ok(MessageModel::Okay))
    } else if starts_with(s, kw_err()) {
        Some(
            match err_header_spec(s) {
                Some(t) => Ok(MessageModel::Error(t)),
                None => Err(err_text_err_header()),
            },
        )
    } else if starts_with(s, kw_info()) {
        None
    } else if starts_with(s, kw_connect()) {
        None
    } else {
        Some(Err(err_text_unknown()))
    }
}

impl ProtocolMessage {
    /// Parse one protocol message by its leading keyword. For every kind
    /// except INFO and CONNECT the result is exactly
    /// `protocol_parse_spec`; the two JSON kinds yield their own variant
    /// when the outside JSON codec accepts the body.
    pub fn from_str(s: &str) -> (r: Result<ProtocolMessage, NatsParseError>)
        ensures
            protocol_parse_spec(s@) matches Some(Ok(m)) ==> r is Ok && r->Ok_0@ == m,
            protocol_parse_spec(s@) matches Some(Err(e)) ==> r is Err && r->Err_0@ == e,
            protocol_parse_spec(s@) is None && starts_with(s@, kw_info()) ==> (r is Ok ==> r->Ok_0
                is Info && crate::json::json_well_formed(crate::json::info_body_spec(s@))) && (
            !crate::json::json_well_formed(crate::json::info_body_spec(s@)) ==> r is Err) && (r
                is Err ==> starts_with(r->Err_0@, crate::json::err_text_info_prefix())),
            protocol_parse_spec(s@) is None && !starts_with(s@, kw_info()) ==> (r is Ok ==> r->Ok_0
                is Connect && crate::json::json_well_formed(crate::json::connect_body_spec(s@)))
                && (!crate::json::json_well_formed(crate::json::connect_body_spec(s@)) ==> r
                is Err) && (r is Err ==> starts_with(
                r->Err_0@,
                "Failed to parse connection info JSON: "@,
            )),
    {
        proof {
            reveal_strlit("UNSUB");
            reveal_strlit("PUB");
            reveal_strlit("MSG");
            reveal_strlit("SUB");
            reveal_strlit("PING");
            reveal_strlit("PONG");
            reveal_strlit("+OK");
            reveal_strlit("-ERR");
            reveal_strlit("INFO");
            reveal_strlit("CONNECT");
            assert("UNSUB"@ =~= kw_unsub());
            assert("PUB"@ =~= kw_pub());
            assert("MSG"@ =~= kw_msg());
            assert("SUB"@ =~= kw_sub());
            assert("PING"@ =~= kw_ping());
            assert("PONG"@ =~= kw_pong());
            assert("+OK"@ =~= kw_ok());
            assert("-ERR"@ =~= kw_err());
            assert("INFO"@ =~= kw_info());
            assert("CONNECT"@ =~= kw_connect());
        }
        if str_starts_with(s, "UNSUB") {
            match UnsubscribeMessage::from_str(s) {
                Ok(m) => Ok(ProtocolMessage::Unsubscribe(m)),
                Err(e) => Err(e),
            }
        } else if str_starts_with(s, "PUB") {
            match PublishMessage::from_str(s) {
                Ok(m) => Ok(ProtocolMessage::Publish(m)),
                Err(e) => Err(e),
            }
        } else if str_starts_with(s, "MSG") {
            match DeliveredMessage::from_str(s) {
                Ok(m) => Ok(ProtocolMessage::Message(m)),
                Err(e) => Err(e),
            }
        } else if str_starts_with(s, "SUB") {
            match SubscribeMessage::from_str(s) {
                Ok(m) => Ok(ProtocolMessage::Subscribe(m)),
                Err(e) => Err(e),
            }
        } else if str_starts_with(s, "PING") {
            Ok(ProtocolMessage::Ping)
        } else if str_starts_with(s, "PONG") {
            Ok(ProtocolMessage::Pong)
        } else if str_starts_with(s, "+OK") {
            Ok(ProtocolMessage::Okay)
        } else if str_starts_with(s, "-ERR") {
            match crate::parser::parse_err_header(s) {
                Some(h) => Ok(ProtocolMessage::Error(h.message)),
                None => Err(
                    NatsParseError::with_text("Failed to parse protocol message of type ERR"),
                ),
            }
        } else if str_starts_with(s, "INFO") {
            match ServerInformation::from_str(s) {
                Ok(m) => Ok(ProtocolMessage::Info(m)),
                Err(e) => Err(e),
            }
        } else if str_starts_with(s, "CONNECT") {
            match ConnectionInformation::from_str(s) {
                Ok(m) => Ok(ProtocolMessage::Connect(m)),
                Err(e) => Err(e),
            }
        } else {
            Err(NatsParseError::with_text("Failed to parse protocol message - unknown message type?"))
        }
    }
}

} // verus!
