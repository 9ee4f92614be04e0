//! The transport of the stream: how documents are framed in the text
//! messages of the connection, and the steps that open a connection.
//!
//! Nothing here touches a socket. The caller posts the negotiation request,
//! upgrades the connection and moves the text messages; this module decides
//! what to ask for, what to send and what a received message holds.

use crate::api::{ApiError, Context};
use crate::decode::{
    description, number_field, read_number, read_text, text_field, DeserializeError,
    DeserializeErrorModel,
};
use crate::json::{
    document_of, is_plain, is_raw_control, json_text, lemma_members_plain_push,
    lemma_quoted_as_it_is, members_text, models, parse, quoted, stored, text_before, Json,
    JsonModel, Number, NumberModel,
};
use crate::text::{
    decimal, lemma_split_joined, lemma_split_nonempty, lemma_split_whole, push_char, split,
    split_on, views,
};
use vstd::prelude::*;
use vstd::string::StringExecFns;

verus! {

/// The character that ends every document in a text message.
pub const RECORD_SEPARATOR: char = '\x1e';

/// Where the negotiation request is posted.
pub const STREAM_API_NEGOTIATION_URL: &'static str =
    "https://streams.easee.com/hubs/products/negotiate?negotiateVersion=1";

/// Where the connection is upgraded.
pub const WSS_URL: &'static str = "wss://streams.easee.com/hubs/products";

/// One message as it comes from the connection.
#[derive(Debug, PartialEq, Eq)]
pub enum Incoming {
    Text(String),
    /// A message of any other kind: binary, ping, pong, close.
    Other,
}

/// Why nothing could be taken from the connection. A failure of the
/// connection itself is kept as its description.
#[derive(Debug, PartialEq, Eq)]
pub enum RecvError {
    BadMessageType,
    InvalidJson(String),
    TungsteniteError(String),
}

/// Why a connection could not be opened. A failure of the connection itself
/// is kept as its description.
#[derive(Debug, PartialEq, Eq)]
pub enum NegotiateError {
    ApiError(ApiError),
    TungsteniteError(String),
}

/// What the service answers to the negotiation request.
#[derive(Debug, PartialEq, Eq)]
pub struct NegotiateResponse {
    pub negotiate_version: u16,
    pub connection_id: String,
    pub connection_token: String,
}

/// What a `NegotiateResponse` is to a contract: the same value, with
/// sequences for its strings.
pub ghost struct NegotiateResponseModel {
    pub negotiate_version: u16,
    pub connection_id: Seq<char>,
    pub connection_token: Seq<char>,
}

impl View for NegotiateResponse {
    type V = NegotiateResponseModel;

    open spec fn view(&self) -> NegotiateResponseModel {
        NegotiateResponseModel {
            negotiate_version: self.negotiate_version,
            connection_id: self.connection_id@,
            connection_token: self.connection_token@,
        }
    }
}

/// The version of an answer: the member `negotiateVersion`, a number of
/// sixteen bits.
pub open spec fn version_field(doc: JsonModel) -> Result<u16, DeserializeErrorModel> {
    match number_field(doc, "negotiateVersion"@) {
        Err(e) => Err(e),
        Ok(n) => if n > u16::MAX {
            Err(DeserializeErrorModel::InvalidField("negotiateVersion"@))
        } else {
            Ok(n as u16)
        },
    }
}

/// The answer to the negotiation request that a document is. The document
/// must be an object with the members `negotiateVersion`, `connectionId`
/// and `connectionToken`, which are looked at in this order; other members
/// are passed over.
pub open spec fn answer_of(doc: JsonModel) -> Result<
    NegotiateResponseModel,
    DeserializeErrorModel,
> {
    if !(doc is Object) {
        Err(DeserializeErrorModel::ExpectingObject)
    } else {
        match version_field(doc) {
            Err(e) => Err(e),
            Ok(negotiate_version) => match text_field(doc, "connectionId"@) {
                Err(e) => Err(e),
                Ok(connection_id) => match text_field(doc, "connectionToken"@) {
                    Err(e) => Err(e),
                    Ok(connection_token) => Ok(
                        NegotiateResponseModel {
                            negotiate_version,
                            connection_id,
                            connection_token,
                        },
                    ),
                },
            },
        }
    }
}

/// The model of the outcome of reading an answer.
pub open spec fn answer_outcome(r: Result<NegotiateResponse, DeserializeError>) -> Result<
    NegotiateResponseModel,
    DeserializeErrorModel,
> {
    match r {
        Ok(answer) => Ok(answer@),
        Err(e) => Err(e@),
    }
}

impl NegotiateResponse {
    /// Reads the answer to the negotiation request from a document.
    pub fn from_json(doc: &Json) -> (r: Result<NegotiateResponse, DeserializeError>)
        ensures
            answer_outcome(r) == answer_of(doc@),
    {
        if !doc.is_object() {
            return Err(DeserializeError::ExpectingObject);
        }
        let negotiate_version: u16 = match read_number(doc, "negotiateVersion") {
            Err(e) => {
                return Err(e);
            },
            Ok(n) => if n > 0xffff {
                return Err(DeserializeError::InvalidField("negotiateVersion"));
            } else {
                n as u16
            },
        };
        let connection_id = match read_text(doc, "connectionId") {
            Err(e) => {
                return Err(e);
            },
            Ok(text) => text.to_owned(),
        };
        let connection_token = match read_text(doc, "connectionToken") {
            Err(e) => {
                return Err(e);
            },
            Ok(text) => text.to_owned(),
        };
        Ok(NegotiateResponse { negotiate_version, connection_id, connection_token })
    }
}

/// Takes the document that came back from the negotiation request. A
/// document that is no answer is a failure of the request: unexpected data,
/// with the document and the description of what is wrong with it.
pub fn read_answer(reply: Json) -> (r: Result<NegotiateResponse, ApiError>)
    ensures
        match answer_of(reply@) {
            Ok(answer) => r matches Ok(read) && read@ == answer,
            Err(e) => r matches Err(ApiError::UnexpectedData(doc, why)) && doc@ == reply@ && why@
                == description(e),
        },
{
    match NegotiateResponse::from_json(&reply) {
        Ok(answer) => Ok(answer),
        Err(e) => {
            let why = e.to_string();
            Err(ApiError::UnexpectedData(reply, why))
        },
    }
}

/// The documents among `pieces`: every piece that is a JSON document, in
/// order. A piece that is none is left out.
pub open spec fn parsed(pieces: Seq<Seq<char>>) -> Seq<JsonModel>
    decreases pieces.len(),
{
    if pieces.len() == 0 {
        Seq::empty()
    } else {
        match document_of(pieces.last()) {
            Some(doc) => parsed(pieces.drop_last()).push(doc),
            None => parsed(pieces.drop_last()),
        }
    }
}

/// The documents that a text message holds: the message is cut at every
/// record separator, and each piece that is a JSON document counts.
pub open spec fn documents_of(text: Seq<char>) -> Seq<JsonModel> {
    parsed(split(text, RECORD_SEPARATOR))
}

/// A document holds no record separator: the separator is a raw control
/// character.
pub proof fn lemma_document_holds_no_separator(text: Seq<char>)
    ensures
        document_of(text) is Some ==> forall|i: int|
            0 <= i < text.len() ==> text[i] != RECORD_SEPARATOR,
{
    if document_of(text) is Some {
        assert forall|i: int| 0 <= i < text.len() implies text[i] != RECORD_SEPARATOR by {
            if text[i] == RECORD_SEPARATOR {
                assert(is_raw_control(text[i]));
            }
        }
    }
}

/// The pieces that record separators end: those of `split`, without the
/// last one where it is empty. A message of the service ends in a
/// separator, so its last piece is empty.
pub open spec fn terminated_pieces(text: Seq<char>) -> Seq<Seq<char>> {
    let pieces = split(text, RECORD_SEPARATOR);
    if pieces.last().len() == 0 {
        pieces.drop_last()
    } else {
        pieces
    }
}

/// The documents of a text message are those among the pieces that its
/// record separators end: the empty piece behind the last separator is no
/// document.
pub proof fn lemma_documents_of_terminated_pieces(text: Seq<char>)
    ensures
        documents_of(text) == parsed(terminated_pieces(text)),
{
    lemma_split_nonempty(text, RECORD_SEPARATOR);
}

/// A list of pieces holds no more documents than pieces.
pub proof fn lemma_no_more_documents_than_pieces(pieces: Seq<Seq<char>>)
    ensures
        parsed(pieces).len() <= pieces.len(),
    decreases pieces.len(),
{
    if pieces.len() > 0 {
        lemma_no_more_documents_than_pieces(pieces.drop_last());
    }
}

/// A text message made of two documents, each followed by a record
/// separator, holds exactly those two documents, the first one first. The
/// same holds where no separator follows the second.
pub proof fn lemma_two_documents_in_order(a: Seq<char>, b: Seq<char>)
    ensures
        document_of(a) is Some && document_of(b) is Some ==> {
            &&& documents_of(a + seq![RECORD_SEPARATOR] + b + seq![RECORD_SEPARATOR]) == seq![
                document_of(a)->0,
                document_of(b)->0,
            ]
            &&& documents_of(a + seq![RECORD_SEPARATOR] + b) == seq![
                document_of(a)->0,
                document_of(b)->0,
            ]
        },
{
    if document_of(a) is Some && document_of(b) is Some {
        let sep = RECORD_SEPARATOR;
        let empty = Seq::<char>::empty();
        lemma_document_holds_no_separator(a);
        lemma_document_holds_no_separator(b);
        lemma_split_whole(a, sep);
        lemma_split_whole(b, sep);
        lemma_split_joined(a, b, sep);
        assert(split(a, sep) + split(b, sep) =~= seq![a, b]);
        lemma_parsed_two(a, b);
        lemma_split_joined(a + seq![sep] + b, empty, sep);
        assert(a + seq![sep] + b + seq![sep] =~= a + seq![sep] + b + seq![sep] + empty);
        assert(split(empty, sep) =~= seq![empty]);
        let three = seq![a, b] + seq![empty];
        assert(three.drop_last() =~= seq![a, b]);
        assert(three.last() == empty);
    }
}

proof fn lemma_parsed_two(a: Seq<char>, b: Seq<char>)
    requires
        document_of(a) is Some,
        document_of(b) is Some,
    ensures
        parsed(seq![a, b]) == seq![document_of(a)->0, document_of(b)->0],
{
    let one = seq![a];
    let two = seq![a, b];
    assert(one.drop_last() =~= Seq::<Seq<char>>::empty());
    assert(one.last() == a);
    assert(parsed(one.drop_last()) =~= Seq::<JsonModel>::empty());
    assert(parsed(one) =~= seq![document_of(a)->0]);
    assert(two.drop_last() =~= one);
    assert(two.last() == b);
    assert(parsed(two) =~= seq![document_of(a)->0, document_of(b)->0]);
}

/// The documents that a text message holds.
pub fn documents(text: &str) -> (r: Vec<Json>)
    ensures
        models(r@) == documents_of(text@),
{
    let pieces = split_on(text, RECORD_SEPARATOR);
    let ghost all = split(text@, RECORD_SEPARATOR);
    let mut out: Vec<Json> = Vec::new();
    let mut i: usize = 0;
    proof {
        assert(all.take(0) =~= Seq::<Seq<char>>::empty());
        assert(models(out@) =~= parsed(all.take(0)));
    }
    while i < pieces.len()
        invariant
            i <= pieces.len(),
            views(pieces@) == all,
            models(out@) == parsed(all.take(i as int)),
        decreases pieces.len() - i,
    {
        let ghost before = out@;
        let ghost next = all.take(i + 1);
        proof {
            assert(next.drop_last() =~= all.take(i as int));
            assert(next.last() == pieces@[i as int]@);
        }
        match parse(pieces[i].as_str()) {
            Some(doc) => {
                out.push(doc);
                proof {
                    assert(models(out@) =~= models(before).push(doc@));
                }
            },
            None => {},
        }
        i += 1;
    }
    proof {
        assert(all.take(pieces.len() as int) =~= all);
    }
    out
}

/// The text message that carries one document: its text and a record
/// separator.
pub open spec fn frame_of(doc: JsonModel) -> Seq<char> {
    json_text(stored(doc)).push(RECORD_SEPARATOR)
}

/// The document that a client sends first on a new connection: it names the
/// protocol `json` in version 1.
pub open spec fn handshake_model() -> JsonModel {
    JsonModel::Object(
        seq![
            ("protocol"@, JsonModel::String("json"@)),
            ("version"@, JsonModel::Number(NumberModel::PosInt(1))),
        ],
    )
}

/// The text message that opens every connection, as it goes over the wire.
pub open spec fn handshake_frame() -> Seq<char> {
    "{\"protocol\":\"json\",\"version\":1}\u{1e}"@
}

/// The handshake is plain, and the text message that carries it is
/// `handshake_frame`, character for character.
pub proof fn lemma_handshake_frame()
    ensures
        is_plain(handshake_model()),
        frame_of(handshake_model()) == handshake_frame(),
{
    reveal_strlit("protocol");
    reveal_strlit("json");
    reveal_strlit("version");
    reveal_strlit("{\"protocol\":\"json\",\"version\":1}\u{1e}");
    let protocol = "protocol"@;
    let json = "json"@;
    let version = "version"@;
    let first = (protocol, JsonModel::String(json));
    let second = (version, JsonModel::Number(NumberModel::PosInt(1)));
    let members = seq![first, second];
    assert(is_plain(handshake_model())) by {
        let none = Seq::<(Seq<char>, JsonModel)>::empty();
        lemma_members_plain_push(none, first.0, first.1);
        assert(text_before(protocol, version));
        lemma_members_plain_push(none.push(first), second.0, second.1);
        assert(none.push(first).push(second) =~= members);
    }
    lemma_quoted_as_it_is(protocol);
    lemma_quoted_as_it_is(json);
    lemma_quoted_as_it_is(version);
    assert(members.drop_last() =~= seq![first]);
    assert(decimal(1) =~= seq!['1']);
    assert(json_text(JsonModel::String(json)) == quoted(json));
    assert(members_text(seq![first]) == quoted(protocol) + seq![':'] + quoted(json));
    assert(members.len() == 2 && members.last() == second);
    assert(json_text(second.1) == decimal(1));
    assert(members_text(members) == members_text(members.drop_last()) + seq![','] + quoted(
        version,
    ) + seq![':'] + json_text(second.1));
    assert(frame_of(handshake_model()) =~= handshake_frame());
}

/// The document that a client sends first on a new connection.
pub fn handshake() -> (r: Json)
    ensures
        r@ == handshake_model(),
{
    let mut members: Vec<(String, Json)> = Vec::new();
    members.push(("protocol".to_owned(), Json::String("json".to_owned())));
    members.push(("version".to_owned(), Json::Number(Number::PosInt(1))));
    let r = Json::Object(members);
    proof {
        crate::json::lemma_members_model(members@, members@.len());
        assert(r@->Object_0 =~= handshake_model()->Object_0);
    }
    r
}

/// The address at which the connection is upgraded: the base address with
/// the connection token as `id` and the bearer token as `access_token`.
pub open spec fn upgrade_url_of(connection_token: Seq<char>, bearer: Seq<char>) -> Seq<char> {
    WSS_URL@ + "?id="@ + connection_token + "&access_token="@ + bearer
}

/// The address at which the connection is upgraded.
pub fn upgrade_url(connection_token: &str, bearer: &str) -> (r: String)
    ensures
        r@ == upgrade_url_of(connection_token@, bearer@),
{
    let mut out = WSS_URL.to_owned();
    out.append("?id=");
    out.append(connection_token);
    out.append("&access_token=");
    out.append(bearer);
    out
}

/// A negotiation that went well: the connection can now be upgraded at
/// `url`. The address holds the access token, so it cannot be printed.
pub struct Upgrade {
    url: String,
}

impl View for Upgrade {
    type V = Seq<char>;

    closed spec fn view(&self) -> Seq<char> {
        self.url@
    }
}

/// An open connection, seen from the protocol: it has been upgraded at
/// `url`.
pub struct Stream {
    url: String,
}

impl Upgrade {
    /// The address at which to upgrade the connection.
    pub fn url(&self) -> (r: &str)
        ensures
            r@ == self@,
    {
        self.url.as_str()
    }

    /// Takes the outcome of the upgrade. A refused upgrade ends the opening
    /// with the description of the failure. After an upgrade that went well
    /// the connection is open, and the text message that is handed back,
    /// the handshake, is the first to send on it.
    pub fn connected(self, outcome: Result<(), String>) -> (r: Result<
        (Stream, String),
        NegotiateError,
    >)
        ensures
            match (outcome, r) {
                (Ok(_), Ok((stream, first))) => stream.url_model() == self@ && first@
                    == handshake_frame(),
                (Err(why), Err(NegotiateError::TungsteniteError(e))) => e@ == why@,
                _ => false,
            },
    {
        match outcome {
            Ok(_) => {
                let mut stream = Stream { url: self.url };
                let first = stream.send(&handshake());
                proof {
                    lemma_handshake_frame();
                }
                Ok((stream, first))
            },
            Err(why) => Err(NegotiateError::TungsteniteError(why)),
        }
    }
}

impl Stream {
    /// The address at which the connection was upgraded.
    pub closed spec fn url_model(&self) -> Seq<char> {
        self.url@
    }

    /// The address at which the connection was upgraded.
    pub fn url(&self) -> (r: &str)
        ensures
            r@ == self.url_model(),
    {
        self.url.as_str()
    }

    /// Takes the answer to the negotiation request.
    ///
    /// A request that failed ends the opening with that failure: no
    /// `Upgrade` comes back, so no connection can be upgraded. An answer
    /// gives the address for the upgrade, made of its connection token and
    /// of the access token of `ctx`.
    pub fn open(ctx: &Context, reply: Result<NegotiateResponse, ApiError>) -> (r: Result<
        Upgrade,
        NegotiateError,
    >)
        ensures
            match (reply, r) {
                (Ok(answer), Ok(upgrade)) => upgrade@ == upgrade_url_of(
                    answer.connection_token@,
                    ctx@.token,
                ),
                (Err(why), Err(NegotiateError::ApiError(e))) => e == why,
                _ => false,
            },
    {
        match reply {
            Ok(answer) => Ok(
                Upgrade { url: upgrade_url(answer.connection_token.as_str(), ctx.auth_token()) },
            ),
            Err(why) => Err(NegotiateError::ApiError(why)),
        }
    }

    /// The text message that carries `doc`.
    pub fn send(&mut self, doc: &Json) -> (r: String)
        ensures
            r@ == frame_of(doc@),
            *final(self) == *old(self),
    {
        let mut out = doc.to_text();
        push_char(&mut out, RECORD_SEPARATOR);
        out
    }

    /// The documents that one message from the connection holds. Only a
    /// text message holds any; a message of another kind is an error.
    pub fn recv(&mut self, incoming: Incoming) -> (r: Result<Vec<Json>, RecvError>)
        ensures
            *final(self) == *old(self),
            match incoming {
                Incoming::Text(text) => r matches Ok(docs) && models(docs@) == documents_of(
                    text@,
                ),
                Incoming::Other => r == Err::<Vec<Json>, RecvError>(RecvError::BadMessageType),
            },
    {
        match incoming {
            Incoming::Text(text) => Ok(documents(text.as_str())),
            Incoming::Other => Err(RecvError::BadMessageType),
        }
    }
}

} // verus!
