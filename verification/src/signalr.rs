//! The message layer of the hub protocol: what kind of message a JSON
//! document is, and the queue of documents that wait to be classified.

use crate::json::{
    clone_all, is_plain, is_unescaped, json_text, lemma_members_model, lemma_members_plain_push,
    lemma_quoted_as_it_is, members_text, models, quoted, stored, text_before, Json, JsonModel,
    Number, NumberModel,
};
use crate::text::decimal;
use crate::json::document_of;
use crate::stream::{
    documents_of, frame_of, lemma_two_documents_in_order, Incoming, RecvError, RECORD_SEPARATOR,
};
use vstd::prelude::*;

verus! {

/// One message of the hub protocol.
#[derive(Debug, PartialEq, Eq)]
pub enum Message {
    /// An empty object, sent to keep the connection alive.
    Empty,
    /// A call of the procedure `target`.
    Invocation { target: String, arguments: Vec<Json> },
    /// The answer to an earlier call.
    InvocationResult { id: String, result: Json },
    Ping,
    /// A message of a kind that this client does not know, kept as it came.
    Other(Json),
}

/// Why a document is no message.
#[derive(Debug, PartialEq, Eq)]
pub enum ParseError {
    ExpectingObject(Json),
    MissingTypeKey,
    TypeNotANumber,
    UnknownType(u64),
    MissingKey(&'static str),
    ExpectingString,
    ExpectingArray,
}

/// What a `Message` is to a contract: the same value, with sequences for its
/// strings and vectors.
pub ghost enum MessageModel {
    Empty,
    Invocation { target: Seq<char>, arguments: Seq<JsonModel> },
    InvocationResult { id: Seq<char>, result: JsonModel },
    Ping,
    Other(JsonModel),
}

/// What a `ParseError` is to a contract: the same value, with sequences for its
/// strings and vectors.
pub ghost enum ParseErrorModel {
    ExpectingObject(JsonModel),
    MissingTypeKey,
    TypeNotANumber,
    UnknownType(u64),
    MissingKey(Seq<char>),
    ExpectingString,
    ExpectingArray,
}

impl View for Message {
    type V = MessageModel;

    open spec fn view(&self) -> MessageModel {
        match self {
            Message::Empty => MessageModel::Empty,
            Message::Invocation { target, arguments } => MessageModel::Invocation {
                target: target@,
                arguments: models(arguments@),
            },
            Message::InvocationResult { id, result } => MessageModel::InvocationResult {
                id: id@,
                result: result@,
            },
            Message::Ping => MessageModel::Ping,
            Message::Other(raw) => MessageModel::Other(raw@),
        }
    }
}

impl View for ParseError {
    type V = ParseErrorModel;

    open spec fn view(&self) -> ParseErrorModel {
        match self {
            ParseError::ExpectingObject(doc) => ParseErrorModel::ExpectingObject(doc@),
            ParseError::MissingTypeKey => ParseErrorModel::MissingTypeKey,
            ParseError::TypeNotANumber => ParseErrorModel::TypeNotANumber,
            ParseError::UnknownType(t) => ParseErrorModel::UnknownType(*t),
            ParseError::MissingKey(key) => ParseErrorModel::MissingKey(key@),
            ParseError::ExpectingString => ParseErrorModel::ExpectingString,
            ParseError::ExpectingArray => ParseErrorModel::ExpectingArray,
        }
    }
}

/// The model of the outcome of a classification.
pub open spec fn outcome_model(r: Result<Message, ParseError>) -> Result<
    MessageModel,
    ParseErrorModel,
> {
    match r {
        Ok(m) => Ok(m@),
        Err(e) => Err(e@),
    }
}

/// The text of the member `key`, which must be there and be a string.
pub open spec fn required_text(doc: JsonModel, key: Seq<char>) -> Result<
    Seq<char>,
    ParseErrorModel,
> {
    match doc.get(key) {
        None => Err(ParseErrorModel::MissingKey(key)),
        Some(value) => match value.as_str() {
            None => Err(ParseErrorModel::ExpectingString),
            Some(text) => Ok(text),
        },
    }
}

/// The items of the member `key`, which must be there and be an array.
pub open spec fn required_items(doc: JsonModel, key: Seq<char>) -> Result<
    Seq<JsonModel>,
    ParseErrorModel,
> {
    match doc.get(key) {
        None => Err(ParseErrorModel::MissingKey(key)),
        Some(value) => match value.as_array() {
            None => Err(ParseErrorModel::ExpectingArray),
            Some(items) => Ok(items),
        },
    }
}

/// An invocation needs a `target` that is a string and `arguments` that are
/// an array; the target is looked at first.
pub open spec fn classify_invocation(doc: JsonModel) -> Result<MessageModel, ParseErrorModel> {
    match required_text(doc, "target"@) {
        Err(e) => Err(e),
        Ok(target) => match required_items(doc, "arguments"@) {
            Err(e) => Err(e),
            Ok(arguments) => Ok(MessageModel::Invocation { target, arguments }),
        },
    }
}

/// An invocation result needs an `invocationId` that is a string and a
/// `result` of any kind; the identifier is looked at first.
pub open spec fn classify_result(doc: JsonModel) -> Result<MessageModel, ParseErrorModel> {
    match required_text(doc, "invocationId"@) {
        Err(e) => Err(e),
        Ok(id) => match doc.get("result"@) {
            None => Err(ParseErrorModel::MissingKey("result"@)),
            Some(result) => Ok(MessageModel::InvocationResult { id, result }),
        },
    }
}

/// The message that a document is.
///
/// Anything but an object is refused. An object without members is the
/// keep-alive. Any other object must carry a `type` that is an integer: 1 is
/// an invocation, 3 an invocation result, 6 a ping, and every other
/// integer, the negative ones too, is kept whole as `Other`. A `type` that
/// is no number, or a number with a fraction or an exponent, is refused.
pub open spec fn classify(doc: JsonModel) -> Result<MessageModel, ParseErrorModel> {
    match doc {
        JsonModel::Object(members) => if members.len() == 0 {
            Ok(MessageModel::Empty)
        } else {
            match doc.get("type"@) {
                None => Err(ParseErrorModel::MissingTypeKey),
                Some(kind) => match kind.as_integer() {
                    None => Err(ParseErrorModel::TypeNotANumber),
                    Some(n) => if n == 1 {
                        classify_invocation(doc)
                    } else if n == 3 {
                        classify_result(doc)
                    } else if n == 6 {
                        Ok(MessageModel::Ping)
                    } else {
                        Ok(MessageModel::Other(doc))
                    },
                },
            }
        },
        _ => Err(ParseErrorModel::ExpectingObject(doc)),
    }
}

/// An object whose `type` is an integer other than 1, 3 and 6 is kept whole
/// as `Other`, whatever the sign of the integer.
pub proof fn lemma_other_kind_is_kept(doc: JsonModel, kind: int)
    requires
        doc is Object,
        doc.get("type"@) matches Some(number) && number.as_integer() == Some(kind),
        kind != 1 && kind != 3 && kind != 6,
    ensures
        classify(doc) == Ok::<MessageModel, ParseErrorModel>(MessageModel::Other(doc)),
{
}

/// A document is no message in these cases and in no other: it is no
/// object; or it has members and its `type` is missing or is no integer; or
/// it is an invocation without a `target` that is a string or without
/// `arguments` that are an array; or it is an invocation result without an
/// `invocationId` that is a string or without a `result`.
pub proof fn lemma_when_classification_fails(doc: JsonModel)
    ensures
        classify(doc) is Err <==> {
            ||| !(doc is Object)
            ||| doc->Object_0.len() > 0 && {
                ||| doc.get("type"@) is None
                ||| doc.get("type"@)->0.as_integer() is None
                ||| doc.get("type"@)->0.as_integer() == Some(1int) && (required_text(
                    doc,
                    "target"@,
                ) is Err || required_items(doc, "arguments"@) is Err)
                ||| doc.get("type"@)->0.as_integer() == Some(3int) && (required_text(
                    doc,
                    "invocationId"@,
                ) is Err || doc.get("result"@) is None)
            }
        },
{
}

/// The member `key` of `doc` as an owned string.
fn text_member(doc: &Json, key: &'static str) -> (r: Result<String, ParseError>)
    ensures
        match r {
            Ok(text) => required_text(doc@, key@) == Ok::<Seq<char>, ParseErrorModel>(text@),
            Err(e) => required_text(doc@, key@) == Err::<Seq<char>, ParseErrorModel>(e@),
        },
{
    match doc.get(key) {
        None => Err(ParseError::MissingKey(key)),
        Some(value) => match value.as_str() {
            None => Err(ParseError::ExpectingString),
            Some(text) => Ok(text.to_owned()),
        },
    }
}

/// The member `key` of `doc` as an owned array.
fn items_member(doc: &Json, key: &'static str) -> (r: Result<Vec<Json>, ParseError>)
    ensures
        match r {
            Ok(items) => required_items(doc@, key@) == Ok::<Seq<JsonModel>, ParseErrorModel>(
                models(items@),
            ),
            Err(e) => required_items(doc@, key@) == Err::<Seq<JsonModel>, ParseErrorModel>(e@),
        },
{
    match doc.get(key) {
        None => Err(ParseError::MissingKey(key)),
        Some(value) => match value.as_array() {
            None => Err(ParseError::ExpectingArray),
            Some(items) => Ok(clone_all(items)),
        },
    }
}

impl Message {
    /// Classifies one document.
    pub fn from_json(msg: Json) -> (r: Result<Message, ParseError>)
        ensures
            outcome_model(r) == classify(msg@),
    {
        let empty = match &msg {
            Json::Object(members) => members.len() == 0,
            _ => {
                return Err(ParseError::ExpectingObject(msg));
            },
        };
        proof {
            lemma_members_model(msg->Object_0@, msg->Object_0@.len());
        }
        if empty {
            return Ok(Message::Empty);
        }
        let kind = match msg.get("type") {
            None => {
                return Err(ParseError::MissingTypeKey);
            },
            Some(kind) => match kind.as_integer() {
                None => {
                    return Err(ParseError::TypeNotANumber);
                },
                Some(n) => n,
            },
        };
        if kind == 1 {
            let target = match text_member(&msg, "target") {
                Ok(target) => target,
                Err(e) => {
                    return Err(e);
                },
            };
            let arguments = match items_member(&msg, "arguments") {
                Ok(arguments) => arguments,
                Err(e) => {
                    return Err(e);
                },
            };
            Ok(Message::Invocation { target, arguments })
        } else if kind == 3 {
            let id = match text_member(&msg, "invocationId") {
                Ok(id) => id,
                Err(e) => {
                    return Err(e);
                },
            };
            let result = match msg.get("result") {
                None => {
                    return Err(ParseError::MissingKey("result"));
                },
                Some(result) => result.clone(),
            };
            Ok(Message::InvocationResult { id, result })
        } else if kind == 6 {
            Ok(Message::Ping)
        } else {
            Ok(Message::Other(msg))
        }
    }
}

/// Why the next message could not be had.
#[derive(Debug, PartialEq, Eq)]
pub enum StreamError {
    ParseError(ParseError),
    StreamError(RecvError),
}

/// What a `RecvError` is to a contract: the same value, with sequences for its
/// strings and vectors.
pub ghost enum RecvErrorModel {
    BadMessageType,
    InvalidJson(Seq<char>),
    TungsteniteError(Seq<char>),
}

/// What a `StreamError` is to a contract: the same value, with sequences for its
/// strings and vectors.
pub ghost enum StreamErrorModel {
    ParseError(ParseErrorModel),
    StreamError(RecvErrorModel),
}

/// The model of a transport error.
pub open spec fn recv_error_model(e: RecvError) -> RecvErrorModel {
    match e {
        RecvError::BadMessageType => RecvErrorModel::BadMessageType,
        RecvError::InvalidJson(why) => RecvErrorModel::InvalidJson(why@),
        RecvError::TungsteniteError(why) => RecvErrorModel::TungsteniteError(why@),
    }
}

impl View for StreamError {
    type V = StreamErrorModel;

    open spec fn view(&self) -> StreamErrorModel {
        match self {
            StreamError::ParseError(e) => StreamErrorModel::ParseError(e@),
            StreamError::StreamError(e) => StreamErrorModel::StreamError(recv_error_model(*e)),
        }
    }
}

/// The model of what `recv` hands out.
pub open spec fn received_model(r: Option<Result<Message, StreamError>>) -> Option<
    Result<MessageModel, StreamErrorModel>,
> {
    match r {
        None => None,
        Some(Ok(m)) => Some(Ok(m@)),
        Some(Err(e)) => Some(Err(e@)),
    }
}

/// What the first of the waiting documents is received as; nothing where
/// none waits.
pub open spec fn first_received(pending: Seq<JsonModel>) -> Option<
    Result<MessageModel, StreamErrorModel>,
> {
    if pending.len() == 0 {
        None
    } else {
        match classify(pending[0]) {
            Ok(m) => Some(Ok(m)),
            Err(e) => Some(Err(StreamErrorModel::ParseError(e))),
        }
    }
}

/// What a document is received as.
pub open spec fn received_as(doc: JsonModel) -> Result<MessageModel, StreamErrorModel> {
    match classify(doc) {
        Ok(m) => Ok(m),
        Err(e) => Err(StreamErrorModel::ParseError(e)),
    }
}

/// A text message made of two documents, each followed by a record
/// separator, is received as two messages, one at a time and the first one
/// first, and nothing waits after them.
pub proof fn lemma_two_messages_in_order(a: Seq<char>, b: Seq<char>)
    ensures
        document_of(a) is Some && document_of(b) is Some ==> ({
            let pending = documents_of(
                a + seq![RECORD_SEPARATOR] + b + seq![RECORD_SEPARATOR],
            );
            &&& first_received(pending) == Some(received_as(document_of(a)->0))
            &&& first_received(pending.drop_first()) == Some(received_as(document_of(b)->0))
            &&& first_received(pending.drop_first().drop_first()) is None
        }),
{
    lemma_two_documents_in_order(a, b);
}

/// The document that calls the procedure `target` with `arguments`. Every
/// call goes out under the same identifier.
pub open spec fn invocation_model(target: Seq<char>, arguments: JsonModel) -> JsonModel {
    JsonModel::Object(
        seq![
            ("arguments"@, arguments),
            ("invocationId"@, JsonModel::String("0"@)),
            ("target"@, JsonModel::String(target)),
            ("type"@, JsonModel::Number(NumberModel::PosInt(1))),
        ],
    )
}

/// A call with plain arguments is plain.
pub proof fn lemma_invocation_is_plain(target: Seq<char>, arguments: JsonModel)
    requires
        is_plain(arguments),
    ensures
        is_plain(invocation_model(target, arguments)),
{
    reveal_strlit("arguments");
    reveal_strlit("invocationId");
    reveal_strlit("target");
    reveal_strlit("type");
    let first = ("arguments"@, arguments);
    let second = ("invocationId"@, JsonModel::String("0"@));
    let third = ("target"@, JsonModel::String(target));
    let fourth = ("type"@, JsonModel::Number(NumberModel::PosInt(1)));
    let none = Seq::<(Seq<char>, JsonModel)>::empty();
    lemma_members_plain_push(none, first.0, first.1);
    assert(text_before(first.0, second.0));
    lemma_members_plain_push(none.push(first), second.0, second.1);
    assert(text_before(second.0, third.0));
    lemma_members_plain_push(none.push(first).push(second), third.0, third.1);
    assert(text_before(third.0, fourth.0)) by {
        assert(third.0.drop_first()[0] == 'a');
        assert(fourth.0.drop_first()[0] == 'y');
        assert(text_before(third.0.drop_first(), fourth.0.drop_first()));
    }
    lemma_members_plain_push(none.push(first).push(second).push(third), fourth.0, fourth.1);
    assert(none.push(first).push(second).push(third).push(fourth) =~= seq![
        first,
        second,
        third,
        fourth,
    ]);
}

/// The pieces of text that every call is written with.
proof fn lemma_invocation_opening()
    ensures
        "{\"arguments\":"@ == seq!['{'] + quoted("arguments"@) + seq![':'],
{
    reveal_strlit("arguments");
    reveal_strlit("{\"arguments\":");
    lemma_quoted_as_it_is("arguments"@);
    assert("{\"arguments\":"@ =~= seq!['{'] + quoted("arguments"@) + seq![':']);
}

proof fn lemma_invocation_middle()
    ensures
        ",\"invocationId\":\"0\",\"target\":\""@ == seq![','] + quoted("invocationId"@) + seq![
            ':',
        ] + quoted("0"@) + seq![','] + quoted("target"@) + seq![':'] + seq!['"'],
{
    reveal_strlit("invocationId");
    reveal_strlit("target");
    reveal_strlit("0");
    reveal_strlit(",\"invocationId\":\"0\",\"target\":\"");
    lemma_quoted_as_it_is("invocationId"@);
    lemma_quoted_as_it_is("target"@);
    lemma_quoted_as_it_is("0"@);
    assert(",\"invocationId\":\"0\",\"target\":\""@ =~= seq![','] + quoted("invocationId"@)
        + seq![':'] + quoted("0"@) + seq![','] + quoted("target"@) + seq![':'] + seq!['"']);
}

proof fn lemma_invocation_closing()
    ensures
        "\",\"type\":1}"@ == seq!['"'] + seq![','] + quoted("type"@) + seq![':'] + decimal(1)
            + seq!['}'],
{
    reveal_strlit("type");
    reveal_strlit("\",\"type\":1}");
    lemma_quoted_as_it_is("type"@);
    assert(decimal(1) =~= seq!['1']);
    assert("\",\"type\":1}"@ =~= seq!['"'] + seq![','] + quoted("type"@) + seq![':']
        + decimal(1) + seq!['}']);
}

/// The text of a call, member by member.
proof fn lemma_invocation_members(target: Seq<char>, arguments: JsonModel)
    ensures
        json_text(invocation_model(target, arguments)) == seq!['{'] + (quoted("arguments"@)
            + seq![':'] + json_text(arguments) + seq![','] + quoted("invocationId"@) + seq![':']
            + quoted("0"@) + seq![','] + quoted("target"@) + seq![':'] + quoted(target) + seq![
            ',',
        ] + quoted("type"@) + seq![':'] + decimal(1)) + seq!['}'],
{
    let first = ("arguments"@, arguments);
    let second = ("invocationId"@, JsonModel::String("0"@));
    let third = ("target"@, JsonModel::String(target));
    let fourth = ("type"@, JsonModel::Number(NumberModel::PosInt(1)));
    let members = seq![first, second, third, fourth];
    let one = seq![first];
    let two = seq![first, second];
    let three = seq![first, second, third];
    assert(members.drop_last() =~= three && members.last() == fourth);
    assert(three.drop_last() =~= two && three.last() == third);
    assert(two.drop_last() =~= one && two.last() == second);
    assert(json_text(fourth.1) == decimal(1));
    assert(json_text(third.1) == quoted(target));
    assert(json_text(second.1) == quoted("0"@));
    assert(members_text(one) == quoted(first.0) + seq![':'] + json_text(arguments));
    assert(members_text(two) == members_text(one) + seq![','] + quoted(second.0) + seq![':']
        + quoted("0"@));
    assert(members_text(three) == members_text(two) + seq![','] + quoted(third.0) + seq![':']
        + quoted(target));
    assert(members_text(members) == members_text(three) + seq![','] + quoted(fourth.0) + seq![
        ':',
    ] + decimal(1));
}

/// Putting the parts of a call together in one way or the other gives the
/// same text.
proof fn lemma_invocation_assembled(
    name1: Seq<char>,
    arguments: Seq<char>,
    name2: Seq<char>,
    id: Seq<char>,
    name3: Seq<char>,
    target: Seq<char>,
    name4: Seq<char>,
    kind: Seq<char>,
)
    ensures
        seq!['{'] + (name1 + seq![':'] + arguments + seq![','] + name2 + seq![':'] + id + seq![
            ',',
        ] + name3 + seq![':'] + (seq!['"'] + target + seq!['"']) + seq![','] + name4 + seq![':']
            + kind) + seq!['}'] == (seq!['{'] + name1 + seq![':']) + arguments + (seq![',']
            + name2 + seq![':'] + id + seq![','] + name3 + seq![':'] + seq!['"']) + target + (
        seq!['"'] + seq![','] + name4 + seq![':'] + kind + seq!['}']),
{
    assert(seq!['{'] + (name1 + seq![':'] + arguments + seq![','] + name2 + seq![':'] + id
        + seq![','] + name3 + seq![':'] + (seq!['"'] + target + seq!['"']) + seq![','] + name4
        + seq![':'] + kind) + seq!['}'] =~= (seq!['{'] + name1 + seq![':']) + arguments + (seq![
        ',',
    ] + name2 + seq![':'] + id + seq![','] + name3 + seq![':'] + seq!['"']) + target + (seq![
        '"',
    ] + seq![','] + name4 + seq![':'] + kind + seq!['}']));
}

/// The text of a call with plain arguments, for a target whose characters
/// stand for themselves: the members `arguments`, `invocationId`, `target`
/// and `type`, in this order.
pub proof fn lemma_invocation_text(target: Seq<char>, arguments: JsonModel)
    requires
        is_plain(arguments),
        forall|i: int| 0 <= i < target.len() ==> is_unescaped(#[trigger] target[i]),
    ensures
        json_text(stored(invocation_model(target, arguments))) == "{\"arguments\":"@ + json_text(
            arguments,
        ) + ",\"invocationId\":\"0\",\"target\":\""@ + target + "\",\"type\":1}"@,
{
    lemma_invocation_is_plain(target, arguments);
    lemma_invocation_members(target, arguments);
    lemma_invocation_opening();
    lemma_invocation_middle();
    lemma_invocation_closing();
    lemma_quoted_as_it_is(target);
    lemma_invocation_assembled(
        quoted("arguments"@),
        json_text(arguments),
        quoted("invocationId"@),
        quoted("0"@),
        quoted("target"@),
        target,
        quoted("type"@),
        decimal(1),
    );
}

/// The document that calls the procedure `target` with `arguments`.
pub fn invocation(target: &str, arguments: Json) -> (r: Json)
    ensures
        r@ == invocation_model(target@, arguments@),
{
    let ghost arguments_model = arguments@;
    let mut members: Vec<(String, Json)> = Vec::new();
    members.push(("arguments".to_owned(), arguments));
    members.push(("invocationId".to_owned(), Json::String("0".to_owned())));
    members.push(("target".to_owned(), Json::String(target.to_owned())));
    members.push(("type".to_owned(), Json::Number(Number::PosInt(1))));
    let r = Json::Object(members);
    proof {
        lemma_members_model(members@, members@.len());
        assert(r@->Object_0 =~= invocation_model(target@, arguments_model)->Object_0);
    }
    r
}

/// The message layer of one connection: the documents that have come in and
/// wait to be received, oldest first.
pub struct Stream {
    // The waiting documents, the next one last.
    buffer: Vec<Json>,
    ws: crate::stream::Stream,
}

impl Stream {
    /// The documents that wait, in the order in which they came.
    pub closed spec fn pending(&self) -> Seq<JsonModel> {
        models(self.buffer@).reverse()
    }

    /// The address at which the connection was upgraded.
    pub closed spec fn address(&self) -> Seq<char> {
        self.ws.url_model()
    }

    /// The address at which the connection was upgraded.
    pub fn url(&self) -> (r: &str)
        ensures
            r@ == self.address(),
    {
        self.ws.url()
    }

    /// The message layer of a connection that has just been opened: no
    /// document waits.
    pub fn from_ws(ws: crate::stream::Stream) -> (r: Stream)
        ensures
            r.pending() == Seq::<JsonModel>::empty(),
            r.address() == ws.url_model(),
    {
        let r = Stream { ws, buffer: Vec::new() };
        assert(r.pending() =~= Seq::<JsonModel>::empty());
        r
    }

    /// Whether no document waits, so that the next message has to be read
    /// from the connection.
    pub fn is_empty(&self) -> (r: bool)
        ensures
            r == (self.pending().len() == 0),
    {
        self.buffer.len() == 0
    }

    /// Takes one message that was read from the connection. The documents
    /// of a text message wait behind those that wait already; a message of
    /// another kind is an error and changes nothing.
    pub fn deliver(&mut self, incoming: Incoming) -> (r: Result<(), StreamError>)
        ensures
            final(self).address() == old(self).address(),
            match incoming {
                Incoming::Text(text) => r is Ok && final(self).pending() == old(self).pending()
                    + documents_of(text@),
                Incoming::Other => r matches Err(e) && e@ == StreamErrorModel::StreamError(
                    RecvErrorModel::BadMessageType,
                ) && final(self).pending() == old(self).pending(),
            },
    {
        let mut docs = match self.ws.recv(incoming) {
            Ok(docs) => docs,
            Err(e) => {
                return Err(StreamError::StreamError(e));
            },
        };
        let ghost came = models(docs@);
        let ghost waiting = models(self.buffer@);
        let mut fresh: Vec<Json> = Vec::new();
        proof {
            assert(models(fresh@) =~= came.reverse().take(0));
            assert(models(docs@) =~= came.take(docs.len() as int));
        }
        while docs.len() > 0
            invariant
                docs.len() + fresh.len() == came.len(),
                models(docs@) == came.take(docs.len() as int),
                models(fresh@) == came.reverse().take(fresh.len() as int),
            decreases docs.len(),
        {
            let ghost before_docs = docs@;
            let ghost before_fresh = fresh@;
            let doc = docs.pop().unwrap();
            fresh.push(doc);
            proof {
                assert(doc@ == models(before_docs)[before_docs.len() - 1]);
                assert(models(docs@) =~= came.take(docs.len() as int));
                assert(models(fresh@) =~= models(before_fresh).push(doc@));
                assert(models(fresh@) =~= came.reverse().take(fresh.len() as int));
            }
        }
        proof {
            assert(came.reverse().take(fresh.len() as int) =~= came.reverse());
        }
        let ghost turned = fresh@;
        fresh.append(&mut self.buffer);
        self.buffer = fresh;
        proof {
            assert(models(self.buffer@) =~= models(turned) + waiting);
            assert((came.reverse() + waiting).reverse() =~= waiting.reverse() + came);
        }
        Ok(())
    }

    /// Receives the message that the oldest waiting document is, and takes
    /// that document off. Where none waits, nothing is received and
    /// nothing changes: the caller reads from the connection and delivers.
    pub fn recv(&mut self) -> (r: Option<Result<Message, StreamError>>)
        ensures
            final(self).address() == old(self).address(),
            received_model(r) == first_received(old(self).pending()),
            final(self).pending() == if old(self).pending().len() == 0 {
                old(self).pending()
            } else {
                old(self).pending().drop_first()
            },
    {
        let ghost waiting = models(self.buffer@);
        match self.buffer.pop() {
            None => None,
            Some(doc) => {
                proof {
                    assert(doc@ == waiting.last());
                    assert(models(self.buffer@) =~= waiting.drop_last());
                    assert(waiting.reverse()[0] == waiting.last());
                    assert(waiting.drop_last().reverse() =~= waiting.reverse().drop_first());
                }
                match Message::from_json(doc) {
                    Ok(m) => Some(Ok(m)),
                    Err(e) => Some(Err(StreamError::ParseError(e))),
                }
            },
        }
    }

    /// The text message that calls the procedure `target` with `args`.
    pub fn invoke(&mut self, target: &str, args: Json) -> (r: String)
        ensures
            r@ == frame_of(invocation_model(target@, args@)),
            final(self).pending() == old(self).pending(),
            final(self).address() == old(self).address(),
    {
        let doc = invocation(target, args);
        self.ws.send(&doc)
    }
}

} // verus!
