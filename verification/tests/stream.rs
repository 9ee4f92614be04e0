use easee::api::{ApiError, Context, LoginResponse};
use easee::json::{parse, Json, Number};
use easee::decode::DeserializeError;
use easee::stream::{
    documents, handshake, read_answer, upgrade_url, Incoming, NegotiateError, NegotiateResponse,
    RecvError, Stream, RECORD_SEPARATOR, STREAM_API_NEGOTIATION_URL, WSS_URL,
};

fn context(token: &str) -> Context {
    Context::from_login_response_at(
        LoginResponse {
            access_token: token.to_owned(),
            expires_in: 60,
            access_claims: vec![],
            token_type: None,
            refresh_token: "r".to_owned(),
        },
        0,
    )
}

fn answer(connection_token: &str) -> NegotiateResponse {
    NegotiateResponse {
        negotiate_version: 1,
        connection_id: "id".to_owned(),
        connection_token: connection_token.to_owned(),
    }
}

fn open_stream() -> Stream {
    let upgrade = Stream::open(&context("bearer"), Ok(answer("tok"))).unwrap();
    upgrade.connected(Ok(())).unwrap().0
}

#[test]
fn constants_name_the_service() {
    assert_eq!(RECORD_SEPARATOR, '\x1e');
    assert_eq!(
        STREAM_API_NEGOTIATION_URL,
        "https://streams.easee.com/hubs/products/negotiate?negotiateVersion=1"
    );
    assert_eq!(WSS_URL, "wss://streams.easee.com/hubs/products");
}

#[test]
fn documents_are_cut_at_record_separators() {
    assert_eq!(
        documents("{\"type\":6}\u{1e}{}\u{1e}"),
        vec![parse("{\"type\":6}").unwrap(), Json::Object(vec![])]
    );
    assert_eq!(documents("1\u{1e}2"), vec![parse("1").unwrap(), parse("2").unwrap()]);
}

#[test]
fn documents_keep_their_order() {
    let docs = documents("[1]\u{1e}[2]\u{1e}[3]\u{1e}");
    assert_eq!(docs, vec![parse("[1]").unwrap(), parse("[2]").unwrap(), parse("[3]").unwrap()]);
}

#[test]
fn documents_drop_pieces_that_are_no_json() {
    assert_eq!(documents(""), Vec::<Json>::new());
    assert_eq!(documents("\u{1e}"), Vec::<Json>::new());
    assert_eq!(documents("\u{1e}\u{1e}"), Vec::<Json>::new());
    assert_eq!(documents("{\"a\":"), Vec::<Json>::new());
    assert_eq!(
        documents("{\"a\":\u{1e}true\u{1e}}\u{1e}\u{1e}null"),
        vec![Json::Bool(true), Json::Null]
    );
}

#[test]
fn handshake_names_protocol_and_version() {
    assert_eq!(
        handshake(),
        Json::Object(vec![
            ("protocol".to_owned(), Json::String("json".to_owned())),
            ("version".to_owned(), Json::Number(Number::PosInt(1))),
        ])
    );
    assert_eq!(handshake().to_text(), "{\"protocol\":\"json\",\"version\":1}");
}

#[test]
fn upgrade_url_carries_both_tokens() {
    assert_eq!(
        upgrade_url("abc", "xyz"),
        "wss://streams.easee.com/hubs/products?id=abc&access_token=xyz"
    );
    assert_eq!(upgrade_url("", ""), "wss://streams.easee.com/hubs/products?id=&access_token=");
}

#[test]
fn open_gives_the_address_of_the_upgrade() {
    let upgrade = Stream::open(&context("bearer"), Ok(answer("tok"))).unwrap();
    assert_eq!(
        upgrade.url(),
        "wss://streams.easee.com/hubs/products?id=tok&access_token=bearer"
    );
}

#[test]
fn open_fails_without_an_upgrade_when_negotiation_failed() {
    let failed = Stream::open(&context("bearer"), Err(ApiError::Ureq("status 500".to_owned())));
    assert_eq!(
        failed.err(),
        Some(NegotiateError::ApiError(ApiError::Ureq("status 500".to_owned())))
    );
    let failed = Stream::open(&context("bearer"), Err(ApiError::DeserializeFail));
    assert_eq!(failed.err(), Some(NegotiateError::ApiError(ApiError::DeserializeFail)));
}

#[test]
fn connected_hands_back_the_handshake_to_send() {
    let upgrade = Stream::open(&context("bearer"), Ok(answer("tok"))).unwrap();
    let (_, first) = upgrade.connected(Ok(())).unwrap();
    assert_eq!(first, "{\"protocol\":\"json\",\"version\":1}\u{1e}");
}

#[test]
fn an_open_stream_knows_its_address() {
    assert_eq!(
        open_stream().url(),
        "wss://streams.easee.com/hubs/products?id=tok&access_token=bearer"
    );
}

#[test]
fn connected_fails_when_the_upgrade_was_refused() {
    let upgrade = Stream::open(&context("bearer"), Ok(answer("tok"))).unwrap();
    assert_eq!(
        upgrade.connected(Err("HTTP error: 401".to_owned())).err(),
        Some(NegotiateError::TungsteniteError("HTTP error: 401".to_owned()))
    );
}

#[test]
fn send_ends_the_document_with_a_record_separator() {
    let mut stream = open_stream();
    assert_eq!(stream.send(&Json::Null), "null\u{1e}");
    assert_eq!(
        stream.send(&parse("{\"b\":[1,\"x\"],\"a\":null}").unwrap()),
        "{\"a\":null,\"b\":[1,\"x\"]}\u{1e}"
    );
}

#[test]
fn send_escapes_a_record_separator_inside_a_string() {
    let mut stream = open_stream();
    let sent = stream.send(&Json::String("a\u{1e}b".to_owned()));
    assert_eq!(sent, "\"a\\u001eb\"\u{1e}");
    assert_eq!(documents(&sent), vec![Json::String("a\u{1e}b".to_owned())]);
}

#[test]
fn recv_takes_the_documents_of_a_text_message() {
    let mut stream = open_stream();
    assert_eq!(
        stream.recv(Incoming::Text("{}\u{1e}[]\u{1e}".to_owned())),
        Ok(vec![Json::Object(vec![]), Json::Array(vec![])])
    );
    assert_eq!(stream.recv(Incoming::Text("".to_owned())), Ok(vec![]));
}

#[test]
fn recv_refuses_other_messages() {
    let mut stream = open_stream();
    assert_eq!(stream.recv(Incoming::Other), Err(RecvError::BadMessageType));
}

#[test]
fn the_answer_to_the_negotiation_is_read_from_an_object() {
    let doc = parse(
        "{\"negotiateVersion\":1,\"connectionId\":\"abc\",\"connectionToken\":\"tok\",         \"availableTransports\":[]}",
    )
    .unwrap();
    assert_eq!(NegotiateResponse::from_json(&doc), Ok(answer_with(1, "abc", "tok")));
    assert_eq!(read_answer(doc), Ok(answer_with(1, "abc", "tok")));
    let largest =
        parse("{\"negotiateVersion\":65535,\"connectionId\":\"\",\"connectionToken\":\"\"}")
            .unwrap();
    assert_eq!(NegotiateResponse::from_json(&largest), Ok(answer_with(65535, "", "")));
}

fn answer_with(version: u16, id: &str, token: &str) -> NegotiateResponse {
    NegotiateResponse {
        negotiate_version: version,
        connection_id: id.to_owned(),
        connection_token: token.to_owned(),
    }
}

#[test]
fn the_answer_needs_every_member() {
    let cases = [
        ("[]", DeserializeError::ExpectingObject),
        ("null", DeserializeError::ExpectingObject),
        ("{}", DeserializeError::MissingField("negotiateVersion")),
        ("{\"negotiateVersion\":1}", DeserializeError::MissingField("connectionId")),
        (
            "{\"negotiateVersion\":1,\"connectionId\":\"a\"}",
            DeserializeError::MissingField("connectionToken"),
        ),
        (
            "{\"negotiateVersion\":65536,\"connectionId\":\"a\",\"connectionToken\":\"t\"}",
            DeserializeError::InvalidField("negotiateVersion"),
        ),
        (
            "{\"negotiateVersion\":\"1\",\"connectionId\":\"a\",\"connectionToken\":\"t\"}",
            DeserializeError::InvalidField("negotiateVersion"),
        ),
        (
            "{\"negotiateVersion\":1,\"connectionId\":7,\"connectionToken\":\"t\"}",
            DeserializeError::InvalidField("connectionId"),
        ),
        (
            "{\"negotiateVersion\":1,\"connectionId\":\"a\",\"connectionToken\":null}",
            DeserializeError::InvalidField("connectionToken"),
        ),
    ];
    for (source, error) in cases {
        let doc = parse(source).unwrap();
        assert_eq!(NegotiateResponse::from_json(&doc), Err(error), "{}", source);
    }
}

#[test]
fn a_document_that_is_no_answer_is_unexpected_data() {
    let doc = parse("{\"negotiateVersion\":1}").unwrap();
    assert_eq!(
        read_answer(doc.clone()),
        Err(ApiError::UnexpectedData(doc, "missing field `connectionId`".to_owned()))
    );
    let failed = Stream::open(&context("bearer"), read_answer(Json::Null));
    assert_eq!(
        failed.err(),
        Some(NegotiateError::ApiError(ApiError::UnexpectedData(
            Json::Null,
            "expecting an object".to_owned()
        )))
    );
}

#[test]
fn failures_of_reading_are_described() {
    assert_eq!(DeserializeError::ExpectingObject.to_string(), "expecting an object");
    assert_eq!(DeserializeError::MissingField("id").to_string(), "missing field `id`");
    assert_eq!(DeserializeError::InvalidField("id").to_string(), "invalid field `id`");
}
