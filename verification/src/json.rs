//! JSON documents as the stream decoders see them.
//!
//! `Json` is a tree that verified code can read. Reading text into a tree
//! and writing a tree as text are left to `serde_json`. What its parser
//! accepts is not restated here, it is referred to by name
//! (`json_of_text`); what its writer writes is stated (`json_text`).

use crate::text::{decimal, signed_decimal};
use serde_json::Value;
use vstd::prelude::*;

verus! {

/// `serde_json::Value`, which verified code only hands on: what a value
/// holds is copied into a `Json` before anything reads it.
#[verifier::external_type_specification]
#[verifier::external_body]
pub struct ExValue(Value);

/// A JSON number. A number with a fraction or an exponent is kept as the
/// text that `serde_json` prints for it.
#[derive(Debug, PartialEq, Eq)]
pub enum Number {
    PosInt(u64),
    NegInt(i64),
    Float(String),
}

/// A JSON document. The members of an object are kept in the order in which
/// `serde_json` holds them.
#[derive(Debug, PartialEq, Eq)]
pub enum Json {
    Null,
    Bool(bool),
    Number(Number),
    String(String),
    Array(Vec<Json>),
    Object(Vec<(String, Json)>),
}

/// What a `Number` is to a contract: the same value, with sequences for its
/// strings and vectors.
pub ghost enum NumberModel {
    PosInt(u64),
    NegInt(i64),
    Float(Seq<char>),
}

/// What a `Json` is to a contract: the same value, with sequences for its
/// strings and vectors.
pub ghost enum JsonModel {
    Null,
    Bool(bool),
    Number(NumberModel),
    String(Seq<char>),
    Array(Seq<JsonModel>),
    Object(Seq<(Seq<char>, JsonModel)>),
}

impl View for Number {
    type V = NumberModel;

    open spec fn view(&self) -> NumberModel {
        match self {
            Number::PosInt(n) => NumberModel::PosInt(*n),
            Number::NegInt(n) => NumberModel::NegInt(*n),
            Number::Float(t) => NumberModel::Float(t@),
        }
    }
}

impl View for Json {
    type V = JsonModel;

    open spec fn view(&self) -> JsonModel {
        json_model(*self)
    }
}

/// The model of a document: the same tree, with sequences for vectors and
/// strings.
pub open spec fn json_model(j: Json) -> JsonModel
    decreases j, 0nat,
{
    match j {
        Json::Null => JsonModel::Null,
        Json::Bool(b) => JsonModel::Bool(b),
        Json::Number(n) => JsonModel::Number(n@),
        Json::String(s) => JsonModel::String(s@),
        Json::Array(items) => JsonModel::Array(items_model(items@, items@.len())),
        Json::Object(members) => JsonModel::Object(members_model(members@, members@.len())),
    }
}

/// The models of the first `n` items.
pub open spec fn items_model(items: Seq<Json>, n: nat) -> Seq<JsonModel>
    decreases items, n,
{
    if n == 0 || n > items.len() {
        Seq::empty()
    } else {
        items_model(items, (n - 1) as nat).push(json_model(items[n - 1]))
    }
}

/// The models of the first `n` members.
pub open spec fn members_model(members: Seq<(String, Json)>, n: nat) -> Seq<
    (Seq<char>, JsonModel),
>
    decreases members, n,
{
    if n == 0 || n > members.len() {
        Seq::empty()
    } else {
        members_model(members, (n - 1) as nat).push(
            (members[n - 1].0@, json_model(members[n - 1].1)),
        )
    }
}

/// The model of an array holds the model of each item, in order.
pub proof fn lemma_items_model(items: Seq<Json>, n: nat)
    requires
        n <= items.len(),
    ensures
        items_model(items, n).len() == n,
        forall|i: int| 0 <= i < n ==> (#[trigger] items_model(items, n)[i]) == items[i]@,
    decreases n,
{
    if n > 0 {
        lemma_items_model(items, (n - 1) as nat);
    }
}

/// The model of an object holds the name and the model of each member, in
/// order.
pub proof fn lemma_members_model(members: Seq<(String, Json)>, n: nat)
    requires
        n <= members.len(),
    ensures
        members_model(members, n).len() == n,
        forall|i: int|
            0 <= i < n ==> (#[trigger] members_model(members, n)[i]) == (
                members[i].0@,
                members[i].1@,
            ),
    decreases n,
{
    if n > 0 {
        lemma_members_model(members, (n - 1) as nat);
    }
}

/// The models of a sequence of documents.
pub open spec fn models(docs: Seq<Json>) -> Seq<JsonModel> {
    Seq::new(docs.len(), |i: int| docs[i]@)
}

/// The value of the first member named `key`, if there is one.
pub open spec fn member(members: Seq<(Seq<char>, JsonModel)>, key: Seq<char>) -> Option<
    JsonModel,
>
    decreases members.len(),
{
    if members.len() == 0 {
        None
    } else if members[0].0 == key {
        Some(members[0].1)
    } else {
        member(members.drop_first(), key)
    }
}

impl JsonModel {
    /// The member `key` of an object; nothing for any other document.
    pub open spec fn get(self, key: Seq<char>) -> Option<JsonModel> {
        match self {
            JsonModel::Object(members) => member(members, key),
            _ => None,
        }
    }

    /// The number, if the document is a non-negative integer that fits 64
    /// bits.
    pub open spec fn as_u64(self) -> Option<u64> {
        match self {
            JsonModel::Number(NumberModel::PosInt(n)) => Some(n),
            _ => None,
        }
    }

    /// The integer, if the document is a number without fraction and
    /// exponent, of either sign.
    pub open spec fn as_integer(self) -> Option<int> {
        match self {
            JsonModel::Number(NumberModel::PosInt(n)) => Some(n as int),
            JsonModel::Number(NumberModel::NegInt(n)) => Some(n as int),
            _ => None,
        }
    }

    /// The text, if the document is a string.
    pub open spec fn as_str(self) -> Option<Seq<char>> {
        match self {
            JsonModel::String(s) => Some(s),
            _ => None,
        }
    }

    /// The items, if the document is an array.
    pub open spec fn as_array(self) -> Option<Seq<JsonModel>> {
        match self {
            JsonModel::Array(items) => Some(items),
            _ => None,
        }
    }
}

/// The model of an optional document.
pub open spec fn model_of(j: Option<&Json>) -> Option<JsonModel> {
    match j {
        Some(j) => Some(j@),
        None => None,
    }
}

impl Clone for Number {
    fn clone(&self) -> (r: Number)
        ensures
            r@ == self@,
    {
        match self {
            Number::PosInt(n) => Number::PosInt(*n),
            Number::NegInt(n) => Number::NegInt(*n),
            Number::Float(t) => Number::Float(t.clone()),
        }
    }
}

impl Clone for Json {
    fn clone(&self) -> (r: Json)
        ensures
            r@ == self@,
        decreases self,
    {
        match self {
            Json::Null => Json::Null,
            Json::Bool(b) => Json::Bool(*b),
            Json::Number(n) => Json::Number(n.clone()),
            Json::String(s) => Json::String(s.clone()),
            Json::Array(items) => {
                let mut out: Vec<Json> = Vec::new();
                let mut i: usize = 0;
                while i < items.len()
                    invariant
                        i <= items.len(),
                        decreases_to!(self => items),
                        out@.len() == i,
                        forall|k: int| 0 <= k < i ==> out@[k]@ == items@[k]@,
                    decreases items.len() - i,
                {
                    out.push(items[i].clone());
                    i += 1;
                }
                let r = Json::Array(out);
                proof {
                    lemma_items_model(out@, out@.len());
                    lemma_items_model(items@, items@.len());
                    assert(r@->Array_0 =~= self@->Array_0);
                }
                r
            },
            Json::Object(members) => {
                let mut out: Vec<(String, Json)> = Vec::new();
                let mut i: usize = 0;
                while i < members.len()
                    invariant
                        i <= members.len(),
                        decreases_to!(self => members),
                        out@.len() == i,
                        forall|k: int|
                            0 <= k < i ==> out@[k].0@ == members@[k].0@ && out@[k].1@
                                == members@[k].1@,
                    decreases members.len() - i,
                {
                    out.push((members[i].0.clone(), members[i].1.clone()));
                    i += 1;
                }
                let r = Json::Object(out);
                proof {
                    lemma_members_model(out@, out@.len());
                    lemma_members_model(members@, members@.len());
                    assert(r@->Object_0 =~= self@->Object_0);
                }
                r
            },
        }
    }
}

/// A copy of every document of `docs`.
pub fn clone_all(docs: &Vec<Json>) -> (r: Vec<Json>)
    ensures
        models(r@) == models(docs@),
{
    let mut out: Vec<Json> = Vec::new();
    let mut i: usize = 0;
    while i < docs.len()
        invariant
            i <= docs.len(),
            out@.len() == i,
            forall|k: int| 0 <= k < i ==> out@[k]@ == docs@[k]@,
        decreases docs.len() - i,
    {
        out.push(docs[i].clone());
        i += 1;
    }
    assert(models(out@) =~= models(docs@));
    out
}

impl Json {
    /// Whether the document is an object.
    pub fn is_object(&self) -> (r: bool)
        ensures
            r == (self@ is Object),
    {
        match self {
            Json::Object(_) => true,
            _ => false,
        }
    }

    /// The member `key` of an object; `None` where the document is no object
    /// or has no such member.
    pub fn get(&self, key: &str) -> (r: Option<&Json>)
        ensures
            model_of(r) == self@.get(key@),
    {
        match self {
            Json::Object(members) => {
                let ghost all = self@->Object_0;
                let mut i: usize = 0;
                proof {
                    lemma_members_model(members@, members@.len());
                    assert(all.skip(0) =~= all);
                }
                while i < members.len()
                    invariant
                        i <= members.len(),
                        self@ == JsonModel::Object(all),
                        all.len() == members.len(),
                        forall|k: int|
                            0 <= k < members.len() ==> all[k] == (
                                members@[k].0@,
                                members@[k].1@,
                            ),
                        member(all, key@) == member(all.skip(i as int), key@),
                    decreases members.len() - i,
                {
                    proof {
                        assert(all.skip(i as int).len() > 0);
                        assert(all.skip(i as int)[0] == all[i as int]);
                        assert(all.skip(i as int).drop_first() =~= all.skip(i + 1));
                    }
                    if members[i].0.as_str().eq(key) {
                        return Some(&members[i].1);
                    }
                    i += 1;
                }
                None
            },
            _ => None,
        }
    }

    /// The number, if the document is a non-negative integer that fits 64
    /// bits.
    pub fn as_u64(&self) -> (r: Option<u64>)
        ensures
            r == self@.as_u64(),
    {
        match self {
            Json::Number(Number::PosInt(n)) => Some(*n),
            _ => None,
        }
    }

    /// The integer, if the document is a number without fraction and
    /// exponent, of either sign.
    pub fn as_integer(&self) -> (r: Option<i128>)
        ensures
            match r {
                Some(n) => self@.as_integer() == Some(n as int),
                None => self@.as_integer() is None,
            },
    {
        match self {
            Json::Number(Number::PosInt(n)) => Some(*n as i128),
            Json::Number(Number::NegInt(n)) => Some(*n as i128),
            _ => None,
        }
    }

    /// The text, if the document is a string.
    pub fn as_str(&self) -> (r: Option<&str>)
        ensures
            match r {
                Some(s) => self@.as_str() == Some(s@),
                None => self@.as_str() is None,
            },
    {
        match self {
            Json::String(s) => Some(s.as_str()),
            _ => None,
        }
    }

    /// The items, if the document is an array.
    pub fn as_array(&self) -> (r: Option<&Vec<Json>>)
        ensures
            match r {
                Some(items) => self@.as_array() == Some(models(items@)),
                None => self@.as_array() is None,
            },
    {
        match self {
            Json::Array(items) => {
                proof {
                    lemma_items_model(items@, items@.len());
                    assert(self@->Array_0 =~= models(items@));
                }
                Some(items)
            },
            _ => None,
        }
    }
}

/// The document that `serde_json` reads from a text, `None` where it rejects
/// the text.
pub uninterp spec fn json_of_text(text: Seq<char>) -> Option<JsonModel>;

/// What a `serde_json::Value` holds.
pub uninterp spec fn value_model(value: Value) -> JsonModel;

/// Whether a character is a control character that JSON takes nowhere as
/// it is: one below the space that is no tab, line feed or carriage return.
pub open spec fn is_raw_control(c: char) -> bool {
    (c as u32) < 0x20 && c != '\t' && c != '\n' && c != '\r'
}

/// Whether a text holds such a control character.
pub open spec fn holds_raw_control(text: Seq<char>) -> bool {
    exists|i: int| 0 <= i < text.len() && is_raw_control(#[trigger] text[i])
}

/// The JSON document that a text is, if it is one. The empty text is none,
/// and neither is a text that holds a raw control character; of any other
/// text `serde_json` decides.
pub open spec fn document_of(text: Seq<char>) -> Option<JsonModel> {
    if text.len() == 0 || holds_raw_control(text) {
        None
    } else {
        json_of_text(text)
    }
}

/// `serde_json::from_str::<Value>`: the value read from the whole of `text`,
/// or `None` where the parser reports an error. It reports one for the
/// empty text, which ends before a value begins, and for a text with a raw
/// control character, which it takes neither as white space nor inside a
/// string.
#[verifier::external_body]
fn value_of_text(text: &str) -> (r: Option<Value>)
    ensures
        match r {
            Some(v) => json_of_text(text@) == Some(value_model(v)),
            None => json_of_text(text@) is None,
        },
        text@.len() == 0 ==> r is None,
        holds_raw_control(text@) ==> r is None,
{
    serde_json::from_str::<Value>(text).ok()
}

/// Copies a `serde_json::Value` into a `Json`, variant for variant. A number
/// is the integer that `Number::as_u64` or `Number::as_i64` gives, and else
/// the text that `Number` is displayed as. The members of an object come in
/// the order of `Map::iter`, which is the order of their names. So the copy
/// is one that `serde_json` can hold: `as_i64` is asked only where `as_u64`
/// gave nothing, and what it gives then is negative.
#[verifier::external_body]
fn json_of_value(value: &Value) -> (r: Json)
    ensures
        r@ == value_model(*value),
        is_held(r@),
{
    match value {
        Value::Null => Json::Null,
        Value::Bool(b) => Json::Bool(*b),
        Value::Number(n) => Json::Number(
            n.as_u64().map(Number::PosInt).or(n.as_i64().map(Number::NegInt)).unwrap_or_else(
                || Number::Float(n.to_string()),
            ),
        ),
        Value::String(s) => Json::String(s.clone()),
        Value::Array(a) => Json::Array(a.iter().map(json_of_value).collect()),
        Value::Object(o) => Json::Object(
            o.iter().map(|(k, v)| (k.clone(), json_of_value(v))).collect(),
        ),
    }
}

/// Reads one JSON document from the whole of `text`.
pub fn parse(text: &str) -> (r: Option<Json>)
    ensures
        match r {
            Some(j) => document_of(text@) == Some(j@) && is_held(j@),
            None => document_of(text@) is None,
        },
{
    match value_of_text(text) {
        Some(v) => Some(json_of_value(&v)),
        None => None,
    }
}

/// The digit of base sixteen that stands for `d`, for `d` below sixteen,
/// with small letters.
pub open spec fn hex_digit(d: nat) -> char {
    if d < 10 {
        (d + '0' as u32) as char
    } else {
        (d - 10 + 'a' as u32) as char
    }
}

/// What one character of a string is written as. The quotation mark and the
/// reverse solidus get a reverse solidus before them. Backspace, tab, line
/// feed, form feed and carriage return are written as a reverse solidus and
/// their letter, every other character below the space as `\u00` and its
/// two digits of base sixteen. Any other character stands for itself.
pub open spec fn escaped(c: char) -> Seq<char> {
    if c == '"' {
        seq!['\\', '"']
    } else if c == '\\' {
        seq!['\\', '\\']
    } else if c == '\u{8}' {
        seq!['\\', 'b']
    } else if c == '\t' {
        seq!['\\', 't']
    } else if c == '\n' {
        seq!['\\', 'n']
    } else if c == '\u{c}' {
        seq!['\\', 'f']
    } else if c == '\r' {
        seq!['\\', 'r']
    } else if (c as u32) < 0x20 {
        seq![
            '\\',
            'u',
            '0',
            '0',
            hex_digit((c as u32 / 16) as nat),
            hex_digit((c as u32 % 16) as nat),
        ]
    } else {
        seq![c]
    }
}

/// The characters of a text, each as it is written inside a string.
pub open spec fn escaped_text(text: Seq<char>) -> Seq<char>
    decreases text.len(),
{
    if text.len() == 0 {
        Seq::empty()
    } else {
        escaped_text(text.drop_last()) + escaped(text.last())
    }
}

/// The JSON string for a text: its characters as they are written inside a
/// string, between quotation marks.
pub open spec fn quoted(text: Seq<char>) -> Seq<char> {
    seq!['"'] + escaped_text(text) + seq!['"']
}

/// Whether a character stands for itself inside a string.
pub open spec fn is_unescaped(c: char) -> bool {
    (c as u32) >= 0x20 && c != '"' && c != '\\'
}

/// A text of characters that stand for themselves is written as it is,
/// between quotation marks.
pub proof fn lemma_quoted_as_it_is(text: Seq<char>)
    requires
        forall|i: int| 0 <= i < text.len() ==> is_unescaped(#[trigger] text[i]),
    ensures
        escaped_text(text) == text,
        quoted(text) == seq!['"'] + text + seq!['"'],
    decreases text.len(),
{
    if text.len() > 0 {
        let shorter = text.drop_last();
        assert forall|i: int| 0 <= i < shorter.len() implies is_unescaped(
            #[trigger] shorter[i],
        ) by {
            assert(shorter[i] == text[i]);
        }
        lemma_quoted_as_it_is(shorter);
        assert(is_unescaped(text.last()));
        assert(escaped(text.last()) == seq![text.last()]);
        assert(shorter + seq![text.last()] =~= text);
    } else {
        assert(escaped_text(text) =~= text);
    }
}

/// The text of a number.
pub open spec fn number_text(n: NumberModel) -> Seq<char> {
    match n {
        NumberModel::PosInt(v) => decimal(v as nat),
        NumberModel::NegInt(v) => signed_decimal(v as int),
        NumberModel::Float(t) => t,
    }
}

/// The compact text of a document: no white space, members and items in
/// order, separated by commas.
pub open spec fn json_text(j: JsonModel) -> Seq<char>
    decreases j,
{
    match j {
        JsonModel::Null => "null"@,
        JsonModel::Bool(true) => "true"@,
        JsonModel::Bool(false) => "false"@,
        JsonModel::Number(n) => number_text(n),
        JsonModel::String(s) => quoted(s),
        JsonModel::Array(items) => seq!['['] + items_text(items) + seq![']'],
        JsonModel::Object(members) => seq!['{'] + members_text(members) + seq!['}'],
    }
}

/// The texts of the items of an array, separated by commas.
pub open spec fn items_text(items: Seq<JsonModel>) -> Seq<char>
    decreases items,
{
    if items.len() == 0 {
        Seq::empty()
    } else if items.len() == 1 {
        json_text(items[0])
    } else {
        items_text(items.drop_last()) + seq![','] + json_text(items.last())
    }
}

/// The texts of the members of an object, each a quoted name, a colon and
/// the value, separated by commas.
pub open spec fn members_text(members: Seq<(Seq<char>, JsonModel)>) -> Seq<char>
    decreases members,
{
    if members.len() == 0 {
        Seq::empty()
    } else if members.len() == 1 {
        quoted(members[0].0) + seq![':'] + json_text(members[0].1)
    } else {
        members_text(members.drop_last()) + seq![','] + quoted(members.last().0) + seq![':']
            + json_text(members.last().1)
    }
}

/// Whether `a` comes before `b` in the order of strings: at the first place
/// where they differ `a` has the smaller character, or `a` ends there and
/// `b` goes on.
pub open spec fn text_before(a: Seq<char>, b: Seq<char>) -> bool
    decreases a.len(),
{
    if b.len() == 0 {
        false
    } else if a.len() == 0 {
        true
    } else if a[0] != b[0] {
        (a[0] as u32) < (b[0] as u32)
    } else {
        text_before(a.drop_first(), b.drop_first())
    }
}

/// Whether a document is one that `serde_json` can hold: its objects name
/// their members in rising order, so that no name comes twice, and a
/// `NegInt` is negative. With `reals` it may hold numbers with a fraction or
/// an exponent, without `reals` it may not.
pub open spec fn is_kept(doc: JsonModel, reals: bool) -> bool
    decreases doc,
{
    match doc {
        JsonModel::Number(NumberModel::NegInt(v)) => v < 0,
        JsonModel::Number(NumberModel::Float(_)) => reals,
        JsonModel::Array(items) => items_kept(items, reals),
        JsonModel::Object(members) => members_kept(members, reals),
        _ => true,
    }
}

/// Whether every item is one that `serde_json` can hold.
pub open spec fn items_kept(items: Seq<JsonModel>, reals: bool) -> bool
    decreases items,
{
    items.len() == 0 || (items_kept(items.drop_last(), reals) && is_kept(items.last(), reals))
}

/// Whether every member is one that `serde_json` can hold, and the names
/// rise.
pub open spec fn members_kept(members: Seq<(Seq<char>, JsonModel)>, reals: bool) -> bool
    decreases members,
{
    members.len() == 0 || {
        &&& members_kept(members.drop_last(), reals)
        &&& is_kept(members.last().1, reals)
        &&& members.len() == 1 || text_before(members[members.len() - 2].0, members.last().0)
    }
}

/// Whether a document is one that `serde_json` can hold. Every document
/// that `parse` reads is.
pub open spec fn is_held(doc: JsonModel) -> bool {
    is_kept(doc, true)
}

/// Whether a document is held by `serde_json` as it stands, whoever built
/// it: it can be held, and it has no number with a fraction or an exponent.
/// Every document that the library builds itself is plain.
pub open spec fn is_plain(doc: JsonModel) -> bool {
    is_kept(doc, false)
}

/// Whether every item is plain.
pub open spec fn items_plain(items: Seq<JsonModel>) -> bool {
    items_kept(items, false)
}

/// Whether every member is plain and the names rise.
pub open spec fn members_plain(members: Seq<(Seq<char>, JsonModel)>) -> bool {
    members_kept(members, false)
}

/// A plain list of members stays plain when a plain member with a later
/// name is put behind it.
pub proof fn lemma_members_plain_push(
    members: Seq<(Seq<char>, JsonModel)>,
    name: Seq<char>,
    value: JsonModel,
)
    requires
        members_plain(members),
        is_plain(value),
        members.len() == 0 || text_before(members.last().0, name),
    ensures
        members_plain(members.push((name, value))),
{
    let longer = members.push((name, value));
    assert(longer.drop_last() =~= members);
}

/// What `serde_json` holds once a document that is not plain has been built
/// as a value: its members in rising order, the last of each name only, and
/// its numbers read anew.
pub uninterp spec fn built(doc: JsonModel) -> JsonModel;

/// What `serde_json` holds once a document has been built as a value: the
/// document itself where it is plain.
pub open spec fn stored(doc: JsonModel) -> JsonModel {
    if is_plain(doc) {
        doc
    } else {
        built(doc)
    }
}

/// Builds a `serde_json::Value` from a `Json`, variant for variant: an
/// integer by `Value::from`, any other number by `str::parse::<Number>`
/// (null where that fails), an array item by item, and an object by
/// collecting its members into a `Map`, which keeps them in the order of
/// their names and of two members with one name keeps the later.
#[verifier::external_body]
fn value_of_json(doc: &Json) -> (r: Value)
    ensures
        is_plain(doc@) ==> value_model(r) == doc@,
        !is_plain(doc@) ==> value_model(r) == built(doc@),
{
    match doc {
        Json::Null => Value::Null,
        Json::Bool(b) => Value::Bool(*b),
        Json::Number(Number::PosInt(n)) => Value::from(*n),
        Json::Number(Number::NegInt(n)) => Value::from(*n),
        Json::Number(Number::Float(t)) => t.parse().map_or(Value::Null, Value::Number),
        Json::String(s) => Value::String(s.clone()),
        Json::Array(a) => Value::Array(a.iter().map(value_of_json).collect()),
        Json::Object(o) => Value::Object(
            o.iter().map(|(k, v)| (k.clone(), value_of_json(v))).collect(),
        ),
    }
}

/// `serde_json::to_string` on a `Value`: the compact text of what the value
/// holds, as `json_text` states it.
#[verifier::external_body]
fn text_of_value(value: &Value) -> (r: String)
    ensures
        r@ == json_text(value_model(*value)),
{
    serde_json::to_string(value).unwrap_or_default()
}

impl Json {
    /// The compact text of the document, as `serde_json` writes it.
    pub fn to_text(&self) -> (r: String)
        ensures
            r@ == json_text(stored(self@)),
    {
        let value = value_of_json(self);
        text_of_value(&value)
    }
}

} // verus!
