//! A model of the JSON documents the card-search API returns, and the
//! verified extraction of a result page from such a document.
//!
//! Parsing the raw text is delegated to an outside parser behind a trusted
//! wrapper; everything after that — recognising the page shape, reading the
//! card records, the continuation cursor and the `has_more` flag — is
//! verified code over the [`Json`] tree.

use vstd::prelude::*;

use crate::card::str_eq;
use crate::card::Card;
use crate::card::CardView;

verus! {

/// A JSON document. Numbers are kept only as non-negative integers: that is
/// all the page format carries; any other number is kept as `Num(None)`.
pub enum Json {
    Null,
    Bool(bool),
    Num(Option<u64>),
    Str(String),
    Arr(Vec<Json>),
    Obj(Vec<JsonEntry>),
}

/// One key/value entry of a JSON object.
pub struct JsonEntry {
    pub key: String,
    pub value: Json,
}

/// The mathematical model of a [`Json`] document.
pub enum JsonView {
    Null,
    Bool(bool),
    Num(Option<u64>),
    Str(Seq<char>),
    Arr(Seq<JsonView>),
    Obj(Seq<(Seq<char>, JsonView)>),
}

impl DeepView for JsonEntry {
    type V = (Seq<char>, JsonView);

    open spec fn deep_view(&self) -> (Seq<char>, JsonView) {
        (self.key@, self.value.deep_view())
    }
}

impl DeepView for Json {
    type V = JsonView;

    open spec fn deep_view(&self) -> JsonView
        decreases self,
    {
        match self {
            Json::Null => JsonView::Null,
            Json::Bool(b) => JsonView::Bool(*b),
            Json::Num(n) => JsonView::Num(*n),
            Json::Str(s) => JsonView::Str(s@),
            Json::Arr(items) => JsonView::Arr(arr_views(items@)),
            Json::Obj(entries) => JsonView::Obj(obj_views(entries@)),
        }
    }
}

/// The models of the elements of a JSON array.
pub open spec fn arr_views(items: Seq<Json>) -> Seq<JsonView>
    decreases items,
{
    if items.len() == 0 {
        Seq::empty()
    } else {
        seq![items[0].deep_view()] + arr_views(items.drop_first())
    }
}

/// The models of the entries of a JSON object.
pub open spec fn obj_views(entries: Seq<JsonEntry>) -> Seq<(Seq<char>, JsonView)>
    decreases entries,
{
    if entries.len() == 0 {
        Seq::empty()
    } else {
        seq![(entries[0].key@, entries[0].value.deep_view())] + obj_views(entries.drop_first())
    }
}

/// The outside parser's document type, declared so that the trusted helper
/// below can take it apart.
#[verifier::external_type_specification]
#[verifier::external_body]
pub struct ExValue(serde_json::Value);

/// What the outside JSON parser returns on a given text: `None` where the
/// text is not valid JSON, and otherwise the parsed document.
pub uninterp spec fn json_of(s: Seq<char>) -> Option<JsonView>;

/// Relies on `serde_json::from_str::<serde_json::Value>`: it parses the text
/// into a JSON document, or fails exactly when the text is not valid JSON.
/// The parse is a function of the text alone; its result is named
/// [`json_of`]. The returned tree is rebuilt as a [`Json`] value by
/// [`value_to_json`] below, which is part of the same trusted surface.
#[verifier::external_body]
pub(crate) fn parse_json(s: &str) -> (r: Option<Json>)
    ensures
        r.deep_view() == json_of(s@),
{
    match serde_json::from_str::<serde_json::Value>(s) {
        Ok(v) => Some(value_to_json(&v)),
        Err(_) => None,
    }
}

/// Relies on the shape of `serde_json::Value`: this helper of [`parse_json`]
/// rebuilds the parsed tree variant by variant, moving each string, number,
/// array element and object entry across unchanged.
#[verifier::external_body]
fn value_to_json(v: &serde_json::Value) -> (r: Json) {
    match v {
        serde_json::Value::Null => Json::Null,
        serde_json::Value::Bool(b) => Json::Bool(*b),
        serde_json::Value::Number(n) => Json::Num(n.as_u64()),
        serde_json::Value::String(s) => Json::Str(s.clone()),
        serde_json::Value::Array(items) => Json::Arr(items.iter().map(value_to_json).collect()),
        serde_json::Value::Object(entries) => Json::Obj(
            entries.iter().map(
            |(k, x)| JsonEntry { key: k.clone(), value: value_to_json(x) },
        ).collect(),
        ),
    }
}

/// The value under `key` in an object's entry list: the first entry whose
/// key matches, or `None` where no entry does.
pub open spec fn lookup(entries: Seq<(Seq<char>, JsonView)>, key: Seq<char>) -> Option<JsonView>
    decreases entries.len(),
{
    if entries.len() == 0 {
        None
    } else if entries[0].0 == key {
        Some(entries[0].1)
    } else {
        lookup(entries.drop_first(), key)
    }
}

/// The value under `key` where the document is an object with such a key.
pub open spec fn field(j: JsonView, key: Seq<char>) -> Option<JsonView> {
    match j {
        JsonView::Obj(entries) => lookup(entries, key),
        _ => None,
    }
}

/// Finds the first entry under `key` in an object's entry list.
pub fn get_field<'a>(entries: &'a Vec<JsonEntry>, key: &str) -> (r: Option<&'a Json>)
    ensures
        match r {
            Some(v) => lookup(entries.deep_view(), key@) == Some(v.deep_view()),
            None => lookup(entries.deep_view(), key@) is None,
        },
{
    let n = entries.len();
    assert(entries.deep_view().skip(0) =~= entries.deep_view());
    for i in 0..n
        invariant
            n == entries.deep_view().len(),
            lookup(entries.deep_view(), key@) == lookup(
                entries.deep_view().skip(i as int),
                key@,
            ),
    {
        assert(entries.deep_view().skip(i as int)[0] == entries.deep_view()[i as int]);
        if str_eq(entries[i].key.as_str(), key) {
            return Some(&entries[i].value);
        }
        assert(entries.deep_view().skip(i as int).drop_first() =~= entries.deep_view().skip(
            i + 1,
        ));
    }
    None
}

/// The element models of an array, index by index.
pub proof fn lemma_arr_views(items: Seq<Json>)
    ensures
        arr_views(items).len() == items.len(),
        forall|i: int| 0 <= i < items.len() ==> arr_views(items)[i] == items[i].deep_view(),
    decreases items.len(),
{
    if items.len() > 0 {
        lemma_arr_views(items.drop_first());
        assert(arr_views(items) == seq![items[0].deep_view()] + arr_views(items.drop_first()));
        assert(arr_views(items).len() == 1 + arr_views(items.drop_first()).len());
        assert forall|i: int|
            0 <= i < items.len() implies arr_views(items)[i] == items[i].deep_view() by {
            if i > 0 {
                assert(arr_views(items)[i] == arr_views(items.drop_first())[i - 1]);
                assert(items.drop_first()[i - 1] == items[i]);
            }
        }
    }
}

/// The entry models of an object, index by index.
pub proof fn lemma_obj_views(entries: Seq<JsonEntry>)
    ensures
        obj_views(entries).len() == entries.len(),
        forall|i: int|
            0 <= i < entries.len() ==> obj_views(entries)[i] == (
                entries[i].key@,
                entries[i].value.deep_view(),
            ),
    decreases entries.len(),
{
    if entries.len() > 0 {
        lemma_obj_views(entries.drop_first());
        assert(obj_views(entries) == seq![(entries[0].key@, entries[0].value.deep_view())]
            + obj_views(entries.drop_first()));
        assert(obj_views(entries).len() == 1 + obj_views(entries.drop_first()).len());
        assert forall|i: int|
            0 <= i < entries.len() implies obj_views(entries)[i] == (
            entries[i].key@,
            entries[i].value.deep_view(),
        ) by {
            if i > 0 {
                assert(obj_views(entries)[i] == obj_views(entries.drop_first())[i - 1]);
                assert(entries.drop_first()[i - 1] == entries[i]);
            }
        }
    }
}

/// One page of search results: the card records carried by the page, the
/// continuation cursor to the next page if the API gave one, and the API's
/// own `has_more` flag.
pub struct Page {
    pub cards: Vec<Card>,
    pub next_page: Option<String>,
    pub has_more: bool,
}

/// The mathematical model of a [`Page`].
pub struct PageView {
    pub cards: Seq<CardView>,
    pub next_page: Option<Seq<char>>,
    pub has_more: bool,
}

impl DeepView for Page {
    type V = PageView;

    open spec fn deep_view(&self) -> PageView {
        PageView {
            cards: self.cards.deep_view(),
            next_page: match self.next_page {
                Some(u) => Some(u@),
                None => None,
            },
            has_more: self.has_more,
        }
    }
}

/// An optional string field of an object: `Some(None)` where the field is
/// absent or null, `Some(Some(s))` where it is the string `s`, and `None` —
/// malformed — where it holds a value of any other type.
pub open spec fn opt_str_field(j: JsonView, key: Seq<char>) -> Option<Option<Seq<char>>> {
    match field(j, key) {
        None => Some(None),
        Some(JsonView::Null) => Some(None),
        Some(JsonView::Str(s)) => Some(Some(s)),
        Some(_) => None,
    }
}

/// The card record a document describes: an object whose `name` field is a
/// string and whose `rarity` field, if present and non-null, is a string.
/// Any other shape is malformed.
pub open spec fn card_of(j: JsonView) -> Option<CardView> {
    match field(j, "name"@) {
        Some(JsonView::Str(n)) => match opt_str_field(j, "rarity"@) {
            Some(r) => Some(CardView { name: n, rarity: r }),
            None => None,
        },
        _ => None,
    }
}

/// Every element of the page's `data` array is a well-formed card record.
pub open spec fn all_cards_ok(elems: Seq<JsonView>) -> bool {
    forall|i: int| 0 <= i < elems.len() ==> card_of(#[trigger] elems[i]) is Some
}

/// The card records of the page's `data` array, in order.
pub open spec fn cards_of(elems: Seq<JsonView>) -> Seq<CardView> {
    Seq::new(elems.len(), |i: int| card_of(elems[i])->0)
}

/// The page a document describes: an object whose `data` field is an array
/// of well-formed card records, whose `has_more` field is a boolean, and
/// whose `next_page` field, if present and non-null, is a string. Any other
/// shape is malformed.
pub open spec fn page_of(j: JsonView) -> Option<PageView> {
    match (field(j, "data"@), field(j, "has_more"@)) {
        (Some(JsonView::Arr(elems)), Some(JsonView::Bool(hm))) => if all_cards_ok(elems) {
            match opt_str_field(j, "next_page"@) {
                Some(np) => Some(PageView { cards: cards_of(elems), next_page: np, has_more: hm }),
                None => None,
            }
        } else {
            None
        },
        _ => None,
    }
}

/// The page a response body describes: `None` where the body is not valid
/// JSON or the document is not a well-formed page.
pub open spec fn parsed_page(body: Seq<char>) -> Option<PageView> {
    match json_of(body) {
        Some(j) => page_of(j),
        None => None,
    }
}

/// Reads one card record out of a document.
fn extract_card(j: &Json) -> (r: Option<Card>)
    ensures
        match r {
            Some(c) => card_of(j.deep_view()) == Some(c.deep_view()),
            None => card_of(j.deep_view()) is None,
        },
{
    let entries = match j {
        Json::Obj(entries) => entries,
        _ => {
            return None;
        },
    };
    proof {
        lemma_obj_views(entries@);
        assert(obj_views(entries@) =~= entries.deep_view());
    }
    let name = match get_field(entries, "name") {
        Some(Json::Str(s)) => s.clone(),
        _ => {
            return None;
        },
    };
    let rarity = match get_field(entries, "rarity") {
        None => None,
        Some(Json::Null) => None,
        Some(Json::Str(s)) => Some(s.clone()),
        Some(_) => {
            return None;
        },
    };
    Some(Card { name, rarity })
}

/// Reads the card records out of a page's `data` array; fails where any
/// element is malformed.
fn extract_cards(elems: &Vec<Json>) -> (r: Option<Vec<Card>>)
    ensures
        match r {
            Some(cs) => all_cards_ok(elems.deep_view()) && cs.deep_view() == cards_of(
                elems.deep_view(),
            ),
            None => !all_cards_ok(elems.deep_view()),
        },
{
    let mut cards: Vec<Card> = Vec::new();
    let n = elems.len();
    for i in 0..n
        invariant
            n == elems.len(),
            cards.deep_view().len() == i,
            forall|k: int|
                0 <= k < i ==> card_of(#[trigger] elems.deep_view()[k]) is Some,
            forall|k: int|
                0 <= k < i ==> cards.deep_view()[k] == card_of(#[trigger] elems.deep_view()[k])->0,
    {
        assert(elems.deep_view()[i as int] == elems@[i as int].deep_view());
        match extract_card(&elems[i]) {
            Some(c) => {
                cards.push(c);
            },
            None => {
                return None;
            },
        }
    }
    proof {
        assert(cards.deep_view() =~= cards_of(elems.deep_view()));
    }
    Some(cards)
}

/// Reads a whole result page out of a document.
pub fn extract_page(j: &Json) -> (r: Option<Page>)
    ensures
        match r {
            Some(p) => page_of(j.deep_view()) == Some(p.deep_view()),
            None => page_of(j.deep_view()) is None,
        },
{
    let entries = match j {
        Json::Obj(entries) => entries,
        _ => {
            return None;
        },
    };
    proof {
        lemma_obj_views(entries@);
        assert(obj_views(entries@) =~= entries.deep_view());
    }
    let data = match get_field(entries, "data") {
        Some(Json::Arr(elems)) => elems,
        _ => {
            return None;
        },
    };
    let has_more = match get_field(entries, "has_more") {
        Some(Json::Bool(b)) => *b,
        _ => {
            return None;
        },
    };
    proof {
        lemma_arr_views(data@);
        assert(arr_views(data@) =~= data.deep_view());
    }
    let cards = match extract_cards(data) {
        Some(cs) => cs,
        None => {
            return None;
        },
    };
    let next_page = match get_field(entries, "next_page") {
        None => None,
        Some(Json::Null) => None,
        Some(Json::Str(s)) => Some(s.clone()),
        Some(_) => {
            return None;
        },
    };
    Some(Page { cards, next_page, has_more })
}

/// Parses a response body and reads the result page out of it.
pub fn parse_page(body: &str) -> (r: Option<Page>)
    ensures
        match r {
            Some(p) => parsed_page(body@) == Some(p.deep_view()),
            None => parsed_page(body@) is None,
        },
{
    match parse_json(body) {
        Some(j) => extract_page(&j),
        None => None,
    }
}

} // verus!
