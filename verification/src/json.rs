//! JSON documents: the tree that pages are made of, and what requests and replies hold.
use vstd::prelude::*;
use vstd::utf8::{decode_utf8, valid_utf8};

use crate::text::same;

verus! {

/// A JSON value. A fractional number stands as the bits of its IEEE 754 double.
#[derive(Debug)]
pub enum Json {
    Null,
    Bool(bool),
    Int(i64),
    Double(u64),
    Text(String),
    List(Vec<Json>),
    Object(Vec<(String, Json)>),
}

/// A JSON value in the abstract.
pub ghost enum JsonView {
    Null,
    Bool(bool),
    Int(int),
    Double(u64),
    Text(Seq<char>),
    List(Seq<JsonView>),
    Object(Seq<(Seq<char>, JsonView)>),
}

impl View for Json {
    type V = JsonView;

    open spec fn view(&self) -> JsonView
        decreases self,
    {
        match self {
            Json::Null => JsonView::Null,
            Json::Bool(b) => JsonView::Bool(*b),
            Json::Int(n) => JsonView::Int(*n as int),
            Json::Double(b) => JsonView::Double(*b),
            Json::Text(t) => JsonView::Text(t@),
            Json::List(l) => JsonView::List(list_view(l@)),
            Json::Object(f) => JsonView::Object(fields_view(f@)),
        }
    }
}

/// The values of a list in the abstract.
pub open spec fn list_view(l: Seq<Json>) -> Seq<JsonView>
    decreases l,
{
    if l.len() == 0 {
        Seq::empty()
    } else {
        list_view(l.drop_last()).push(l.last()@)
    }
}

/// The fields of an object in the abstract.
pub open spec fn fields_view(f: Seq<(String, Json)>) -> Seq<(Seq<char>, JsonView)>
    decreases f,
{
    if f.len() == 0 {
        Seq::empty()
    } else {
        fields_view(f.drop_last()).push((f.last().0@, f.last().1@))
    }
}

/// No fields at all, to which an object's fields are added.
pub open spec fn no_fields() -> Seq<(Seq<char>, JsonView)> {
    Seq::empty()
}

/// No values at all, to which a list's values are added.
pub open spec fn no_values() -> Seq<JsonView> {
    Seq::empty()
}

/// An object under construction.
pub struct Fields {
    list: Vec<(String, Json)>,
}

impl View for Fields {
    type V = Seq<(Seq<char>, JsonView)>;

    closed spec fn view(&self) -> Seq<(Seq<char>, JsonView)> {
        fields_view(self.list@)
    }
}

impl Fields {
    /// An object without fields.
    pub fn new() -> (r: Fields)
        ensures
            r@ == no_fields(),
    {
        Fields { list: Vec::new() }
    }

    /// The object with one field more.
    pub fn with(self, key: &str, value: Json) -> (r: Fields)
        ensures
            r@ == self@.push((key@, value@)),
    {
        let mut list = self.list;
        let ghost before = list@;
        list.push((key.to_owned(), value));
        assert(list@.drop_last() == before);
        Fields { list }
    }

    /// The finished object.
    pub fn done(self) -> (r: Json)
        ensures
            r@ == JsonView::Object(self@),
    {
        Json::Object(self.list)
    }
}

/// A text value.
pub fn text(s: &str) -> (r: Json)
    ensures
        r@ == JsonView::Text(s@),
{
    Json::Text(s.to_owned())
}

/// A text value, or null in its place.
pub open spec fn nullable(s: Option<Seq<char>>) -> JsonView {
    match s {
        Some(t) => JsonView::Text(t),
        None => JsonView::Null,
    }
}

/// A text value, or null in its place.
pub fn text_or_null(s: &Option<String>) -> (r: Json)
    ensures
        r@ == nullable(crate::text::opt_text(*s)),
{
    match s {
        Some(t) => Json::Text(t.clone()),
        None => Json::Null,
    }
}

/// Appends a value to a list.
pub fn add_value(list: &mut Vec<Json>, value: Json)
    ensures
        list_view(final(list)@) == list_view(old(list)@).push(value@),
{
    let ghost before = list@;
    list.push(value);
    assert(list@.drop_last() == before);
}

/// A page with a one-time hint under `toast`, in place of one that it has already.
pub open spec fn toasted(page: JsonView, kind: Seq<char>, words: Seq<char>) -> JsonView {
    let hint = JsonView::Object(
        no_fields().push(("kind"@, JsonView::Text(kind))).push(("text"@, JsonView::Text(words))),
    );
    match page {
        JsonView::Object(fields) => JsonView::Object(without_field(fields, "toast"@).push(("toast"@, hint))),
        other => other,
    }
}

/// The fields of an object but for those of one name.
pub open spec fn without_field(fields: Seq<(Seq<char>, JsonView)>, key: Seq<char>) -> Seq<
    (Seq<char>, JsonView),
>
    decreases fields.len(),
{
    if fields.len() == 0 {
        fields
    } else if fields.last().0 == key {
        without_field(fields.drop_last(), key)
    } else {
        without_field(fields.drop_last(), key).push(fields.last())
    }
}

/// Puts a one-time hint on a page. What is no object stays as it is.
pub fn with_toast(page: Json, kind: &str, words: &str) -> (r: Json)
    ensures
        r@ == toasted(page@, kind@, words@),
{
    match page {
        Json::Object(fields) => {
            let ghost all = fields@;
            let mut fields = fields;
            let ghost mut read: int = 0;
            let mut i: usize = 0;
            while i < fields.len()
                invariant
                    0 <= i <= fields@.len(),
                    0 <= read <= all.len(),
                    fields@.skip(i as int) == all.skip(read),
                    fields_view(fields@.take(i as int)) == without_field(
                        fields_view(all.take(read)),
                        "toast"@,
                    ),
                decreases fields@.len() - i,
            {
                let ghost kept = fields@.take(i as int);
                let ghost rest = fields@.skip(i as int);
                assert(rest.len() == all.skip(read).len());
                assert(rest[0] == all.skip(read)[0]);
                assert(fields@[i as int] == all[read]);
                assert(all.skip(read + 1) == rest.skip(1));
                assert(all.take(read + 1).drop_last() == all.take(read));
                assert(fields_view(all.take(read + 1)) == fields_view(all.take(read)).push(
                    (all[read].0@, all[read].1@),
                ));
                assert(fields_view(all.take(read + 1)).drop_last() == fields_view(all.take(read)));
                if same(fields[i].0.as_str(), "toast") {
                    fields.remove(i);
                    assert(fields@.take(i as int) == kept);
                    assert(fields@.skip(i as int) == rest.skip(1));
                } else {
                    i += 1;
                    assert(fields@.take(i as int).drop_last() == kept);
                    assert(fields@.skip(i as int) == rest.skip(1));
                }
                proof {
                    read = read + 1;
                }
            }
            proof {
                assert(fields@.skip(i as int).len() == 0);
                assert(all.take(read) == all);
                assert(fields@.take(i as int) == fields@);
            }
            let hint = Fields::new().with("kind", text(kind)).with("text", text(words)).done();
            let ghost before = fields@;
            fields.push(("toast".to_owned(), hint));
            assert(fields@.drop_last() == before);
            assert(fields_view(fields@) == fields_view(before).push(("toast"@, hint@)));
            assert(page@ == JsonView::Object(fields_view(all)));
            Json::Object(fields)
        },
        other => other,
    }
}

// ---------------------------------------------------------------------------
// Documents as text
// ---------------------------------------------------------------------------

/// The text under a key of the object that a document holds, as `serde_json` reads it.
pub uninterp spec fn text_under(document: Seq<char>, key: Seq<char>) -> Option<Seq<char>>;

/// The integer under a key of the object that a document holds, as `serde_json` reads it.
pub uninterp spec fn int_under(document: Seq<char>, key: Seq<char>) -> Option<i64>;

/// The bits of the number under a key of the object that a document holds, as `serde_json` reads
/// it.
pub uninterp spec fn number_under(document: Seq<char>, key: Seq<char>) -> Option<u64>;

/// The exchange rates under a key of the object that a document holds, in the order of their codes,
/// as `serde_json` reads them, where it holds a map of numbers there; or its complaint about what
/// is no JSON document.
pub uninterp spec fn rates_under(document: Seq<char>, key: Seq<char>) -> Result<
    Option<Seq<(Seq<char>, u64)>>,
    Seq<char>,
>;

/// For each item of the list that a document holds, the integer, the text and the truth value under
/// three keys of it, as `serde_json` reads them; nothing where it holds no list.
pub uninterp spec fn items_in(
    document: Seq<char>,
    number: Seq<char>,
    words: Seq<char>,
    flag: Seq<char>,
) -> Option<Seq<(Option<i64>, Option<Seq<char>>, Option<bool>)>>;

/// For each item of the list that a document holds, the texts under two keys of it, as `serde_json`
/// reads them; nothing where it holds no list.
pub uninterp spec fn texts_in(document: Seq<char>, first: Seq<char>, second: Seq<char>) -> Option<
    Seq<(Option<Seq<char>>, Option<Seq<char>>)>,
>;

/// The bytes that `serde_json` writes for an object of texts.
pub uninterp spec fn object_bytes(fields: Seq<(Seq<char>, Seq<char>)>) -> Seq<u8>;

/// Reads a document with `serde_json::from_str` and takes `Value::get` and `Value::as_str` of it:
/// a function of the document and the key. What is no JSON document holds nothing.
#[verifier::external_body]
pub(crate) fn read_text(document: &str, key: &str) -> (r: Option<String>)
    ensures
        r matches Some(t) ==> text_under(document@, key@) == Some(t@),
        r is None ==> text_under(document@, key@) is None,
{
    let value = serde_json::from_str::<serde_json::Value>(document).ok()?;
    value.get(key)?.as_str().map(|t| t.to_owned())
}

/// Reads a document with `serde_json::from_str` and takes `Value::get` and `Value::as_i64` of it:
/// a function of the document and the key. What is no JSON document holds nothing.
#[verifier::external_body]
pub(crate) fn read_int(document: &str, key: &str) -> (r: Option<i64>)
    ensures
        r == int_under(document@, key@),
{
    let value = serde_json::from_str::<serde_json::Value>(document).ok()?;
    value.get(key)?.as_i64()
}

/// Reads a document with `serde_json::from_str` and takes the bits of `Value::get` and
/// `Value::as_f64` of it: a function of the document and the key. What is no JSON document holds
/// nothing.
#[verifier::external_body]
pub(crate) fn read_number(document: &str, key: &str) -> (r: Option<u64>)
    ensures
        r == number_under(document@, key@),
{
    let value = serde_json::from_str::<serde_json::Value>(document).ok()?;
    value.get(key)?.as_f64().map(|x| x.to_bits())
}

/// The codes and rates of a list in the abstract.
pub open spec fn rates_view(list: Seq<(String, u64)>) -> Seq<(Seq<char>, u64)> {
    list.map_values(|r: (String, u64)| (r.0@, r.1))
}

/// The outcome of reading a list of rates in the abstract.
pub open spec fn rates_result(r: Result<Option<Vec<(String, u64)>>, String>) -> Result<
    Option<Seq<(Seq<char>, u64)>>,
    Seq<char>,
> {
    match r {
        Ok(Some(list)) => Ok(Some(rates_view(list@))),
        Ok(None) => Ok(None),
        Err(e) => Err(e@),
    }
}

/// Reads a document with `serde_json::from_str` and the map under a key of it with
/// `serde_json::from_value`: the bits of each number under its name. There is no list where there
/// is no such map, or it holds something other than numbers. The error is what `serde_json` says
/// of a text that is no JSON document. The result is a function of the document and the key.
#[verifier::external_body]
pub(crate) fn read_rates(document: &str, key: &str) -> (r: Result<
    Option<Vec<(String, u64)>>,
    String,
>)
    ensures
        rates_under(document@, key@) == rates_result(r),
{
    let value: serde_json::Value = serde_json::from_str(document).map_err(|e| e.to_string())?;
    let found: Option<std::collections::BTreeMap<String, serde_json::Number>> =
        value.get(key).and_then(|rates| serde_json::from_value(rates.clone()).ok());
    let bits = |rate: serde_json::Number| rate.as_f64().unwrap_or_default().to_bits();
    Ok(found.map(|rates| rates.into_iter().map(|(code, rate)| (code, bits(rate))).collect()))
}

/// What was read of the items of a list, in the abstract.
pub open spec fn items_view(list: Seq<(Option<i64>, Option<String>, Option<bool>)>) -> Seq<
    (Option<i64>, Option<Seq<char>>, Option<bool>),
> {
    list.map_values(
        |i: (Option<i64>, Option<String>, Option<bool>)| (i.0, crate::text::opt_text(i.1), i.2),
    )
}

/// The items of a list in the abstract, where there is one.
pub open spec fn items_found(
    list: Option<Vec<(Option<i64>, Option<String>, Option<bool>)>>,
) -> Option<Seq<(Option<i64>, Option<Seq<char>>, Option<bool>)>> {
    match list {
        Some(items) => Some(items_view(items@)),
        None => None,
    }
}

/// Reads a list with `serde_json::from_str` and takes `Value::get` of each of its items with
/// `Value::as_i64`, `Value::as_str` and `Value::as_bool`: a function of the document and the keys.
/// `None` where the document is no JSON list.
#[verifier::external_body]
pub(crate) fn read_items(document: &str, number: &str, words: &str, flag: &str) -> (r: Option<
    Vec<(Option<i64>, Option<String>, Option<bool>)>,
>)
    ensures
        items_found(r) == items_in(document@, number@, words@, flag@),
{
    let list: Vec<serde_json::Value> = serde_json::from_str(document).ok()?;
    let items = list.iter().map(|item| {
        let id = item.get(number).and_then(|v| v.as_i64());
        let name = item.get(words).and_then(|v| v.as_str()).map(|t| t.to_owned());
        (id, name, item.get(flag).and_then(|v| v.as_bool()))
    });
    Some(items.collect())
}

/// Optional pairs of texts in the abstract.
pub open spec fn opt_pairs_view(list: Seq<(Option<String>, Option<String>)>) -> Seq<
    (Option<Seq<char>>, Option<Seq<char>>),
> {
    list.map_values(
        |p: (Option<String>, Option<String>)|
            (crate::text::opt_text(p.0), crate::text::opt_text(p.1)),
    )
}

/// Optional pairs of texts in the abstract, where there is a list of them.
pub open spec fn opt_pairs_found(list: Option<Vec<(Option<String>, Option<String>)>>) -> Option<
    Seq<(Option<Seq<char>>, Option<Seq<char>>)>,
> {
    match list {
        Some(pairs) => Some(opt_pairs_view(pairs@)),
        None => None,
    }
}

/// Reads a list with `serde_json::from_str` and takes `Value::get` and `Value::as_str` of each of
/// its items for two keys: a function of the document and the keys. `None` where the document is
/// no JSON list.
#[verifier::external_body]
pub(crate) fn read_texts(document: &str, first: &str, second: &str) -> (r: Option<
    Vec<(Option<String>, Option<String>)>,
>)
    ensures
        opt_pairs_found(r) == texts_in(document@, first@, second@),
{
    let list: Vec<serde_json::Value> = serde_json::from_str(document).ok()?;
    let items = list.iter().map(|item| {
        let one = item.get(first).and_then(|v| v.as_str()).map(|t| t.to_owned());
        (one, item.get(second).and_then(|v| v.as_str()).map(|t| t.to_owned()))
    });
    Some(items.collect())
}

/// The names and texts of a list in the abstract.
pub open spec fn pairs_view(list: Seq<(String, String)>) -> Seq<(Seq<char>, Seq<char>)> {
    list.map_values(|p: (String, String)| (p.0@, p.1@))
}

/// Whether no two pairs begin with the same text.
pub open spec fn names_differ(pairs: Seq<(Seq<char>, Seq<char>)>) -> bool {
    forall|i: int, j: int|
        0 <= i < pairs.len() && 0 <= j < pairs.len() && i != j ==> (#[trigger] pairs[i]).0 != (
        #[trigger] pairs[j]).0
}

/// Whether a document is an object that holds some texts under their names.
pub open spec fn holds(document: Seq<char>, pairs: Seq<(Seq<char>, Seq<char>)>) -> bool {
    forall|i: int|
        0 <= i < pairs.len() ==> text_under(document, (#[trigger] pairs[i]).0) == Some(pairs[i].1)
}

/// Writes an object of texts with `serde_json::to_vec`: a function of its fields. The bytes are
/// UTF-8, and where the names differ, `serde_json` reads each text back under its name.
#[verifier::external_body]
pub(crate) fn write_object(fields: Vec<(String, String)>) -> (r: Vec<u8>)
    ensures
        r@ == object_bytes(pairs_view(fields@)),
        valid_utf8(r@),
        names_differ(pairs_view(fields@)) ==> holds(decode_utf8(r@), pairs_view(fields@)),
{
    let object: serde_json::Map<String, serde_json::Value> =
        fields.into_iter().map(|(name, words)| (name, serde_json::Value::String(words))).collect();
    serde_json::to_vec(&serde_json::Value::Object(object)).unwrap_or_else(|_| b"{}".to_vec())
}

// ---------------------------------------------------------------------------
// What documents promise
// ---------------------------------------------------------------------------

/// Whether an object has a field of some name with some value.
pub open spec fn has(json: JsonView, key: Seq<char>, value: JsonView) -> bool {
    json matches JsonView::Object(fields) && fields.contains((key, value))
}

/// The number of the fields of an object.
pub open spec fn width(json: JsonView) -> nat {
    match json {
        JsonView::Object(fields) => fields.len(),
        _ => 0,
    }
}

/// Whether an object has a field of some name.
pub open spec fn names(json: JsonView, key: Seq<char>) -> bool {
    json matches JsonView::Object(fields) && exists|i: int|
        0 <= i < fields.len() && (#[trigger] fields[i]).0 == key
}

proof fn lemma_without_field(
    fields: Seq<(Seq<char>, JsonView)>,
    key: Seq<char>,
    field: (Seq<char>, JsonView),
)
    ensures
        without_field(fields, key).contains(field) <==> fields.contains(field) && field.0 != key,
    decreases fields.len(),
{
    let kept = without_field(fields, key);
    if fields.len() > 0 {
        let init = fields.drop_last();
        let before = without_field(init, key);
        lemma_without_field(init, key, field);
        if fields.contains(field) {
            let i = choose|i: int| 0 <= i < fields.len() && fields[i] == field;
            if i < init.len() {
                assert(init[i] == field);
            }
        }
        if init.contains(field) {
            let i = choose|i: int| 0 <= i < init.len() && init[i] == field;
            assert(fields[i] == field);
        }
        assert(fields[fields.len() - 1] == fields.last());
        if fields.last().0 != key {
            assert(kept.last() == fields.last());
            if before.contains(field) {
                let i = choose|i: int| 0 <= i < before.len() && before[i] == field;
                assert(kept[i] == field);
            }
            if kept.contains(field) {
                let i = choose|i: int| 0 <= i < kept.len() && kept[i] == field;
                if i < before.len() {
                    assert(before[i] == field);
                }
            }
        }
    }
}

/// A hint stands on the page under `toast`, with its kind and its words, and nothing else stands
/// there. Everything else on the page stays.
pub proof fn law_a_hint_is_put_on_the_page(
    fields: Seq<(Seq<char>, JsonView)>,
    kind: Seq<char>,
    words: Seq<char>,
    key: Seq<char>,
    value: JsonView,
)
    ensures
        ({
            let page = toasted(JsonView::Object(fields), kind, words);
            &&& key != "toast"@ ==> (has(page, key, value) <==> fields.contains((key, value)))
            &&& key == "toast"@ && has(page, key, value) ==> has(
                value,
                "kind"@,
                JsonView::Text(kind),
            ) && has(value, "text"@, JsonView::Text(words)) && width(value) == 2
            &&& names(page, "toast"@)
        }),
{
    let hint = JsonView::Object(
        no_fields().push(("kind"@, JsonView::Text(kind))).push(("text"@, JsonView::Text(words))),
    );
    let rest = without_field(fields, "toast"@);
    let all = rest.push(("toast"@, hint));
    let field = (key, value);
    lemma_without_field(fields, "toast"@, field);
    assert(all[rest.len() as int].0 == "toast"@);
    if rest.contains(field) {
        let i = choose|i: int| 0 <= i < rest.len() && rest[i] == field;
        assert(all[i] == field);
    }
    if all.contains(field) {
        let i = choose|i: int| 0 <= i < all.len() && all[i] == field;
        if i < rest.len() {
            assert(rest[i] == field);
        }
    }
    if let JsonView::Object(inner) = hint {
        assert(inner[0] == ("kind"@, JsonView::Text(kind)));
        assert(inner[1] == ("text"@, JsonView::Text(words)));
    }
}

} // verus!
