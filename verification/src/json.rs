//! JSON documents, as far as this library reads and writes them.

use vstd::prelude::*;

verus! {

/// A JSON value.
#[derive(Debug, PartialEq, Eq)]
pub enum Json {
    Null,
    Bool(bool),
    /// A number, held as the text that stands for it.
    Number(String),
    Text(String),
    List(Vec<Json>),
    /// The members in the order of the document's own map.
    Object(Vec<(String, Json)>),
}

/// A JSON value as mathematics sees it.
pub enum JsonView {
    Null,
    Bool(bool),
    Number(Seq<char>),
    Text(Seq<char>),
    List(Seq<JsonView>),
    Object(Seq<(Seq<char>, JsonView)>),
}

/// What `value` is as mathematics sees it.
pub open spec fn value_view(value: Json) -> JsonView
    decreases value,
{
    match value {
        Json::Null => JsonView::Null,
        Json::Bool(b) => JsonView::Bool(b),
        Json::Number(digits) => JsonView::Number(digits@),
        Json::Text(text) => JsonView::Text(text@),
        Json::List(items) => JsonView::List(items_view(items@)),
        Json::Object(members) => JsonView::Object(members_view(members@)),
    }
}

/// The elements of a list as mathematics sees them.
pub open spec fn items_view(items: Seq<Json>) -> Seq<JsonView>
    decreases items,
{
    if items.len() == 0 {
        Seq::empty()
    } else {
        items_view(items.drop_last()).push(value_view(items.last()))
    }
}

/// The members of an object as mathematics sees them.
pub open spec fn members_view(members: Seq<(String, Json)>) -> Seq<(Seq<char>, JsonView)>
    decreases members,
{
    if members.len() == 0 {
        Seq::empty()
    } else {
        members_view(members.drop_last()).push((members.last().0@, value_view(members.last().1)))
    }
}

impl View for Json {
    type V = JsonView;

    open spec fn view(&self) -> JsonView {
        value_view(*self)
    }
}

/// The view of a list goes element by element.
pub proof fn lemma_items_view(items: Seq<Json>)
    ensures
        items_view(items).len() == items.len(),
        forall|k: int| 0 <= k < items.len() ==> (#[trigger] items_view(items)[k]) == items[k]@,
    decreases items.len(),
{
    if items.len() > 0 {
        lemma_items_view(items.drop_last());
    }
}

/// The view of an object goes member by member.
pub proof fn lemma_members_view(members: Seq<(String, Json)>)
    ensures
        members_view(members).len() == members.len(),
        forall|k: int|
            0 <= k < members.len() ==> (#[trigger] members_view(members)[k]) == (
                members[k].0@,
                members[k].1@,
            ),
    decreases members.len(),
{
    if members.len() > 0 {
        lemma_members_view(members.drop_last());
    }
}

/// The value of the first member of `members` that is named `key`.
pub open spec fn find_member(members: Seq<(Seq<char>, JsonView)>, key: Seq<char>) -> Option<
    JsonView,
>
    decreases members.len(),
{
    if members.len() == 0 {
        None
    } else if members[0].0 == key {
        Some(members[0].1)
    } else {
        find_member(members.drop_first(), key)
    }
}

impl JsonView {
    /// The member named `key` of an object; nothing of any other value.
    pub open spec fn member(self, key: Seq<char>) -> Option<JsonView> {
        match self {
            JsonView::Object(members) => find_member(members, key),
            _ => None,
        }
    }

    /// The elements of a list; nothing of any other value.
    pub open spec fn items(self) -> Option<Seq<JsonView>> {
        match self {
            JsonView::List(items) => Some(items),
            _ => None,
        }
    }

    /// The characters of a text; nothing of any other value.
    pub open spec fn text(self) -> Option<Seq<char>> {
        match self {
            JsonView::Text(text) => Some(text),
            _ => None,
        }
    }
}

impl Json {
    /// The member named `key`, where this is an object that has one.
    pub fn member(&self, key: &str) -> (found: Option<&Json>)
        ensures
            found matches Some(value) ==> self@.member(key@) == Some(value@),
            found is None ==> self@.member(key@) is None,
    {
        match self {
            Json::Object(members) => {
                let ghost all = self@->Object_0;
                let mut i: usize = 0;
                proof {
                    lemma_members_view(members@);
                }
                assert(all.skip(0) == all);
                while i < members.len()
                    invariant
                        i <= members.len(),
                        self@ == JsonView::Object(all),
                        all.len() == members@.len(),
                        forall|k: int|
                            0 <= k < all.len() ==> all[k] == (
                                (#[trigger] members@[k]).0@,
                                members@[k].1@,
                            ),
                        find_member(all, key@) == find_member(all.skip(i as int), key@),
                    decreases members.len() - i,
                {
                    let ghost rest = all.skip(i as int);
                    assert(rest[0] == all[i as int]);
                    assert(rest.drop_first() == all.skip(i + 1));
                    if crate::text::same_text(members[i].0.as_str(), key) {
                        return Some(&members[i].1);
                    }
                    i = i + 1;
                }
                None
            },
            _ => None,
        }
    }

    /// The elements, where this is a list.
    pub fn items(&self) -> (found: Option<&Vec<Json>>)
        ensures
            found matches Some(list) ==> self@.items() == Some(items_view(list@)),
            found is None ==> self@.items() is None,
    {
        match self {
            Json::List(list) => {
                Some(list)
            },
            _ => None,
        }
    }

    /// The characters, where this is a text.
    pub fn text(&self) -> (found: Option<&str>)
        ensures
            found matches Some(text) ==> self@.text() == Some(text@),
            found is None ==> self@.text() is None,
    {
        match self {
            Json::Text(text) => Some(text.as_str()),
            _ => None,
        }
    }
}

#[verifier::external_type_specification]
#[verifier::external_body]
pub struct ExValue(serde_json::Value);

/// What `serde_json::from_slice` reads out of `bytes` as a `serde_json::Value`:
/// the document, or nothing where the bytes are no JSON text.
pub uninterp spec fn json_document(bytes: Seq<u8>) -> Option<JsonView>;

/// The bytes that `serde_json::to_vec` writes for the object whose members
/// are `fields`, each value a text.
pub uninterp spec fn text_object_bytes(fields: Seq<(Seq<char>, Seq<char>)>) -> Seq<u8>;

/// The fields of a flat object as mathematics sees them.
pub open spec fn fields_view(fields: Seq<(String, String)>) -> Seq<(Seq<char>, Seq<char>)> {
    fields.map_values(|field: (String, String)| (field.0@, field.1@))
}

/// Moves a `serde_json::Value` into a `Json`, variant by variant. A number
/// becomes the text that `serde_json::Number` displays; an object's members
/// come in the order in which its `serde_json::Map` hands them out.
#[verifier::external_body]
fn lift(value: serde_json::Value) -> Json {
    match value {
        serde_json::Value::Null => Json::Null,
        serde_json::Value::Bool(flag) => Json::Bool(flag),
        serde_json::Value::Number(number) => Json::Number(number.to_string()),
        serde_json::Value::String(text) => Json::Text(text),
        serde_json::Value::Array(items) => Json::List(items.into_iter().map(lift).collect()),
        serde_json::Value::Object(map) => {
            Json::Object(map.into_iter().map(|(key, item)| (key, lift(item))).collect())
        },
    }
}

/// Calls `serde_json::from_slice` for a `serde_json::Value`. The contract
/// claims only that the outcome depends on the bytes alone: it is
/// `json_document` of them.
#[verifier::external_body]
pub(crate) fn parse_document(bytes: &[u8]) -> (document: Option<Json>)
    ensures
        document matches Some(value) ==> json_document(bytes@) == Some(value@),
        document is None ==> json_document(bytes@) is None,
{
    match serde_json::from_slice::<serde_json::Value>(bytes) {
        Ok(value) => Some(lift(value)),
        Err(_) => None,
    }
}

/// Calls `serde_json::to_vec` on the `serde_json::Value::Object` that holds
/// each field as a `serde_json::Value::String`. The contract claims only
/// that the bytes depend on the fields alone: they are `text_object_bytes`
/// of them.
#[verifier::external_body]
pub(crate) fn encode_text_object(fields: &Vec<(String, String)>) -> (bytes: Vec<u8>)
    ensures
        bytes@ == text_object_bytes(fields_view(fields@)),
{
    let mut map = serde_json::Map::new();
    for (key, value) in fields.iter() {
        map.insert(key.clone(), serde_json::Value::String(value.clone()));
    }
    serde_json::to_vec(&serde_json::Value::Object(map)).unwrap_or_default()
}

} // verus!
