//! JSON objects as the authorization logic reads them: for each member, its
//! name, its value written as JSON, and the value's strings.

use vstd::prelude::*;
use crate::text::str_equal;

verus! {

#[verifier::external_type_specification]
#[verifier::external_body]
pub struct ExJsonError(serde_json::Error);

/// One member of a JSON object.
#[derive(Debug, Clone)]
pub struct JsonField {
    /// The member's key.
    pub name: String,
    /// The member's value written as compact JSON.
    pub text: String,
    /// The value, when it is a JSON string.
    pub string: Option<String>,
    /// When the value is an array: each of its items, as text when the item
    /// is a JSON string.
    pub items: Option<Vec<Option<String>>>,
    /// When the value is an array: each of its items written as compact JSON.
    pub item_texts: Option<Vec<String>>,
}

/// The mathematical value of a [`JsonField`].
pub struct JsonFieldView {
    pub name: Seq<char>,
    pub text: Seq<char>,
    pub string: Option<Seq<char>>,
    pub items: Option<Seq<Option<Seq<char>>>>,
    pub item_texts: Option<Seq<Seq<char>>>,
}

impl View for JsonField {
    type V = JsonFieldView;

    open spec fn view(&self) -> JsonFieldView {
        JsonFieldView {
            name: self.name@,
            text: self.text@,
            string: self.string.deep_view(),
            items: match self.items {
                Some(v) => Some(v.deep_view()),
                None => None,
            },
            item_texts: match self.item_texts {
                Some(v) => Some(v.deep_view()),
                None => None,
            },
        }
    }
}

/// A JSON object, member by member; any other JSON value reads as an object
/// without members.
#[derive(Debug, Clone)]
pub struct JsonObject {
    pub fields: Vec<JsonField>,
}

impl View for JsonObject {
    type V = Seq<JsonFieldView>;

    open spec fn view(&self) -> Seq<JsonFieldView> {
        self.fields@.map_values(|f: JsonField| f@)
    }
}

/// The first member of `fields` named `name`, as `serde_json::Value::get` finds it.
pub open spec fn member(fields: Seq<JsonFieldView>, name: Seq<char>) -> Option<JsonFieldView>
    decreases fields.len(),
{
    if fields.len() == 0 {
        None
    } else if fields[0].name == name {
        Some(fields[0])
    } else {
        member(fields.drop_first(), name)
    }
}

/// No two members share a name.
pub open spec fn names_distinct(fields: Seq<JsonFieldView>) -> bool {
    forall|i: int, j: int|
        0 <= i < fields.len() && 0 <= j < fields.len() && i != j ==> #[trigger] fields[i].name != #[trigger] fields[j].name
}

/// Every item text of every array member is JSON again.
pub open spec fn items_reparse(fields: Seq<JsonFieldView>) -> bool {
    forall|i: int, j: int|
        0 <= i < fields.len() && fields[i].item_texts is Some && 0 <= j < fields[i].item_texts->Some_0.len()
            ==> parsed_json_object(#[trigger] fields[i].item_texts->Some_0[j]) is Some
}

/// The member `member` finds is one of the members.
pub proof fn lemma_member_is_a_member(fields: Seq<JsonFieldView>, name: Seq<char>)
    ensures
        member(fields, name) matches Some(f) ==> exists|i: int| 0 <= i < fields.len() && fields[i] == f,
    decreases fields.len(),
{
    if fields.len() > 0 && fields[0].name != name {
        lemma_member_is_a_member(fields.drop_first(), name);
        if let Some(f) = member(fields, name) {
            let i = choose|i: int| 0 <= i < fields.drop_first().len() && fields.drop_first()[i] == f;
            assert(fields[i + 1] == f);
        }
    } else if fields.len() > 0 {
        assert(fields[0] == member(fields, name)->Some_0);
    }
}

/// The string held by member `name`, when there is one and it is a JSON string.
pub open spec fn member_string(fields: Seq<JsonFieldView>, name: Seq<char>) -> Option<Seq<char>> {
    match member(fields, name) {
        Some(f) => f.string,
        None => None,
    }
}

impl JsonObject {
    /// The first member named `name`.
    pub fn get(&self, name: &str) -> (r: Option<&JsonField>)
        ensures
            match r {
                Some(f) => member(self@, name@) == Some(f@),
                None => member(self@, name@) is None,
            },
    {
        let n = self.fields.len();
        let mut i: usize = 0;
        assert(self@.skip(0) =~= self@);
        while i < n
            invariant
                n == self@.len(),
                n == self.fields@.len(),
                i <= n,
                member(self@, name@) == member(self@.skip(i as int), name@),
            decreases n - i,
        {
            let f = &self.fields[i];
            assert(self@.skip(i as int)[0] == f@);
            assert(self@.skip(i as int).drop_first() =~= self@.skip(i + 1));
            if str_equal(f.name.as_str(), name) {
                return Some(f);
            }
            i = i + 1;
        }
        assert(self@.skip(n as int).len() == 0);
        None
    }

    /// The string held by member `name`, when it is a JSON string.
    pub fn get_str(&self, name: &str) -> (r: Option<&String>)
        ensures
            match r {
                Some(s) => member_string(self@, name@) == Some(s@),
                None => member_string(self@, name@) is None,
            },
    {
        match self.get(name) {
            Some(f) => match &f.string {
                Some(s) => Some(s),
                None => None,
            },
            None => None,
        }
    }
}

/// What `serde_json` reads from `text`: `None` when `text` is not JSON, else
/// the members of the value, member by member, when it is an object, and
/// `Some(None)` when it is another value.
pub uninterp spec fn parsed_json(text: Seq<char>) -> Option<Option<Seq<JsonFieldView>>>;

/// The members of the JSON value `text` holds, none when it is not an
/// object; `None` when `text` is not JSON.
pub open spec fn parsed_json_object(text: Seq<char>) -> Option<Seq<JsonFieldView>> {
    match parsed_json(text) {
        None => None,
        Some(None) => Some(seq![]),
        Some(Some(fields)) => Some(fields),
    }
}

/// Parses `text` with `serde_json::from_str::<serde_json::Value>` and, when
/// the value is an object, lists its members, each with its key, its value
/// serialised by `Value::to_string`, its `as_str`, and the `as_str` and the
/// `to_string` of each item of its `as_array`. The contract claims that the
/// outcome is a function of `text` alone, named `parsed_json`; that no two
/// members share a name, as the keys of a `serde_json::Map` do not; and that
/// each item text, being what `Value::to_string` writes, parses again.
#[verifier::external_body]
pub(crate) fn parse_json(text: &str) -> (r: Result<Option<JsonObject>, serde_json::Error>)
    ensures
        r is Ok <==> parsed_json(text@) is Some,
        r matches Ok(None) ==> parsed_json(text@) == Some(None::<Seq<JsonFieldView>>),
        r matches Ok(Some(o)) ==> parsed_json(text@) == Some(Some(o@)),
        r matches Ok(Some(o)) ==> names_distinct(o@),
        r matches Ok(Some(o)) ==> items_reparse(o@),
{
    let value: serde_json::Value = serde_json::from_str(text)?;
    Ok(value.as_object().map(|members| JsonObject { fields: members.iter().map(|(k, v)| JsonField {
        name: k.clone(),
        text: v.to_string(),
        string: v.as_str().map(|s| s.to_string()),
        items: v.as_array().map(|a| a.iter().map(|i| i.as_str().map(|s| s.to_string())).collect()),
        item_texts: v.as_array().map(|a| a.iter().map(|i| i.to_string()).collect()),
    }).collect() }))
}

impl JsonObject {
    /// Reads `text` as JSON: the members of the value when it is an object,
    /// none when it is another value; `None` when `text` is not JSON.
    pub fn parse(text: &str) -> (r: Option<JsonObject>)
        ensures
            match r {
                Some(o) => parsed_json_object(text@) == Some(o@),
                None => parsed_json_object(text@) is None,
            },
            r matches Some(o) ==> names_distinct(o@),
            r matches Some(o) ==> items_reparse(o@),
    {
        match parse_json(text) {
            Ok(Some(o)) => Some(o),
            Ok(None) => {
                let o = JsonObject { fields: Vec::new() };
                assert(o@ =~= Seq::<JsonFieldView>::empty());
                Some(o)
            },
            Err(_) => None,
        }
    }
}

} // verus!
