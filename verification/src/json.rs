//! JSON documents as trees of plain values, and the reading of the fields
//! of a record out of such a tree. The grammar is that of the `serde_json`
//! crate; what a record must hold is decided here.

use vstd::prelude::*;
use crate::text::{same_text, texts};

verus! {

/// A JSON value.
#[derive(Debug, PartialEq, Eq)]
pub enum Json {
    Null,
    Bool(bool),
    /// A number, in the notation in which it is written out.
    Number(String),
    Text(String),
    Array(Vec<Json>),
    /// The members of an object with their names.
    Object(Vec<(String, Json)>),
}

/// An error of the JSON reader.
#[verifier::external_type_specification]
#[verifier::external_body]
pub struct ExJsonError(serde_json::Error);

/// A value of the JSON reader.
#[verifier::external_type_specification]
#[verifier::external_body]
pub struct ExJsonValue(serde_json::Value);

/// The value that a text holds, or `None` where the text is no JSON.
pub uninterp spec fn json_value(text: Seq<char>) -> Option<serde_json::Value>;

/// The tree of a value of the JSON reader.
pub uninterp spec fn json_tree(value: serde_json::Value) -> Json;

/// Reads a JSON text.
///
/// Trusted: what `serde_json::from_str` yields for a text depends on the
/// text alone.
#[verifier::external_body]
fn parse_value(text: &str) -> (res: Result<serde_json::Value, serde_json::Error>)
    ensures
        res is Ok <==> json_value(text@) is Some,
        res matches Ok(value) ==> json_value(text@) == Some(value),
{
    serde_json::from_str::<serde_json::Value>(text)
}

/// Hands a value of the JSON reader over as a tree, variant by variant: a
/// number in its written notation, the items of an array and the members
/// of an object in the order in which the reader holds them.
///
/// Trusted: the tree depends on the value alone.
#[verifier::external_body]
fn tree_of_value(value: serde_json::Value) -> (tree: Json)
    ensures
        tree == json_tree(value),
{
    match value {
        serde_json::Value::Null => Json::Null,
        serde_json::Value::Bool(b) => Json::Bool(b),
        serde_json::Value::Number(n) => Json::Number(n.to_string()),
        serde_json::Value::String(s) => Json::Text(s),
        serde_json::Value::Array(items) => Json::Array(
            items.into_iter().map(tree_of_value).collect(),
        ),
        serde_json::Value::Object(members) => Json::Object(
            members.into_iter().map(|(name, member)| (name, tree_of_value(member))).collect(),
        ),
    }
}

/// Describes an error of the JSON reader.
///
/// Nothing is claimed of the text: it is whatever the `Debug` rendering
/// of the error gives.
#[verifier::external_body]
fn json_error_text(e: &serde_json::Error) -> (text: String) {
    format!("{:?}", e)
}

/// The document that a text holds, or `None` where the text is no JSON.
pub open spec fn json_document(text: Seq<char>) -> Option<Json> {
    match json_value(text) {
        Some(value) => Some(json_tree(value)),
        None => None,
    }
}

/// The member `name` among the members of an object at or behind `from`:
/// the first of that name.
pub open spec fn member_of(members: Seq<(String, Json)>, name: Seq<char>, from: int) -> Option<Json>
    decreases members.len() - from,
{
    if from < 0 || from >= members.len() {
        None
    } else if members[from].0@ == name {
        Some(members[from].1)
    } else {
        member_of(members, name, from + 1)
    }
}

/// The texts of a list of values, where all of them are texts.
pub open spec fn all_texts(items: Seq<Json>) -> Option<Seq<Seq<char>>>
    decreases items.len(),
{
    if items.len() == 0 {
        Some(Seq::empty())
    } else {
        match (all_texts(items.drop_last()), items.last()) {
            (Some(earlier), Json::Text(s)) => Some(earlier.push(s@)),
            _ => None,
        }
    }
}

impl Json {
    /// Reads a document. Where the text is no JSON, what the reader says
    /// of it is handed back.
    pub fn parse(text: &str) -> (res: Result<Json, String>)
        ensures
            match res {
                Ok(tree) => json_document(text@) == Some(tree),
                Err(_) => json_document(text@) is None,
            },
    {
        match parse_value(text) {
            Ok(value) => Ok(tree_of_value(value)),
            Err(e) => Err(json_error_text(&e)),
        }
    }

    /// The member `name` of an object; `None` for every other value and
    /// for an object without that member.
    pub open spec fn member(self, name: Seq<char>) -> Option<Json> {
        match self {
            Json::Object(members) => member_of(members@, name, 0),
            _ => None,
        }
    }

    /// The text of a text value.
    pub open spec fn as_text(self) -> Option<Seq<char>> {
        match self {
            Json::Text(s) => Some(s@),
            _ => None,
        }
    }

    /// The texts of an array of texts.
    pub open spec fn as_texts(self) -> Option<Seq<Seq<char>>> {
        match self {
            Json::Array(items) => all_texts(items@),
            _ => None,
        }
    }

    /// Looks up the member `name` of an object.
    pub fn get(&self, name: &str) -> (res: Option<&Json>)
        ensures
            match res {
                Some(found) => self.member(name@) == Some(*found),
                None => self.member(name@) is None,
            },
    {
        match self {
            Json::Object(members) => {
                let mut i: usize = 0;
                while i < members.len()
                    invariant
                        i <= members@.len(),
                        self.member(name@) == member_of(members@, name@, 0),
                        member_of(members@, name@, i as int) == member_of(members@, name@, 0),
                    decreases members@.len() - i,
                {
                    if same_text(members[i].0.as_str(), name) {
                        proof {
                            assert(member_of(members@, name@, i as int) == Some(
                                members@[i as int].1,
                            ));
                        }
                        return Some(&members[i].1);
                    }
                    i = i + 1;
                }
                None
            },
            _ => None,
        }
    }

    /// The texts of an array of texts, or `None` for every other value.
    pub fn text_list(&self) -> (res: Option<Vec<String>>)
        ensures
            match res {
                Some(list) => self.as_texts() == Some(texts(list@)),
                None => self.as_texts() is None,
            },
    {
        match self {
            Json::Array(items) => {
                let mut list: Vec<String> = Vec::new();
                let mut i: usize = 0;
                proof {
                    assert(items@.take(0) =~= Seq::<Json>::empty());
                    assert(texts(list@) =~= Seq::<Seq<char>>::empty());
                }
                while i < items.len()
                    invariant
                        i <= items@.len(),
                        self.as_texts() == all_texts(items@),
                        all_texts(items@.take(i as int)) == Some(texts(list@)),
                    decreases items@.len() - i,
                {
                    proof {
                        assert(items@.take(i + 1).drop_last() =~= items@.take(i as int));
                    }
                    match &items[i] {
                        Json::Text(s) => {
                            let ghost before = list@;
                            list.push(s.clone());
                            proof {
                                assert(texts(list@) =~= texts(before).push(s@));
                            }
                        },
                        _ => {
                            proof {
                                lemma_all_texts_fails(items@, i + 1);
                            }
                            return None;
                        },
                    }
                    i = i + 1;
                }
                proof {
                    assert(items@.take(items@.len() as int) =~= items@);
                }
                Some(list)
            },
            _ => None,
        }
    }
}

proof fn lemma_all_texts_fails(items: Seq<Json>, upto: int)
    requires
        0 <= upto <= items.len(),
        all_texts(items.take(upto)) is None,
    ensures
        all_texts(items) is None,
    decreases items.len() - upto,
{
    if upto < items.len() {
        assert(items.take(upto + 1).drop_last() =~= items.take(upto));
        lemma_all_texts_fails(items, upto + 1);
    } else {
        assert(items.take(upto) =~= items);
    }
}

// ---------------------------------------------------------------------------
// The fields of a record
// ---------------------------------------------------------------------------

/// The text of the field `name` of a record. A field that is there has to
/// be a text. A field that is absent is the empty text where it is not
/// required, and no text where it is.
pub open spec fn field_text(record: Json, name: Seq<char>, required: bool) -> Option<Seq<char>> {
    match record.member(name) {
        Some(value) => value.as_text(),
        None => if required {
            None
        } else {
            Some(Seq::empty())
        },
    }
}

/// The texts of the list field `name` of a record. A field that is there
/// has to be an array of texts; one that is absent is the empty list.
pub open spec fn field_list(record: Json, name: Seq<char>) -> Option<Seq<Seq<char>>> {
    match record.member(name) {
        Some(value) => value.as_texts(),
        None => Some(Seq::empty()),
    }
}

/// The names of the text fields of a record, each with whether it is
/// required.
pub open spec fn field_specs(list: Seq<(&'static str, bool)>) -> Seq<(Seq<char>, bool)> {
    list.map_values(|field: (&'static str, bool)| (field.0@, field.1))
}

/// The texts of the given fields of a record, in their order, or the name
/// of the first field that the record does not hold as it should.
pub open spec fn texts_from(record: Json, fields: Seq<(Seq<char>, bool)>) -> Result<
    Seq<Seq<char>>,
    Seq<char>,
>
    decreases fields.len(),
{
    if fields.len() == 0 {
        Ok(Seq::empty())
    } else {
        match texts_from(record, fields.drop_last()) {
            Err(name) => Err(name),
            Ok(values) => match field_text(record, fields.last().0, fields.last().1) {
                Some(value) => Ok(values.push(value)),
                None => Err(fields.last().0),
            },
        }
    }
}

proof fn lemma_texts_from_fails(record: Json, fields: Seq<(Seq<char>, bool)>, upto: int)
    requires
        0 <= upto <= fields.len(),
        texts_from(record, fields.take(upto)) is Err,
    ensures
        texts_from(record, fields) == texts_from(record, fields.take(upto)),
    decreases fields.len() - upto,
{
    if upto < fields.len() {
        assert(fields.take(upto + 1).drop_last() =~= fields.take(upto));
        lemma_texts_from_fails(record, fields, upto + 1);
    } else {
        assert(fields.take(upto) =~= fields);
    }
}

/// Reads the text of a field of a record.
pub fn read_text(record: &Json, name: &str, required: bool) -> (res: Option<String>)
    ensures
        match res {
            Some(text) => field_text(*record, name@, required) == Some(text@),
            None => field_text(*record, name@, required) is None,
        },
{
    match record.get(name) {
        Some(value) => match value {
            Json::Text(s) => Some(s.clone()),
            _ => None,
        },
        None => if required {
            None
        } else {
            Some(String::new())
        },
    }
}

/// Reads the texts of a list field of a record.
pub fn read_list(record: &Json, name: &str) -> (res: Option<Vec<String>>)
    ensures
        match res {
            Some(list) => field_list(*record, name@) == Some(texts(list@)),
            None => field_list(*record, name@) is None,
        },
{
    match record.get(name) {
        Some(value) => value.text_list(),
        None => {
            let list: Vec<String> = Vec::new();
            proof {
                assert(texts(list@) =~= Seq::<Seq<char>>::empty());
            }
            Some(list)
        },
    }
}

/// Reads the texts of the given fields of a record.
pub fn read_texts(record: &Json, fields: &Vec<(&'static str, bool)>) -> (res: Result<
    Vec<String>,
    String,
>)
    ensures
        match res {
            Ok(values) => texts_from(*record, field_specs(fields@)) == Ok::<
                Seq<Seq<char>>,
                Seq<char>,
            >(texts(values@)) && values@.len() == fields@.len(),
            Err(name) => texts_from(*record, field_specs(fields@)) == Err::<
                Seq<Seq<char>>,
                Seq<char>,
            >(name@),
        },
{
    let mut values: Vec<String> = Vec::new();
    let mut i: usize = 0;
    proof {
        assert(field_specs(fields@).take(0) =~= Seq::<(Seq<char>, bool)>::empty());
        assert(texts(values@) =~= Seq::<Seq<char>>::empty());
    }
    while i < fields.len()
        invariant
            i <= fields@.len(),
            values@.len() == i,
            texts_from(*record, field_specs(fields@).take(i as int)) == Ok::<
                Seq<Seq<char>>,
                Seq<char>,
            >(texts(values@)),
        decreases fields@.len() - i,
    {
        proof {
            assert(field_specs(fields@).take(i + 1).drop_last() =~= field_specs(fields@).take(
                i as int,
            ));
            assert(field_specs(fields@).take(i + 1).last() == (
                fields@[i as int].0@,
                fields@[i as int].1,
            ));
        }
        match read_text(record, fields[i].0, fields[i].1) {
            Some(text) => {
                let ghost before = values@;
                values.push(text);
                proof {
                    assert(texts(values@) =~= texts(before).push(text@));
                }
            },
            None => {
                proof {
                    lemma_texts_from_fails(*record, field_specs(fields@), i + 1);
                }
                return Err(fields[i].0.to_owned());
            },
        }
        i = i + 1;
    }
    proof {
        assert(field_specs(fields@).take(fields@.len() as int) =~= field_specs(fields@));
    }
    Ok(values)
}

} // verus!
