//! JSON as the backup format needs it: objects whose fields are strings, one
//! alone or a list of them. Writing and parsing are the serde_json crate's.

use serde_json::Value;
use vstd::prelude::*;

verus! {

/// The fields of an object to write: names and texts, in order.
pub type ObjectFields = Vec<(String, String)>;

/// The fields of an object that was read: names in the order of the text,
/// each with its text where the value is a string, and with `None` where it
/// is anything else.
pub type ParsedFields = Vec<(String, Option<String>)>;

/// The compact JSON text that serde_json writes for a list of objects with
/// string fields.
pub uninterp spec fn json_compact(objects: Seq<Seq<(Seq<char>, Seq<char>)>>) -> Seq<char>;

/// The pretty-printed JSON text that serde_json writes for one object with
/// string fields.
pub uninterp spec fn json_pretty(fields: Seq<(Seq<char>, Seq<char>)>) -> Seq<char>;

/// The list of objects that serde_json reads from a text, `None` where the
/// text is not a JSON array of objects.
pub uninterp spec fn json_objects(text: Seq<char>) -> Option<Seq<Seq<(Seq<char>, Option<Seq<char>>)>>>;

/// The object that serde_json reads from a text, `None` where the text is
/// not one JSON object.
pub uninterp spec fn json_object(text: Seq<char>) -> Option<Seq<(Seq<char>, Option<Seq<char>>)>>;

/// Calls `serde_json::to_string` on an array of objects built from the
/// fields given.
///
/// Trusted: the text is a function of the fields alone. Writing never fails:
/// the crate fails only for a value whose own writing fails or for a map
/// whose keys are no strings, and an array of objects of strings is neither.
/// What the crate writes it reads back: where no object names a field twice,
/// its parser reads the text as a list of as many objects, each with the
/// texts that were written under their names.
#[verifier::external_body]
pub(crate) fn write_objects(objects: &Vec<ObjectFields>) -> (text: Option<String>)
    ensures
        text.is_some(),
        text.unwrap()@ == json_compact(objects.deep_view()),
        all_names_distinct(objects.deep_view()) ==> json_objects(text.unwrap()@).is_some()
            && reads_all_as(json_objects(text.unwrap()@).unwrap(), objects.deep_view()),
{
    let array: Vec<Value> = objects.iter().map(
        |fields| {
            Value::Object(
                fields.iter().map(|(name, text)| (name.clone(), Value::String(text.clone()))).collect(),
            )
        },
    ).collect();
    serde_json::to_string(&array).ok()
}

/// Calls `serde_json::to_string_pretty` on an object built from the fields
/// given.
///
/// Trusted: the text is a function of the fields alone. Writing never fails,
/// for the reason given at [`write_objects`]. What the crate writes it reads
/// back: where no field is named twice, its parser reads the text as one
/// object with the texts that were written under their names.
#[verifier::external_body]
pub(crate) fn write_object(fields: &ObjectFields) -> (text: Option<String>)
    ensures
        text.is_some(),
        text.unwrap()@ == json_pretty(fields.deep_view()),
        names_distinct(fields.deep_view()) ==> json_object(text.unwrap()@).is_some() && reads_as(
            json_object(text.unwrap()@).unwrap(),
            fields.deep_view(),
        ),
{
    let object: serde_json::Map<String, Value> = fields.iter().map(
        |(name, text)| (name.clone(), Value::String(text.clone())),
    ).collect();
    serde_json::to_string_pretty(&Value::Object(object)).ok()
}

/// Calls `serde_json::from_str` for a list of objects, and `Value::as_str`
/// on every field's value.
///
/// Trusted: the outcome is a function of the text alone. The crate reads an
/// object into a map: of a field that the text gives twice, the map keeps
/// the value given last.
#[verifier::external_body]
pub(crate) fn parse_objects(text: &str) -> (objects: Option<Vec<ParsedFields>>)
    ensures
        objects.deep_view() == json_objects(text@),
{
    let array: Vec<serde_json::Map<String, Value>> = serde_json::from_str(text).ok()?;
    Some(
        array.iter().map(
            |object| {
                object.iter().map(
                    |(name, value)| (name.clone(), value.as_str().map(|s| s.to_owned())),
                ).collect()
            },
        ).collect(),
    )
}

/// Calls `serde_json::from_str` for one object, and `Value::as_str` on every
/// field's value.
///
/// Trusted: the outcome is a function of the text alone. Of a field that the
/// text gives twice, the value given last is kept.
#[verifier::external_body]
pub(crate) fn parse_object(text: &str) -> (fields: Option<ParsedFields>)
    ensures
        fields.deep_view() == json_object(text@),
{
    let object: serde_json::Map<String, Value> = serde_json::from_str(text).ok()?;
    Some(
        object.iter().map(|(name, value)| (name.clone(), value.as_str().map(|s| s.to_owned()))).collect(),
    )
}

/// Whether no two fields of an object to write have the same name.
pub open spec fn names_distinct(fields: Seq<(Seq<char>, Seq<char>)>) -> bool {
    forall|i: int, j: int|
        0 <= i < j < fields.len() ==> (#[trigger] fields[i]).0 != (#[trigger] fields[j]).0
}

/// Whether no object of a list names a field twice.
pub open spec fn all_names_distinct(objects: Seq<Seq<(Seq<char>, Seq<char>)>>) -> bool {
    forall|i: int| 0 <= i < objects.len() ==> names_distinct(#[trigger] objects[i])
}

/// The text written under `name`: that of the first field so named.
pub open spec fn written_text(fields: Seq<(Seq<char>, Seq<char>)>, name: Seq<char>) -> Option<
    Seq<char>,
>
    decreases fields.len(),
{
    if fields.len() == 0 {
        None
    } else if fields[0].0 == name {
        Some(fields[0].1)
    } else {
        written_text(fields.drop_first(), name)
    }
}

/// Whether an object that was read holds what was written: under every name
/// the text that was written under it, and none under a name that was not
/// written.
pub open spec fn reads_as(
    read: Seq<(Seq<char>, Option<Seq<char>>)>,
    written: Seq<(Seq<char>, Seq<char>)>,
) -> bool {
    forall|name: Seq<char>| #[trigger] field_text(read, name) == written_text(written, name)
}

/// Whether a list of objects that was read holds what was written: as many
/// objects, each holding what was written for it.
pub open spec fn reads_all_as(
    read: Seq<Seq<(Seq<char>, Option<Seq<char>>)>>,
    written: Seq<Seq<(Seq<char>, Seq<char>)>>,
) -> bool {
    &&& read.len() == written.len()
    &&& forall|i: int| 0 <= i < read.len() ==> reads_as(#[trigger] read[i], written[i])
}

/// Under the name of a field that is written, and of no field before it,
/// stands that field's text.
pub proof fn lemma_written_text_at(fields: Seq<(Seq<char>, Seq<char>)>, at: int)
    requires
        names_distinct(fields),
        0 <= at < fields.len(),
    ensures
        written_text(fields, fields[at].0) == Some(fields[at].1),
    decreases fields.len(),
{
    if at > 0 {
        let rest = fields.drop_first();
        assert forall|i: int, j: int| 0 <= i < j < rest.len() implies (#[trigger] rest[i]).0 != (
        #[trigger] rest[j]).0 by {
            assert(rest[i] == fields[i + 1]);
            assert(rest[j] == fields[j + 1]);
        }
        assert(rest[at - 1] == fields[at]);
        assert(fields[0].0 != fields[at].0);
        lemma_written_text_at(rest, at - 1);
    }
}

/// The text of the field `name`: that of the first field so named, `None`
/// where there is no such field or its value is not a string.
pub open spec fn field_text(fields: Seq<(Seq<char>, Option<Seq<char>>)>, name: Seq<char>) -> Option<
    Seq<char>,
>
    decreases fields.len(),
{
    if fields.len() == 0 {
        None
    } else if fields[0].0 == name {
        fields[0].1
    } else {
        field_text(fields.drop_first(), name)
    }
}

/// Reads the text of the field `name` of a parsed object.
pub fn get_field(fields: &ParsedFields, name: &str) -> (text: Option<String>)
    ensures
        text.deep_view() == field_text(fields.deep_view(), name@),
{
    let ghost all = fields.deep_view();
    let mut i: usize = 0;
    assert(all.skip(0) =~= all);
    while i < fields.len()
        invariant
            i <= fields.len(),
            all == fields.deep_view(),
            all.len() == fields.len(),
            field_text(all, name@) == field_text(all.skip(i as int), name@),
        decreases fields.len() - i,
    {
        proof {
            assert(all.skip(i as int).drop_first() =~= all.skip(i + 1));
            assert(all.skip(i as int)[0] == all[i as int]);
            assert(all[i as int] == fields@[i as int].deep_view());
        }
        if crate::codec::text_eq(fields[i].0.as_str(), name) {
            return match &fields[i].1 {
                Some(text) => Some(text.clone()),
                None => None,
            };
        }
        i = i + 1;
    }
    None
}

} // verus!
