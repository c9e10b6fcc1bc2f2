//! TOML documents as the `toml` crate reads, holds and writes them.
//!
//! A document is a `toml::Table`; what it holds is modelled by [`Node`].
//! Everything in this file but the model is trusted: each function makes
//! one call into the `toml` crate, and its contract says what that call
//! does to the model.

use vstd::prelude::*;

verus! {

#[verifier::external_type_specification]
#[verifier::external_body]
pub struct ExValue(toml::Value);

#[verifier::external_type_specification]
#[verifier::external_body]
#[verifier::reject_recursive_types(K)]
#[verifier::reject_recursive_types(V)]
pub struct ExMap<K, V>(toml::map::Map<K, V>);

#[verifier::external_type_specification]
#[verifier::external_body]
pub struct ExReadError(toml::de::Error);

#[verifier::external_type_specification]
#[verifier::external_body]
pub struct ExWriteError(toml::ser::Error);

/// What a TOML value holds, as far as this crate looks into it: a text, an
/// integer or a table. A value of any other kind (a float, a boolean, a
/// date, an array) is kept whole.
pub enum Node {
    Text(Seq<char>),
    Integer(i64),
    Table(Map<Seq<char>, Node>),
    Other(toml::Value),
}

/// What `value` holds.
pub uninterp spec fn value_model(value: toml::Value) -> Node;

/// What `table` holds: its keys, each with what its value holds.
pub uninterp spec fn table_model(table: toml::Table) -> Map<Seq<char>, Node>;

/// The document that `text` is read as by `toml::from_str`, where it is
/// one.
pub uninterp spec fn parsed_document(text: Seq<char>) -> Option<Map<Seq<char>, Node>>;

/// The text that `toml::to_string` writes for `document`, where it writes
/// one.
pub uninterp spec fn rendered_document(document: Map<Seq<char>, Node>) -> Option<Seq<char>>;

/// Calls `toml::from_str` for a `toml::Table`. It parses `text` as a TOML
/// document and either returns the table of its top-level keys or an error;
/// the outcome depends on `text` alone.
#[verifier::external_body]
pub(crate) fn parse_document(text: &str) -> (outcome: Result<toml::Table, toml::de::Error>)
    ensures
        match outcome {
            Ok(table) => parsed_document(text@) == Some(table_model(table)),
            Err(_) => parsed_document(text@) is None,
        },
{
    toml::from_str::<toml::Table>(text)
}

/// Calls `toml::to_string` on a table. It walks the table's entries in the
/// order of their keys, so what it returns depends on what the table holds
/// and on nothing else.
#[verifier::external_body]
pub(crate) fn render_document(table: &toml::Table) -> (outcome: Result<String, toml::ser::Error>)
    ensures
        match outcome {
            Ok(text) => rendered_document(table_model(*table)) == Some(text@),
            Err(_) => rendered_document(table_model(*table)) is None,
        },
{
    toml::to_string(table)
}

/// The document without entries.
pub open spec fn empty_document() -> Map<Seq<char>, Node> {
    Map::empty()
}

/// Calls `Map::new`: a table without entries.
#[verifier::external_body]
pub(crate) fn new_table() -> (table: toml::Table)
    ensures
        table_model(table) == empty_document(),
{
    toml::Table::new()
}

/// Calls `Map::insert`: afterwards `key` stands for `value`, whether or not
/// it stood for something before, and every other key for what it stood for.
#[verifier::external_body]
pub(crate) fn table_insert(table: &mut toml::Table, key: String, value: toml::Value)
    ensures
        table_model(*final(table)) == table_model(*old(table)).insert(key@, value_model(value)),
{
    table.insert(key, value);
}

/// Calls `Map::get`: the value that `key` stands for, if it stands for one.
#[verifier::external_body]
pub(crate) fn table_get<'a>(table: &'a toml::Table, key: &str) -> (found: Option<&'a toml::Value>)
    ensures
        match found {
            Some(value) => table_model(*table).contains_key(key@) && table_model(*table)[key@]
                == value_model(*value),
            None => !table_model(*table).contains_key(key@),
        },
{
    table.get(key)
}

/// Calls `Map::keys` and copies what it hands out: every key of the table,
/// each once.
#[verifier::external_body]
pub(crate) fn table_keys(table: &toml::Table) -> (keys: Vec<String>)
    ensures
        forall|i: int| 0 <= i < keys.len() ==> table_model(*table).contains_key(#[trigger] keys[i]@),
        forall|key: Seq<char>| #[trigger]
            table_model(*table).contains_key(key) ==> exists|i: int|
                0 <= i < keys.len() && #[trigger] keys[i]@ == key,
        forall|i: int, j: int| 0 <= i < j < keys.len() ==> #[trigger] keys[i]@ != #[trigger] keys[j]@,
{
    table.keys().cloned().collect()
}

/// Builds `Value::String`.
#[verifier::external_body]
pub(crate) fn text_value(text: String) -> (value: toml::Value)
    ensures
        value_model(value) == Node::Text(text@),
{
    toml::Value::String(text)
}

/// Builds `Value::Integer`.
#[verifier::external_body]
pub(crate) fn integer_value(number: i64) -> (value: toml::Value)
    ensures
        value_model(value) == Node::Integer(number),
{
    toml::Value::Integer(number)
}

/// Builds `Value::Table`.
#[verifier::external_body]
pub(crate) fn table_value(table: toml::Table) -> (value: toml::Value)
    ensures
        value_model(value) == Node::Table(table_model(table)),
{
    toml::Value::Table(table)
}

/// Calls `Value::as_str`: the text of a string value, nothing for a value of
/// another kind.
#[verifier::external_body]
pub(crate) fn as_text(value: &toml::Value) -> (text: Option<&str>)
    ensures
        match text {
            Some(t) => value_model(*value) == Node::Text(t@),
            None => !(value_model(*value) is Text),
        },
{
    value.as_str()
}

/// Calls `Value::as_integer`: the number of an integer value, nothing for a
/// value of another kind.
#[verifier::external_body]
pub(crate) fn as_integer(value: &toml::Value) -> (number: Option<i64>)
    ensures
        match number {
            Some(n) => value_model(*value) == Node::Integer(n),
            None => !(value_model(*value) is Integer),
        },
{
    value.as_integer()
}

/// Calls `Value::as_table`: the table of a table value, nothing for a value
/// of another kind.
#[verifier::external_body]
pub(crate) fn as_table(value: &toml::Value) -> (table: Option<&toml::Table>)
    ensures
        match table {
            Some(t) => value_model(*value) == Node::Table(table_model(*t)),
            None => !(value_model(*value) is Table),
        },
{
    value.as_table()
}

} // verus!
