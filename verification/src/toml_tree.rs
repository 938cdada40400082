//! The values that the `toml` crate reads from a text.
//!
//! Everything in this module is trusted: the contracts below describe what
//! `toml` does and are not proved.

use vstd::prelude::*;

verus! {

/// A value of `toml`. Verus sees nothing inside it.
#[verifier::external_type_specification]
#[verifier::external_body]
pub struct ExTomlValue(toml::Value);

/// What the rules read of a TOML value.
pub ghost enum TomlView {
    /// A string.
    Text(Seq<char>),
    /// An array, with its items in order.
    Array(Seq<TomlView>),
    /// A table, with its keys and their values in the order in which the
    /// table hands them out.
    Table(Seq<(Seq<char>, TomlView)>),
    /// Anything else: a number, a boolean, a date.
    Other,
}

/// What a TOML value holds.
pub uninterp spec fn toml_view(value: toml::Value) -> TomlView;

/// The value that `toml` reads from a text; none where it rejects the text.
pub uninterp spec fn parsed_toml(text: Seq<char>) -> Option<TomlView>;

/// The keys of the entries of a table.
pub open spec fn keys_of(entries: Seq<(Seq<char>, TomlView)>) -> Seq<Seq<char>> {
    Seq::new(entries.len(), |i: int| entries[i].0)
}

/// `toml::from_str`, for a `toml::Value`: the value that a text describes,
/// or the description that `toml` gives of what is wrong with the text. The
/// same text always gives the same outcome.
#[verifier::external_body]
pub(crate) fn parse_toml(text: &str) -> (parsed: Result<toml::Value, String>)
    ensures
        match parsed {
            Ok(value) => parsed_toml(text@) == Some(toml_view(value)),
            Err(_) => parsed_toml(text@) is None,
        },
{
    toml::from_str::<toml::Value>(text).map_err(|error| error.to_string())
}

/// `Value::as_table` and `Map::iter`: the entries of a table, each key once;
/// nothing for a value that is no table.
#[verifier::external_body]
pub(crate) fn table_entries<'a>(value: &'a toml::Value) -> (entries: Option<Vec<(String, &'a toml::Value)>>)
    ensures
        match toml_view(*value) {
            TomlView::Table(held) => {
                &&& entries is Some
                &&& entries->0@.len() == held.len()
                &&& forall|i: int|
                    0 <= i < held.len() ==> (#[trigger] entries->0@[i]).0@ == held[i].0 && toml_view(
                        *entries->0@[i].1,
                    ) == held[i].1
                &&& crate::toml_tree::keys_of(held).no_duplicates()
            },
            _ => entries is None,
        },
{
    value.as_table().map(|table| table.iter().map(|(key, held)| (key.clone(), held)).collect())
}

/// `Value::as_array`: the items of an array, in order; nothing for a value
/// that is no array.
#[verifier::external_body]
pub(crate) fn array_items<'a>(value: &'a toml::Value) -> (items: Option<Vec<&'a toml::Value>>)
    ensures
        match toml_view(*value) {
            TomlView::Array(held) => {
                &&& items is Some
                &&& items->0@.len() == held.len()
                &&& forall|i: int| 0 <= i < held.len() ==> toml_view(*(#[trigger] items->0@[i])) == held[i]
            },
            _ => items is None,
        },
{
    value.as_array().map(|items| items.iter().collect())
}

/// `Value::as_str`: the characters of a string; nothing for a value that is
/// no string.
#[verifier::external_body]
pub(crate) fn text_of(value: &toml::Value) -> (text: Option<String>)
    ensures
        match toml_view(*value) {
            TomlView::Text(held) => text is Some && text->0@ == held,
            _ => text is None,
        },
{
    value.as_str().map(|text| text.to_string())
}

} // verus!
