//! Reading of TOML documents through the `toml` crate.
//!
//! A table is seen as the sequence of its entries in the order in which
//! `toml::Table::iter` walks them: each key with the text of its value when
//! that value is a string. The tables nested in a table are seen the same
//! way, by key.
use vstd::prelude::*;
use vstd::utf8::encode_utf8;
use crate::text::opt_view;

verus! {

/// The entries of a TOML table: each key, with its value's text when the value is a string.
pub type TomlEntries = Seq<(Seq<char>, Option<Seq<char>>)>;

/// The tables nested directly in a TOML table, by key.
pub type TomlSubtables = Map<Seq<char>, TomlEntries>;

/// The entries of a table, in the order in which `iter` walks them.
pub uninterp spec fn toml_table_entries(table: toml::Table) -> TomlEntries;

/// The entries of each table-valued entry of a table, by key.
pub uninterp spec fn toml_table_subtables(table: toml::Table) -> TomlSubtables;

/// What parsing a text as a `toml::Table` gives: its entries and subtables,
/// or `None` where the parser returns an error.
pub uninterp spec fn toml_document(text: Seq<char>) -> Option<(TomlEntries, TomlSubtables)>;

/// No key occurs twice.
pub open spec fn keys_distinct(e: TomlEntries) -> bool {
    forall|i: int, j: int| 0 <= i < j < e.len() ==> e[i].0 != e[j].0
}

/// `a` comes before `b` in the lexicographic order of byte strings (the
/// order of `str`): at the first place where they differ, `a`'s byte is the
/// smaller, or `a` is a proper prefix of `b`.
pub open spec fn bytes_lt(a: Seq<u8>, b: Seq<u8>) -> bool {
    exists|k: int|
        0 <= k <= a.len() && k <= b.len() && a.subrange(0, k) == b.subrange(0, k) && ((k == a.len()
            && k < b.len()) || (k < a.len() && k < b.len() && a[k] < b[k]))
}

/// The keys come in increasing order of their UTF-8 bytes.
pub open spec fn keys_sorted(e: TomlEntries) -> bool {
    forall|i: int, j: int|
        0 <= i < j < e.len() ==> bytes_lt(encode_utf8(#[trigger] e[i].0), encode_utf8(#[trigger] e[j].0))
}

/// Some entry has the key.
pub open spec fn has_key(e: TomlEntries, key: Seq<char>) -> bool {
    exists|i: int| 0 <= i < e.len() && e[i].0 == key
}

/// The text of the value under the key, if there is such an entry and its value is a string.
pub open spec fn str_value(e: TomlEntries, key: Seq<char>) -> Option<Seq<char>> {
    if has_key(e, key) {
        e[choose|i: int| 0 <= i < e.len() && e[i].0 == key].1
    } else {
        None
    }
}

/// The entries of the table nested under the key, if its value is a table.
pub open spec fn subtable(s: TomlSubtables, key: Seq<char>) -> Option<TomlEntries> {
    if s.contains_key(key) {
        Some(s[key])
    } else {
        None
    }
}

/// The `toml::map::Map` type, of which `toml::Table` is an instance.
#[verifier::external_type_specification]
#[verifier::external_body]
#[verifier::reject_recursive_types(K)]
#[verifier::reject_recursive_types(V)]
pub struct ExTomlMap<K, V>(toml::map::Map<K, V>);

/// The `toml::Value` type.
#[verifier::external_type_specification]
#[verifier::external_body]
pub struct ExTomlValue(toml::Value);

/// The `toml::de::Error` type.
#[verifier::external_type_specification]
#[verifier::external_body]
pub struct ExTomlDeError(toml::de::Error);

/// Calls `str::parse::<toml::Table>` (the `FromStr` impl of `toml::Table`).
/// Claimed: it succeeds exactly where `toml_document` is `Some`, the table it
/// gives has those entries and subtables, its keys are distinct and walked in
/// increasing order (the table is a `BTreeMap`, as no `preserve_order`
/// feature is enabled), and each subtable is the value of one of its
/// entries, with its keys in the same order.
#[verifier::external_body]
pub(crate) fn parse_toml_table(text: &str) -> (r: Result<toml::Table, toml::de::Error>)
    ensures
        r is Ok <==> toml_document(text@) is Some,
        r matches Ok(t) ==> toml_document(text@) == Some(
            (toml_table_entries(t), toml_table_subtables(t)),
        ),
        r matches Ok(t) ==> keys_distinct(toml_table_entries(t)),
        r matches Ok(t) ==> keys_sorted(toml_table_entries(t)),
        r matches Ok(t) ==> forall|k: Seq<char>|
            #[trigger] toml_table_subtables(t).contains_key(k) ==> has_key(toml_table_entries(t), k)
                && str_value(toml_table_entries(t), k) is None && keys_sorted(
                toml_table_subtables(t)[k],
            ),
{
    text.parse::<toml::Table>()
}

/// Calls `toml::Table::contains_key`. Claimed: true exactly when an entry has the key.
#[verifier::external_body]
pub(crate) fn toml_contains_key(table: &toml::Table, key: &str) -> (r: bool)
    ensures
        r == has_key(toml_table_entries(*table), key@),
{
    table.contains_key(key)
}

/// A value of a TOML table, as the library reads it.
pub(crate) enum TomlItem<'a> {
    /// The table has no such key.
    Missing,
    /// A string.
    Text(String),
    /// A nested table.
    Table(&'a toml::Table),
    /// Any other value.
    Other,
}

/// Calls `toml::Table::get` and tells a string and a table apart from other
/// values. Claimed: the result agrees with the table's entries and subtables
/// under the key, and a nested table's keys are distinct and walked in
/// increasing order.
#[verifier::external_body]
pub(crate) fn toml_get<'a>(table: &'a toml::Table, key: &str) -> (r: TomlItem<'a>)
    ensures
        match r {
            TomlItem::Missing => !has_key(toml_table_entries(*table), key@)
                && !toml_table_subtables(*table).contains_key(key@),
            TomlItem::Text(s) => has_key(toml_table_entries(*table), key@) && str_value(
                toml_table_entries(*table),
                key@,
            ) == Some(s@) && !toml_table_subtables(*table).contains_key(key@),
            TomlItem::Table(t) => has_key(toml_table_entries(*table), key@) && str_value(
                toml_table_entries(*table),
                key@,
            ) is None && toml_table_subtables(*table).contains_key(key@) && toml_table_entries(*t)
                == toml_table_subtables(*table)[key@] && keys_distinct(toml_table_entries(*t))
                && keys_sorted(toml_table_entries(*t)),
            TomlItem::Other => has_key(toml_table_entries(*table), key@) && str_value(
                toml_table_entries(*table),
                key@,
            ) is None && !toml_table_subtables(*table).contains_key(key@),
        },
{
    match table.get(key) {
        None => TomlItem::Missing,
        Some(toml::Value::String(s)) => TomlItem::Text(s.clone()),
        Some(toml::Value::Table(t)) => TomlItem::Table(t),
        Some(_) => TomlItem::Other,
    }
}

/// The text of the value under the key, when it is a string.
pub(crate) fn toml_get_str(table: &toml::Table, key: &str) -> (r: Option<String>)
    ensures
        opt_view(r) == str_value(toml_table_entries(*table), key@),
{
    match toml_get(table, key) {
        TomlItem::Text(s) => Some(s),
        _ => None,
    }
}

/// The table nested under the key, when the value is a table.
pub(crate) fn toml_get_table<'a>(table: &'a toml::Table, key: &str) -> (r: Option<&'a toml::Table>)
    ensures
        r is Some <==> toml_table_subtables(*table).contains_key(key@),
        r matches Some(t) ==> toml_table_entries(*t) == toml_table_subtables(*table)[key@],
        r matches Some(t) ==> keys_distinct(toml_table_entries(*t)),
{
    match toml_get(table, key) {
        TomlItem::Table(t) => Some(t),
        _ => None,
    }
}

/// Calls `toml::Table::iter` and hands out each entry as its key and, when
/// the value is a string, its text. Claimed: these are the table's entries
/// in order.
#[verifier::external_body]
pub(crate) fn toml_str_entries(table: &toml::Table) -> (r: Vec<(String, Option<String>)>)
    ensures
        r@.len() == toml_table_entries(*table).len(),
        forall|i: int|
            0 <= i < r@.len() ==> (#[trigger] r@[i]).0@ == toml_table_entries(*table)[i].0
                && opt_view(r@[i].1) == toml_table_entries(*table)[i].1,
{
    table.iter().map(|(k, v)| (k.clone(), match v {
        toml::Value::String(s) => Some(s.clone()),
        _ => None,
    })).collect()
}

} // verus!
