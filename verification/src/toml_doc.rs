//! The parts of a TOML document that the jjui merge reads and writes, and
//! the calls into the `toml` crate that read and write them.
//!
//! A document is a `toml::Table`. What the library knows of one is
//! [`table_slots`]: for each key, its value as TOML text (as the crate's
//! `Display` for `toml::Value` writes it), and for an array, what each
//! element holds: a table's string fields, its fields that are arrays of
//! strings, and its other fields as TOML text; an element that is not a
//! table, as TOML text. Tables keep their keys sorted (the crate is built
//! without `preserve_order`), so the text of a value depends on the value
//! alone.

use vstd::prelude::*;

use crate::bookmark_updates::opt_view;
use crate::text::{trimmed, views};

verus! {

#[verifier::external_type_specification]
#[verifier::external_body]
#[verifier::reject_recursive_types(K)]
#[verifier::reject_recursive_types(V)]
pub struct ExTomlMap<K, V>(toml::map::Map<K, V>);

#[verifier::external_type_specification]
#[verifier::external_body]
pub struct ExTomlValue(toml::Value);

/// What an array element holds. For a table, its fields fall in three
/// parts; for any other value, only `scalar` is set.
pub struct TomlElem {
    /// The fields whose value is a string.
    pub strings: Map<Seq<char>, Seq<char>>,
    /// The fields whose value is an array of strings only.
    pub lists: Map<Seq<char>, Seq<Seq<char>>>,
    /// The other fields, each with its value as TOML text.
    pub others: Map<Seq<char>, Seq<char>>,
    /// The element as TOML text, when it is not a table.
    pub scalar: Option<Seq<char>>,
}

/// What the library knows of the value under one key.
pub enum TomlSlot {
    /// A value that is not an array, as TOML text.
    Other(Seq<char>),
    /// An array: what each element holds, in order.
    Array(Seq<TomlElem>),
}

/// What a document holds, key by key: the contents of the table, as the
/// module's header describes them.
pub uninterp spec fn table_slots(t: toml::Table) -> Map<Seq<char>, TomlSlot>;

/// What parsing a text gives: the document's slots, or none when the text is
/// not a TOML document.
pub uninterp spec fn parsed_table(text: Seq<char>) -> Option<Map<Seq<char>, TomlSlot>>;

/// The slots of an empty document.
pub open spec fn no_slots() -> Map<Seq<char>, TomlSlot> {
    Map::empty()
}

/// The value of field `f` of an array element, if it is a string.
pub open spec fn field_of(elem: Map<Seq<char>, Seq<char>>, f: Seq<char>) -> Option<Seq<char>> {
    if elem.contains_key(f) {
        Some(elem[f])
    } else {
        None
    }
}

/// The value of field `f` of an array element, if it is an array of
/// strings.
pub open spec fn list_of(lists: Map<Seq<char>, Seq<Seq<char>>>, f: Seq<char>) -> Option<Seq<Seq<char>>> {
    if lists.contains_key(f) {
        Some(lists[f])
    } else {
        None
    }
}

/// Whether `v` holds string field `f` of each of `elems`, in order.
pub open spec fn field_values(v: Seq<Option<String>>, elems: Seq<TomlElem>, f: Seq<char>) -> bool {
    &&& v.len() == elems.len()
    &&& forall|i: int| 0 <= i < v.len() ==> opt_view(#[trigger] v[i]) == field_of(elems[i].strings, f)
}

/// The abstract value of an optional list of strings.
pub open spec fn opt_list_view(o: Option<Vec<String>>) -> Option<Seq<Seq<char>>> {
    match o {
        Some(v) => Some(views(v@)),
        None => None,
    }
}

/// Whether `v` holds array field `f` of each of `elems`, in order.
pub open spec fn list_values(v: Seq<Option<Vec<String>>>, elems: Seq<TomlElem>, f: Seq<char>) -> bool {
    &&& v.len() == elems.len()
    &&& forall|i: int| 0 <= i < v.len() ==> opt_list_view(#[trigger] v[i]) == list_of(elems[i].lists, f)
}

/// Whether `r` is what reading array field `f` of the elements under `key`
/// reports.
pub open spec fn reads_lists(r: ListRead, slots: Map<Seq<char>, TomlSlot>, key: Seq<char>, f: Seq<char>) -> bool {
    if !slots.contains_key(key) {
        r is Missing
    } else if slots[key] is Other {
        r is NotArray
    } else {
        r matches ListRead::Values(v) && list_values(v@, array_elems(slots, key), f)
    }
}

/// What [`read_list_field`] reports of a key.
#[derive(Debug)]
pub enum ListRead {
    /// The document has no such key.
    Missing,
    /// The value is not an array.
    NotArray,
    /// The value is an array: the named field of each element, where it is
    /// an array of strings.
    Values(Vec<Option<Vec<String>>>),
}

/// Whether `text`, a rendering of a document with these slots, reads back
/// as that document: where it parses at all, it parses to these slots, and
/// it is not blank when the document has a key. (A document nested deeper
/// than the parser accepts renders to a text that does not parse.)
pub open spec fn reparses(text: Seq<char>, slots: Map<Seq<char>, TomlSlot>) -> bool {
    &&& parsed_table(text) is Some ==> parsed_table(text) == Some(slots)
    &&& (exists|k: Seq<char>| slots.contains_key(k)) ==> trimmed(text).len() > 0
}

/// Whether the crate can write every value of the document: each datetime
/// in it has one of the forms that TOML allows (a value built by hand can
/// have none of date, time and offset, which the writer refuses).
pub uninterp spec fn writable(t: toml::Table) -> bool;

/// Whether `r` is what reading `key` of a document with these slots, field
/// `f` of each element, reports.
pub open spec fn reads(r: ArrayRead, slots: Map<Seq<char>, TomlSlot>, key: Seq<char>, f: Seq<char>) -> bool {
    if !slots.contains_key(key) {
        r is Missing
    } else if slots[key] is Other {
        r is NotArray
    } else {
        r matches ArrayRead::Values(v) && field_values(v@, array_elems(slots, key), f)
    }
}

/// What [`read_array`] reports of a key.
#[derive(Debug)]
pub enum ArrayRead {
    /// The document has no such key.
    Missing,
    /// The value is not an array.
    NotArray,
    /// The value is an array: the named string field of each element.
    Values(Vec<Option<String>>),
}

/// A table to append to an array: its string fields, and its fields that
/// are arrays of strings.
pub struct TomlEntry {
    pub strings: Vec<(String, String)>,
    pub lists: Vec<(String, Vec<String>)>,
}

/// The string fields of an entry: each pair in order, a later one
/// replacing an earlier one with the same name.
pub open spec fn string_fields(pairs: Seq<(String, String)>) -> Map<Seq<char>, Seq<char>>
    decreases pairs.len(),
{
    if pairs.len() == 0 {
        Map::empty()
    } else {
        string_fields(pairs.drop_last()).insert(pairs.last().0@, pairs.last().1@)
    }
}

/// The elements of the array under `key`, none when it is missing or not an
/// array.
pub open spec fn array_elems(slots: Map<Seq<char>, TomlSlot>, key: Seq<char>) -> Seq<TomlElem> {
    if slots.contains_key(key) {
        match slots[key] {
            TomlSlot::Array(e) => e,
            TomlSlot::Other(_) => Seq::empty(),
        }
    } else {
        Seq::empty()
    }
}

/// Whether the value under `key` is something other than an array.
pub open spec fn not_array(slots: Map<Seq<char>, TomlSlot>, key: Seq<char>) -> bool {
    slots.contains_key(key) && slots[key] is Other
}

/// The array fields of an entry: each pair in order, a later one replacing
/// an earlier one with the same name.
pub open spec fn list_fields(pairs: Seq<(String, Vec<String>)>) -> Map<Seq<char>, Seq<Seq<char>>>
    decreases pairs.len(),
{
    if pairs.len() == 0 {
        Map::empty()
    } else {
        list_fields(pairs.drop_last()).insert(pairs.last().0@, views(pairs.last().1@))
    }
}

/// What the table that an entry becomes holds: the string fields win over
/// array fields of the same name, and there is nothing else.
pub open spec fn entry_elem(e: TomlEntry) -> TomlElem {
    TomlElem {
        strings: string_fields(e.strings@),
        lists: list_fields(e.lists@).remove_keys(string_fields(e.strings@).dom()),
        others: Map::empty(),
        scalar: None,
    }
}

/// Parses a TOML document: `str::parse::<toml::Table>` (the crate's
/// `FromStr` for its table). The contract claims that the result depends on
/// the text alone, and that every datetime that the parser builds is one
/// that the writer accepts; the error is the crate's message, of which
/// nothing is said.
#[verifier::external_body]
pub fn parse_table(text: &str) -> (r: Result<toml::Table, String>)
    ensures
        match r {
            Ok(t) => parsed_table(text@) == Some(table_slots(t)) && writable(t),
            Err(_) => parsed_table(text@) is None,
        },
{
    text.parse::<toml::Table>().map_err(|e| e.to_string())
}

/// An empty document: `toml::map::Map::new`, which holds no key.
#[verifier::external_body]
pub fn new_table() -> (r: toml::Table)
    ensures
        table_slots(r) == no_slots(),
        writable(r),
{
    toml::Table::new()
}

/// Reads the value under `key`: `toml::map::Map::get`, then
/// `toml::Value::as_array`, and for each element `toml::Value::get` of
/// `field` and `toml::Value::as_str`. The contract claims that the report
/// matches the document's slots.
#[verifier::external_body]
pub fn read_array(t: &toml::Table, key: &str, field: &str) -> (r: ArrayRead)
    ensures
        reads(r, table_slots(*t), key@, field@),
{
    match t.get(key) {
        None => ArrayRead::Missing,
        Some(v) => match v.as_array() {
            None => ArrayRead::NotArray,
            Some(a) => ArrayRead::Values(
                a.iter().map(|e| e.get(field).and_then(|n| n.as_str()).map(|s| s.to_string())).collect(),
            ),
        },
    }
}

/// Reads field `field` of each element of the array under `key`, where it
/// is an array of strings: `toml::map::Map::get`, then
/// `toml::Value::as_array`, and for each element `toml::Value::get` of
/// `field`, `toml::Value::as_array` and, for each of its items,
/// `toml::Value::as_str`. The contract claims that the report matches the
/// document's slots.
#[verifier::external_body]
pub fn read_list_field(t: &toml::Table, key: &str, field: &str) -> (r: ListRead)
    ensures
        reads_lists(r, table_slots(*t), key@, field@),
{
    match t.get(key) {
        None => ListRead::Missing,
        Some(v) => match v.as_array() {
            None => ListRead::NotArray,
            Some(a) => ListRead::Values(
                a.iter().map(|e| e.get(field).and_then(|f| f.as_array()).and_then(|xs| {
                    xs.iter().map(|x| x.as_str().map(|s| s.to_string())).collect()
                })).collect(),
            ),
        },
    }
}

/// Appends `entry` as a table to the array under `key`, creating the array
/// when the key is missing: `toml::map::Map::entry` with `or_insert_with`,
/// then `Vec::push` on the array. The list fields are inserted before the
/// string fields. The contract claims that the array gains one element
/// whose string and array fields are those of the entry, and that no other
/// key changes, and that the document stays writable or not as it was (the
/// new element holds strings only).
#[verifier::external_body]
pub fn append_table(t: &mut toml::Table, key: &str, entry: &TomlEntry)
    requires
        !not_array(table_slots(*old(t)), key@),
    ensures
        writable(*final(t)) == writable(*old(t)),
        table_slots(*final(t)) == table_slots(*old(t)).insert(
            key@,
            TomlSlot::Array(array_elems(table_slots(*old(t)), key@).push(entry_elem(*entry))),
        ),
{
    let mut item = toml::Table::new();
    for (k, vs) in entry.lists.iter() {
        item.insert(k.clone(), toml::Value::Array(vs.iter().map(|s| toml::Value::String(s.clone())).collect()));
    }
    for (k, v) in entry.strings.iter() {
        item.insert(k.clone(), toml::Value::String(v.clone()));
    }
    let slot = t.entry(key.to_string()).or_insert_with(|| toml::Value::Array(Vec::new()));
    if let toml::Value::Array(a) = slot {
        a.push(toml::Value::Table(item));
    }
}

/// Renders a document as pretty TOML text: `toml::to_string_pretty`. The
/// contract claims that rendering succeeds when every datetime is one that
/// the writer accepts (the only values it refuses), and that the text it
/// gives reads back as the document where it parses at all. A document
/// nested deeper than the parser's limit renders to a text that does not
/// parse, so the contract does not claim that it parses. Nothing is said
/// of the error text.
#[verifier::external_body]
pub fn render_pretty(t: &toml::Table) -> (r: Result<String, String>)
    ensures
        writable(*t) ==> r is Ok,
        r matches Ok(text) ==> reparses(text@, table_slots(*t)),
{
    toml::to_string_pretty(t).map_err(|e| e.to_string())
}

} // verus!
