//! The calls this library makes into outside crates and into std, each with
//! the contract it relies on.

use vstd::prelude::*;

use chrono::{Datelike, NaiveDate};
use linked_hash_map::LinkedHashMap;
use yaml_rust::{EmitError, ScanError, Yaml, YamlEmitter, YamlLoader};

use crate::node::Node;
use crate::question::Date;
use crate::store::texts;

verus! {

#[verifier::external_type_specification]
#[verifier::external_body]
pub struct ExScanError(ScanError);

#[verifier::external_type_specification]
#[verifier::external_body]
pub struct ExEmitError(EmitError);

#[verifier::external_type_specification]
#[verifier::external_body]
pub struct ExYaml(Yaml);

#[verifier::external_type_specification]
#[verifier::external_body]
#[verifier::reject_recursive_types(K)]
#[verifier::reject_recursive_types(V)]
#[verifier::reject_recursive_types(S)]
pub struct ExLinkedHashMap<K, V, S>(LinkedHashMap<K, V, S>);

/// The entries of an answer map, in the map's order: each name with its values.
pub uninterp spec fn map_entries(m: LinkedHashMap<String, Vec<String>>) -> Seq<(Seq<char>, Seq<Seq<char>>)>;

/// The documents that a YAML text holds, as yaml_rust reads them; `None` where
/// it refuses the text.
pub uninterp spec fn yaml_documents(text: Seq<char>) -> Option<Seq<Node>>;

/// The YAML text that yaml_rust's emitter writes for a mapping from each name
/// to its list of strings, in the order given.
pub uninterp spec fn yaml_store_text(entries: Seq<(Seq<char>, Seq<Seq<char>>)>) -> Seq<char>;

/// The (year, month, day) that chrono reads from `text` with the format
/// `format`; `None` where the text does not match or names no date.
pub uninterp spec fn date_parsed(text: Seq<char>, format: Seq<char>) -> Option<(int, int, int)>;

/// The text that chrono displays for the date (year, month, day); `None`
/// where no such date exists.
pub uninterp spec fn date_display(year: int, month: int, day: int) -> Option<Seq<char>>;

/// The decimal digit of `n`, for `n` in `0 .. 10`.
pub open spec fn digit(n: int) -> char {
    seq!['0', '1', '2', '3', '4', '5', '6', '7', '8', '9'][n]
}

/// The last `width` decimal digits of `n`, zero-padded on the left.
pub open spec fn padded(n: int, width: nat) -> Seq<char>
    decreases width,
{
    if width == 0 {
        Seq::empty()
    } else {
        padded(n / 10, (width - 1) as nat).push(digit(n % 10))
    }
}

/// A date written as "YYYY-MM-DD", for years from 0 to 9999.
pub open spec fn iso_date_text(year: int, month: int, day: int) -> Seq<char> {
    padded(year, 4) + seq!['-'] + padded(month, 2) + seq!['-'] + padded(day, 2)
}

/// The lower-case form of a text, as std gives it.
pub uninterp spec fn lower_of(s: Seq<char>) -> Seq<char>;

/// Relies on `LinkedHashMap::new`: a map with no entries.
#[verifier::external_body]
pub(crate) fn map_new() -> (r: LinkedHashMap<String, Vec<String>>)
    ensures
        map_entries(r) == Seq::<(Seq<char>, Seq<Seq<char>>)>::empty(),
{
    LinkedHashMap::new()
}

/// Relies on `LinkedHashMap::insert`: a name already present gets the new
/// values and moves to the back; a new name is added at the back.
#[verifier::external_body]
pub(crate) fn map_insert(m: &mut LinkedHashMap<String, Vec<String>>, k: String, v: Vec<String>)
    ensures
        (exists|i: int| 0 <= i < map_entries(*old(m)).len() && map_entries(*old(m))[i].0 == k@)
            ==> exists|i: int|
            0 <= i < map_entries(*old(m)).len() && map_entries(*old(m))[i].0 == k@ && map_entries(
                *final(m),
            ) == map_entries(*old(m)).remove(i).push((k@, texts(v@))),
        !(exists|i: int| 0 <= i < map_entries(*old(m)).len() && map_entries(*old(m))[i].0 == k@)
            ==> map_entries(*final(m)) == map_entries(*old(m)).push((k@, texts(v@))),
{
    m.insert(k, v);
}

/// Relies on `LinkedHashMap::get`: the values under a name, if it is present.
#[verifier::external_body]
pub(crate) fn map_get<'a>(m: &'a LinkedHashMap<String, Vec<String>>, k: &str) -> (r: Option<&'a Vec<String>>)
    ensures
        match r {
            Some(v) => exists|i: int|
                0 <= i < map_entries(*m).len() && map_entries(*m)[i].0 == k@ && map_entries(*m)[i].1
                    == texts(v@),
            None => forall|i: int| 0 <= i < map_entries(*m).len() ==> map_entries(*m)[i].0 != k@,
        },
{
    m.get(k)
}

/// Relies on `LinkedHashMap::len`: the number of entries.
#[verifier::external_body]
pub(crate) fn map_len(m: &LinkedHashMap<String, Vec<String>>) -> (r: usize)
    ensures
        r == map_entries(*m).len(),
{
    m.len()
}

/// Relies on yaml_rust's `YamlLoader::load_from_str`: the documents of a text,
/// which depend on the text alone.
#[verifier::external_body]
pub(crate) fn load_documents(text: &str) -> (r: Result<Vec<Node>, ScanError>)
    ensures
        match r {
            Ok(docs) => yaml_documents(text@) == Some(docs@),
            Err(_) => yaml_documents(text@) is None,
        },
{
    YamlLoader::load_from_str(text).map(|docs| docs.iter().map(node_of).collect())
}

/// Rewrites a yaml_rust node as a `Node`, variant for variant; the body of
/// `load_documents` uses it.
#[verifier::external_body]
fn node_of(y: &Yaml) -> Node {
    match y {
        Yaml::Null => Node::Null,
        Yaml::Boolean(b) => Node::Bool(*b),
        Yaml::Integer(i) => Node::Int(*i),
        Yaml::Real(s) => Node::Real(s.clone()),
        Yaml::String(s) => Node::Text(s.clone()),
        Yaml::Array(a) => Node::List(a.iter().map(node_of).collect()),
        Yaml::Hash(h) => Node::Dict(h.iter().map(|(k, v)| (node_of(k), node_of(v))).collect()),
        Yaml::Alias(n) => Node::Alias(*n),
        Yaml::BadValue => Node::Bad,
    }
}

/// Relies on yaml_rust's `YamlEmitter::dump`: the text of a mapping from each
/// name to a list of strings, which depends on the entries alone. Writing into
/// a `String` cannot fail, and a mapping with text keys is never refused.
#[verifier::external_body]
pub(crate) fn dump_entries(entries: &LinkedHashMap<String, Vec<String>>) -> (r: Result<String, EmitError>)
    ensures
        r is Ok,
        r matches Ok(s) ==> s@ == yaml_store_text(map_entries(*entries)),
{
    let mut hash = LinkedHashMap::new();
    for (k, v) in entries.iter() {
        let items = v.iter().map(|s| Yaml::String(s.clone())).collect();
        hash.insert(Yaml::String(k.clone()), Yaml::Array(items));
    }
    let mut out = String::new();
    let res = YamlEmitter::new(&mut out).dump(&Yaml::Hash(hash));
    res.map(|_| out)
}

/// Relies on chrono's `NaiveDate::parse_from_str` and on the date's year,
/// month and day: the date read depends on the text and the format alone.
#[verifier::external_body]
pub(crate) fn parse_date(text: &str, format: &str) -> (r: Option<Date>)
    ensures
        match r {
            Some(d) => date_parsed(text@, format@) == Some(d@),
            None => date_parsed(text@, format@) is None,
        },
{
    NaiveDate::parse_from_str(text, format).ok().map(
        |d| Date { year: d.year(), month: d.month(), day: d.day() },
    )
}

/// Relies on chrono's `NaiveDate::from_ymd_opt`, which gives nothing for a day
/// that does not exist, and on the `Display` of the date it gives, which is its
/// `%Y-%m-%d` form: four digits of year from 0 to 9999, two of month and day.
#[verifier::external_body]
pub(crate) fn display_date(d: &Date) -> (r: Option<String>)
    ensures
        match r {
            Some(s) => date_display(d.year as int, d.month as int, d.day as int) == Some(s@),
            None => date_display(d.year as int, d.month as int, d.day as int) is None,
        },
        r is Some && 0 <= d.year <= 9999 ==> r->Some_0@ == iso_date_text(
            d.year as int,
            d.month as int,
            d.day as int,
        ),
{
    NaiveDate::from_ymd_opt(d.year, d.month, d.day).map(|n| n.to_string())
}

/// Relies on `str::to_lowercase`: the result depends on the characters alone.
#[verifier::external_body]
pub(crate) fn lowercase(s: &str) -> (r: String)
    ensures
        r@ == lower_of(s@),
{
    s.to_lowercase()
}

} // verus!
