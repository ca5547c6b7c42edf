//! Profiles, records and the values of a new row.
//!
//! A profile binds column letters to field keys; a record binds field keys to
//! values. Both are lists of pairs in which the first pair for a key counts.

use vstd::prelude::*;
use vstd::string::StringExecFns;
use crate::models::{headers_view, HeaderInfo, HeaderInfoView, Real};
use crate::text::{to_uppercase, uppercase_of};

verus! {

/// One extracted field: its value and, where known, how sure the extraction is.
#[derive(Debug, PartialEq, Eq)]
pub struct InvoiceFieldValue {
    pub value: String,
    pub confidence: Option<Real>,
}

/// The fields extracted from one document, by field key.
#[derive(Debug, PartialEq, Eq)]
pub struct InvoiceData {
    pub fields: Vec<(String, InvoiceFieldValue)>,
    pub source_file: Option<String>,
}

/// A named binding of a spreadsheet file, a sheet and a mapping from column
/// letters to field keys.
#[derive(Debug, PartialEq, Eq)]
pub struct ExcelProfile {
    pub id: i64,
    pub name: String,
    pub excel_path: String,
    pub sheet_name: String,
    pub column_mapping: Vec<(String, String)>,
}

/// One cell of a row to write: the column's letters and the value.
#[derive(Debug, PartialEq, Eq)]
pub struct RowCell {
    pub column: String,
    pub value: String,
}

/// The field key under which the first column's value is looked up.
pub open spec fn document_type_key() -> Seq<char> {
    "document_type"@
}

/// The value of the first column where the record has no document type.
pub open spec fn default_document_type() -> Seq<char> {
    "Фактура"@
}

/// The contents of a list of pairs of texts.
pub open spec fn pairs_view(pairs: Seq<(String, String)>) -> Seq<(Seq<char>, Seq<char>)> {
    Seq::new(pairs.len(), |i: int| (pairs[i].0@, pairs[i].1@))
}

/// The keys and values of a record's fields.
pub open spec fn record_view(fields: Seq<(String, InvoiceFieldValue)>) -> Seq<
    (Seq<char>, Seq<char>),
> {
    Seq::new(fields.len(), |i: int| (fields[i].0@, fields[i].1.value@))
}

/// The column mapping that a JSON text holds, as `serde_json` reads it into
/// an ordered map of texts: its pairs in the order of their keys, none for a
/// text that is no object of texts.
pub uninterp spec fn mapping_of(json: Seq<char>) -> Seq<(Seq<char>, Seq<char>)>;

/// What the first pair with the given key binds it to.
pub open spec fn lookup(pairs: Seq<(Seq<char>, Seq<char>)>, key: Seq<char>) -> Option<Seq<char>>
    decreases pairs.len(),
{
    if pairs.len() == 0 {
        None
    } else if pairs[0].0 == key {
        Some(pairs[0].1)
    } else {
        lookup(pairs.drop_first(), key)
    }
}

/// What the first pair binds whose key, in capitals, is the letters in
/// capitals.
pub open spec fn lookup_any_case(pairs: Seq<(Seq<char>, Seq<char>)>, letters: Seq<char>) -> Option<
    Seq<char>,
>
    decreases pairs.len(),
{
    if pairs.len() == 0 {
        None
    } else if uppercase_of(pairs[0].0) == uppercase_of(letters) {
        Some(pairs[0].1)
    } else {
        lookup_any_case(pairs.drop_first(), letters)
    }
}

/// The field key bound to a column, whatever the case of the letters in the
/// mapping: the key bound to the column's letters as they stand; else to
/// their form in capitals; else by the first pair whose letters, in
/// capitals, are the column's in capitals; else `col_` and the letters.
pub open spec fn field_key_of(mapping: Seq<(Seq<char>, Seq<char>)>, letters: Seq<char>) -> Seq<
    char,
> {
    match lookup(mapping, letters) {
        Some(key) => key,
        None => match lookup(mapping, uppercase_of(letters)) {
            Some(key) => key,
            None => match lookup_any_case(mapping, letters) {
                Some(key) => key,
                None => "col_"@ + letters,
            },
        },
    }
}

/// A mapping that binds a column's letters in some case binds the column:
/// the field key is then never the `col_` key, but one that a pair of the
/// mapping gives.
pub proof fn lemma_any_case_binds(
    mapping: Seq<(Seq<char>, Seq<char>)>,
    letters: Seq<char>,
    at: int,
)
    requires
        0 <= at < mapping.len(),
        uppercase_of(mapping[at].0) == uppercase_of(letters),
    ensures
        lookup_any_case(mapping, letters) is Some,
        exists|i: int| 0 <= i < mapping.len() && field_key_of(mapping, letters) == (#[trigger] mapping[i]).1,
        mapping.len() == 1 ==> field_key_of(mapping, letters) == mapping[0].1,
{
    lemma_lookup_any_case_finds(mapping, letters, at);
    lemma_lookup_gives_a_pair(mapping, letters);
    lemma_lookup_gives_a_pair(mapping, uppercase_of(letters));
    let found = lookup_any_case(mapping, letters);
    let i = choose|i: int| 0 <= i < mapping.len() && found == Some((#[trigger] mapping[i]).1);
    assert(mapping[i].1 == found->0);
}

proof fn lemma_lookup_any_case_finds(
    mapping: Seq<(Seq<char>, Seq<char>)>,
    letters: Seq<char>,
    at: int,
)
    requires
        0 <= at < mapping.len(),
        uppercase_of(mapping[at].0) == uppercase_of(letters),
    ensures
        lookup_any_case(mapping, letters) is Some,
        exists|i: int|
            0 <= i < mapping.len() && lookup_any_case(mapping, letters) == Some(
                (#[trigger] mapping[i]).1,
            ),
    decreases mapping.len(),
{
    if uppercase_of(mapping[0].0) == uppercase_of(letters) {
        assert(lookup_any_case(mapping, letters) == Some(mapping[0].1));
    } else {
        let rest = mapping.drop_first();
        assert(rest[at - 1] == mapping[at]);
        lemma_lookup_any_case_finds(rest, letters, at - 1);
        let i = choose|i: int|
            0 <= i < rest.len() && lookup_any_case(rest, letters) == Some((#[trigger] rest[i]).1);
        assert(mapping[i + 1] == rest[i]);
    }
}

proof fn lemma_lookup_gives_a_pair(pairs: Seq<(Seq<char>, Seq<char>)>, key: Seq<char>)
    ensures
        lookup(pairs, key) is Some ==> exists|i: int|
            0 <= i < pairs.len() && lookup(pairs, key) == Some((#[trigger] pairs[i]).1),
    decreases pairs.len(),
{
    if pairs.len() > 0 {
        if pairs[0].0 == key {
            assert(lookup(pairs, key) == Some(pairs[0].1));
        } else {
            let rest = pairs.drop_first();
            lemma_lookup_gives_a_pair(rest, key);
            if lookup(rest, key) is Some {
                let i = choose|i: int|
                    0 <= i < rest.len() && lookup(rest, key) == Some((#[trigger] rest[i]).1);
                assert(pairs[i + 1] == rest[i]);
            }
        }
    }
}

/// The value written into the column of the header at position `i`: the
/// record's document type in the first column (a fixed literal where the
/// record has none), elsewhere the value of the field bound to the column,
/// empty where the record has no such field.
pub open spec fn row_value(
    headers: Seq<HeaderInfoView>,
    i: int,
    mapping: Seq<(Seq<char>, Seq<char>)>,
    record: Seq<(Seq<char>, Seq<char>)>,
) -> Seq<char> {
    if i == 0 {
        match lookup(record, document_type_key()) {
            Some(value) => value,
            None => default_document_type(),
        }
    } else {
        match lookup(record, field_key_of(mapping, headers[i].column_letter)) {
            Some(value) => value,
            None => Seq::empty(),
        }
    }
}

/// The cells of a new row: for each header, in column order, the column's
/// letters and the value to write.
pub open spec fn row_values(
    headers: Seq<HeaderInfoView>,
    mapping: Seq<(Seq<char>, Seq<char>)>,
    record: Seq<(Seq<char>, Seq<char>)>,
) -> Seq<(Seq<char>, Seq<char>)> {
    Seq::new(headers.len(), |i: int| (headers[i].column_letter, row_value(headers, i, mapping, record)))
}

/// `serde_json::from_str` into a `BTreeMap` of texts, then the map's pairs
/// as the map hands them out, which is in the order of their keys: the pairs
/// are the named mapping. A text that cannot be read so gives no pairs.
#[verifier::external_body]
pub(crate) fn read_mapping(json: &str) -> (pairs: Vec<(String, String)>)
    ensures
        pairs_view(pairs@) == mapping_of(json@),
{
    serde_json::from_str::<std::collections::BTreeMap<String, String>>(json)
        .unwrap_or_default()
        .into_iter()
        .collect()
}

/// Reads a profile's column mapping from its JSON text: the pairs of column
/// letters and field key that the text holds, in the order of the letters.
pub fn parse_column_mapping(json: &str) -> (pairs: Vec<(String, String)>)
    ensures
        pairs_view(pairs@) == mapping_of(json@),
{
    read_mapping(json)
}

/// Looks a key up in a list of pairs: the value of the first pair with it.
pub fn find_value(pairs: &Vec<(String, String)>, key: &String) -> (r: Option<String>)
    ensures
        match r {
            Some(value) => lookup(pairs_view(pairs@), key@) == Some(value@),
            None => lookup(pairs_view(pairs@), key@) is None,
        },
{
    let mut i: usize = 0;
    assert(pairs_view(pairs@).subrange(0, pairs@.len() as int) =~= pairs_view(pairs@));
    while i < pairs.len()
        invariant
            i <= pairs@.len(),
            lookup(pairs_view(pairs@), key@) == lookup(
                pairs_view(pairs@).subrange(i as int, pairs@.len() as int),
                key@,
            ),
        decreases pairs.len() - i,
    {
        let ghost rest = pairs_view(pairs@).subrange(i as int, pairs@.len() as int);
        assert(rest[0] == (pairs@[i as int].0@, pairs@[i as int].1@));
        if pairs[i].0 == *key {
            return Some(pairs[i].1.clone());
        }
        assert(rest.drop_first() =~= pairs_view(pairs@).subrange(i + 1, pairs@.len() as int));
        i += 1;
    }
    None
}

/// The keys and values of a record's fields, as pairs of texts.
pub fn record_pairs(data: &InvoiceData) -> (pairs: Vec<(String, String)>)
    ensures
        pairs_view(pairs@) == record_view(data.fields@),
{
    let mut pairs: Vec<(String, String)> = Vec::new();
    let mut i: usize = 0;
    while i < data.fields.len()
        invariant
            i <= data.fields@.len(),
            pairs@.len() == i,
            forall|k: int|
                0 <= k < i ==> (#[trigger] pairs@[k]).0@ == data.fields@[k].0@ && pairs@[k].1@
                    == data.fields@[k].1.value@,
        decreases data.fields.len() - i,
    {
        pairs.push((data.fields[i].0.clone(), data.fields[i].1.value.clone()));
        i += 1;
    }
    assert(pairs_view(pairs@) =~= record_view(data.fields@));
    pairs
}

/// A copy of a list of pairs of texts.
pub fn clone_pairs(pairs: &Vec<(String, String)>) -> (r: Vec<(String, String)>)
    ensures
        pairs_view(r@) == pairs_view(pairs@),
{
    let mut r: Vec<(String, String)> = Vec::new();
    let mut i: usize = 0;
    while i < pairs.len()
        invariant
            i <= pairs@.len(),
            r@.len() == i,
            forall|k: int|
                0 <= k < i ==> (#[trigger] r@[k]).0@ == pairs@[k].0@ && r@[k].1@ == pairs@[k].1@,
        decreases pairs.len() - i,
    {
        r.push((pairs[i].0.clone(), pairs[i].1.clone()));
        i += 1;
    }
    assert(pairs_view(r@) =~= pairs_view(pairs@));
    r
}

/// Looks a column's letters up in a mapping by their form in capitals: the
/// value of the first pair whose key has the same form in capitals.
pub fn find_any_case(pairs: &Vec<(String, String)>, letters: &str) -> (r: Option<String>)
    ensures
        match r {
            Some(value) => lookup_any_case(pairs_view(pairs@), letters@) == Some(value@),
            None => lookup_any_case(pairs_view(pairs@), letters@) is None,
        },
{
    let wanted = to_uppercase(letters);
    let mut i: usize = 0;
    assert(pairs_view(pairs@).subrange(0, pairs@.len() as int) =~= pairs_view(pairs@));
    while i < pairs.len()
        invariant
            i <= pairs@.len(),
            wanted@ == uppercase_of(letters@),
            lookup_any_case(pairs_view(pairs@), letters@) == lookup_any_case(
                pairs_view(pairs@).subrange(i as int, pairs@.len() as int),
                letters@,
            ),
        decreases pairs.len() - i,
    {
        let ghost rest = pairs_view(pairs@).subrange(i as int, pairs@.len() as int);
        assert(rest[0] == (pairs@[i as int].0@, pairs@[i as int].1@));
        let key = to_uppercase(pairs[i].0.as_str());
        if key == wanted {
            return Some(pairs[i].1.clone());
        }
        assert(rest.drop_first() =~= pairs_view(pairs@).subrange(i + 1, pairs@.len() as int));
        i += 1;
    }
    None
}

/// The field key bound to a column, whatever the case of the letters in the
/// mapping.
pub fn field_key(mapping: &Vec<(String, String)>, letters: &String) -> (key: String)
    ensures
        key@ == field_key_of(pairs_view(mapping@), letters@),
{
    match find_value(mapping, letters) {
        Some(key) => key,
        None => {
            let upper = to_uppercase(letters.as_str());
            match find_value(mapping, &upper) {
                Some(key) => key,
                None => match find_any_case(mapping, letters.as_str()) {
                    Some(key) => key,
                    None => {
                        let mut key = "col_".to_owned();
                        key.append(letters.as_str());
                        key
                    },
                },
            }
        },
    }
}

/// Computes the cells of a new row from a schema's headers, a profile's
/// column mapping and a record: one cell for each header, in column order.
pub fn compute_row_values(
    headers: &Vec<HeaderInfo>,
    mapping: &Vec<(String, String)>,
    record: &Vec<(String, String)>,
) -> (values: Vec<(String, String)>)
    ensures
        pairs_view(values@) == row_values(
            headers_view(headers@),
            pairs_view(mapping@),
            pairs_view(record@),
        ),
{
    let mut values: Vec<(String, String)> = Vec::new();
    let mut i: usize = 0;
    let ghost hs = headers_view(headers@);
    let ghost m = pairs_view(mapping@);
    let ghost rec = pairs_view(record@);
    while i < headers.len()
        invariant
            i <= headers@.len(),
            values@.len() == i,
            hs == headers_view(headers@),
            m == pairs_view(mapping@),
            rec == pairs_view(record@),
            forall|k: int|
                0 <= k < i ==> (#[trigger] values@[k]).0@ == hs[k].column_letter && values@[k].1@
                    == row_value(hs, k, m, rec),
        decreases headers.len() - i,
    {
        let header = &headers[i];
        assert(hs[i as int] == header@);
        let value = if i == 0 {
            let wanted = "document_type".to_owned();
            match find_value(record, &wanted) {
                Some(value) => value,
                None => "Фактура".to_owned(),
            }
        } else {
            let key = field_key(mapping, &header.column_letter);
            match find_value(record, &key) {
                Some(value) => value,
                None => String::new(),
            }
        };
        values.push((header.column_letter.clone(), value));
        i += 1;
    }
    assert(pairs_view(values@) =~= row_values(hs, m, rec));
    values
}

} // verus!
