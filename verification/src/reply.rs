//! The reply of the document reader as a tree of plain values, and the
//! extraction of field values from it.
//!
//! Numbers of the reply are doubles. The library does not compute with them:
//! a number comes with the text that it prints as, and a text with the number
//! that it reads as, both made by whoever builds the tree.

use vstd::prelude::*;
use vstd::string::StringExecFns;
use crate::excel::{decimal, decimal_string};
use crate::fields::InvoiceFieldValue;
use crate::models::Real;
use crate::names::{
    clean_company_name, clean_name, fix_all_caps_run_together, has_legal_form, is_address_suffix,
    looks_like_address_suffix, names_legal_form, run_together_fixed,
};
use crate::text::{
    char_is_whitespace, chars_equal, chars_range, is_blank, is_whitespace, join_chars, joined,
    line_len, str_chars, string_from_chars, texts_view, trim_chars, trimmed,
};

verus! {

/// A number of the reply.
#[derive(Debug, PartialEq, Eq)]
pub struct ReplyNumber {
    /// The number as a double.
    pub real: Real,
    /// The number as a double is printed.
    pub text: String,
    /// The number as an integer, where it is one that fits 64 bits.
    pub integer: Option<i64>,
}

/// A text of the reply.
#[derive(Debug, PartialEq, Eq)]
pub struct ReplyText {
    pub text: String,
    /// The text read as a number and printed again, where it can be read as
    /// one.
    pub number: Option<String>,
}

/// A value of the reply.
#[derive(Debug, PartialEq, Eq)]
pub enum ReplyValue {
    Null,
    Bool(bool),
    Number(ReplyNumber),
    Text(ReplyText),
    List(Vec<ReplyValue>),
    Record(Vec<(String, ReplyValue)>),
}

/// The first of the members from position `from` on that has the key.
pub open spec fn member_at(pairs: Seq<(String, ReplyValue)>, key: Seq<char>, from: int) -> Option<
    ReplyValue,
>
    decreases pairs.len() - from,
{
    if from < 0 || from >= pairs.len() {
        None
    } else if pairs[from].0@ == key {
        Some(pairs[from].1)
    } else {
        member_at(pairs, key, from + 1)
    }
}

/// The member of a record with the given key; none where the value is no
/// record or has no such member.
pub open spec fn member_of(value: ReplyValue, key: Seq<char>) -> Option<ReplyValue> {
    match value {
        ReplyValue::Record(pairs) => member_at(pairs@, key, 0),
        _ => None,
    }
}

/// The member of an optional record.
pub open spec fn member_in(value: Option<ReplyValue>, key: Seq<char>) -> Option<ReplyValue> {
    match value {
        Some(v) => member_of(v, key),
        None => None,
    }
}

/// The text of a value that is a text.
pub open spec fn text_in(value: Option<ReplyValue>) -> Option<Seq<char>> {
    match value {
        Some(ReplyValue::Text(t)) => Some(t.text@),
        _ => None,
    }
}

/// A text trimmed, none where nothing is left of it.
pub open spec fn kept(text: Option<Seq<char>>) -> Option<Seq<char>> {
    match text {
        Some(s) => if trimmed(s).len() > 0 {
            Some(trimmed(s))
        } else {
            None
        },
        None => None,
    }
}

/// The printed form of a value that is a number.
pub open spec fn number_in(value: Option<ReplyValue>) -> Option<Seq<char>> {
    match value {
        Some(ReplyValue::Number(n)) => Some(n.text@),
        _ => None,
    }
}

/// The integer of a value that is one, in decimal.
pub open spec fn integer_in(value: Option<ReplyValue>) -> Option<i64> {
    match value {
        Some(ReplyValue::Number(n)) => n.integer,
        _ => None,
    }
}

/// The printed form of an amount: of a number, or of a text that reads as
/// one.
pub open spec fn amount_in(value: Option<ReplyValue>) -> Option<Seq<char>> {
    match value {
        Some(ReplyValue::Number(n)) => Some(n.text@),
        Some(ReplyValue::Text(t)) => match t.number {
            Some(n) => Some(n@),
            None => None,
        },
        _ => None,
    }
}

/// The confidence that a field carries, where it carries one.
pub open spec fn confidence_of(field: ReplyValue) -> Option<Real> {
    match member_of(field, "confidence"@) {
        Some(ReplyValue::Number(n)) => Some(n.real),
        _ => None,
    }
}

/// The first of two optional values that is there.
pub open spec fn or<T>(a: Option<T>, b: Option<T>) -> Option<T> {
    match a {
        Some(_) => a,
        None => b,
    }
}

/// The trimmed text of a member, none where it is no text or blank.
pub open spec fn trimmed_member(field: ReplyValue, key: Seq<char>) -> Option<Seq<char>> {
    kept(text_in(member_of(field, key)))
}

/// The value that the kind of a field calls for.
pub open spec fn typed_value(field: ReplyValue) -> Option<Seq<char>> {
    let kind = text_in(member_of(field, "type"@));
    if kind == Some("string"@) {
        trimmed_member(field, "valueString"@)
    } else if kind == Some("address"@) {
        kept(text_in(member_in(member_of(field, "valueAddress"@), "streetAddress"@)))
    } else if kind == Some("date"@) {
        or(
            trimmed_member(field, "valueDate"@),
            or(trimmed_member(field, "content"@), trimmed_member(field, "valueString"@)),
        )
    } else if kind == Some("time"@) {
        trimmed_member(field, "valueTime"@)
    } else if kind == Some("number"@) || kind == Some("integer"@) || kind == Some("float"@) {
        number_in(member_of(field, "valueNumber"@))
    } else if kind == Some("currency"@) {
        amount_in(member_in(member_of(field, "valueCurrency"@), "amount"@))
    } else {
        None
    }
}

/// The value of a field as a text: what its kind calls for, else the first
/// that is there of its string, date, content, number and time; empty where
/// none is, and for a null field.
pub open spec fn field_value(field: ReplyValue) -> Seq<char> {
    if field is Null {
        Seq::empty()
    } else {
        let found = or(
            typed_value(field),
            or(
                trimmed_member(field, "valueString"@),
                or(
                    trimmed_member(field, "valueDate"@),
                    or(
                        trimmed_member(field, "content"@),
                        or(
                            number_in(member_of(field, "valueNumber"@)),
                            trimmed_member(field, "valueTime"@),
                        ),
                    ),
                ),
            ),
        );
        match found {
            Some(s) => s,
            None => Seq::empty(),
        }
    }
}

/// The content of an optional text.
pub open spec fn view_of(o: Option<String>) -> Option<Seq<char>> {
    match o {
        Some(s) => Some(s@),
        None => None,
    }
}

/// The value behind an optional reference.
pub open spec fn deref_of(o: Option<&ReplyValue>) -> Option<ReplyValue> {
    match o {
        Some(v) => Some(*v),
        None => None,
    }
}

/// Looks a member of a record up by its key.
pub fn member<'a>(value: &'a ReplyValue, key: &str) -> (r: Option<&'a ReplyValue>)
    ensures
        deref_of(r) == member_of(*value, key@),
{
    match value {
        ReplyValue::Record(pairs) => {
            let wanted = str_chars(key);
            let mut i: usize = 0;
            while i < pairs.len()
                invariant
                    i <= pairs@.len(),
                    wanted@ == key@,
                    member_of(*value, key@) == member_at(pairs@, key@, 0),
                    member_at(pairs@, key@, 0) == member_at(pairs@, key@, i as int),
                decreases pairs.len() - i,
            {
                let pair = &pairs[i];
                let name = str_chars(pair.0.as_str());
                assert(*pair == pairs@[i as int]);
                assert(name@ == pairs@[i as int].0@);
                if chars_equal(&name, &wanted) {
                    assert(member_at(pairs@, key@, i as int) == Some(pairs@[i as int].1));
                    return Some(&pair.1);
                }
                assert(member_at(pairs@, key@, i as int) == member_at(pairs@, key@, i + 1));
                i += 1;
            }
            None
        },
        _ => None,
    }
}

/// Looks a member of an optional record up by its key.
pub fn member_of_some<'a>(value: Option<&'a ReplyValue>, key: &str) -> (r: Option<&'a ReplyValue>)
    ensures
        deref_of(r) == member_in(deref_of(value), key@),
{
    match value {
        Some(v) => member(v, key),
        None => None,
    }
}

fn text_of(value: Option<&ReplyValue>) -> (r: Option<String>)
    ensures
        view_of(r) == text_in(deref_of(value)),
{
    match value {
        Some(ReplyValue::Text(t)) => Some(t.text.clone()),
        _ => None,
    }
}

fn keep(text: Option<String>) -> (r: Option<String>)
    ensures
        view_of(r) == kept(view_of(text)),
{
    match text {
        Some(s) => {
            let t = trim_chars(&str_chars(s.as_str()));
            if t.len() > 0 {
                Some(string_from_chars(&t))
            } else {
                None
            }
        },
        None => None,
    }
}

fn number_of(value: Option<&ReplyValue>) -> (r: Option<String>)
    ensures
        view_of(r) == number_in(deref_of(value)),
{
    match value {
        Some(ReplyValue::Number(n)) => Some(n.text.clone()),
        _ => None,
    }
}

fn integer_of(value: Option<&ReplyValue>) -> (r: Option<i64>)
    ensures
        r == integer_in(deref_of(value)),
{
    match value {
        Some(ReplyValue::Number(n)) => n.integer,
        _ => None,
    }
}

fn amount_of(value: Option<&ReplyValue>) -> (r: Option<String>)
    ensures
        view_of(r) == amount_in(deref_of(value)),
{
    match value {
        Some(ReplyValue::Number(n)) => Some(n.text.clone()),
        Some(ReplyValue::Text(t)) => match &t.number {
            Some(n) => Some(n.clone()),
            None => None,
        },
        _ => None,
    }
}

/// The confidence that a field carries.
pub fn confidence(field: &ReplyValue) -> (r: Option<Real>)
    ensures
        r == confidence_of(*field),
{
    match member(field, "confidence") {
        Some(ReplyValue::Number(n)) => Some(n.real),
        _ => None,
    }
}

fn get_trimmed(field: &ReplyValue, key: &str) -> (r: Option<String>)
    ensures
        view_of(r) == trimmed_member(*field, key@),
{
    keep(text_of(member(field, key)))
}

fn first_of(a: Option<String>, b: Option<String>) -> (r: Option<String>)
    ensures
        view_of(r) == or(view_of(a), view_of(b)),
{
    match a {
        Some(s) => Some(s),
        None => b,
    }
}

fn is_kind(kind: &Option<String>, name: &str) -> (b: bool)
    ensures
        b == (view_of(*kind) == Some(name@)),
{
    match kind {
        Some(k) => chars_equal(&str_chars(k.as_str()), &str_chars(name)),
        None => false,
    }
}

fn typed(field: &ReplyValue) -> (r: Option<String>)
    ensures
        view_of(r) == typed_value(*field),
{
    let kind = text_of(member(field, "type"));
    if is_kind(&kind, "string") {
        get_trimmed(field, "valueString")
    } else if is_kind(&kind, "address") {
        keep(text_of(member_of_some(member(field, "valueAddress"), "streetAddress")))
    } else if is_kind(&kind, "date") {
        first_of(
            get_trimmed(field, "valueDate"),
            first_of(get_trimmed(field, "content"), get_trimmed(field, "valueString")),
        )
    } else if is_kind(&kind, "time") {
        get_trimmed(field, "valueTime")
    } else if is_kind(&kind, "number") || is_kind(&kind, "integer") || is_kind(&kind, "float") {
        number_of(member(field, "valueNumber"))
    } else if is_kind(&kind, "currency") {
        amount_of(member_of_some(member(field, "valueCurrency"), "amount"))
    } else {
        None
    }
}

/// Extracts the value of a field as a text, preferring what the kind of the
/// field calls for over its raw content.
pub fn extract_azure_field_value(field: &ReplyValue) -> (r: String)
    ensures
        r@ == field_value(*field),
{
    if let ReplyValue::Null = field {
        return String::new();
    }
    let found = first_of(
        typed(field),
        first_of(
            get_trimmed(field, "valueString"),
            first_of(
                get_trimmed(field, "valueDate"),
                first_of(
                    get_trimmed(field, "content"),
                    first_of(number_of(member(field, "valueNumber")), get_trimmed(field, "valueTime")),
                ),
            ),
        ),
    );
    match found {
        Some(s) => s,
        None => String::new(),
    }
}

/// Extracts the value of a field and the confidence that it carries.
pub fn extract_field_value_and_confidence(field: &ReplyValue) -> (r: (String, Option<Real>))
    ensures
        r.0@ == field_value(*field),
        r.1 == confidence_of(*field),
{
    let c = confidence(field);
    (extract_azure_field_value(field), c)
}

/// A whole number in decimal, with a minus sign where it is negative.
pub open spec fn signed_decimal(n: i64) -> Seq<char> {
    if n < 0 {
        seq!['-'] + decimal((-n) as nat)
    } else {
        decimal(n as nat)
    }
}

fn signed_decimal_string(n: i64) -> (r: String)
    ensures
        r@ == signed_decimal(n),
{
    if n < 0 {
        let magnitude: u64 = ((-(n + 1)) as u64) + 1;
        let digits = decimal_string(magnitude);
        let mut out: Vec<char> = Vec::new();
        out.push('-');
        let tail = str_chars(digits.as_str());
        let mut i: usize = 0;
        while i < tail.len()
            invariant
                i <= tail@.len(),
                out@ == seq!['-'] + tail@.subrange(0, i as int),
            decreases tail.len() - i,
        {
            out.push(tail[i]);
            assert(out@ =~= seq!['-'] + tail@.subrange(0, i + 1));
            i += 1;
        }
        assert(tail@.subrange(0, tail@.len() as int) =~= tail@);
        string_from_chars(&out)
    } else {
        decimal_string(n as u64)
    }
}

/// The value itself where it is a record.
pub open spec fn record_in(value: Option<ReplyValue>) -> Option<ReplyValue> {
    match value {
        Some(ReplyValue::Record(_)) => value,
        _ => None,
    }
}

/// The text of a part of a line item: the trimmed string of the part, or its
/// content where it has no string; empty where neither is a text.
pub open spec fn item_text(item: ReplyValue, key: Seq<char>) -> Seq<char> {
    let part = member_of(item, key);
    match kept(text_in(or(member_in(part, "valueString"@), member_in(part, "content"@)))) {
        Some(s) => s,
        None => Seq::empty(),
    }
}

/// The number of a part of a line item as a text: its number, else its
/// integer, else its amount, else its trimmed content or string; empty where
/// the item has no such part.
pub open spec fn item_number(item: ReplyValue, key: Seq<char>) -> Seq<char> {
    let part = member_of(item, key);
    if part is None {
        Seq::empty()
    } else if number_in(member_in(part, "valueNumber"@)) is Some {
        number_in(member_in(part, "valueNumber"@))->0
    } else if integer_in(member_in(part, "valueInteger"@)) is Some {
        signed_decimal(integer_in(member_in(part, "valueInteger"@))->0)
    } else if amount_in(member_in(member_in(part, "valueCurrency"@), "amount"@)) is Some {
        amount_in(member_in(member_in(part, "valueCurrency"@), "amount"@))->0
    } else {
        match kept(text_in(or(member_in(part, "content"@), member_in(part, "valueString"@)))) {
            Some(s) => s,
            None => Seq::empty(),
        }
    }
}

/// The texts of a list that are not empty, in order.
pub open spec fn non_empty(texts: Seq<Seq<char>>) -> Seq<Seq<char>>
    decreases texts.len(),
{
    if texts.len() == 0 {
        Seq::empty()
    } else if texts.last().len() > 0 {
        non_empty(texts.drop_last()).push(texts.last())
    } else {
        non_empty(texts.drop_last())
    }
}

/// The line that a line item makes: its description, quantity and price,
/// those that are not empty, with bars between them; none where the item is
/// no record or all three are empty.
pub open spec fn item_line(item: ReplyValue) -> Option<Seq<char>> {
    match record_in(member_of(item, "valueObject"@)) {
        None => None,
        Some(object) => {
            let parts = non_empty(
                seq![
                    item_text(object, "Description"@),
                    item_number(object, "Quantity"@),
                    item_number(object, "Price"@),
                ],
            );
            if parts.len() == 0 {
                None
            } else {
                Some(joined(parts, " | "@))
            }
        },
    }
}

/// The lines of the first `upto` line items.
pub open spec fn item_lines(items: Seq<ReplyValue>, upto: int) -> Seq<Seq<char>>
    decreases upto,
{
    if upto <= 0 {
        Seq::empty()
    } else {
        match item_line(items[upto - 1]) {
            Some(line) => item_lines(items, upto - 1).push(line),
            None => item_lines(items, upto - 1),
        }
    }
}

/// The description that the line items of a document make, and the
/// confidence of the items: the items as a text where they are one, else one
/// line for each item; empty where there are none.
pub open spec fn items_description(fields: ReplyValue) -> (Seq<char>, Option<Real>) {
    match member_of(fields, "Items"@) {
        None => (Seq::empty(), None),
        Some(items) => {
            let simple = kept(
                text_in(or(member_of(items, "valueString"@), member_of(items, "content"@))),
            );
            if simple is Some {
                (simple->0, confidence_of(items))
            } else {
                match member_of(items, "valueArray"@) {
                    Some(ReplyValue::List(list)) => (
                        joined(item_lines(list@, list@.len() as int), seq!['\n']),
                        confidence_of(items),
                    ),
                    _ => (Seq::empty(), confidence_of(items)),
                }
            }
        },
    }
}

fn either<'a>(a: Option<&'a ReplyValue>, b: Option<&'a ReplyValue>) -> (r: Option<&'a ReplyValue>)
    ensures
        deref_of(r) == or(deref_of(a), deref_of(b)),
{
    match a {
        Some(v) => Some(v),
        None => b,
    }
}

/// Reads the text of a part of a line item, such as its description.
pub fn item_field_string(item: &ReplyValue, key: &str) -> (r: String)
    ensures
        r@ == item_text(*item, key@),
{
    let part = member(item, key);
    let found = keep(
        text_of(either(member_of_some(part, "valueString"), member_of_some(part, "content"))),
    );
    match found {
        Some(s) => s,
        None => String::new(),
    }
}

/// Reads the number of a part of a line item, such as its quantity or price,
/// as a text.
pub fn item_field_number(item: &ReplyValue, key: &str) -> (r: String)
    ensures
        r@ == item_number(*item, key@),
{
    let part = member(item, key);
    if part.is_none() {
        return String::new();
    }
    match number_of(member_of_some(part, "valueNumber")) {
        Some(n) => {
            return n;
        },
        None => {},
    }
    match integer_of(member_of_some(part, "valueInteger")) {
        Some(n) => {
            return signed_decimal_string(n);
        },
        None => {},
    }
    match amount_of(member_of_some(member_of_some(part, "valueCurrency"), "amount")) {
        Some(n) => {
            return n;
        },
        None => {},
    }
    let found = keep(
        text_of(either(member_of_some(part, "content"), member_of_some(part, "valueString"))),
    );
    match found {
        Some(s) => s,
        None => String::new(),
    }
}

fn line_of_item(item: &ReplyValue) -> (r: Option<Vec<char>>)
    ensures
        match r {
            Some(line) => item_line(*item) == Some(line@),
            None => item_line(*item) is None,
        },
{
    let object = match member(item, "valueObject") {
        Some(v) => match v {
            ReplyValue::Record(_) => v,
            _ => {
                return None;
            },
        },
        None => {
            return None;
        },
    };
    let description = str_chars(item_field_string(object, "Description").as_str());
    let quantity = str_chars(item_field_number(object, "Quantity").as_str());
    let price = str_chars(item_field_number(object, "Price").as_str());
    let ghost all = seq![description@, quantity@, price@];
    let mut parts: Vec<Vec<char>> = Vec::new();
    assert(texts_view(parts@) =~= non_empty(all.subrange(0, 0)));
    if description.len() > 0 {
        parts.push(description);
    }
    assert(texts_view(parts@) =~= non_empty(all.subrange(0, 1))) by {
        assert(all.subrange(0, 1).drop_last() =~= all.subrange(0, 0));
    }
    if quantity.len() > 0 {
        parts.push(quantity);
    }
    assert(texts_view(parts@) =~= non_empty(all.subrange(0, 2))) by {
        assert(all.subrange(0, 2).drop_last() =~= all.subrange(0, 1));
    }
    if price.len() > 0 {
        parts.push(price);
    }
    assert(texts_view(parts@) =~= non_empty(all)) by {
        assert(all.drop_last() =~= all.subrange(0, 2));
    }
    if parts.len() == 0 {
        return None;
    }
    Some(join_chars(&parts, &str_chars(" | ")))
}

/// Extracts the description of a document from its line items: the items as
/// a text where the reader reports them so, else one line for each item with
/// its description, quantity and price.
pub fn extract_line_items_description(fields: &ReplyValue) -> (r: (String, Option<Real>))
    ensures
        r.0@ == items_description(*fields).0,
        r.1 == items_description(*fields).1,
{
    let items = match member(fields, "Items") {
        Some(v) => v,
        None => {
            return (String::new(), None);
        },
    };
    let c = confidence(items);
    match keep(text_of(either(member(items, "valueString"), member(items, "content")))) {
        Some(s) => {
            return (s, c);
        },
        None => {},
    }
    let list = match member(items, "valueArray") {
        Some(ReplyValue::List(list)) => list,
        _ => {
            return (String::new(), c);
        },
    };
    let mut lines: Vec<Vec<char>> = Vec::new();
    let mut i: usize = 0;
    while i < list.len()
        invariant
            i <= list@.len(),
            texts_view(lines@) == item_lines(list@, i as int),
        decreases list.len() - i,
    {
        let ghost before = texts_view(lines@);
        match line_of_item(&list[i]) {
            Some(line) => {
                lines.push(line);
                assert(texts_view(lines@) =~= before.push(line@));
            },
            None => {},
        }
        i += 1;
    }
    let mut newline: Vec<char> = Vec::new();
    newline.push('\n');
    assert(newline@ =~= seq!['\n']);
    (string_from_chars(&join_chars(&lines, &newline)), c)
}

/// The first line of a text, trimmed.
pub open spec fn first_line(raw: Seq<char>) -> Seq<char> {
    trimmed(raw.take(line_len(raw)))
}

/// How many characters of a text are not white space.
pub open spec fn dense_len(s: Seq<char>) -> nat
    decreases s.len(),
{
    if s.len() == 0 {
        0
    } else if char_is_whitespace(s.last()) {
        dense_len(s.drop_last())
    } else {
        dense_len(s.drop_last()) + 1
    }
}

/// A name that a field of the reply offers for a party of the document.
#[derive(Debug, PartialEq, Eq)]
pub struct NameCandidate {
    pub name: String,
    pub confidence: Option<Real>,
    /// One of the words of the name is a legal form.
    pub legal_form: bool,
    /// The name has more than 15 characters that are not white space.
    pub long: bool,
}

/// The mathematical content of a [`NameCandidate`].
pub struct NameCandidateView {
    pub name: Seq<char>,
    pub confidence: Option<Real>,
    pub legal_form: bool,
    pub long: bool,
}

impl View for NameCandidate {
    type V = NameCandidateView;

    open spec fn view(&self) -> NameCandidateView {
        NameCandidateView {
            name: self.name@,
            confidence: self.confidence,
            legal_form: self.legal_form,
            long: self.long,
        }
    }
}

/// The candidate that a name and a confidence make.
pub open spec fn candidate_of(name: Seq<char>, confidence: Option<Real>) -> NameCandidateView {
    NameCandidateView {
        name,
        confidence,
        legal_form: has_legal_form(name),
        long: dense_len(name) > 15,
    }
}

/// The name that a field offers: its value, cleaned as a company name; none
/// where the document has no such field or nothing is left of the name.
pub open spec fn name_candidate(fields: ReplyValue, key: Seq<char>) -> Option<NameCandidateView> {
    match member_of(fields, key) {
        Some(field) => {
            let name = clean_name(field_value(field));
            if name.len() > 0 {
                Some(candidate_of(name, confidence_of(field)))
            } else {
                None
            }
        },
        None => None,
    }
}

/// The name that an address field offers: the first line of its value,
/// trimmed, where that does not look like an address itself.
pub open spec fn address_candidate(fields: ReplyValue, key: Seq<char>) -> Option<NameCandidateView> {
    match member_of(fields, key) {
        Some(field) => {
            let name = first_line(field_value(field));
            if name.len() > 0 && !is_address_suffix(name) {
                Some(candidate_of(name, confidence_of(field)))
            } else {
                None
            }
        },
        None => None,
    }
}

/// The content of an optional candidate.
pub open spec fn candidate_view(o: Option<NameCandidate>) -> Option<NameCandidateView> {
    match o {
        Some(c) => Some(c@),
        None => None,
    }
}

fn count_dense(v: &Vec<char>) -> (n: usize)
    ensures
        n == dense_len(v@),
{
    let mut n: usize = 0;
    let mut i: usize = 0;
    while i < v.len()
        invariant
            i <= v@.len(),
            n <= i,
            n == dense_len(v@.subrange(0, i as int)),
        decreases v.len() - i,
    {
        assert(v@.subrange(0, i + 1).drop_last() =~= v@.subrange(0, i as int));
        if !is_whitespace(v[i]) {
            n += 1;
        }
        i += 1;
    }
    assert(v@.subrange(0, v@.len() as int) =~= v@);
    n
}

fn candidate(name: String, confidence: Option<Real>) -> (c: NameCandidate)
    ensures
        c@ == candidate_of(name@, confidence),
{
    let legal_form = names_legal_form(name.as_str());
    let long = count_dense(&str_chars(name.as_str())) > 15;
    NameCandidate { name, confidence, legal_form, long }
}

/// Reads the name that a field of the document offers for a party.
pub fn read_name_candidate(fields: &ReplyValue, key: &str) -> (r: Option<NameCandidate>)
    ensures
        candidate_view(r) == name_candidate(*fields, key@),
{
    match member(fields, key) {
        Some(field) => {
            let raw = extract_azure_field_value(field);
            let name = clean_company_name(raw.as_str());
            if name.as_str().unicode_len() > 0 {
                Some(candidate(name, confidence(field)))
            } else {
                None
            }
        },
        None => None,
    }
}

/// Reads the name that the first line of an address field offers.
pub fn read_address_candidate(fields: &ReplyValue, key: &str) -> (r: Option<NameCandidate>)
    ensures
        candidate_view(r) == address_candidate(*fields, key@),
{
    match member(fields, key) {
        Some(field) => {
            let raw = str_chars(extract_azure_field_value(field).as_str());
            let mut end: usize = 0;
            assert(raw@.subrange(0, raw@.len() as int) =~= raw@);
            while end < raw.len() && raw[end] != '\n'
                invariant
                    end <= raw@.len(),
                    line_len(raw@) == end + line_len(raw@.subrange(end as int, raw@.len() as int)),
                decreases raw.len() - end,
            {
                assert(raw@.subrange(end as int, raw@.len() as int).drop_first() =~= raw@.subrange(
                    end + 1,
                    raw@.len() as int,
                ));
                end += 1;
            }
            assert(line_len(raw@) == end) by {
                let rest = raw@.subrange(end as int, raw@.len() as int);
                if end < raw@.len() {
                    assert(rest[0] == raw@[end as int]);
                }
            }
            let head = chars_range(&raw, 0, end);
            assert(head@ =~= raw@.take(end as int));
            let name = string_from_chars(&trim_chars(&head));
            if name.as_str().unicode_len() > 0 && !looks_like_address_suffix(name.as_str()) {
                Some(candidate(name, confidence(field)))
            } else {
                None
            }
        },
        None => None,
    }
}

/// The name of the customer of a document and its confidence: the customer's
/// name, else the recipient at the customer's address, else the first line of
/// that address; empty where none of them offers a name.
pub open spec fn customer_name(fields: ReplyValue) -> (Seq<char>, Option<Real>) {
    let found = or(
        name_candidate(fields, "CustomerName"@),
        or(
            name_candidate(fields, "CustomerAddressRecipient"@),
            address_candidate(fields, "CustomerAddress"@),
        ),
    );
    match found {
        Some(c) => (c.name, c.confidence),
        None => (Seq::empty(), None),
    }
}

/// Picks the name of the customer of a document: the company name alone, no
/// address lines.
pub fn best_customer_name(fields: &ReplyValue) -> (r: (String, Option<Real>))
    ensures
        r.0@ == customer_name(*fields).0,
        r.1 == customer_name(*fields).1,
{
    match read_name_candidate(fields, "CustomerName") {
        Some(c) => {
            return (c.name, c.confidence);
        },
        None => {},
    }
    match read_name_candidate(fields, "CustomerAddressRecipient") {
        Some(c) => {
            return (c.name, c.confidence);
        },
        None => {},
    }
    match read_address_candidate(fields, "CustomerAddress") {
        Some(c) => (c.name, c.confidence),
        None => (String::new(), None),
    }
}

/// One extracted field: its key, its value and its confidence.
pub struct Entry {
    pub key: Seq<char>,
    pub value: Seq<char>,
    pub confidence: Option<Real>,
}

/// The contents of a list of extracted fields.
pub open spec fn entries_view(fields: Seq<(String, InvoiceFieldValue)>) -> Seq<Entry> {
    Seq::new(
        fields.len(),
        |i: int| Entry { key: fields[i].0@, value: fields[i].1.value@, confidence: fields[i].1.confidence },
    )
}

/// The position of the first field from `from` on that has the key, or -1.
pub open spec fn position_from(entries: Seq<Entry>, key: Seq<char>, from: int) -> int
    decreases entries.len() - from,
{
    if from < 0 || from >= entries.len() {
        -1
    } else if entries[from].key == key {
        from
    } else {
        position_from(entries, key, from + 1)
    }
}

/// The position of the first field with the key, or -1.
pub open spec fn position(entries: Seq<Entry>, key: Seq<char>) -> int {
    position_from(entries, key, 0)
}

/// The fields with one more field put in: in place of the first field with
/// the same key, or at the end where there is none.
pub open spec fn put(entries: Seq<Entry>, entry: Entry) -> Seq<Entry> {
    let at = position(entries, entry.key);
    if 0 <= at < entries.len() {
        entries.update(at, entry)
    } else {
        entries.push(entry)
    }
}

fn find_field(fields: &Vec<(String, InvoiceFieldValue)>, key: &str) -> (r: Option<usize>)
    ensures
        match r {
            Some(at) => position(entries_view(fields@), key@) == at && at < fields@.len(),
            None => position(entries_view(fields@), key@) == -1,
        },
{
    let wanted = str_chars(key);
    let mut i: usize = 0;
    let ghost entries = entries_view(fields@);
    while i < fields.len()
        invariant
            i <= fields@.len(),
            wanted@ == key@,
            entries == entries_view(fields@),
            position(entries, key@) == position_from(entries, key@, i as int),
        decreases fields.len() - i,
    {
        let name = str_chars(fields[i].0.as_str());
        assert(entries[i as int].key == fields@[i as int].0@);
        if chars_equal(&name, &wanted) {
            return Some(i);
        }
        i += 1;
    }
    None
}

/// Puts a field into a list of extracted fields, in place of the field with
/// the same key where there is one.
pub fn put_field(
    fields: &mut Vec<(String, InvoiceFieldValue)>,
    key: String,
    value: String,
    confidence: Option<Real>,
)
    ensures
        entries_view(final(fields)@) == put(
            entries_view(old(fields)@),
            Entry { key: key@, value: value@, confidence },
        ),
{
    let ghost before = entries_view(fields@);
    let ghost entry = Entry { key: key@, value: value@, confidence };
    match find_field(fields, key.as_str()) {
        Some(at) => {
            fields.remove(at);
            fields.insert(at, (key, InvoiceFieldValue { value, confidence }));
            assert(entries_view(fields@) =~= before.update(at as int, entry));
        },
        None => {
            fields.push((key, InvoiceFieldValue { value, confidence }));
            assert(entries_view(fields@) =~= before.push(entry));
        },
    }
}

/// The confidence of a value that the library sets itself: one, as a
/// double's bits.
pub const FULL_CONFIDENCE_BITS: u64 = 0x3FF0_0000_0000_0000;

/// Full confidence.
pub open spec fn full_confidence() -> Option<Real> {
    Some(Real { bits: FULL_CONFIDENCE_BITS })
}

/// The fields of the reader's model and the keys under which their values
/// are kept, in the order in which they are read.
pub open spec fn field_table() -> Seq<(Seq<char>, Seq<char>)> {
    seq![
        ("TypeOfDocument"@, "document_type"@),
        ("Currency"@, "currency"@),
        ("CurrencyCode"@, "currency"@),
        ("VendorName"@, "seller_name"@),
        ("CustomerName"@, "buyer_name"@),
        ("InvoiceId"@, "document_number"@),
        ("InvoiceTotal"@, "total_amount"@),
        ("SubTotal"@, "net_amount"@),
        ("DDV"@, "tax_amount"@),
        ("InvoiceDate"@, "date"@),
        ("DueDate"@, "due_date"@),
        ("VendorTaxId"@, "seller_edb"@),
        ("VendorAddress"@, "seller_address"@),
        ("CustomerAddress"@, "buyer_address"@),
        ("CustomerTaxId"@, "buyer_tax_id"@),
        ("TotalTax"@, "tax_amount"@),
        ("CurrencyCode"@, "currency"@),
        ("PaymentTerm"@, "payment_method"@),
        ("PurchaseOrder"@, "reference"@),
    ]
}

/// The key names a party of the document; parties are named by rules of
/// their own.
pub open spec fn is_party_key(key: Seq<char>) -> bool {
    key == "seller_name"@ || key == "buyer_name"@
}

/// The fields read by the first `upto` rows of the table: each field of the
/// model that is there and not blank is put under its key, a later row for
/// the same key in place of an earlier one.
pub open spec fn mapped_fields(fields: ReplyValue, upto: int) -> Seq<Entry>
    decreases upto,
{
    if upto <= 0 {
        Seq::empty()
    } else {
        let before = mapped_fields(fields, upto - 1);
        let row = field_table()[upto - 1];
        match member_of(fields, row.0) {
            Some(field) => if !is_party_key(row.1) && !is_blank(field_value(field)) {
                put(
                    before,
                    Entry { key: row.1, value: field_value(field), confidence: confidence_of(field) },
                )
            } else {
                before
            },
            None => before,
        }
    }
}

/// The fields with the document number also put under `invoice_number`,
/// where there is a document number and no invoice number yet.
pub open spec fn with_invoice_number(entries: Seq<Entry>) -> Seq<Entry> {
    let at = position(entries, "document_number"@);
    if 0 <= at < entries.len() && position(entries, "invoice_number"@) == -1 {
        entries.push(
            Entry {
                key: "invoice_number"@,
                value: entries[at].value,
                confidence: entries[at].confidence,
            },
        )
    } else {
        entries
    }
}

/// The fields with a party put in, where a name was found for it.
pub open spec fn with_party(
    entries: Seq<Entry>,
    key: Seq<char>,
    name: Seq<char>,
    confidence: Option<Real>,
) -> Seq<Entry> {
    if name.len() > 0 {
        put(entries, Entry { key, value: run_together_fixed(name), confidence })
    } else {
        entries
    }
}

/// The description of a document and its confidence: that of its line
/// items, else the trimmed content of the whole reply.
pub open spec fn description_of(result: ReplyValue, fields: ReplyValue) -> (Seq<char>, Option<Real>) {
    let items = items_description(fields);
    if items.0.len() > 0 {
        items
    } else {
        match kept(text_in(member_of(result, "content"@))) {
            Some(content) => (content, None),
            None => items,
        }
    }
}

/// The currency code that an amount field carries: in its currency value,
/// else in its content.
pub open spec fn currency_code(field: ReplyValue) -> Option<Seq<char>> {
    or(
        text_in(member_in(member_of(field, "valueCurrency"@), "currencyCode"@)),
        text_in(member_in(member_of(field, "content"@), "currencyCode"@)),
    )
}

/// The amount fields that may carry the currency, in the order in which they
/// are asked.
pub open spec fn amount_keys() -> Seq<Seq<char>> {
    seq!["InvoiceTotal"@, "SubTotal"@, "TotalTax"@]
}

/// The currency that the amount fields from position `from` on carry: that
/// of the first field that has one.
pub open spec fn currency_from(fields: ReplyValue, from: int) -> Option<Entry>
    decreases amount_keys().len() - from,
{
    if from < 0 || from >= amount_keys().len() {
        None
    } else {
        match member_of(fields, amount_keys()[from]) {
            Some(field) => match currency_code(field) {
                Some(code) => Some(
                    Entry { key: "currency"@, value: code, confidence: confidence_of(field) },
                ),
                None => currency_from(fields, from + 1),
            },
            None => currency_from(fields, from + 1),
        }
    }
}

/// The fields with the currency of the amounts put in, where no currency was
/// read and an amount carries one.
pub open spec fn with_currency(entries: Seq<Entry>, fields: ReplyValue) -> Seq<Entry> {
    if position(entries, "currency"@) == -1 {
        match currency_from(fields, 0) {
            Some(entry) => entries.push(entry),
            None => entries,
        }
    } else {
        entries
    }
}

/// The name of a kind of document where the reader names none.
pub open spec fn default_type(document_type: Option<Seq<char>>) -> Seq<char> {
    if document_type == Some("plata"@) {
        "Плата"@
    } else if document_type == Some("smetka"@) {
        "Даночен биланс"@
    } else if document_type == Some("generic"@) {
        "ДДВ"@
    } else {
        "Фактура"@
    }
}

/// The name of a kind of document that was read as plain text.
pub open spec fn plain_type(document_type: Option<Seq<char>>) -> Seq<char> {
    if document_type == Some("plata"@) {
        "Плата"@
    } else if document_type == Some("generic"@) {
        "ДДВ"@
    } else {
        "Документ"@
    }
}

/// The fields with the kind of document put in, where none was read.
pub open spec fn with_type(entries: Seq<Entry>, document_type: Option<Seq<char>>) -> Seq<Entry> {
    if position(entries, "document_type"@) == -1 {
        entries.push(
            Entry {
                key: "document_type"@,
                value: default_type(document_type),
                confidence: full_confidence(),
            },
        )
    } else {
        entries
    }
}

/// The key is read by the table, or names the line items.
pub open spec fn is_table_key(key: Seq<char>) -> bool {
    key == "Items"@ || exists|k: int| 0 <= k < field_table().len() && (#[trigger] field_table()[k]).0 == key
}

/// The fields with the first `upto` members of the model put in under their
/// own names, those that the table does not read and that have a value.
pub open spec fn with_others(entries: Seq<Entry>, members: Seq<(String, ReplyValue)>, upto: int) -> Seq<
    Entry,
>
    decreases upto,
{
    if upto <= 0 {
        entries
    } else {
        let before = with_others(entries, members, upto - 1);
        let pair = members[upto - 1];
        if !is_table_key(pair.0@) && field_value(pair.1).len() > 0 {
            put(
                before,
                Entry { key: pair.0@, value: field_value(pair.1), confidence: confidence_of(pair.1) },
            )
        } else {
            before
        }
    }
}

/// The members of a record, none for any other value.
pub open spec fn members_of(value: ReplyValue) -> Seq<(String, ReplyValue)> {
    match value {
        ReplyValue::Record(pairs) => pairs@,
        _ => Seq::empty(),
    }
}

/// The fields of a document that the reader's model read: the fields of the
/// table, the invoice number, the two parties, the description, the
/// currency, the kind of document, and whatever else the model read.
pub open spec fn model_fields(
    result: ReplyValue,
    fields: ReplyValue,
    document_type: Option<Seq<char>>,
    vendor: (Seq<char>, Option<Real>),
) -> Seq<Entry> {
    let mapped = with_invoice_number(mapped_fields(fields, field_table().len() as int));
    let customer = customer_name(fields);
    let parties = with_party(
        with_party(mapped, "seller_name"@, vendor.0, vendor.1),
        "buyer_name"@,
        customer.0,
        customer.1,
    );
    let description = description_of(result, fields);
    let described = put(
        parties,
        Entry { key: "description"@, value: description.0, confidence: description.1 },
    );
    let typed = with_type(with_currency(described, fields), document_type);
    with_others(typed, members_of(fields), members_of(fields).len() as int)
}

fn table() -> (rows: Vec<(Vec<char>, &'static str)>)
    ensures
        rows@.len() == field_table().len(),
        forall|k: int|
            0 <= k < rows@.len() ==> (#[trigger] rows@[k]).0@ == field_table()[k].0 && rows@[k].1@
                == field_table()[k].1,
{
    let mut rows: Vec<(Vec<char>, &'static str)> = Vec::new();
    rows.push((str_chars("TypeOfDocument"), "document_type"));
    rows.push((str_chars("Currency"), "currency"));
    rows.push((str_chars("CurrencyCode"), "currency"));
    rows.push((str_chars("VendorName"), "seller_name"));
    rows.push((str_chars("CustomerName"), "buyer_name"));
    rows.push((str_chars("InvoiceId"), "document_number"));
    rows.push((str_chars("InvoiceTotal"), "total_amount"));
    rows.push((str_chars("SubTotal"), "net_amount"));
    rows.push((str_chars("DDV"), "tax_amount"));
    rows.push((str_chars("InvoiceDate"), "date"));
    rows.push((str_chars("DueDate"), "due_date"));
    rows.push((str_chars("VendorTaxId"), "seller_edb"));
    rows.push((str_chars("VendorAddress"), "seller_address"));
    rows.push((str_chars("CustomerAddress"), "buyer_address"));
    rows.push((str_chars("CustomerTaxId"), "buyer_tax_id"));
    rows.push((str_chars("TotalTax"), "tax_amount"));
    rows.push((str_chars("CurrencyCode"), "currency"));
    rows.push((str_chars("PaymentTerm"), "payment_method"));
    rows.push((str_chars("PurchaseOrder"), "reference"));
    rows
}

fn is_literal(s: &str, literal: &str) -> (b: bool)
    ensures
        b == (s@ == literal@),
{
    chars_equal(&str_chars(s), &str_chars(literal))
}

fn table_key(key: &str, rows: &Vec<(Vec<char>, &'static str)>) -> (b: bool)
    requires
        rows@.len() == field_table().len(),
        forall|k: int|
            0 <= k < rows@.len() ==> (#[trigger] rows@[k]).0@ == field_table()[k].0 && rows@[k].1@
                == field_table()[k].1,
    ensures
        b == is_table_key(key@),
{
    if is_literal(key, "Items") {
        return true;
    }
    let wanted = str_chars(key);
    let mut k: usize = 0;
    while k < rows.len()
        invariant
            k <= rows@.len(),
            wanted@ == key@,
            rows@.len() == field_table().len(),
            forall|j: int|
                0 <= j < rows@.len() ==> (#[trigger] rows@[j]).0@ == field_table()[j].0 && rows@[j].1@
                    == field_table()[j].1,
            forall|j: int| 0 <= j < k ==> (#[trigger] field_table()[j]).0 != key@,
        decreases rows.len() - k,
    {
        assert(rows@[k as int].0@ == field_table()[k as int].0);
        if chars_equal(&rows[k].0, &wanted) {
            return true;
        }
        k += 1;
    }
    false
}

fn is_type(document_type: Option<&str>, name: &str) -> (b: bool)
    ensures
        b == (match document_type {
            Some(s) => Some(s@),
            None => None::<Seq<char>>,
        } == Some(name@)),
{
    match document_type {
        Some(s) => is_literal(s, name),
        None => false,
    }
}

fn code_of(field: &ReplyValue) -> (r: Option<String>)
    ensures
        view_of(r) == currency_code(*field),
{
    first_of(
        text_of(member_of_some(member(field, "valueCurrency"), "currencyCode")),
        text_of(member_of_some(member(field, "content"), "currencyCode")),
    )
}

/// Assembles the fields of a document from what the reader's model read of
/// it, given the name picked for the vendor.
pub fn read_model_fields(
    result: &ReplyValue,
    fields: &ReplyValue,
    document_type: Option<&str>,
    vendor_name: String,
    vendor_confidence: Option<Real>,
) -> (r: Vec<(String, InvoiceFieldValue)>)
    ensures
        entries_view(r@) == model_fields(
            *result,
            *fields,
            match document_type {
                Some(s) => Some(s@),
                None => None,
            },
            (vendor_name@, vendor_confidence),
        ),
{
    let ghost kind: Option<Seq<char>> = match document_type {
        Some(s) => Some(s@),
        None => None,
    };
    let rows = table();
    let mut out: Vec<(String, InvoiceFieldValue)> = Vec::new();
    assert(entries_view(out@) =~= mapped_fields(*fields, 0));
    let mut k: usize = 0;
    while k < rows.len()
        invariant
            k <= rows@.len(),
            rows@.len() == field_table().len(),
            forall|j: int|
                0 <= j < rows@.len() ==> (#[trigger] rows@[j]).0@ == field_table()[j].0 && rows@[j].1@
                    == field_table()[j].1,
            entries_view(out@) == mapped_fields(*fields, k as int),
        decreases rows.len() - k,
    {
        let row = &rows[k];
        assert(row.0@ == field_table()[k as int].0 && row.1@ == field_table()[k as int].1);
        let party = is_literal(row.1, "seller_name") || is_literal(row.1, "buyer_name");
        let name = string_from_chars(&row.0);
        match member(fields, name.as_str()) {
            Some(field) => {
                let (value, c) = extract_field_value_and_confidence(field);
                let blank = trim_chars(&str_chars(value.as_str())).len() == 0;
                if !party && !blank {
                    put_field(&mut out, row.1.to_owned(), value, c);
                }
            },
            None => {},
        }
        k += 1;
    }
    // The invoice number follows the document number.
    match find_field(&out, "document_number") {
        Some(at) => {
            if find_field(&out, "invoice_number").is_none() {
                let ghost before = entries_view(out@);
                let value = out[at].1.value.clone();
                let c = out[at].1.confidence;
                out.push(("invoice_number".to_owned(), InvoiceFieldValue { value, confidence: c }));
                assert(entries_view(out@) =~= before.push(
                    Entry {
                        key: "invoice_number"@,
                        value: before[at as int].value,
                        confidence: before[at as int].confidence,
                    },
                ));
            }
        },
        None => {},
    }
    assert(entries_view(out@) == with_invoice_number(
        mapped_fields(*fields, field_table().len() as int),
    ));
    if vendor_name.as_str().unicode_len() > 0 {
        let name = fix_all_caps_run_together(vendor_name.as_str());
        put_field(&mut out, "seller_name".to_owned(), name, vendor_confidence);
    }
    let (customer, customer_confidence) = best_customer_name(fields);
    if customer.as_str().unicode_len() > 0 {
        let name = fix_all_caps_run_together(customer.as_str());
        put_field(&mut out, "buyer_name".to_owned(), name, customer_confidence);
    }
    let (items, items_confidence) = extract_line_items_description(fields);
    let (description, description_confidence) = if items.as_str().unicode_len() > 0 {
        (items, items_confidence)
    } else {
        match keep(text_of(member(result, "content"))) {
            Some(content) => (content, None),
            None => (items, items_confidence),
        }
    };
    put_field(&mut out, "description".to_owned(), description, description_confidence);
    if find_field(&out, "currency").is_none() {
        let mut keys: Vec<&'static str> = Vec::new();
        keys.push("InvoiceTotal");
        keys.push("SubTotal");
        keys.push("TotalTax");
        let mut i: usize = 0;
        let ghost before = entries_view(out@);
        let mut found: Option<(String, Option<Real>)> = None;
        while i < keys.len()
            invariant_except_break
                i <= keys@.len(),
                keys@.len() == amount_keys().len(),
                forall|j: int| 0 <= j < keys@.len() ==> (#[trigger] keys@[j])@ == amount_keys()[j],
                found is None,
                currency_from(*fields, 0) == currency_from(*fields, i as int),
            ensures
                match found {
                    Some(f) => currency_from(*fields, 0) == Some(
                        Entry { key: "currency"@, value: f.0@, confidence: f.1 },
                    ),
                    None => currency_from(*fields, 0) is None,
                },
            decreases keys.len() - i,
        {
            assert(keys@[i as int]@ == amount_keys()[i as int]);
            match member(fields, keys[i]) {
                Some(field) => match code_of(field) {
                    Some(code) => {
                        found = Some((code, confidence(field)));
                        break ;
                    },
                    None => {},
                },
                None => {},
            }
            i += 1;
        }
        match found {
            Some(f) => {
                out.push(("currency".to_owned(), InvoiceFieldValue { value: f.0, confidence: f.1 }));
                assert(entries_view(out@) =~= before.push(
                    Entry { key: "currency"@, value: f.0@, confidence: f.1 },
                ));
            },
            None => {},
        }
    }
    if find_field(&out, "document_type").is_none() {
        let name = if is_type(document_type, "plata") {
            "Плата"
        } else if is_type(document_type, "smetka") {
            "Даночен биланс"
        } else if is_type(document_type, "generic") {
            "ДДВ"
        } else {
            "Фактура"
        };
        let ghost before = entries_view(out@);
        out.push(
            (
                "document_type".to_owned(),
                InvoiceFieldValue {
                    value: name.to_owned(),
                    confidence: Some(Real { bits: FULL_CONFIDENCE_BITS }),
                },
            ),
        );
        assert(entries_view(out@) =~= before.push(
            Entry { key: "document_type"@, value: default_type(kind), confidence: full_confidence() },
        ));
    }
    match fields {
        ReplyValue::Record(members) => {
            let ghost start = entries_view(out@);
            let mut m: usize = 0;
            while m < members.len()
                invariant
                    m <= members@.len(),
                    rows@.len() == field_table().len(),
                    forall|j: int|
                        0 <= j < rows@.len() ==> (#[trigger] rows@[j]).0@ == field_table()[j].0
                            && rows@[j].1@ == field_table()[j].1,
                    entries_view(out@) == with_others(start, members@, m as int),
                decreases members.len() - m,
            {
                let pair = &members[m];
                assert(*pair == members@[m as int]);
                if !table_key(pair.0.as_str(), &rows) {
                    let (value, c) = extract_field_value_and_confidence(&pair.1);
                    if value.as_str().unicode_len() > 0 {
                        put_field(&mut out, pair.0.clone(), value, c);
                    }
                }
                m += 1;
            }
        },
        _ => {},
    }
    out
}

/// The elements of a list, none for any other value.
pub open spec fn elements_of(value: Option<ReplyValue>) -> Seq<ReplyValue> {
    match value {
        Some(ReplyValue::List(list)) => list@,
        _ => Seq::empty(),
    }
}

/// The fields that the reader's model read of the first document of a
/// reply; none where the reply holds no document or the document no record
/// of fields.
pub open spec fn document_fields_of(result: ReplyValue) -> Option<ReplyValue> {
    let documents = elements_of(member_of(result, "documents"@));
    if documents.len() == 0 {
        None
    } else {
        record_in(member_of(documents[0], "fields"@))
    }
}

/// Finds the fields that the reader's model read of the first document.
pub fn document_fields<'a>(result: &'a ReplyValue) -> (r: Option<&'a ReplyValue>)
    ensures
        deref_of(r) == document_fields_of(*result),
{
    match member(result, "documents") {
        Some(ReplyValue::List(documents)) => {
            if documents.len() == 0 {
                return None;
            }
            match member(&documents[0], "fields") {
                Some(v) => match v {
                    ReplyValue::Record(_) => Some(v),
                    _ => None,
                },
                None => None,
            }
        },
        _ => None,
    }
}

/// The contents of the first `upto` values of a list, those that have a text
/// as content.
pub open spec fn contents(list: Seq<ReplyValue>, upto: int) -> Seq<Seq<char>>
    decreases upto,
{
    if upto <= 0 {
        Seq::empty()
    } else {
        match text_in(member_of(list[upto - 1], "content"@)) {
            Some(text) => contents(list, upto - 1).push(text),
            None => contents(list, upto - 1),
        }
    }
}

/// The lines that the first `upto` rows of a table make: the contents of the
/// cells of each row with bars between them, rows without contents left out.
pub open spec fn row_lines(rows: Seq<ReplyValue>, upto: int) -> Seq<Seq<char>>
    decreases upto,
{
    if upto <= 0 {
        Seq::empty()
    } else {
        let before = row_lines(rows, upto - 1);
        match member_of(rows[upto - 1], "cells"@) {
            Some(ReplyValue::List(cells)) => {
                let texts = contents(cells@, cells@.len() as int);
                if texts.len() > 0 {
                    before.push(joined(texts, " | "@))
                } else {
                    before
                }
            },
            _ => before,
        }
    }
}

/// The lines that the first `upto` tables make.
pub open spec fn table_lines(tables: Seq<ReplyValue>, upto: int) -> Seq<Seq<char>>
    decreases upto,
{
    if upto <= 0 {
        Seq::empty()
    } else {
        let rows = elements_of(member_of(tables[upto - 1], "rows"@));
        table_lines(tables, upto - 1) + row_lines(rows, rows.len() as int)
    }
}

/// The parts of a reply that was read for its layout: its paragraphs, then
/// the rows of its tables; its whole content where it has neither.
pub open spec fn layout_parts(result: ReplyValue) -> Seq<Seq<char>> {
    let paragraphs = elements_of(member_of(result, "paragraphs"@));
    let tables = elements_of(member_of(result, "tables"@));
    let parts = contents(paragraphs, paragraphs.len() as int) + table_lines(
        tables,
        tables.len() as int,
    );
    if parts.len() > 0 {
        parts
    } else {
        match text_in(member_of(result, "content"@)) {
            Some(content) => seq![content],
            None => parts,
        }
    }
}

/// The fields of a document of which the reader read text only: its
/// description and its kind. A balance sheet is described by its layout;
/// any other document by its content, where that is not blank.
pub open spec fn text_fields(result: ReplyValue, document_type: Option<Seq<char>>) -> Seq<Entry> {
    if document_type == Some("smetka"@) && layout_parts(result).len() > 0 {
        seq![
            Entry {
                key: "description"@,
                value: joined(layout_parts(result), seq!['\n']),
                confidence: None,
            },
            Entry { key: "document_type"@, value: "Даночен биланс"@, confidence: full_confidence() },
        ]
    } else {
        let content = match text_in(member_of(result, "content"@)) {
            Some(text) => text,
            None => Seq::empty(),
        };
        if !is_blank(content) {
            seq![
                Entry { key: "description"@, value: content, confidence: None },
                Entry {
                    key: "document_type"@,
                    value: plain_type(document_type),
                    confidence: full_confidence(),
                },
            ]
        } else {
            Seq::empty()
        }
    }
}

fn list_of<'a>(value: Option<&'a ReplyValue>) -> (r: Option<&'a Vec<ReplyValue>>)
    ensures
        match r {
            Some(list) => list@ == elements_of(deref_of(value)) && deref_of(value) == Some(
                ReplyValue::List(*list),
            ),
            None => elements_of(deref_of(value)) == Seq::<ReplyValue>::empty() && !(deref_of(value) matches Some(
                ReplyValue::List(_),
            )),
        },
{
    match value {
        Some(ReplyValue::List(list)) => Some(list),
        _ => None,
    }
}

fn push_contents(out: &mut Vec<Vec<char>>, list: &Vec<ReplyValue>)
    ensures
        texts_view(final(out)@) == texts_view(old(out)@) + contents(list@, list@.len() as int),
{
    let ghost start = texts_view(out@);
    let mut i: usize = 0;
    assert(texts_view(out@) =~= start + contents(list@, 0));
    while i < list.len()
        invariant
            i <= list@.len(),
            texts_view(out@) == start + contents(list@, i as int),
        decreases list.len() - i,
    {
        let ghost before = texts_view(out@);
        match text_of(member(&list[i], "content")) {
            Some(text) => {
                out.push(str_chars(text.as_str()));
                assert(texts_view(out@) =~= before.push(text@));
                assert(start + contents(list@, i as int).push(text@) =~= before.push(text@));
            },
            None => {},
        }
        i += 1;
    }
}

fn push_rows(out: &mut Vec<Vec<char>>, rows: &Vec<ReplyValue>)
    ensures
        texts_view(final(out)@) == texts_view(old(out)@) + row_lines(rows@, rows@.len() as int),
{
    let ghost start = texts_view(out@);
    let mut i: usize = 0;
    assert(texts_view(out@) =~= start + row_lines(rows@, 0));
    while i < rows.len()
        invariant
            i <= rows@.len(),
            texts_view(out@) == start + row_lines(rows@, i as int),
        decreases rows.len() - i,
    {
        let ghost before = texts_view(out@);
        match list_of(member(&rows[i], "cells")) {
            Some(cells) => {
                let mut texts: Vec<Vec<char>> = Vec::new();
                assert(texts_view(texts@) =~= Seq::<Seq<char>>::empty());
                push_contents(&mut texts, cells);
                assert(texts_view(texts@) =~= contents(cells@, cells@.len() as int));
                if texts.len() > 0 {
                    let line = join_chars(&texts, &str_chars(" | "));
                    out.push(line);
                    assert(texts_view(out@) =~= before.push(line@));
                    assert(start + row_lines(rows@, i as int).push(line@) =~= before.push(line@));
                }
            },
            None => {},
        }
        i += 1;
    }
}

fn layout(result: &ReplyValue) -> (parts: Vec<Vec<char>>)
    ensures
        texts_view(parts@) == layout_parts(*result),
{
    let mut parts: Vec<Vec<char>> = Vec::new();
    assert(texts_view(parts@) =~= Seq::<Seq<char>>::empty());
    match list_of(member(result, "paragraphs")) {
        Some(paragraphs) => {
            push_contents(&mut parts, paragraphs);
        },
        None => {},
    }
    let ghost paragraphs = elements_of(member_of(*result, "paragraphs"@));
    assert(texts_view(parts@) =~= contents(paragraphs, paragraphs.len() as int));
    let ghost after_paragraphs = texts_view(parts@);
    let ghost tables = elements_of(member_of(*result, "tables"@));
    match list_of(member(result, "tables")) {
        Some(list) => {
            let mut t: usize = 0;
            assert(texts_view(parts@) =~= after_paragraphs + table_lines(list@, 0));
            while t < list.len()
                invariant
                    t <= list@.len(),
                    texts_view(parts@) == after_paragraphs + table_lines(list@, t as int),
                decreases list.len() - t,
            {
                let ghost before = texts_view(parts@);
                match list_of(member(&list[t], "rows")) {
                    Some(rows) => {
                        push_rows(&mut parts, rows);
                    },
                    None => {},
                }
                let ghost rows = elements_of(member_of(list@[t as int], "rows"@));
                assert(texts_view(parts@) =~= before + row_lines(rows, rows.len() as int));
                assert(after_paragraphs + (table_lines(list@, t as int) + row_lines(
                    rows,
                    rows.len() as int,
                )) =~= before + row_lines(rows, rows.len() as int));
                t += 1;
            }
        },
        None => {
            assert(texts_view(parts@) =~= after_paragraphs + table_lines(tables, 0));
        },
    }
    if parts.len() == 0 {
        match text_of(member(result, "content")) {
            Some(content) => {
                parts.push(str_chars(content.as_str()));
                assert(texts_view(parts@) =~= seq![content@]);
            },
            None => {},
        }
    }
    parts
}

/// Assembles the fields of a document of which the reader read text only.
pub fn read_text_fields(result: &ReplyValue, document_type: Option<&str>) -> (r: Vec<
    (String, InvoiceFieldValue),
>)
    ensures
        entries_view(r@) == text_fields(
            *result,
            match document_type {
                Some(s) => Some(s@),
                None => None,
            },
        ),
{
    let mut out: Vec<(String, InvoiceFieldValue)> = Vec::new();
    if is_type(document_type, "smetka") {
        let parts = layout(result);
        if parts.len() > 0 {
            let mut newline: Vec<char> = Vec::new();
            newline.push('\n');
            assert(newline@ =~= seq!['\n']);
            let description = string_from_chars(&join_chars(&parts, &newline));
            out.push(("description".to_owned(), InvoiceFieldValue { value: description, confidence: None }));
            out.push(
                (
                    "document_type".to_owned(),
                    InvoiceFieldValue {
                        value: "Даночен биланс".to_owned(),
                        confidence: Some(Real { bits: FULL_CONFIDENCE_BITS }),
                    },
                ),
            );
            assert(entries_view(out@) =~= text_fields(*result, Some(document_type->0@)));
            return out;
        }
    }
    let content = match text_of(member(result, "content")) {
        Some(text) => text,
        None => String::new(),
    };
    if trim_chars(&str_chars(content.as_str())).len() > 0 {
        let name = if is_type(document_type, "plata") {
            "Плата"
        } else if is_type(document_type, "generic") {
            "ДДВ"
        } else {
            "Документ"
        };
        out.push(("description".to_owned(), InvoiceFieldValue { value: content, confidence: None }));
        out.push(
            (
                "document_type".to_owned(),
                InvoiceFieldValue {
                    value: name.to_owned(),
                    confidence: Some(Real { bits: FULL_CONFIDENCE_BITS }),
                },
            ),
        );
    }
    assert(entries_view(out@) =~= text_fields(
        *result,
        match document_type {
            Some(s) => Some(s@),
            None => None,
        },
    ));
    out
}

/// Where an analysis stands.
#[derive(Debug, PartialEq, Eq)]
pub enum Progress {
    /// The analysis is done; the reply holds its result.
    Succeeded,
    /// The analysis failed, with this message for the user.
    Failed(String),
    /// The analysis is still running.
    Pending,
}

/// The mathematical content of a [`Progress`].
pub enum ProgressView {
    Succeeded,
    Failed(Seq<char>),
    Pending,
}

impl View for Progress {
    type V = ProgressView;

    open spec fn view(&self) -> ProgressView {
        match *self {
            Progress::Succeeded => ProgressView::Succeeded,
            Progress::Failed(message) => ProgressView::Failed(message@),
            Progress::Pending => ProgressView::Pending,
        }
    }
}

/// Where the analysis stands according to a reply: done, failed with the
/// message that the reply gives (or none known), or still running.
pub open spec fn progress_of(reply: ReplyValue) -> ProgressView {
    let status = text_in(member_of(reply, "status"@));
    if status == Some("succeeded"@) {
        ProgressView::Succeeded
    } else if status == Some("failed"@) {
        ProgressView::Failed(
            "OCR analysis failed: "@ + match text_in(
                member_in(member_of(reply, "error"@), "message"@),
            ) {
                Some(message) => message,
                None => "Unknown error"@,
            },
        )
    } else {
        ProgressView::Pending
    }
}

/// Reads from a reply where the analysis stands.
pub fn read_progress(reply: &ReplyValue) -> (r: Progress)
    ensures
        r@ == progress_of(*reply),
{
    let status = text_of(member(reply, "status"));
    if is_kind(&status, "succeeded") {
        Progress::Succeeded
    } else if is_kind(&status, "failed") {
        let mut message = "OCR analysis failed: ".to_owned();
        match text_of(member_of_some(member(reply, "error"), "message")) {
            Some(m) => {
                message.append(m.as_str());
            },
            None => {
                message.append("Unknown error");
            },
        }
        Progress::Failed(message)
    } else {
        Progress::Pending
    }
}

/// The text of a line and its confidence.
pub open spec fn line_of(line: ReplyValue) -> (Seq<char>, Option<Real>) {
    (
        match text_in(member_of(line, "content"@)) {
            Some(text) => text,
            None => Seq::empty(),
        },
        confidence_of(line),
    )
}

/// The lines of the first `upto` pages, page after page.
pub open spec fn page_lines(pages: Seq<ReplyValue>, upto: int) -> Seq<(Seq<char>, Option<Real>)>
    decreases upto,
{
    if upto <= 0 {
        Seq::empty()
    } else {
        let lines = elements_of(member_of(pages[upto - 1], "lines"@));
        page_lines(pages, upto - 1) + Seq::new(lines.len(), |i: int| line_of(lines[i]))
    }
}

/// The lines of text that the reader found, in reading order.
pub open spec fn lines_of(result: ReplyValue) -> Seq<(Seq<char>, Option<Real>)> {
    let pages = elements_of(member_of(result, "pages"@));
    page_lines(pages, pages.len() as int)
}

/// The contents of a list of lines.
pub open spec fn lines_view(lines: Seq<(String, Option<Real>)>) -> Seq<(Seq<char>, Option<Real>)> {
    Seq::new(lines.len(), |i: int| (lines[i].0@, lines[i].1))
}

/// The texts of a list of lines.
pub open spec fn line_texts(lines: Seq<(String, Option<Real>)>) -> Seq<Seq<char>> {
    Seq::new(lines.len(), |i: int| lines[i].0@)
}

/// Reads the lines of text that the reader found, each with its confidence.
pub fn read_lines(result: &ReplyValue) -> (r: Vec<(String, Option<Real>)>)
    ensures
        lines_view(r@) == lines_of(*result),
{
    let mut out: Vec<(String, Option<Real>)> = Vec::new();
    match list_of(member(result, "pages")) {
        Some(pages) => {
            let mut p: usize = 0;
            assert(lines_view(out@) =~= page_lines(pages@, 0));
            while p < pages.len()
                invariant
                    p <= pages@.len(),
                    lines_view(out@) == page_lines(pages@, p as int),
                decreases pages.len() - p,
            {
                let ghost before = lines_view(out@);
                let ghost wanted = elements_of(member_of(pages@[p as int], "lines"@));
                match list_of(member(&pages[p], "lines")) {
                    Some(lines) => {
                        let mut i: usize = 0;
                        while i < lines.len()
                            invariant
                                i <= lines@.len(),
                                lines@ == wanted,
                                lines_view(out@) == before + Seq::new(
                                    i as nat,
                                    |k: int| line_of(wanted[k]),
                                ),
                            decreases lines.len() - i,
                        {
                            let line = &lines[i];
                            assert(*line == wanted[i as int]);
                            let text = match text_of(member(line, "content")) {
                                Some(t) => t,
                                None => String::new(),
                            };
                            let c = confidence(line);
                            let ghost earlier = lines_view(out@);
                            assert((text@, c) == line_of(wanted[i as int]));
                            out.push((text, c));
                            assert(lines_view(out@) =~= earlier.push(line_of(wanted[i as int])));
                            assert(lines_view(out@) =~= before + Seq::new(
                                (i + 1) as nat,
                                |k: int| line_of(wanted[k]),
                            ));
                            i += 1;
                        }
                    },
                    None => {
                        assert(lines_view(out@) =~= before + Seq::new(
                            0nat,
                            |k: int| line_of(wanted[k]),
                        ));
                    },
                }
                p += 1;
            }
        },
        None => {
            assert(lines_view(out@) =~= lines_of(*result));
        },
    }
    out
}

/// Joins the texts of the lines, one line each.
pub fn lines_content(lines: &Vec<(String, Option<Real>)>) -> (r: String)
    ensures
        r@ == joined(line_texts(lines@), seq!['\n']),
{
    let mut texts: Vec<Vec<char>> = Vec::new();
    let mut i: usize = 0;
    while i < lines.len()
        invariant
            i <= lines@.len(),
            texts@.len() == i,
            forall|k: int| 0 <= k < i ==> (#[trigger] texts@[k])@ == lines@[k].0@,
        decreases lines.len() - i,
    {
        texts.push(str_chars(lines[i].0.as_str()));
        i += 1;
    }
    assert(texts_view(texts@) =~= line_texts(lines@));
    let mut newline: Vec<char> = Vec::new();
    newline.push('\n');
    assert(newline@ =~= seq!['\n']);
    string_from_chars(&join_chars(&texts, &newline))
}

} // verus!
