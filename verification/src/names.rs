//! Cleaning of company names as a document reader reports them: joining
//! lines, cutting addresses off, and telling name lines from address lines.

use vstd::prelude::*;
use crate::datatype::is_digit;
use crate::text::{
    char_is_uppercase, chars_contain, chars_equal, chars_extend, chars_find, chars_have,
    chars_range, chars_replace, chars_start_with, contains_text, find_text, is_uppercase,
    join_chars, joined, lowercase_of, replaced, split_lines, split_words, starts_with,
    str_chars, string_from_chars, texts_view, to_lowercase, trim_chars, trim_start,
    trim_start_chars, trimmed, trimmed_lines, words,
};

verus! {

/// A letter of the basic Latin alphabet.
pub open spec fn is_ascii_letter(c: char) -> bool {
    ('a' <= c <= 'z') || ('A' <= c <= 'Z')
}

/// Country codes that begin an address, in small letters, each with the
/// space that follows it.
pub open spec fn country_prefixes() -> Seq<Seq<char>> {
    seq!["pl "@, "mk "@, "de "@, "at "@, "hr "@, "rs "@]
}

/// Words that mark a street or a square, in small letters.
pub open spec fn address_keywords() -> Seq<Seq<char>> {
    seq![
        "bul"@,
        "бул"@,
        "ul"@,
        "улица"@,
        "street"@,
        "avenue"@,
        "bulevar"@,
        "булевар"@,
        "str"@,
        "road"@,
        "rd."@,
        "плоштад"@,
        "plostad"@,
    ]
}

/// Words before which a name that was run together is split.
pub open spec fn name_keywords() -> Seq<Seq<char>> {
    seq!["DOOEL"@, "ДООЕЛ"@, "SKOPJE"@, "СКОПЈЕ"@, "ROAD"@, "DOO"@]
}

/// The legal forms of companies, in small letters.
pub open spec fn legal_forms() -> Seq<Seq<char>> {
    seq!["doo"@, "dooel"@, "doel"@, "доо"@, "дооел"@, "ad"@, "a.d"@, "ood"@, "gmbh"@, "shpk"@]
}

/// `s` begins with one of the texts of a list.
pub open spec fn begins_with_any(s: Seq<char>, list: Seq<Seq<char>>) -> bool {
    exists|k: int| 0 <= k < list.len() && starts_with(s, #[trigger] list[k])
}

/// `s` is one of the texts of a list.
pub open spec fn is_any_of(s: Seq<char>, list: Seq<Seq<char>>) -> bool {
    exists|k: int| 0 <= k < list.len() && s == #[trigger] list[k]
}

/// `s` begins with a keyword, or holds a keyword between two spaces.
pub open spec fn names_street(s: Seq<char>, list: Seq<Seq<char>>) -> bool {
    exists|k: int|
        0 <= k < list.len() && (starts_with(s, #[trigger] list[k]) || contains_text(
            s,
            seq![' '] + list[k] + seq![' '],
        ))
}

/// What follows a name looks like an address: it is blank, a code of up to
/// three letters, begins with a country code, or begins with a digit.
pub open spec fn is_address_suffix(s: Seq<char>) -> bool {
    let t = trimmed(s);
    ||| t.len() == 0
    ||| (t.len() <= 3 && forall|i: int| 0 <= i < t.len() ==> is_ascii_letter(#[trigger] t[i]))
    ||| begins_with_any(lowercase_of(t), country_prefixes())
    ||| is_digit(t[0])
}

/// A line looks like an address: it begins with a digit or with a street
/// word, or holds a street word between spaces.
pub open spec fn is_address_line(line: Seq<char>) -> bool {
    let s = trimmed(line);
    s.len() > 0 && (is_digit(s[0]) || names_street(lowercase_of(s), address_keywords()))
}

/// `s` with a space put before each occurrence of the keywords from
/// position `k` on, one keyword after the other.
pub open spec fn spaced(s: Seq<char>, keywords: Seq<Seq<char>>, k: int) -> Seq<char>
    decreases keywords.len() - k,
{
    if k < 0 || k >= keywords.len() {
        s
    } else {
        spaced(replaced(s, keywords[k], seq![' '] + keywords[k]), keywords, k + 1)
    }
}

/// A name in capitals that was run together, with spaces put before the
/// known words in it; any other name as it is. A name is taken as run
/// together when, trimmed, it has no space and at least six bytes.
pub open spec fn run_together_fixed(s: Seq<char>) -> Seq<char> {
    let t = trimmed(s);
    if t.len() == 0 || t.contains(' ') || vstd::utf8::encode_utf8(t).len() < 6 {
        s
    } else {
        trim_start(spaced(t, name_keywords(), 0))
    }
}

/// The words of a text, joined by single spaces.
pub open spec fn single_spaced(raw: Seq<char>) -> Seq<char> {
    joined(words(joined(trimmed_lines(raw), seq![' '])), seq![' '])
}

/// `s` without the points at its end.
pub open spec fn without_trailing_points(s: Seq<char>) -> Seq<char>
    decreases s.len(),
{
    if s.len() > 0 && s.last() == '.' {
        without_trailing_points(s.drop_last())
    } else {
        s
    }
}

/// A word names a legal form: trimmed, without points at its end and in
/// small letters, it is one of the known forms.
pub open spec fn is_legal_form(token: Seq<char>) -> bool {
    is_any_of(lowercase_of(without_trailing_points(trimmed(token))), legal_forms())
}

/// The name before the first occurrence of a separator, where what follows
/// the separator looks like an address.
pub open spec fn cut_name(s: Seq<char>, separator: Seq<char>) -> Option<Seq<char>> {
    match find_text(s, separator) {
        Some(at) => if is_address_suffix(trimmed(s.skip(at + separator.len()))) {
            Some(trimmed(s.take(at)))
        } else {
            None
        },
        None => None,
    }
}

/// The company name alone: the trimmed text, cut before `; ` or else before
/// `, ` where an address follows.
pub open spec fn name_only(api_name: Seq<char>) -> Seq<char> {
    let s = trimmed(api_name);
    if s.len() == 0 {
        Seq::empty()
    } else {
        match cut_name(s, "; "@) {
            Some(name) => name,
            None => match cut_name(s, ", "@) {
                Some(name) => name,
                None => s,
            },
        }
    }
}

/// One of the words of the line, in small letters, names a legal form.
pub open spec fn has_legal_form(line: Seq<char>) -> bool {
    exists|i: int|
        0 <= i < words(lowercase_of(line)).len() && is_legal_form(
            #[trigger] words(lowercase_of(line))[i],
        )
}

/// The line has at most three words and begins with a capital.
pub open spec fn is_short_capitalized(line: Seq<char>) -> bool {
    let w = words(line);
    0 < w.len() <= 3 && w[0].len() > 0 && char_is_uppercase(w[0][0])
}

/// The line continues the name above it: it does not look like an address,
/// and names a legal form or is short and capitalized.
pub open spec fn continues_name(line: Seq<char>) -> bool {
    !is_address_line(line) && (has_legal_form(line) || is_short_capitalized(line))
}

/// A name with one more line appended after a space.
pub open spec fn with_line(base: Seq<char>, line: Seq<char>) -> Seq<char> {
    if base.len() > 0 && base.last() == ' ' {
        base + line
    } else {
        base.push(' ') + line
    }
}

/// The name grown by the lines from position `i` on, up to the first line
/// that does not continue it.
pub open spec fn extended_name(base: Seq<char>, lines: Seq<Seq<char>>, i: int) -> Seq<char>
    decreases lines.len() - i,
{
    if i < 0 || i >= lines.len() || !continues_name(lines[i]) {
        base
    } else {
        extended_name(with_line(base, lines[i]), lines, i + 1)
    }
}

/// The company name of a text of several lines: the first line that is not
/// blank, grown by the lines that continue it, and cut before an address.
pub open spec fn multiline_name(raw: Seq<char>) -> Seq<char> {
    let lines = trimmed_lines(raw);
    if lines.len() == 0 {
        Seq::empty()
    } else {
        name_only(extended_name(lines[0], lines, 1))
    }
}

/// The clean form of a raw company name.
pub open spec fn clean_name(raw_name: Seq<char>) -> Seq<char> {
    if raw_name.contains('\n') {
        multiline_name(raw_name)
    } else {
        name_only(single_spaced(raw_name))
    }
}

fn country_list() -> (list: Vec<Vec<char>>)
    ensures
        texts_view(list@) == country_prefixes(),
{
    let mut list: Vec<Vec<char>> = Vec::new();
    list.push(str_chars("pl "));
    list.push(str_chars("mk "));
    list.push(str_chars("de "));
    list.push(str_chars("at "));
    list.push(str_chars("hr "));
    list.push(str_chars("rs "));
    assert(texts_view(list@) =~= country_prefixes());
    list
}

fn address_keyword_list() -> (list: Vec<Vec<char>>)
    ensures
        texts_view(list@) == address_keywords(),
{
    let mut list: Vec<Vec<char>> = Vec::new();
    list.push(str_chars("bul"));
    list.push(str_chars("бул"));
    list.push(str_chars("ul"));
    list.push(str_chars("улица"));
    list.push(str_chars("street"));
    list.push(str_chars("avenue"));
    list.push(str_chars("bulevar"));
    list.push(str_chars("булевар"));
    list.push(str_chars("str"));
    list.push(str_chars("road"));
    list.push(str_chars("rd."));
    list.push(str_chars("плоштад"));
    list.push(str_chars("plostad"));
    assert(texts_view(list@) =~= address_keywords());
    list
}

fn name_keyword_list() -> (list: Vec<Vec<char>>)
    ensures
        texts_view(list@) == name_keywords(),
        forall|k: int| 0 <= k < list@.len() ==> (#[trigger] list@[k])@.len() > 0,
{
    let mut list: Vec<Vec<char>> = Vec::new();
    list.push(str_chars("DOOEL"));
    list.push(str_chars("ДООЕЛ"));
    list.push(str_chars("SKOPJE"));
    list.push(str_chars("СКОПЈЕ"));
    list.push(str_chars("ROAD"));
    list.push(str_chars("DOO"));
    proof {
        reveal_strlit("DOOEL");
        reveal_strlit("ДООЕЛ");
        reveal_strlit("SKOPJE");
        reveal_strlit("СКОПЈЕ");
        reveal_strlit("ROAD");
        reveal_strlit("DOO");
        assert(texts_view(list@) =~= name_keywords());
    }
    list
}

fn legal_form_list() -> (list: Vec<Vec<char>>)
    ensures
        texts_view(list@) == legal_forms(),
{
    let mut list: Vec<Vec<char>> = Vec::new();
    list.push(str_chars("doo"));
    list.push(str_chars("dooel"));
    list.push(str_chars("doel"));
    list.push(str_chars("доо"));
    list.push(str_chars("дооел"));
    list.push(str_chars("ad"));
    list.push(str_chars("a.d"));
    list.push(str_chars("ood"));
    list.push(str_chars("gmbh"));
    list.push(str_chars("shpk"));
    assert(texts_view(list@) =~= legal_forms());
    list
}

fn ascii_letter(c: char) -> (b: bool)
    ensures
        b == is_ascii_letter(c),
{
    ('a' <= c && c <= 'z') || ('A' <= c && c <= 'Z')
}

fn all_ascii_letters(v: &Vec<char>) -> (b: bool)
    ensures
        b == forall|i: int| 0 <= i < v@.len() ==> is_ascii_letter(#[trigger] v@[i]),
{
    let mut i: usize = 0;
    while i < v.len()
        invariant
            i <= v@.len(),
            forall|k: int| 0 <= k < i ==> is_ascii_letter(#[trigger] v@[k]),
        decreases v.len() - i,
    {
        if !ascii_letter(v[i]) {
            return false;
        }
        i += 1;
    }
    true
}

fn begins_with_one(s: &Vec<char>, list: &Vec<Vec<char>>) -> (b: bool)
    ensures
        b == begins_with_any(s@, texts_view(list@)),
{
    let mut k: usize = 0;
    while k < list.len()
        invariant
            k <= list@.len(),
            forall|j: int| 0 <= j < k ==> !starts_with(s@, #[trigger] texts_view(list@)[j]),
        decreases list.len() - k,
    {
        assert(texts_view(list@)[k as int] == list@[k as int]@);
        if chars_start_with(s, &list[k]) {
            return true;
        }
        k += 1;
    }
    false
}

fn is_one_of(s: &Vec<char>, list: &Vec<Vec<char>>) -> (b: bool)
    ensures
        b == is_any_of(s@, texts_view(list@)),
{
    let mut k: usize = 0;
    while k < list.len()
        invariant
            k <= list@.len(),
            forall|j: int| 0 <= j < k ==> s@ != #[trigger] texts_view(list@)[j],
        decreases list.len() - k,
    {
        assert(texts_view(list@)[k as int] == list@[k as int]@);
        if chars_equal(s, &list[k]) {
            return true;
        }
        k += 1;
    }
    false
}

fn has_street_word(s: &Vec<char>, list: &Vec<Vec<char>>) -> (b: bool)
    ensures
        b == names_street(s@, texts_view(list@)),
{
    let mut k: usize = 0;
    while k < list.len()
        invariant
            k <= list@.len(),
            forall|j: int|
                0 <= j < k ==> !(starts_with(s@, #[trigger] texts_view(list@)[j]) || contains_text(
                    s@,
                    seq![' '] + texts_view(list@)[j] + seq![' '],
                )),
        decreases list.len() - k,
    {
        assert(texts_view(list@)[k as int] == list@[k as int]@);
        if chars_start_with(s, &list[k]) {
            return true;
        }
        let mut spaced_word: Vec<char> = Vec::new();
        spaced_word.push(' ');
        chars_extend(&mut spaced_word, &list[k]);
        spaced_word.push(' ');
        assert(spaced_word@ =~= seq![' '] + list@[k as int]@ + seq![' ']);
        if chars_contain(s, &spaced_word) {
            return true;
        }
        k += 1;
    }
    false
}

fn lowercase_chars(v: &Vec<char>) -> (r: Vec<char>)
    ensures
        r@ == lowercase_of(v@),
{
    let s = string_from_chars(v);
    let lower = to_lowercase(s.as_str());
    str_chars(lower.as_str())
}

fn address_suffix(s: &Vec<char>) -> (b: bool)
    ensures
        b == is_address_suffix(s@),
{
    let t = trim_chars(s);
    if t.len() == 0 {
        return true;
    }
    if t.len() <= 3 && all_ascii_letters(&t) {
        return true;
    }
    let lower = lowercase_chars(&t);
    let countries = country_list();
    if begins_with_one(&lower, &countries) {
        return true;
    }
    let c = t[0];
    '0' <= c && c <= '9'
}

/// Tells whether what follows a name looks like an address, such as
/// `PL - 93230 LODZ` or `1000 Skopje`.
pub fn looks_like_address_suffix(s: &str) -> (b: bool)
    ensures
        b == is_address_suffix(s@),
{
    address_suffix(&str_chars(s))
}

fn address_line(line: &Vec<char>) -> (b: bool)
    ensures
        b == is_address_line(line@),
{
    let s = trim_chars(line);
    if s.len() == 0 {
        return false;
    }
    let c = s[0];
    if '0' <= c && c <= '9' {
        return true;
    }
    let lower = lowercase_chars(&s);
    let keywords = address_keyword_list();
    has_street_word(&lower, &keywords)
}

/// Tells whether a whole line looks like an address: a street, or a place
/// with a number.
pub fn looks_like_address_line(line: &str) -> (b: bool)
    ensures
        b == is_address_line(line@),
{
    address_line(&str_chars(line))
}

/// Puts spaces into a name in capitals that was run together, such as
/// `DSVROADDOOELSKOPJE`.
pub fn fix_all_caps_run_together(s: &str) -> (r: String)
    ensures
        r@ == run_together_fixed(s@),
{
    let chars = str_chars(s);
    let t = trim_chars(&chars);
    if t.len() == 0 || chars_have(&t, ' ') {
        return s.to_owned();
    }
    let text = string_from_chars(&t);
    if text.as_str().as_bytes().len() < 6 {
        return s.to_owned();
    }
    let keywords = name_keyword_list();
    let mut out = t;
    let mut k: usize = 0;
    let ghost start = out@;
    while k < keywords.len()
        invariant
            k <= keywords@.len(),
            texts_view(keywords@) == name_keywords(),
            forall|j: int| 0 <= j < keywords@.len() ==> (#[trigger] keywords@[j])@.len() > 0,
            spaced(start, name_keywords(), 0) == spaced(out@, name_keywords(), k as int),
        decreases keywords.len() - k,
    {
        assert(texts_view(keywords@)[k as int] == keywords@[k as int]@);
        let mut with: Vec<char> = Vec::new();
        with.push(' ');
        chars_extend(&mut with, &keywords[k]);
        assert(with@ =~= seq![' '] + keywords@[k as int]@);
        out = chars_replace(&out, &keywords[k], &with);
        k += 1;
    }
    let kept = trim_start_chars(&out);
    string_from_chars(&kept)
}

fn single_space(raw: &Vec<char>) -> (r: Vec<char>)
    ensures
        r@ == single_spaced(raw@),
{
    let mut space: Vec<char> = Vec::new();
    space.push(' ');
    assert(space@ =~= seq![' ']);
    let lines = split_lines(raw);
    let one_line = join_chars(&lines, &space);
    let parts = split_words(&one_line);
    join_chars(&parts, &space)
}

/// Joins the lines of a name by spaces and collapses runs of white space.
pub fn join_multiline_name(raw: &str) -> (r: String)
    ensures
        r@ == single_spaced(raw@),
{
    string_from_chars(&single_space(&str_chars(raw)))
}

fn cut(s: &Vec<char>, separator: &Vec<char>) -> (r: Option<Vec<char>>)
    ensures
        match r {
            Some(name) => cut_name(s@, separator@) == Some(name@),
            None => cut_name(s@, separator@) is None,
        },
{
    match chars_find(s, separator) {
        Some(at) => {
            let n = s.len();
            let after = chars_range(s, at + separator.len(), n);
            assert(after@ =~= s@.skip(at + separator@.len()));
            let rest = trim_chars(&after);
            if address_suffix(&rest) {
                let before = chars_range(s, 0, at);
                assert(before@ =~= s@.take(at as int));
                Some(trim_chars(&before))
            } else {
                None
            }
        },
        None => None,
    }
}

fn only_name(api_name: &Vec<char>) -> (r: Vec<char>)
    ensures
        r@ == name_only(api_name@),
{
    let s = trim_chars(api_name);
    if s.len() == 0 {
        return Vec::new();
    }
    match cut(&s, &str_chars("; ")) {
        Some(name) => name,
        None => match cut(&s, &str_chars(", ")) {
            Some(name) => name,
            None => s,
        },
    }
}

/// Takes the company name alone from a reported name: what stands before
/// `; ` or `, ` where an address follows.
pub fn company_name_only(api_name: &str) -> (r: String)
    ensures
        r@ == name_only(api_name@),
{
    string_from_chars(&only_name(&str_chars(api_name)))
}

fn strip_points(v: &Vec<char>) -> (r: Vec<char>)
    ensures
        r@ == without_trailing_points(v@),
{
    let mut end: usize = v.len();
    assert(v@.subrange(0, end as int) =~= v@);
    while end > 0 && v[end - 1] == '.'
        invariant
            end <= v@.len(),
            without_trailing_points(v@) == without_trailing_points(v@.subrange(0, end as int)),
        decreases end,
    {
        assert(v@.subrange(0, end as int).drop_last() =~= v@.subrange(0, end - 1));
        end -= 1;
    }
    assert(without_trailing_points(v@) == v@.subrange(0, end as int)) by {
        let kept = v@.subrange(0, end as int);
        if end > 0 {
            assert(kept.last() == v@[end - 1]);
        }
    }
    chars_range(v, 0, end)
}

fn legal_form(token: &Vec<char>, forms: &Vec<Vec<char>>) -> (b: bool)
    requires
        texts_view(forms@) == legal_forms(),
    ensures
        b == is_legal_form(token@),
{
    let t = strip_points(&trim_chars(token));
    let lower = lowercase_chars(&t);
    is_one_of(&lower, forms)
}

/// Tells whether a word names a legal form of a company, such as `DOOEL` or
/// `GmbH.`.
pub fn is_legal_form_token(token: &str) -> (b: bool)
    ensures
        b == is_legal_form(token@),
{
    legal_form(&str_chars(token), &legal_form_list())
}

/// Tells whether one of the words of a name, in small letters, names a
/// legal form.
pub fn names_legal_form(value: &str) -> (b: bool)
    ensures
        b == has_legal_form(value@),
{
    line_has_legal_form(&str_chars(value), &legal_form_list())
}

fn line_has_legal_form(line: &Vec<char>, forms: &Vec<Vec<char>>) -> (b: bool)
    requires
        texts_view(forms@) == legal_forms(),
    ensures
        b == has_legal_form(line@),
{
    let lower = lowercase_chars(line);
    let parts = split_words(&lower);
    let mut i: usize = 0;
    while i < parts.len()
        invariant
            i <= parts@.len(),
            texts_view(forms@) == legal_forms(),
            texts_view(parts@) == words(lowercase_of(line@)),
            forall|j: int|
                0 <= j < i ==> !is_legal_form(#[trigger] words(lowercase_of(line@))[j]),
        decreases parts.len() - i,
    {
        assert(texts_view(parts@)[i as int] == parts@[i as int]@);
        if legal_form(&parts[i], forms) {
            return true;
        }
        i += 1;
    }
    false
}

fn short_capitalized(line: &Vec<char>) -> (b: bool)
    ensures
        b == is_short_capitalized(line@),
{
    let parts = split_words(line);
    if parts.len() == 0 || parts.len() > 3 {
        return false;
    }
    assert(texts_view(parts@)[0] == parts@[0]@);
    if parts[0].len() == 0 {
        return false;
    }
    is_uppercase(parts[0][0])
}

fn multiline(raw: &Vec<char>) -> (r: Vec<char>)
    ensures
        r@ == multiline_name(raw@),
{
    let lines = split_lines(raw);
    if lines.len() == 0 {
        return Vec::new();
    }
    let forms = legal_form_list();
    let ghost all = texts_view(lines@);
    assert(all[0] == lines@[0]@);
    let mut base: Vec<char> = chars_range(&lines[0], 0, lines[0].len());
    assert(base@ =~= all[0]);
    let mut i: usize = 1;
    loop
        invariant_except_break
            1 <= i <= lines@.len(),
            all == texts_view(lines@),
            texts_view(forms@) == legal_forms(),
            extended_name(all[0], all, 1) == extended_name(base@, all, i as int),
        ensures
            extended_name(all[0], all, 1) == base@,
        decreases lines@.len() - i,
    {
        if i >= lines.len() {
            break ;
        }
        let line = &lines[i];
        assert(all[i as int] == line@);
        if address_line(line) {
            break ;
        }
        if !(line_has_legal_form(line, &forms) || short_capitalized(line)) {
            break ;
        }
        let n = base.len();
        if !(n > 0 && base[n - 1] == ' ') {
            base.push(' ');
        }
        chars_extend(&mut base, line);
        i += 1;
    }
    only_name(&base)
}

/// Takes the company name from a text of several lines: the first line,
/// grown by the lines that name a legal form or are short and capitalized,
/// up to the first line that looks like an address or like neither.
pub fn smart_multiline_company_name(raw: &str) -> (r: String)
    ensures
        r@ == multiline_name(raw@),
{
    string_from_chars(&multiline(&str_chars(raw)))
}

/// Cleans a raw company name: a name of several lines is taken line by
/// line; a name of one line is single-spaced and cut before an address.
pub fn clean_company_name(raw_name: &str) -> (r: String)
    ensures
        r@ == clean_name(raw_name@),
{
    let raw = str_chars(raw_name);
    if chars_have(&raw, '\n') {
        string_from_chars(&multiline(&raw))
    } else {
        let joined_name = single_space(&raw);
        string_from_chars(&only_name(&joined_name))
    }
}

} // verus!
