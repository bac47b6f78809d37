//! Translation of caller-supplied (name, value) text pairs into a validated
//! HTTP header map.
use reqwest::header::{HeaderMap, HeaderName, HeaderValue};
use std::str::FromStr;
use vstd::prelude::*;

verus! {

#[verifier::external_type_specification]
#[verifier::external_body]
pub struct ExHeaderName(HeaderName);

#[verifier::external_type_specification]
#[verifier::external_body]
pub struct ExHeaderValue(HeaderValue);

#[verifier::external_type_specification]
#[verifier::external_body]
#[verifier::reject_recursive_types(T)]
pub struct ExHeaderMap<T>(HeaderMap<T>);

/// The entries of a header map: one value per (lower-case) field name.
pub uninterp spec fn header_map_entries(m: HeaderMap<HeaderValue>) -> Map<Seq<char>, Seq<char>>;

/// The (lower-case) text of a parsed field name.
pub uninterp spec fn header_name_text(n: HeaderName) -> Seq<char>;

/// The text of a parsed field value.
pub uninterp spec fn header_value_text(v: HeaderValue) -> Seq<char>;

/// Largest number of distinct names that a translated map may reach.
pub const MAX_HEADERS: usize = 2048;

/// A `tchar` of RFC 9110: the characters that may form a field name.
pub open spec fn is_tchar(c: char) -> bool {
    ('0' <= c && c <= '9') || ('a' <= c && c <= 'z') || ('A' <= c && c <= 'Z') || c == '!'
        || c == '#' || c == '$' || c == '%' || c == '&' || c == '\'' || c == '*' || c == '+'
        || c == '-' || c == '.' || c == '^' || c == '_' || c == '`' || c == '|' || c == '~'
}

/// A legal field name: a non-empty token of at most 65535 characters.
pub open spec fn valid_field_name(s: Seq<char>) -> bool {
    0 < s.len() <= 65535 && forall|i: int| 0 <= i < s.len() ==> is_tchar(#[trigger] s[i])
}

/// A character that may stand in a field value: tab, or anything but the
/// other ASCII control characters and DEL.
pub open spec fn is_field_value_char(c: char) -> bool {
    c == '\t' || (' ' <= c && c != '\x7f')
}

pub open spec fn valid_field_value(s: Seq<char>) -> bool {
    forall|i: int| 0 <= i < s.len() ==> is_field_value_char(#[trigger] s[i])
}

pub open spec fn lower_char(c: char) -> char {
    if 'A' <= c && c <= 'Z' {
        ((c as u32) + 32) as char
    } else {
        c
    }
}

/// Field names compare without regard to ASCII case; a map keys them in lower case.
pub open spec fn lowered(s: Seq<char>) -> Seq<char> {
    s.map_values(|c: char| lower_char(c))
}

/// What the parser reports for a refused field name.
pub open spec fn name_message() -> Seq<char> {
    "invalid HTTP header name"@
}

/// What the parser reports for a refused field value.
pub open spec fn value_message() -> Seq<char> {
    "failed to parse header value"@
}

/// Why a header pair was rejected, with the caller's key.
pub ghost enum HeaderFault {
    BadName(Seq<char>),
    BadValue(Seq<char>),
}

/// What translating `pairs` in order yields: the first invalid pair decides the
/// failure (its name is checked before its value); otherwise each pair is
/// entered under its lower-case name, a later value replacing an earlier one.
pub open spec fn translation(pairs: Seq<(Seq<char>, Seq<char>)>) -> Result<
    Map<Seq<char>, Seq<char>>,
    HeaderFault,
>
    decreases pairs.len(),
{
    if pairs.len() == 0 {
        Ok(Map::empty())
    } else {
        let (name, value) = pairs.last();
        match translation(pairs.drop_last()) {
            Err(f) => Err(f),
            Ok(m) => if !valid_field_name(name) {
                Err(HeaderFault::BadName(name))
            } else if !valid_field_value(value) {
                Err(HeaderFault::BadValue(name))
            } else {
                Ok(m.insert(lowered(name), value))
            },
        }
    }
}

pub open spec fn pairs_view(pairs: Seq<(String, String)>) -> Seq<(Seq<char>, Seq<char>)> {
    pairs.map_values(|p: (String, String)| (p.0@, p.1@))
}

/// A header pair that was refused, with the key as the caller wrote it and the
/// parser's message.
pub enum HeaderError {
    InvalidHeaderName { key: String, message: String },
    InvalidHeaderValue { key: String, message: String },
}

impl HeaderError {
    pub open spec fn fault(&self) -> HeaderFault {
        match self {
            HeaderError::InvalidHeaderName { key, .. } => HeaderFault::BadName(key@),
            HeaderError::InvalidHeaderValue { key, .. } => HeaderFault::BadValue(key@),
        }
    }

    pub open spec fn message_view(&self) -> Seq<char> {
        match self {
            HeaderError::InvalidHeaderName { message, .. } => message@,
            HeaderError::InvalidHeaderValue { message, .. } => message@,
        }
    }
}

/// Relies on `HeaderMap::new`: a new map holds no entries.
#[verifier::external_body]
fn empty_header_map() -> (r: HeaderMap<HeaderValue>)
    ensures
        header_map_entries(r) =~= Map::empty(),
{
    HeaderMap::new()
}

/// Relies on `HeaderName::from_str`: a name is accepted iff it is a token of
/// 1 to 65535 bytes, and is kept in lower case; the error displays as
/// "invalid HTTP header name".
#[verifier::external_body]
fn parse_header_name(s: &str) -> (r: Result<HeaderName, String>)
    ensures
        r.is_ok() <==> valid_field_name(s@),
        r matches Ok(n) ==> header_name_text(n) == lowered(s@),
        r matches Err(m) ==> m@ == name_message(),
{
    HeaderName::from_str(s).map_err(|e| e.to_string())
}

/// Relies on `HeaderValue::from_str`: a value is accepted iff it holds no
/// control character but tab, and no DEL; it keeps the text as given. The
/// error displays as "failed to parse header value".
#[verifier::external_body]
fn parse_header_value(s: &str) -> (r: Result<HeaderValue, String>)
    ensures
        r.is_ok() <==> valid_field_value(s@),
        r matches Ok(v) ==> header_value_text(v) == s@,
        r matches Err(m) ==> m@ == value_message(),
{
    HeaderValue::from_str(s).map_err(|e| e.to_string())
}

/// Relies on `HeaderMap::insert`: the name ends with the one given value,
/// replacing any earlier ones. It panics only when its index table would
/// grow past 32768 slots; the table reaches that size only after holding
/// more than 3000 distinct names, so below `MAX_HEADERS` it never does.
#[verifier::external_body]
fn insert_header(m: &mut HeaderMap<HeaderValue>, name: HeaderName, value: HeaderValue)
    requires
        header_map_entries(*old(m)).len() < MAX_HEADERS,
    ensures
        header_map_entries(*final(m)) == header_map_entries(*old(m)).insert(
            header_name_text(name),
            header_value_text(value),
        ),
{
    m.insert(name, value);
}

/// A successful translation keys at most one entry per pair.
pub proof fn lemma_translation_size(pairs: Seq<(Seq<char>, Seq<char>)>)
    ensures
        translation(pairs) matches Ok(m) ==> m.dom().finite() && m.len() <= pairs.len(),
    decreases pairs.len(),
{
    if pairs.len() > 0 {
        lemma_translation_size(pairs.drop_last());
    }
}

/// Once a prefix of the pairs fails, the whole sequence fails the same way.
pub proof fn lemma_failure_persists(pairs: Seq<(Seq<char>, Seq<char>)>, i: int)
    requires
        0 <= i <= pairs.len(),
        translation(pairs.take(i)) is Err,
    ensures
        translation(pairs) == translation(pairs.take(i)),
    decreases pairs.len() - i,
{
    if i < pairs.len() {
        assert(pairs.take(i + 1).drop_last() =~= pairs.take(i));
        lemma_failure_persists(pairs, i + 1);
    } else {
        assert(pairs.take(i) =~= pairs);
    }
}

/// Pairs whose names and values are all legal translate without failure.
pub proof fn lemma_valid_pairs_translate(pairs: Seq<(Seq<char>, Seq<char>)>)
    requires
        forall|k: int|
            0 <= k < pairs.len() ==> valid_field_name(#[trigger] pairs[k].0) && valid_field_value(
                pairs[k].1,
            ),
    ensures
        translation(pairs) is Ok,
    decreases pairs.len(),
{
    if pairs.len() > 0 {
        let rest = pairs.drop_last();
        assert forall|k: int| 0 <= k < rest.len() implies valid_field_name(#[trigger] rest[k].0)
            && valid_field_value(rest[k].1) by {
            assert(rest[k] == pairs[k]);
            assert(valid_field_name(pairs[k].0));
        }
        lemma_valid_pairs_translate(rest);
    }
}

/// A translated map holds exactly one entry per distinct (case-folded) name
/// among the pairs.
pub proof fn lemma_one_entry_per_name(pairs: Seq<(Seq<char>, Seq<char>)>)
    requires
        translation(pairs) is Ok,
    ensures
        translation(pairs) matches Ok(m) ==> m.dom() =~= Set::new(
            |k: Seq<char>| exists|j: int| 0 <= j < pairs.len() && lowered(pairs[j].0) == k,
        ),
    decreases pairs.len(),
{
    if pairs.len() > 0 {
        let rest = pairs.drop_last();
        lemma_one_entry_per_name(rest);
        if let Ok(m) = translation(pairs) {
            let names = Set::new(
                |k: Seq<char>| exists|j: int| 0 <= j < pairs.len() && lowered(pairs[j].0) == k,
            );
            assert forall|k: Seq<char>| m.dom().contains(k) implies names.contains(k) by {
                if k != lowered(pairs.last().0) {
                    let j = choose|j: int| 0 <= j < rest.len() && lowered(rest[j].0) == k;
                    assert(pairs[j] == rest[j]);
                } else {
                    assert(lowered(pairs[pairs.len() - 1].0) == k);
                }
            }
            assert forall|k: Seq<char>| names.contains(k) implies m.dom().contains(k) by {
                let j = choose|j: int| 0 <= j < pairs.len() && lowered(pairs[j].0) == k;
                if j < rest.len() {
                    assert(pairs[j] == rest[j]);
                }
            }
        }
    }
}

/// On duplicate (case-folded) names the last pair's value is the one kept.
pub proof fn lemma_last_value_wins(pairs: Seq<(Seq<char>, Seq<char>)>, i: int)
    requires
        translation(pairs) is Ok,
        0 <= i < pairs.len(),
        forall|j: int| i < j < pairs.len() ==> lowered(#[trigger] pairs[j].0) != lowered(pairs[i].0),
    ensures
        translation(pairs) matches Ok(m) ==> m.contains_key(lowered(pairs[i].0)) && m[lowered(
            pairs[i].0,
        )] == pairs[i].1,
    decreases pairs.len(),
{
    let rest = pairs.drop_last();
    if i < rest.len() {
        assert forall|j: int| i < j < rest.len() implies lowered(#[trigger] rest[j].0) != lowered(
            rest[i].0,
        ) by {
            assert(rest[j] == pairs[j]);
        }
        lemma_last_value_wins(rest, i);
        assert(rest[i] == pairs[i]);
    }
}

/// A name holding a control character is refused as a name, provided every
/// pair before it is legal.
pub proof fn lemma_control_char_name_rejected(
    pairs: Seq<(Seq<char>, Seq<char>)>,
    i: int,
    j: int,
)
    requires
        0 <= i < pairs.len(),
        0 <= j < pairs[i].0.len(),
        pairs[i].0[j] < ' ' || pairs[i].0[j] == '\x7f',
        forall|k: int|
            0 <= k < i ==> valid_field_name(#[trigger] pairs[k].0) && valid_field_value(
                pairs[k].1,
            ),
    ensures
        translation(pairs) == Err::<Map<Seq<char>, Seq<char>>, _>(HeaderFault::BadName(pairs[i].0)),
{
    let before = pairs.take(i);
    assert forall|k: int| 0 <= k < before.len() implies valid_field_name(#[trigger] before[k].0)
        && valid_field_value(before[k].1) by {
        assert(before[k] == pairs[k]);
        assert(valid_field_name(pairs[k].0));
    }
    lemma_valid_pairs_translate(before);
    assert(pairs.take(i + 1).drop_last() =~= before);
    assert(!is_tchar(pairs[i].0[j]));
    lemma_failure_persists(pairs, i + 1);
}

/// Builds the header map of `pairs`, in order. Stops at the first pair whose
/// name or value is not legal and reports it with the caller's key.
pub fn translate_headers(pairs: &Vec<(String, String)>) -> (r: Result<HeaderMap<HeaderValue>, HeaderError>)
    requires
        pairs@.len() <= MAX_HEADERS,
    ensures
        r matches Ok(m) ==> translation(pairs_view(pairs@)) == Ok::<_, HeaderFault>(header_map_entries(m)),
        r matches Err(e) ==> translation(pairs_view(pairs@)) == Err::<Map<Seq<char>, Seq<char>>, _>(e.fault()),
        r matches Err(HeaderError::InvalidHeaderName { message, .. }) ==> message@ == name_message(),
        r matches Err(HeaderError::InvalidHeaderValue { message, .. }) ==> message@ == value_message(),
{
    let ghost view = pairs_view(pairs@);
    let mut map = empty_header_map();
    let mut i: usize = 0;
    assert(view.take(0) =~= Seq::<(Seq<char>, Seq<char>)>::empty());
    while i < pairs.len()
        invariant
            i <= pairs@.len() <= MAX_HEADERS,
            view == pairs_view(pairs@),
            translation(view.take(i as int)) == Ok::<_, HeaderFault>(header_map_entries(map)),
        decreases pairs@.len() - i,
    {
        let key = &pairs[i].0;
        let text = &pairs[i].1;
        proof {
            assert(view.take(i as int + 1).drop_last() =~= view.take(i as int));
            assert(view.take(i as int + 1).last() == (key@, text@));
            lemma_translation_size(view.take(i as int));
        }
        let name = match parse_header_name(key.as_str()) {
            Ok(n) => n,
            Err(message) => {
                proof {
                    lemma_failure_persists(view, i as int + 1);
                }
                return Err(HeaderError::InvalidHeaderName { key: key.clone(), message });
            },
        };
        let value = match parse_header_value(text.as_str()) {
            Ok(v) => v,
            Err(message) => {
                proof {
                    lemma_failure_persists(view, i as int + 1);
                }
                return Err(HeaderError::InvalidHeaderValue { key: key.clone(), message });
            },
        };
        insert_header(&mut map, name, value);
        i += 1;
    }
    assert(view.take(i as int) =~= view);
    Ok(map)
}

} // verus!
