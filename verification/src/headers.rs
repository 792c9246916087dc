//! HTTP header maps: the operations of `http::HeaderMap` that the gateway uses,
//! over a model of what such a map holds.

use http::header::{HeaderName, HeaderValue, InvalidHeaderName, InvalidHeaderValue, MaxSizeReached};
use http::{HeaderMap, StatusCode};
use vstd::prelude::*;
use vstd::utf8::encode_utf8;

use crate::text::lowercase;

verus! {

#[verifier::external_type_specification]
#[verifier::external_body]
#[verifier::reject_recursive_types(T)]
pub struct ExHeaderMap<T>(http::HeaderMap<T>);

#[verifier::external_type_specification]
#[verifier::external_body]
pub struct ExHeaderValue(http::header::HeaderValue);

#[verifier::external_type_specification]
#[verifier::external_body]
pub struct ExInvalidHeaderName(http::header::InvalidHeaderName);

#[verifier::external_type_specification]
#[verifier::external_body]
pub struct ExInvalidHeaderValue(http::header::InvalidHeaderValue);

#[verifier::external_type_specification]
#[verifier::external_body]
pub struct ExMaxSizeReached(http::header::MaxSizeReached);

/// Header names, each with its values in the order in which they were added.
pub type Fields = Map<Seq<char>, Seq<Seq<u8>>>;

/// What an `http::HeaderMap` holds.
pub uninterp spec fn header_fields(map: http::HeaderMap) -> Map<Seq<char>, Seq<Seq<u8>>>;

/// A map with fewer names than this takes another field, whatever its name. A
/// map has at most 2^15 slots; it needs more, and does not get them, only where
/// three quarters of them are taken, or a fifth of them with many collisions.
pub const NAMES_WITH_ROOM: usize = 6554;

/// The characters that a header name may consist of.
pub open spec fn is_token_char(c: char) -> bool {
    ||| 'a' <= c && c <= 'z'
    ||| 'A' <= c && c <= 'Z'
    ||| '0' <= c && c <= '9'
    ||| "!#$%&'*+-.^_`|~"@.contains(c)
}

/// What is read as a header name.
pub open spec fn is_header_name(s: Seq<char>) -> bool {
    &&& 1 <= s.len() <= 65535
    &&& forall|i: int| 0 <= i < s.len() ==> is_token_char(#[trigger] s[i])
}

/// What is read as a header value: no control characters but the tab.
pub open spec fn is_header_value(bytes: Seq<u8>) -> bool {
    forall|i: int| 0 <= i < bytes.len() ==> #[trigger] bytes[i] == 9 || bytes[i] >= 32 && bytes[i] != 127
}

/// A header value that can be shown as text: visible ASCII, spaces and tabs.
pub open spec fn is_visible(bytes: Seq<u8>) -> bool {
    forall|i: int| 0 <= i < bytes.len() ==> #[trigger] bytes[i] == 9 || 32 <= bytes[i] < 127
}

/// ASCII bytes as characters.
pub open spec fn as_text(bytes: Seq<u8>) -> Seq<char> {
    Seq::new(bytes.len(), |i: int| bytes[i] as char)
}

/// The values that `list` gives for `name`, in order.
pub open spec fn values_of(list: Seq<(String, Vec<u8>)>, name: Seq<char>) -> Seq<Seq<u8>>
    decreases list.len(),
{
    if list.len() == 0 {
        Seq::empty()
    } else {
        let before = values_of(list.drop_last(), name);
        if list.last().0@ == name {
            before.push(list.last().1@)
        } else {
            before
        }
    }
}

/// `list` gives every field of `fields` once for each of its values, those of
/// one name in order, and nothing else; its names are in lower case.
pub open spec fn lists_fields(list: Seq<(String, Vec<u8>)>, fields: Fields) -> bool {
    &&& forall|i: int| 0 <= i < list.len() ==> lowercase(#[trigger] list[i].0@) == list[i].0@
    &&& forall|name: Seq<char>| #[trigger] fields.contains_key(name) <==> values_of(list, name).len() > 0
    &&& forall|name: Seq<char>| fields.contains_key(name) ==> #[trigger] fields[name] == values_of(list, name)
}

/// A text of lower-case letters and hyphens is a header name in lower case.
pub proof fn lemma_plain_name(s: Seq<char>)
    requires
        1 <= s.len() <= 65535,
        forall|i: int| 0 <= i < s.len() ==> 'a' <= #[trigger] s[i] && s[i] <= 'z' || s[i] == '-',
    ensures
        is_header_name(s),
        lowercase(s) == s,
{
    reveal_strlit("!#$%&'*+-.^_`|~");
    assert("!#$%&'*+-.^_`|~"@[8] == '-');
    assert(lowercase(s) =~= s);
}

/// The values in a list are those in its first part, then those in the rest.
pub proof fn lemma_values_append(
    first: Seq<(String, Vec<u8>)>,
    rest: Seq<(String, Vec<u8>)>,
    name: Seq<char>,
)
    ensures
        values_of(first + rest, name) == values_of(first, name) + values_of(rest, name),
    decreases rest.len(),
{
    if rest.len() == 0 {
        assert(first + rest =~= first);
    } else {
        assert((first + rest).drop_last() =~= first + rest.drop_last());
        lemma_values_append(first, rest.drop_last(), name);
    }
}

proof fn lemma_valued_name_occurs(list: Seq<(String, Vec<u8>)>, name: Seq<char>)
    requires
        values_of(list, name).len() > 0,
    ensures
        list.map_values(|entry: (String, Vec<u8>)| entry.0@).contains(name),
    decreases list.len(),
{
    let names = list.map_values(|entry: (String, Vec<u8>)| entry.0@);
    if list.last().0@ == name {
        assert(names[list.len() - 1] == name);
    } else {
        lemma_valued_name_occurs(list.drop_last(), name);
        let before = list.drop_last().map_values(|entry: (String, Vec<u8>)| entry.0@);
        let i = choose|i: int| 0 <= i < before.len() && before[i] == name;
        assert(names[i] == name);
    }
}

/// What can be listed is finite.
pub proof fn lemma_fields_finite(list: Seq<(String, Vec<u8>)>, fields: Fields)
    requires
        lists_fields(list, fields),
    ensures
        fields.dom().finite(),
{
    let names = list.map_values(|entry: (String, Vec<u8>)| entry.0@);
    assert forall|name: Seq<char>| fields.dom().contains(name) implies names.to_set().contains(
        name,
    ) by {
        lemma_valued_name_occurs(list, name);
    }
    vstd::set_lib::lemma_set_subset_finite(names.to_set(), fields.dom());
}

/// `HeaderMap::new`: a map that holds nothing.
#[verifier::external_body]
pub(crate) fn no_headers() -> (r: HeaderMap)
    ensures
        header_fields(r) == Fields::empty(),
{
    HeaderMap::new()
}

/// `HeaderMap::iter`: every name with each of its values. The values of one name
/// come in the order in which they were added; the order of the names is left
/// open. Names are always in lower case.
#[verifier::external_body]
pub(crate) fn header_list(map: &HeaderMap) -> (list: Vec<(String, Vec<u8>)>)
    ensures
        lists_fields(list@, header_fields(*map)),
{
    map.iter().map(|(name, value)| (name.as_str().to_owned(), value.as_bytes().to_vec())).collect()
}

/// `HeaderMap::try_insert`: gives the name this one value in place of those it
/// had. It fails where the map cannot grow, and then leaves the fields as they
/// were; a map with fewer names than `NAMES_WITH_ROOM` can always grow.
#[verifier::external_body]
pub(crate) fn set_header(map: &mut HeaderMap, name: &str, value: &[u8]) -> (r: Result<
    (),
    MaxSizeReached,
>)
    requires
        is_header_name(name@),
        is_header_value(value@),
    ensures
        r is Ok ==> header_fields(*final(map)) == header_fields(*old(map)).insert(
            lowercase(name@),
            seq![value@],
        ),
        r is Err ==> header_fields(*final(map)) == header_fields(*old(map)),
        r is Err ==> header_fields(*old(map)).dom().len() >= NAMES_WITH_ROOM,
{
    let name = HeaderName::from_bytes(name.as_bytes()).unwrap();
    let value = HeaderValue::from_bytes(value).unwrap();
    map.try_insert(name, value).map(|_previous| ())
}

/// `HeaderMap::contains_key`: whether the map has a value for the name, in
/// whatever case the name is written.
#[verifier::external_body]
pub(crate) fn has_header(map: &HeaderMap, name: &str) -> (r: bool)
    requires
        is_header_name(name@),
    ensures
        r == header_fields(*map).contains_key(lowercase(name@)),
{
    map.contains_key(name)
}

/// `HeaderMap::get`: the first value of the name, if it has any.
#[verifier::external_body]
pub(crate) fn first_value(map: &HeaderMap, name: &str) -> (r: Option<Vec<u8>>)
    requires
        is_header_name(name@),
    ensures
        r is Some <==> header_fields(*map).contains_key(lowercase(name@)),
        r matches Some(value) ==> header_fields(*map)[lowercase(name@)].len() > 0 && value@
            == header_fields(*map)[lowercase(name@)][0],
{
    map.get(name).map(|value| value.as_bytes().to_vec())
}

/// `HeaderName::from_bytes`: reads a header name, in lower case.
#[verifier::external_body]
pub(crate) fn read_header_name(text: &str) -> (r: Result<String, InvalidHeaderName>)
    ensures
        r is Ok <==> is_header_name(text@),
        r matches Ok(name) ==> name@ == lowercase(text@),
{
    HeaderName::from_bytes(text.as_bytes()).map(|name| name.as_str().to_owned())
}

/// `HeaderValue::from_bytes`: reads a header value, as it stands.
#[verifier::external_body]
pub(crate) fn read_header_value(bytes: &[u8]) -> (r: Result<Vec<u8>, InvalidHeaderValue>)
    ensures
        r is Ok <==> is_header_value(bytes@),
        r matches Ok(value) ==> value@ == bytes@,
{
    HeaderValue::from_bytes(bytes).map(|value| value.as_bytes().to_vec())
}

/// `HeaderValue::from_str`: reads a header value from the UTF-8 bytes of a text.
#[verifier::external_body]
pub(crate) fn read_header_text(text: &str) -> (r: Result<Vec<u8>, InvalidHeaderValue>)
    ensures
        r is Ok <==> is_header_value(encode_utf8(text@)),
        r matches Ok(value) ==> value@ == encode_utf8(text@),
{
    HeaderValue::from_str(text).map(|value| value.as_bytes().to_vec())
}

/// `HeaderValue::to_str`: the value as text, where every byte of it is visible
/// ASCII, a space or a tab.
#[verifier::external_body]
pub(crate) fn value_text(value: &[u8]) -> (r: Option<String>)
    ensures
        r is Some <==> is_visible(value@),
        r matches Some(text) ==> text@ == as_text(value@),
{
    HeaderValue::from_bytes(value).ok()?.to_str().ok().map(|text| text.to_owned())
}

/// `StatusCode::from_u16`: a number from 100 to 999 is a status code.
#[verifier::external_body]
pub(crate) fn read_status(code: u16) -> (r: Option<u16>)
    ensures
        r == (if 100 <= code <= 999 {
            Some(code)
        } else {
            None
        }),
{
    StatusCode::from_u16(code).ok().map(|status| status.as_u16())
}

/// A header name consists of visible ASCII characters other than the delimiters
/// `"(),/:;<=>?@[\]{}`, and is neither empty nor longer than 65535.
pub proof fn law_names_have_no_delimiters(s: Seq<char>)
    ensures
        is_header_name(s) <==> 1 <= s.len() <= 65535 && forall|i: int|
            0 <= i < s.len() ==> '!' <= #[trigger] s[i] && s[i] <= '~' && s[i] != '"' && s[i] != '('
                && s[i] != ')' && s[i] != ',' && s[i] != '/' && !(':' <= s[i] && s[i] <= '@')
                && !('[' <= s[i] && s[i] <= ']') && s[i] != '{' && s[i] != '}',
{
    reveal_strlit("!#$%&'*+-.^_`|~");
    let marks = "!#$%&'*+-.^_`|~"@;
    assert(marks[0] == '!' && marks[1] == '#' && marks[2] == '$' && marks[3] == '%');
    assert(marks[4] == '&' && marks[5] == '\'' && marks[6] == '*' && marks[7] == '+');
    assert(marks[8] == '-' && marks[9] == '.' && marks[10] == '^' && marks[11] == '_');
    assert(marks[12] == '`' && marks[13] == '|' && marks[14] == '~' && marks.len() == 15);
    assert forall|i: int| 0 <= i < s.len() implies is_token_char(#[trigger] s[i]) == ('!' <= s[i]
        && s[i] <= '~' && s[i] != '"' && s[i] != '(' && s[i] != ')' && s[i] != ',' && s[i] != '/'
        && !(':' <= s[i] && s[i] <= '@') && !('[' <= s[i] && s[i] <= ']') && s[i] != '{' && s[i]
        != '}') by {
        let c = s[i];
        if marks.contains(c) {
            let k = choose|k: int| 0 <= k < marks.len() && marks[k] == c;
            assert(marks[k] == c);
        }
    }
}

/// A value is unfit for a header only because of a control character other than
/// the tab, and for showing as text only because of one or of a byte beyond
/// ASCII; shown as text, it has a character for each byte.
pub proof fn law_values_have_no_control_characters(bytes: Seq<u8>)
    ensures
        !is_header_value(bytes) <==> exists|i: int|
            0 <= i < bytes.len() && (#[trigger] bytes[i] <= 8 || 10 <= bytes[i] <= 31 || bytes[i]
                == 127),
        !is_visible(bytes) <==> exists|i: int|
            0 <= i < bytes.len() && (#[trigger] bytes[i] <= 8 || 10 <= bytes[i] <= 31 || bytes[i]
                >= 127),
        as_text(bytes).len() == bytes.len(),
        forall|i: int|
            0 <= i < bytes.len() ==> #[trigger] as_text(bytes)[i] as int == bytes[i] as int,
{
}

/// An entry in a list adds its value to those of its own name, behind those
/// before it, and to no other name; a list without entries gives no values.
pub proof fn law_an_entry_adds_its_value(
    list: Seq<(String, Vec<u8>)>,
    entry: (String, Vec<u8>),
    name: Seq<char>,
)
    ensures
        values_of(Seq::empty(), name).len() == 0,
        entry.0@ == name ==> values_of(list.push(entry), name) == values_of(list, name).push(
            entry.1@,
        ),
        entry.0@ != name ==> values_of(list.push(entry), name) == values_of(list, name),
{
    assert(list.push(entry).drop_last() =~= list);
}

} // verus!
