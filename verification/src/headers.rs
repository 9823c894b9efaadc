//! Header fields: `http`'s header map, and what the proxy does with it.
use vstd::prelude::*;

use http::{HeaderMap, HeaderName, HeaderValue};

verus! {

/// `http`'s header value.
#[verifier::external_type_specification]
#[verifier::external_body]
pub struct ExHeaderValue(http::HeaderValue);

/// `http`'s header map.
#[verifier::external_type_specification]
#[verifier::external_body]
#[verifier::reject_recursive_types(T)]
pub struct ExHeaderMap<T>(http::HeaderMap<T>);

/// The values that a header map holds under each name, oldest first.
pub uninterp spec fn header_values(headers: HeaderMap) -> Map<Seq<char>, Seq<Seq<u8>>>;

/// The headers of a map in the order in which the map gives them: each value
/// under its name.
pub uninterp spec fn header_order(headers: HeaderMap) -> Seq<(Seq<char>, Seq<u8>)>;

/// As many names always fit in a header map.
pub const ROOM_FOR_NAMES: usize = 6553;

/// A byte that a header name may hold.
pub open spec fn is_name_byte(b: u8) -> bool {
    ||| 0x30 <= b <= 0x39
    ||| 0x41 <= b <= 0x5a
    ||| 0x61 <= b <= 0x7a
    ||| b == 0x21
    ||| 0x23 <= b <= 0x27
    ||| b == 0x2a
    ||| b == 0x2b
    ||| b == 0x2d
    ||| b == 0x2e
    ||| 0x5e <= b <= 0x60
    ||| b == 0x7c
    ||| b == 0x7e
}

/// Bytes that make a header name.
pub open spec fn is_name(name: Seq<u8>) -> bool {
    0 < name.len() <= 65535 && forall|i: int| 0 <= i < name.len() ==> is_name_byte(#[trigger] name[i])
}

/// The name that the bytes make: in lower case.
pub open spec fn name_text(name: Seq<u8>) -> Seq<char> {
    name.map_values(
        |b: u8|
            if 0x41 <= b <= 0x5a {
                (b + 0x20) as char
            } else {
                b as char
            },
    )
}

/// Bytes that make a header value.
pub open spec fn is_value(value: Seq<u8>) -> bool {
    forall|i: int|
        0 <= i < value.len() ==> ((#[trigger] value[i]) >= 32 && value[i] != 127) || value[i] == 9
}

/// The values under `name`, none where the name is absent.
pub open spec fn values_of(headers: Map<Seq<char>, Seq<Seq<u8>>>, name: Seq<char>) -> Seq<Seq<u8>> {
    if headers.contains_key(name) {
        headers[name]
    } else {
        Seq::empty()
    }
}

/// The map with one more value under `name`.
pub open spec fn appended(
    headers: Map<Seq<char>, Seq<Seq<u8>>>,
    name: Seq<char>,
    value: Seq<u8>,
) -> Map<Seq<char>, Seq<Seq<u8>>> {
    headers.insert(name, values_of(headers, name).push(value))
}

/// A map without a header.
pub open spec fn no_headers() -> Map<Seq<char>, Seq<Seq<u8>>> {
    Map::empty()
}

/// `HeaderMap::new`: no header.
#[verifier::external_body]
pub(crate) fn new_headers() -> (r: HeaderMap)
    ensures
        header_values(r) == no_headers(),
{
    HeaderMap::new()
}

/// `HeaderMap::try_append`, of the name that `HeaderName::from_bytes` and the
/// value that `HeaderValue::from_bytes` make of the bytes: the value is added
/// behind those that the name has. Nothing is added where the bytes make no
/// name or no value, or where the map is full, which it is not with up to
/// `ROOM_FOR_NAMES` names.
#[verifier::external_body]
pub(crate) fn append_header(headers: &mut HeaderMap, name: &[u8], value: &[u8]) -> (r: bool)
    ensures
        r ==> is_name(name@) && is_value(value@) && header_values(*final(headers)) == appended(
            header_values(*old(headers)),
            name_text(name@),
            value@,
        ),
        !r ==> header_values(*final(headers)) == header_values(*old(headers)),
        is_name(name@) && is_value(value@) && header_values(*old(headers)).dom().len()
            <= ROOM_FOR_NAMES ==> r,
{
    match (HeaderName::from_bytes(name), HeaderValue::from_bytes(value)) {
        (Ok(name), Ok(value)) => headers.try_append(name, value).is_ok(),
        _ => false,
    }
}

/// `HeaderMap::try_insert`, of the name that `HeaderName::from_bytes` and the
/// value that `HeaderValue::from_bytes` make of the bytes: the value takes the
/// place of those that the name has. Nothing changes where the bytes make no
/// name or no value, or where the map is full.
#[verifier::external_body]
pub(crate) fn insert_header(headers: &mut HeaderMap, name: &[u8], value: &[u8]) -> (r: bool)
    ensures
        r ==> is_name(name@) && is_value(value@) && header_values(*final(headers))
            == header_values(*old(headers)).insert(name_text(name@), seq![value@]),
        !r ==> header_values(*final(headers)) == header_values(*old(headers)),
        is_name(name@) && is_value(value@) && header_values(*old(headers)).dom().len()
            <= ROOM_FOR_NAMES ==> r,
{
    match (HeaderName::from_bytes(name), HeaderValue::from_bytes(value)) {
        (Ok(name), Ok(value)) => headers.try_insert(name, value).is_ok(),
        _ => false,
    }
}

/// `HeaderMap::remove`, of the name that `HeaderName::from_bytes` makes of the
/// bytes: every value of the name is removed. Bytes that make no name remove
/// nothing.
#[verifier::external_body]
pub(crate) fn remove_header(headers: &mut HeaderMap, name: &[u8])
    ensures
        header_values(*final(headers)) == if is_name(name@) {
            header_values(*old(headers)).remove(name_text(name@))
        } else {
            header_values(*old(headers))
        },
{
    if let Ok(name) = HeaderName::from_bytes(name) {
        headers.remove(name);
    }
}

/// `HeaderName::from_bytes`: the name that the bytes make, if they make one.
#[verifier::external_body]
pub(crate) fn header_name(name: &[u8]) -> (r: Option<String>)
    ensures
        optional_text(r) == if is_name(name@) {
            Some(name_text(name@))
        } else {
            None
        },
{
    HeaderName::from_bytes(name).ok().map(|n| n.as_str().to_owned())
}

/// `HeaderMap::get_all`, of the name that `HeaderName::from_bytes` makes of
/// the bytes: its values, oldest first.
#[verifier::external_body]
pub(crate) fn header_list(headers: &HeaderMap, name: &[u8]) -> (r: Vec<Vec<u8>>)
    requires
        is_name(name@),
    ensures
        r@.len() == values_of(header_values(*headers), name_text(name@)).len(),
        forall|i: int|
            0 <= i < r@.len() ==> (#[trigger] r@[i])@ == values_of(
                header_values(*headers),
                name_text(name@),
            )[i],
{
    match HeaderName::from_bytes(name) {
        Ok(name) => headers.get_all(name).iter().map(|v| v.as_bytes().to_vec()).collect(),
        Err(_) => Vec::new(),
    }
}

/// A name and a value, as text and bytes.
pub type Field = (String, Vec<u8>);

/// The texts and bytes of fields.
pub open spec fn field_views(fields: Seq<Field>) -> Seq<(Seq<char>, Seq<u8>)> {
    fields.map_values(|field: Field| (field.0@, field.1@))
}

/// The values of `name` among `fields`, in order.
pub open spec fn field_values(fields: Seq<(Seq<char>, Seq<u8>)>, name: Seq<char>) -> Seq<Seq<u8>>
    decreases fields.len(),
{
    if fields.len() == 0 {
        Seq::empty()
    } else {
        let before = field_values(fields.drop_last(), name);
        if fields.last().0 == name {
            before.push(fields.last().1)
        } else {
            before
        }
    }
}

/// `HeaderMap::iter`: every value under its name, in the map's own order. The
/// values of one name come oldest first. How the map orders its names is left
/// unsaid.
#[verifier::external_body]
pub(crate) fn header_fields(headers: &HeaderMap) -> (r: Vec<Field>)
    ensures
        field_views(r@) == header_order(*headers),
        forall|name: Seq<char>| #[trigger]
            field_values(field_views(r@), name) == values_of(header_values(*headers), name),
{
    headers.iter().map(|(n, v)| (n.as_str().to_owned(), v.as_bytes().to_vec())).collect()
}

/// A byte that text may hold: printable ASCII, a space or a tab.
pub open spec fn is_text_byte(b: u8) -> bool {
    32 <= b < 127 || b == 9
}

/// The text of a value, where it holds nothing else.
pub open spec fn value_text(value: Seq<u8>) -> Option<Seq<char>> {
    if forall|i: int| 0 <= i < value.len() ==> is_text_byte(#[trigger] value[i]) {
        Some(value.map_values(|b: u8| b as char))
    } else {
        None
    }
}

/// The text of the first value under `name`.
pub open spec fn first_text(
    headers: Map<Seq<char>, Seq<Seq<u8>>>,
    name: Seq<char>,
) -> Option<Seq<char>> {
    if values_of(headers, name).len() > 0 {
        value_text(values_of(headers, name)[0])
    } else {
        None
    }
}

/// The view of an optional text.
pub open spec fn optional_text(text: Option<String>) -> Option<Seq<char>> {
    match text {
        Some(text) => Some(text@),
        None => None,
    }
}

/// `HeaderMap::get`, of the name that `HeaderName::from_bytes` makes of the
/// bytes, and `HeaderValue::to_str` of what it finds: the text of the name's
/// oldest value, where it is text.
#[verifier::external_body]
pub(crate) fn header_text(headers: &HeaderMap, name: &[u8]) -> (r: Option<String>)
    requires
        is_name(name@),
    ensures
        optional_text(r) == first_text(header_values(*headers), name_text(name@)),
{
    let name = HeaderName::from_bytes(name).ok()?;
    headers.get(name)?.to_str().ok().map(|v| v.to_owned())
}

/// The authority that a request names: its URI's, or the `Host` header's.
pub open spec fn spec_authority_of(
    uri_authority: Option<Seq<char>>,
    headers: Map<Seq<char>, Seq<Seq<u8>>>,
) -> Option<Seq<char>> {
    match uri_authority {
        Some(authority) => Some(authority),
        None => first_text(headers, "host"@),
    }
}

/// `host` is a header name.
proof fn host_is_a_name()
    ensures
        is_name(crate::text::utf8("host"@)),
        name_text(crate::text::utf8("host"@)) == "host"@,
{
    reveal_strlit("host");
    assert("host"@ =~= seq!['h', 'o', 's', 't']);
    crate::text::ascii_bytes("host"@);
    assert(name_text(crate::text::utf8("host"@)) =~= "host"@);
}

/// The authority that a request names.
pub fn authority_of(uri_authority: Option<&str>, headers: &HeaderMap) -> (r: Option<String>)
    ensures
        optional_text(r) == spec_authority_of(
            match uri_authority {
                Some(authority) => Some(authority@),
                None => None,
            },
            header_values(*headers),
        ),
{
    if let Some(authority) = uri_authority {
        return Some(authority.to_owned());
    }
    proof {
        host_is_a_name();
    }
    header_text(headers, "host".as_bytes())
}

/// A request's authority is that of its URI; where that has none, it is the text
/// of the first `host` header, where that is text.
pub proof fn an_authority_is_the_uris_or_the_hosts(
    uri_authority: Option<&str>,
    headers: HeaderMap,
    r: Option<String>,
)
    requires
        call_ensures(authority_of, (uri_authority, &headers), r),
    ensures
        uri_authority is Some ==> r is Some && r->0@ == uri_authority->0@,
        uri_authority is None ==> ({
            let all = header_values(headers);
            let there = all.contains_key("host"@) && all["host"@].len() > 0;
            let value = all["host"@][0];
            let text = forall|i: int|
                0 <= i < value.len() ==> 32 <= (#[trigger] value[i]) <= 126 || value[i] == 9;
            &&& r is Some <==> there && text
            &&& r is Some ==> r->0@.len() == value.len() && forall|i: int|
                0 <= i < value.len() ==> (#[trigger] r->0@[i]) == value[i] as char
        }),
{
    if uri_authority is None {
        let all = header_values(headers);
        if all.contains_key("host"@) && all["host"@].len() > 0 {
            let value = all["host"@][0];
            if forall|i: int|
                0 <= i < value.len() ==> 32 <= (#[trigger] value[i]) <= 126 || value[i] == 9 {
                assert forall|i: int| 0 <= i < value.len() implies is_text_byte(
                    #[trigger] value[i],
                ) by {}
            } else if value_text(value) is Some {
                assert forall|i: int| 0 <= i < value.len() implies 32 <= (#[trigger] value[i])
                    <= 126 || value[i] == 9 by {
                    assert(is_text_byte(value[i]));
                }
            }
        }
    }
}

/// A header name is one to 65535 characters, each a letter, a digit or one of
/// `` !#$%&'*+-.^_`|~ ``; it is written in lower case, and otherwise as it is. A
/// value is anything but control characters, among which a tab does not count.
pub proof fn names_and_values_are_known(name: Seq<u8>, value: Seq<u8>, i: int, k: int)
    requires
        0 <= i < name.len(),
        0 <= k < value.len(),
    ensures
        ({
            let b = name[i];
            &&& is_name(name) ==> name.len() <= 65535 && {
                ||| 0x61 <= b <= 0x7a
                ||| 0x41 <= b <= 0x5a
                ||| 0x30 <= b <= 0x39
                ||| b == 0x21 || b == 0x23 || b == 0x24 || b == 0x25 || b == 0x26 || b == 0x27
                ||| b == 0x2a || b == 0x2b || b == 0x2d || b == 0x2e || b == 0x5e || b == 0x5f
                ||| b == 0x60 || b == 0x7c || b == 0x7e
            }
            &&& name.len() == 1 ==> (is_name(name) <==> {
                ||| 0x61 <= b <= 0x7a
                ||| 0x41 <= b <= 0x5a
                ||| 0x30 <= b <= 0x39
                ||| b == 0x21 || b == 0x23 || b == 0x24 || b == 0x25 || b == 0x26 || b == 0x27
                ||| b == 0x2a || b == 0x2b || b == 0x2d || b == 0x2e || b == 0x5e || b == 0x5f
                ||| b == 0x60 || b == 0x7c || b == 0x7e
            })
            &&& name_text(name).len() == name.len()
            &&& 0x41 <= b <= 0x5a ==> name_text(name)[i] == (b + 0x20) as char
            &&& !(0x41 <= b <= 0x5a) ==> name_text(name)[i] == b as char
        }),
        is_value(value) ==> value[k] == 9 || (value[k] >= 32 && value[k] != 127),
        value.len() == 1 ==> (is_value(value) <==> value[k] == 9 || (value[k] >= 32 && value[k]
            != 127)),
        !is_name(Seq::empty()),
        is_value(Seq::empty()),
{
    if is_name(name) {
        assert(is_name_byte(name[i]));
    }
    if name.len() == 1 && is_name_byte(name[0]) {
        assert forall|j: int| 0 <= j < name.len() implies is_name_byte(#[trigger] name[j]) by {
            assert(j == 0);
        }
    }
    if value.len() == 1 && (value[0] == 9 || (value[0] >= 32 && value[0] != 127)) {
        assert forall|j: int| 0 <= j < value.len() implies ((#[trigger] value[j]) >= 32 && value[j]
            != 127) || value[j] == 9 by {
            assert(j == 0);
        }
    }
}

/// Names that can stand behind each other make a name together, and so do
/// values.
pub proof fn names_and_values_join(first: Seq<u8>, more: Seq<u8>)
    ensures
        is_name(first) && is_name(more) && first.len() + more.len() <= 65535 ==> is_name(
            first + more,
        ),
        is_value(first) && is_value(more) ==> is_value(first + more),
{
    let all = first + more;
    if is_name(first) && is_name(more) {
        assert forall|j: int| 0 <= j < all.len() implies is_name_byte(#[trigger] all[j]) by {
            if j < first.len() {
                assert(is_name_byte(first[j]));
            } else {
                assert(is_name_byte(more[j - first.len()]));
            }
        }
    }
    if is_value(first) && is_value(more) {
        assert forall|j: int| 0 <= j < all.len() implies ((#[trigger] all[j]) >= 32 && all[j]
            != 127) || all[j] == 9 by {
            if j < first.len() {
                assert(all[j] == first[j]);
            } else {
                assert(all[j] == more[j - first.len()]);
            }
        }
    }
}

} // verus!
