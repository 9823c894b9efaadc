//! Header blocks as the session library takes them.
use vstd::prelude::*;

use http::HeaderMap;

use crate::headers::{
    field_values, field_views, header_fields, header_order, header_values, values_of, Field,
};
use crate::text::utf8;

verus! {

/// A header of a block that is submitted to the session.
#[derive(Debug)]
pub struct Nv {
    pub name: Vec<u8>,
    pub value: Vec<u8>,
}

/// The names and values of a block.
pub open spec fn nv_pairs(nv: Seq<Nv>) -> Seq<(Seq<u8>, Seq<u8>)> {
    nv.map_values(|h: Nv| (h.name@, h.value@))
}

/// Headers that belong to one connection and are illegal in HTTP/2.
pub open spec fn spec_is_connection_specific(name: Seq<char>) -> bool {
    ||| name == "connection"@
    ||| name == "keep-alive"@
    ||| name == "proxy-connection"@
    ||| name == "transfer-encoding"@
    ||| name == "upgrade"@
}

pub fn is_connection_specific(name: &String) -> (r: bool)
    ensures
        r == spec_is_connection_specific(name@),
{
    *name == "connection".to_owned() || *name == "keep-alive".to_owned() || *name
        == "proxy-connection".to_owned() || *name == "transfer-encoding".to_owned() || *name
        == "upgrade".to_owned()
}

/// What may be sent of `fields`, in order.
pub open spec fn sendable(fields: Seq<(Seq<char>, Seq<u8>)>) -> Seq<(Seq<u8>, Seq<u8>)>
    decreases fields.len(),
{
    if fields.len() == 0 {
        Seq::empty()
    } else {
        let before = sendable(fields.drop_last());
        let (name, value) = fields.last();
        if spec_is_connection_specific(name) {
            before
        } else {
            before.push((utf8(name), value))
        }
    }
}

/// The map's order holds each name's values, oldest first, and nothing else.
pub open spec fn orders_its_values(headers: HeaderMap) -> bool {
    forall|name: Seq<char>| #[trigger]
        field_values(header_order(headers), name) == values_of(header_values(headers), name)
}

/// One header of a block.
pub fn nv_pair(name: &[u8], value: &[u8]) -> (r: Nv)
    ensures
        r.name@ == name@,
        r.value@ == value@,
{
    Nv { name: vstd::slice::slice_to_vec(name), value: vstd::slice::slice_to_vec(value) }
}

proof fn nv_push(nv: Seq<Nv>, pair: Nv)
    ensures
        nv_pairs(nv.push(pair)) == nv_pairs(nv).push((pair.name@, pair.value@)),
{
    assert(nv_pairs(nv.push(pair)) =~= nv_pairs(nv).push((pair.name@, pair.value@)));
}

/// Append what may be sent of `fields`.
pub fn push_fields(nv: &mut Vec<Nv>, fields: &Vec<Field>)
    ensures
        nv_pairs(final(nv)@) == nv_pairs(old(nv)@) + sendable(field_views(fields@)),
{
    let mut i: usize = 0;
    let ghost all = field_views(fields@);
    assert(nv_pairs(nv@) =~= nv_pairs(old(nv)@) + sendable(all.take(0)));
    while i < fields.len()
        invariant
            i <= fields.len(),
            all == field_views(fields@),
            nv_pairs(nv@) == nv_pairs(old(nv)@) + sendable(all.take(i as int)),
        decreases fields.len() - i,
    {
        let ghost before = nv@;
        assert(all.take(i + 1).drop_last() =~= all.take(i as int));
        if !is_connection_specific(&fields[i].0) {
            let pair = nv_pair(fields[i].0.as_str().as_bytes(), fields[i].1.as_slice());
            proof {
                nv_push(before, pair);
            }
            nv.push(pair);
        }
        assert(nv_pairs(nv@) =~= nv_pairs(old(nv)@) + sendable(all.take(i + 1)));
        i = i + 1;
    }
    assert(all.take(i as int) =~= all);
}

/// Append the headers of a map, without those that belong to one connection.
fn push_headers(nv: &mut Vec<Nv>, headers: &HeaderMap)
    ensures
        nv_pairs(final(nv)@) == nv_pairs(old(nv)@) + sendable(header_order(*headers)),
        orders_its_values(*headers),
{
    let fields = header_fields(headers);
    push_fields(nv, &fields);
}

/// The block of a response: its status, then its headers in the map's order.
pub fn fill_response_nv(status: &str, headers: &HeaderMap) -> (r: Vec<Nv>)
    ensures
        nv_pairs(r@) == seq![(utf8(":status"@), utf8(status@))] + sendable(header_order(*headers)),
        orders_its_values(*headers),
{
    let mut nv: Vec<Nv> = Vec::new();
    nv.push(nv_pair(":status".as_bytes(), status.as_bytes()));
    assert(nv_pairs(nv@) =~= seq![(utf8(":status"@), utf8(status@))]);
    push_headers(&mut nv, headers);
    nv
}

/// The pseudo-headers of a request. An empty authority is left out.
pub open spec fn request_pseudo(
    method: Seq<u8>,
    scheme: Seq<u8>,
    authority: Seq<u8>,
    path: Seq<u8>,
) -> Seq<(Seq<u8>, Seq<u8>)> {
    if authority.len() == 0 {
        seq![
            (utf8(":method"@), method),
            (utf8(":scheme"@), scheme),
            (utf8(":path"@), path),
        ]
    } else {
        seq![
            (utf8(":method"@), method),
            (utf8(":scheme"@), scheme),
            (utf8(":authority"@), authority),
            (utf8(":path"@), path),
        ]
    }
}

/// The block of a request: its pseudo-headers, then its headers in the map's
/// order.
pub fn fill_request_nv(
    method: &str,
    scheme: &str,
    authority: &str,
    path: &str,
    headers: &HeaderMap,
) -> (r: Vec<Nv>)
    ensures
        nv_pairs(r@) == request_pseudo(
            utf8(method@),
            utf8(scheme@),
            utf8(authority@),
            utf8(path@),
        ) + sendable(header_order(*headers)),
        orders_its_values(*headers),
{
    let mut nv: Vec<Nv> = Vec::new();
    nv.push(nv_pair(":method".as_bytes(), method.as_bytes()));
    nv.push(nv_pair(":scheme".as_bytes(), scheme.as_bytes()));
    let authority_bytes = authority.as_bytes();
    if authority_bytes.len() > 0 {
        nv.push(nv_pair(":authority".as_bytes(), authority_bytes));
    }
    nv.push(nv_pair(":path".as_bytes(), path.as_bytes()));
    let ghost pseudo = request_pseudo(
        utf8(method@),
        utf8(scheme@),
        utf8(authority@),
        utf8(path@),
    );
    assert(nv_pairs(nv@) =~= pseudo);
    push_headers(&mut nv, headers);
    nv
}

/// The block of trailers, in the map's order.
pub fn fill_trailer_nv(headers: &HeaderMap) -> (r: Vec<Nv>)
    ensures
        nv_pairs(r@) == sendable(header_order(*headers)),
        orders_its_values(*headers),
{
    let mut nv: Vec<Nv> = Vec::new();
    push_headers(&mut nv, headers);
    assert(nv_pairs(nv@) =~= sendable(header_order(*headers)));
    nv
}

/// No header that belongs to one connection is ever sent.
pub proof fn connection_headers_are_not_sent(fields: Seq<(Seq<char>, Seq<u8>)>, i: int) -> (j: int)
    requires
        0 <= i < sendable(fields).len(),
    ensures
        0 <= j < fields.len(),
        !spec_is_connection_specific(fields[j].0),
        sendable(fields)[i] == (utf8(fields[j].0), fields[j].1),
    decreases fields.len(),
{
    let before = sendable(fields.drop_last());
    if i < before.len() {
        connection_headers_are_not_sent(fields.drop_last(), i)
    } else {
        fields.len() - 1
    }
}

/// Where the fields that may be sent stand among `fields`.
pub proof fn sent_places(fields: Seq<(Seq<char>, Seq<u8>)>) -> (at: Seq<int>)
    ensures
        at.len() == sendable(fields).len(),
        forall|i: int, j: int| 0 <= i < j < at.len() ==> at[i] < at[j],
        forall|k: int|
            #![trigger at[k]]
            0 <= k < at.len() ==> {
                &&& 0 <= at[k] < fields.len()
                &&& sendable(fields)[k] == (utf8(fields[at[k]].0), fields[at[k]].1)
                &&& fields[at[k]].0 != "connection"@
                &&& fields[at[k]].0 != "keep-alive"@
                &&& fields[at[k]].0 != "proxy-connection"@
                &&& fields[at[k]].0 != "transfer-encoding"@
                &&& fields[at[k]].0 != "upgrade"@
            },
        forall|i: int|
            #![trigger fields[i]]
            0 <= i < fields.len() && fields[i].0 != "connection"@ && fields[i].0 != "keep-alive"@
                && fields[i].0 != "proxy-connection"@ && fields[i].0 != "transfer-encoding"@
                && fields[i].0 != "upgrade"@ ==> at.contains(i),
    decreases fields.len(),
{
    if fields.len() == 0 {
        Seq::empty()
    } else {
        let earlier = fields.drop_last();
        let before = sent_places(earlier);
        let n = fields.len() - 1;
        assert forall|i: int| 0 <= i < n implies earlier[i] == #[trigger] fields[i] by {}
        if sendable(fields).len() == sendable(earlier).len() {
            before
        } else {
            let at = before.push(n);
            assert(at[before.len() as int] == n);
            assert forall|i: int|
                #![trigger fields[i]]
                0 <= i < n && before.contains(i) implies at.contains(i) by {
                let k = choose|k: int| 0 <= k < before.len() && before[k] == i;
                assert(at[k] == i);
            }
            at
        }
    }
}

/// A block of trailers holds the headers whose names are not `connection`,
/// `keep-alive`, `proxy-connection`, `transfer-encoding` and `upgrade`: every
/// one of them under its name and with its value, in the map's order, and
/// nothing else. `at` says which header of the map each one of the block is.
pub proof fn trailers_hold_every_other_header(headers: HeaderMap, nv: Vec<Nv>) -> (at: Seq<int>)
    requires
        call_ensures(fill_trailer_nv, (&headers,), nv),
    ensures
        at.len() == nv@.len(),
        forall|i: int, j: int| 0 <= i < j < at.len() ==> at[i] < at[j],
        forall|k: int|
            #![trigger at[k]]
            0 <= k < at.len() ==> {
                let field = header_order(headers)[at[k]];
                &&& 0 <= at[k] < header_order(headers).len()
                &&& nv@[k].name@ == utf8(field.0)
                &&& nv@[k].value@ == field.1
                &&& field.0 != "connection"@
                &&& field.0 != "keep-alive"@
                &&& field.0 != "proxy-connection"@
                &&& field.0 != "transfer-encoding"@
                &&& field.0 != "upgrade"@
            },
        forall|i: int|
            #![trigger header_order(headers)[i]]
            0 <= i < header_order(headers).len() && header_order(headers)[i].0 != "connection"@
                && header_order(headers)[i].0 != "keep-alive"@ && header_order(headers)[i].0
                != "proxy-connection"@ && header_order(headers)[i].0 != "transfer-encoding"@
                && header_order(headers)[i].0 != "upgrade"@ ==> at.contains(i),
{
    let at = sent_places(header_order(headers));
    assert(nv_pairs(nv@).len() == nv@.len());
    assert forall|k: int| 0 <= k < nv@.len() implies nv_pairs(nv@)[k] == (
        (#[trigger] nv@[k]).name@,
        nv@[k].value@,
    ) by {}
    at
}

/// The block of a response begins with its status, and goes on with the
/// headers whose names are none of the five that belong to one connection, each
/// with its value, in the map's order. `at` says which header of the map each
/// one behind the status is.
pub proof fn responses_hold_every_other_header(status: &str, headers: HeaderMap, nv: Vec<Nv>) -> (at:
    Seq<int>)
    requires
        call_ensures(fill_response_nv, (status, &headers), nv),
    ensures
        nv@.len() == at.len() + 1,
        nv@[0].name@ == utf8(":status"@),
        nv@[0].value@ == utf8(status@),
        forall|i: int, j: int| 0 <= i < j < at.len() ==> at[i] < at[j],
        forall|k: int|
            #![trigger at[k]]
            0 <= k < at.len() ==> {
                let field = header_order(headers)[at[k]];
                &&& 0 <= at[k] < header_order(headers).len()
                &&& nv@[k + 1].name@ == utf8(field.0)
                &&& nv@[k + 1].value@ == field.1
                &&& field.0 != "connection"@
                &&& field.0 != "keep-alive"@
                &&& field.0 != "proxy-connection"@
                &&& field.0 != "transfer-encoding"@
                &&& field.0 != "upgrade"@
            },
        forall|i: int|
            #![trigger header_order(headers)[i]]
            0 <= i < header_order(headers).len() && header_order(headers)[i].0 != "connection"@
                && header_order(headers)[i].0 != "keep-alive"@ && header_order(headers)[i].0
                != "proxy-connection"@ && header_order(headers)[i].0 != "transfer-encoding"@
                && header_order(headers)[i].0 != "upgrade"@ ==> at.contains(i),
{
    let at = sent_places(header_order(headers));
    let pairs = nv_pairs(nv@);
    assert(pairs.len() == nv@.len());
    assert forall|k: int| 0 <= k < nv@.len() implies pairs[k] == (
        (#[trigger] nv@[k]).name@,
        nv@[k].value@,
    ) by {}
    assert(pairs[0] == (utf8(":status"@), utf8(status@)));
    assert forall|k: int| 0 <= k < at.len() implies #[trigger] pairs[k + 1] == sendable(
        header_order(headers),
    )[k] by {}
    at
}

/// The block of a request names its method, its scheme, its authority unless it
/// is empty, and its path, and goes on with the headers whose names are none of
/// the five that belong to one connection, each with its value, in the map's
/// order. `at` says which header of the map each one behind the first ones is.
pub proof fn requests_hold_every_other_header(
    method: &str,
    scheme: &str,
    authority: &str,
    path: &str,
    headers: HeaderMap,
    nv: Vec<Nv>,
) -> (at: Seq<int>)
    requires
        call_ensures(fill_request_nv, (method, scheme, authority, path, &headers), nv),
    ensures
        ({
            let first: int = if utf8(authority@).len() == 0 {
                3
            } else {
                4
            };
            &&& nv@.len() == first + at.len()
            &&& nv@[0].name@ == utf8(":method"@) && nv@[0].value@ == utf8(method@)
            &&& nv@[1].name@ == utf8(":scheme"@) && nv@[1].value@ == utf8(scheme@)
            &&& first == 4 ==> nv@[2].name@ == utf8(":authority"@) && nv@[2].value@ == utf8(
                authority@,
            )
            &&& nv@[first - 1].name@ == utf8(":path"@) && nv@[first - 1].value@ == utf8(path@)
            &&& forall|k: int|
                #![trigger at[k]]
                0 <= k < at.len() ==> nv@[first + k].name@ == utf8(header_order(headers)[at[k]].0)
                    && nv@[first + k].value@ == header_order(headers)[at[k]].1
        }),
        forall|i: int, j: int| 0 <= i < j < at.len() ==> at[i] < at[j],
        forall|k: int|
            #![trigger at[k]]
            0 <= k < at.len() ==> {
                let field = header_order(headers)[at[k]];
                &&& 0 <= at[k] < header_order(headers).len()
                &&& field.0 != "connection"@
                &&& field.0 != "keep-alive"@
                &&& field.0 != "proxy-connection"@
                &&& field.0 != "transfer-encoding"@
                &&& field.0 != "upgrade"@
            },
        forall|i: int|
            #![trigger header_order(headers)[i]]
            0 <= i < header_order(headers).len() && header_order(headers)[i].0 != "connection"@
                && header_order(headers)[i].0 != "keep-alive"@ && header_order(headers)[i].0
                != "proxy-connection"@ && header_order(headers)[i].0 != "transfer-encoding"@
                && header_order(headers)[i].0 != "upgrade"@ ==> at.contains(i),
{
    let at = sent_places(header_order(headers));
    let pairs = nv_pairs(nv@);
    let pseudo = request_pseudo(utf8(method@), utf8(scheme@), utf8(authority@), utf8(path@));
    let first = pseudo.len() as int;
    assert(pairs.len() == nv@.len());
    assert forall|k: int| 0 <= k < nv@.len() implies pairs[k] == (
        (#[trigger] nv@[k]).name@,
        nv@[k].value@,
    ) by {}
    assert forall|k: int| 0 <= k < first implies #[trigger] pairs[k] == pseudo[k] by {}
    assert(pseudo[0] == pairs[0] && pseudo[1] == pairs[1] && pseudo[first - 1] == pairs[first - 1]);
    assert(first == 4 ==> pseudo[2] == pairs[2]);
    assert forall|k: int| 0 <= k < at.len() implies #[trigger] pairs[first + k] == sendable(
        header_order(headers),
    )[k] by {}
    assert forall|k: int|
        #![trigger at[k]]
        0 <= k < at.len() implies nv@[first + k].name@ == utf8(header_order(headers)[at[k]].0)
        && nv@[first + k].value@ == header_order(headers)[at[k]].1 by {
        assert(pairs[first + k] == (nv@[first + k].name@, nv@[first + k].value@));
    }
    at
}

/// Five names belong to one connection, and no other does.
pub proof fn five_names_belong_to_a_connection(name: String, r: bool)
    requires
        call_ensures(is_connection_specific, (&name,), r),
    ensures
        r <==> name@ == "connection"@ || name@ == "keep-alive"@ || name@ == "proxy-connection"@
            || name@ == "transfer-encoding"@ || name@ == "upgrade"@,
{
}

/// A header of a block is its name and its value, as they are.
pub proof fn a_header_is_sent_as_it_is(name: &[u8], value: &[u8], r: Nv)
    requires
        call_ensures(nv_pair, (name, value), r),
    ensures
        r.name@ == name@,
        r.value@ == value@,
{
}

/// Fields are appended to a block behind what it holds, each but those whose
/// names belong to one connection, in their order: `at` says which field each
/// one that is appended is.
pub proof fn fields_are_appended_in_order(fields: Vec<Field>) -> (at: Seq<int>)
    ensures
        forall|i: int, j: int| 0 <= i < j < at.len() ==> at[i] < at[j],
        forall|k: int|
            #![trigger at[k]]
            0 <= k < at.len() ==> {
                let name = fields@[at[k]].0@;
                &&& 0 <= at[k] < fields@.len()
                &&& name != "connection"@ && name != "keep-alive"@ && name != "proxy-connection"@
                &&& name != "transfer-encoding"@ && name != "upgrade"@
            },
        forall|i: int|
            #![trigger fields@[i]]
            0 <= i < fields@.len() ==> {
                let name = fields@[i].0@;
                name != "connection"@ && name != "keep-alive"@ && name != "proxy-connection"@
                    && name != "transfer-encoding"@ && name != "upgrade"@ ==> at.contains(i)
            },
        forall|nv: &mut Vec<Nv>| #[trigger]
            call_ensures(push_fields, (nv, &fields), ()) ==> {
                let n = nv@.len() as int;
                let now = final(nv)@;
                &&& now.len() == n + at.len()
                &&& forall|i: int|
                    #![trigger now[i]]
                    0 <= i < n ==> now[i].name@ == nv@[i].name@ && now[i].value@ == nv@[i].value@
                &&& forall|k: int|
                    #![trigger at[k]]
                    0 <= k < at.len() ==> now[n + k].name@ == utf8(fields@[at[k]].0@) && now[n
                        + k].value@ == fields@[at[k]].1@
            },
{
    let views = field_views(fields@);
    assert forall|i: int| 0 <= i < fields@.len() implies #[trigger] views[i] == (
        fields@[i].0@,
        fields@[i].1@,
    ) by {}
    let at = sent_places(views);
    assert forall|i: int|
        #![trigger fields@[i]]
        0 <= i < fields@.len() implies {
        let name = fields@[i].0@;
        name != "connection"@ && name != "keep-alive"@ && name != "proxy-connection"@ && name
            != "transfer-encoding"@ && name != "upgrade"@ ==> at.contains(i)
    } by {
        assert(views[i].0 == fields@[i].0@);
    }
    assert forall|nv: &mut Vec<Nv>| #[trigger]
        call_ensures(push_fields, (nv, &fields), ()) implies {
        let n = nv@.len() as int;
        let now = final(nv)@;
        &&& now.len() == n + at.len()
        &&& forall|i: int|
            #![trigger now[i]]
            0 <= i < n ==> now[i].name@ == nv@[i].name@ && now[i].value@ == nv@[i].value@
        &&& forall|k: int|
            #![trigger at[k]]
            0 <= k < at.len() ==> now[n + k].name@ == utf8(fields@[at[k]].0@) && now[n + k].value@
                == fields@[at[k]].1@
    } by {
        let n = nv@.len() as int;
        let now = final(nv)@;
        let before = nv_pairs(nv@);
        let pairs = nv_pairs(now);
        assert(pairs.len() == now.len() && before.len() == n);
        assert forall|i: int|
            #![trigger now[i]]
            0 <= i < n implies now[i].name@ == nv@[i].name@ && now[i].value@ == nv@[i].value@ by {
            assert(pairs[i] == (now[i].name@, now[i].value@));
            assert(before[i] == (nv@[i].name@, nv@[i].value@));
        }
        assert forall|k: int|
            #![trigger at[k]]
            0 <= k < at.len() implies now[n + k].name@ == utf8(fields@[at[k]].0@) && now[n
            + k].value@ == fields@[at[k]].1@ by {
            assert(pairs[n + k] == (now[n + k].name@, now[n + k].value@));
            assert(pairs[n + k] == sendable(views)[k]);
            assert(views[at[k]] == (fields@[at[k]].0@, fields@[at[k]].1@));
        }
    }
    at
}

} // verus!
