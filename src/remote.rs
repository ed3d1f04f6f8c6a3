//! Decisions made while fetching schema documents from an account's
//! repository: where its records live and which of them to read.
use vstd::prelude::*;
use crate::schema::str_eq;
use crate::text::{has_prefix, starts_with};

verus! {

/// The URI prefix of the schema records of a namespace in a repository.
pub open spec fn record_uri_prefix_spec(did: Seq<char>, collection: Seq<char>, namespace: Seq<char>) -> Seq<char> {
    "at://"@ + did + "/"@ + collection + "/"@ + namespace
}

/// Builds the URI prefix of the schema records of a namespace.
pub fn record_uri_prefix(did: &str, collection: &str, namespace: &str) -> (r: String)
    ensures
        r@ == record_uri_prefix_spec(did@, collection@, namespace@),
{
    let mut r = String::from_str("at://");
    r.append(did);
    r.append("/");
    r.append(collection);
    r.append("/");
    r.append(namespace);
    r
}

/// The positions of the URIs that start with `prefix`, in order.
pub open spec fn wanted_positions(uris: Seq<Seq<char>>, prefix: Seq<char>) -> Seq<usize>
    decreases uris.len(),
{
    if uris.len() == 0 {
        Seq::empty()
    } else {
        let prev = wanted_positions(uris.drop_last(), prefix);
        if has_prefix(uris.last(), prefix) {
            prev.push((uris.len() - 1) as usize)
        } else {
            prev
        }
    }
}

/// Picks the records whose URIs fall under `prefix`.
pub fn select_records(uris: &Vec<String>, prefix: &str) -> (r: Vec<usize>)
    ensures
        r@ == wanted_positions(uris.deep_view(), prefix@),
{
    let mut out: Vec<usize> = Vec::new();
    let mut i: usize = 0;
    assert(uris.deep_view().take(0) =~= Seq::<Seq<char>>::empty());
    while i < uris.len()
        invariant
            i <= uris@.len(),
            out@ == wanted_positions(uris.deep_view().take(i as int), prefix@),
        decreases uris@.len() - i,
    {
        proof {
            let t = uris.deep_view().take(i + 1);
            assert(t.drop_last() =~= uris.deep_view().take(i as int));
            assert(t.last() == uris@[i as int]@);
        }
        if starts_with(uris[i].as_str(), prefix) {
            out.push(i);
        }
        i = i + 1;
    }
    assert(uris.deep_view().take(i as int) =~= uris.deep_view());
    out
}

/// The service type of a personal data server.
pub open spec fn pds_type() -> Seq<char> {
    "AtprotoPersonalDataServer"@
}

/// The endpoint of the first personal data server among an identity's
/// services, given as (type, endpoint) pairs.
pub open spec fn pds_endpoint_spec(services: Seq<(Seq<char>, Seq<char>)>) -> Option<Seq<char>>
    decreases services.len(),
{
    if services.len() == 0 {
        None
    } else if services[0].0 == pds_type() {
        Some(services[0].1)
    } else {
        pds_endpoint_spec(services.drop_first())
    }
}

/// Finds the endpoint of the first personal data server among the services.
pub fn pds_endpoint(services: &Vec<(String, String)>) -> (r: Option<String>)
    ensures
        match pds_endpoint_spec(services.deep_view()) {
            Some(e) => r is Some && r->Some_0@ == e,
            None => r is None,
        },
{
    let ghost sv = services.deep_view();
    let mut i: usize = 0;
    assert(sv.skip(0) =~= sv);
    while i < services.len()
        invariant
            i <= services@.len(),
            sv == services.deep_view(),
            pds_endpoint_spec(sv.skip(i as int)) == pds_endpoint_spec(sv),
        decreases services@.len() - i,
    {
        proof {
            assert(sv.skip(i as int).drop_first() =~= sv.skip(i + 1));
            assert(sv.skip(i as int)[0] == sv[i as int]);
            assert(sv[i as int] == (services@[i as int].0@, services@[i as int].1@));
        }
        if str_eq(services[i].0.as_str(), "AtprotoPersonalDataServer") {
            return Some(String::from_str(services[i].1.as_str()));
        }
        i = i + 1;
    }
    None
}

} // verus!
