//! The immutable search request assembled at submit time, and the query
//! URLs sent to the journey-search collaborator. Station names go in as
//! raw text: resolving them is the collaborator's business.

use vstd::prelude::*;

use crate::text::seq_views;

verus! {

/// One connection search: from/to text, the non-empty vias in user order,
/// an optional date and time, and the arrival/departure flag.
pub struct SearchConnectionRequest {
    pub from: String,
    pub to: String,
    pub vias: Vec<String>,
    pub date: Option<String>,
    pub time: Option<String>,
    pub is_arrival_time: bool,
}

/// The `&via[]=` query fragments for the vias, in order.
pub open spec fn vias_query(vs: Seq<Seq<char>>) -> Seq<char>
    decreases vs.len(),
{
    if vs.len() == 0 {
        Seq::empty()
    } else {
        vias_query(vs.drop_last()) + "&via[]="@ + vs.last()
    }
}

/// The location-search URL for a query text.
pub open spec fn location_url_spec(q: Seq<char>) -> Seq<char> {
    "http://transport.opendata.ch/v1/locations?query="@ + q
}

/// The connection-search URL for a request.
pub open spec fn connection_url_spec(r: SearchConnectionRequest) -> Seq<char> {
    "http://transport.opendata.ch/v1/connections?limit=6&from="@ + r.from@ + "&to="@ + r.to@
        + vias_query(seq_views(r.vias@)) + (match r.date {
        Some(d) => "&date="@ + d@,
        None => Seq::empty(),
    }) + (match r.time {
        Some(t) => "&time="@ + t@,
        None => Seq::empty(),
    }) + (if r.is_arrival_time {
        "&isArrivalTime=1"@
    } else {
        "&isArrivalTime=0"@
    })
}

/// The URL that asks the location-search collaborator for suggestions.
pub fn location_query_url(query: &str) -> (r: String)
    ensures
        r@ == location_url_spec(query@),
{
    let mut out = String::from_str("http://transport.opendata.ch/v1/locations?query=");
    out.append(query);
    out
}

/// The URL that asks the connection-search collaborator for itineraries.
pub fn connection_query_url(req: &SearchConnectionRequest) -> (r: String)
    ensures
        r@ == connection_url_spec(*req),
{
    let mut out = String::from_str("http://transport.opendata.ch/v1/connections?limit=6&from=");
    out.append(req.from.as_str());
    out.append("&to=");
    out.append(req.to.as_str());
    let ghost head = out@;
    let mut k: usize = 0;
    proof {
        assert(seq_views(req.vias@).take(0) =~= Seq::<Seq<char>>::empty());
        assert(out@ =~= head + vias_query(seq_views(req.vias@).take(0)));
    }
    while k < req.vias.len()
        invariant
            k <= req.vias@.len(),
            out@ == head + vias_query(seq_views(req.vias@).take(k as int)),
        decreases req.vias@.len() - k,
    {
        out.append("&via[]=");
        out.append(req.vias[k].as_str());
        proof {
            let vs = seq_views(req.vias@);
            assert(vs.take(k + 1).drop_last() =~= vs.take(k as int));
            assert(vs.take(k + 1).last() == vs[k as int]);
            assert(out@ =~= head + vias_query(vs.take(k + 1)));
        }
        k += 1;
    }
    proof {
        assert(seq_views(req.vias@).take(req.vias@.len() as int) =~= seq_views(req.vias@));
    }
    match &req.date {
        Some(d) => {
            out.append("&date=");
            out.append(d.as_str());
        },
        None => {},
    }
    match &req.time {
        Some(t) => {
            out.append("&time=");
            out.append(t.as_str());
        },
        None => {},
    }
    if req.is_arrival_time {
        out.append("&isArrivalTime=1");
    } else {
        out.append("&isArrivalTime=0");
    }
    proof {
        assert(out@ =~= connection_url_spec(*req));
    }
    out
}

} // verus!
