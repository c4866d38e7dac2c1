use vstd::prelude::*;
use crate::errors::FsError;

verus! {

/// A fetched remote resource: the HTTP status code, the response headers
/// whose values decoded as text, and the body bytes. The resource is handed
/// to the caller whatever the status says — deciding that a `4xx` or `5xx`
/// is a failure is the caller's policy, not the transport's.
pub struct RemoteResource {
    pub status: u16,
    pub headers: Vec<(String, String)>,
    pub body: Vec<u8>,
}

/// What the transport observed for one fetch: a completed HTTP exchange —
/// whatever its status — with each response header's value kept when it
/// decoded as text and absent when it did not, or a transport-level failure
/// (connection failure, timeout, non-decodable response).
pub enum FetchOutcome {
    Completed { status: u16, headers: Vec<(String, Option<String>)>, body: Vec<u8> },
    TransportFailure,
}

/// The texts of a header list.
pub open spec fn header_texts(hs: Seq<(String, String)>) -> Seq<(Seq<char>, Seq<char>)> {
    hs.map_values(|p: (String, String)| (p.0@, p.1@))
}

/// The headers that survive decoding, in order: each pair whose value is
/// present, and nothing of the pairs whose value did not decode.
pub open spec fn kept_headers(hs: Seq<(String, Option<String>)>) -> Seq<(Seq<char>, Seq<char>)>
    decreases hs.len(),
{
    if hs.len() == 0 {
        Seq::empty()
    } else {
        let rest = kept_headers(hs.drop_last());
        match hs.last().1 {
            Some(v) => rest.push((hs.last().0@, v@)),
            None => rest,
        }
    }
}

/// Keep the headers whose value decoded as text, in their original order;
/// drop each header whose value did not, rather than failing the request.
pub fn keep_text_headers(headers: &Vec<(String, Option<String>)>) -> (r: Vec<(String, String)>)
    ensures
        header_texts(r@) == kept_headers(headers@),
{
    let mut r: Vec<(String, String)> = Vec::new();
    let mut i: usize = 0;
    proof {
        assert(headers@.take(0) =~= Seq::<(String, Option<String>)>::empty());
    }
    while i < headers.len()
        invariant
            i <= headers@.len(),
            header_texts(r@) =~= kept_headers(headers@.take(i as int)),
        decreases headers@.len() - i,
    {
        match &headers[i].1 {
            Some(v) => {
                r.push((headers[i].0.clone(), v.clone()));
            },
            None => {},
        }
        proof {
            assert(headers@.take(i + 1).drop_last() =~= headers@.take(i as int));
            assert(headers@.take(i + 1).last() == headers@[i as int]);
            assert(header_texts(r@) =~= kept_headers(headers@.take(i + 1)));
        }
        i = i + 1;
    }
    proof {
        assert(headers@.take(headers@.len() as int) =~= headers@);
    }
    r
}

/// Shape a transport outcome into what the remote-resource capability
/// returns: a completed exchange is a successful resource carrying its
/// status — an HTTP error status included — with the headers that decoded as
/// text and the body exactly; only a transport failure is an error, and it
/// is `NetworkError`.
pub fn resource_of_outcome(outcome: FetchOutcome) -> (r: Result<RemoteResource, FsError>)
    ensures
        match outcome {
            FetchOutcome::Completed { status, headers, body } => match r {
                Ok(res) => res.status == status && res.body@ == body@ && header_texts(res.headers@)
                    == kept_headers(headers@),
                Err(_) => false,
            },
            FetchOutcome::TransportFailure => r == Err::<RemoteResource, FsError>(
                FsError::NetworkError,
            ),
        },
{
    match outcome {
        FetchOutcome::Completed { status, headers, body } => {
            let kept = keep_text_headers(&headers);
            Ok(RemoteResource { status, headers: kept, body })
        },
        FetchOutcome::TransportFailure => Err(FsError::NetworkError),
    }
}

} // verus!
