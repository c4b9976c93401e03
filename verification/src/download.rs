//! Download decisions: the response owed for a missing record, for each way
//! the object-store fetch can end, and the cache headers owed for the
//! stored content type.

use vstd::prelude::*;

verus! {

use crate::records::Bundle;
use crate::text::{spec_starts_with, str_starts_with};
use vstd::string::StringExecFns;

/// The header policy of a streamed object: video content gets
/// range-friendly headers and a year-long cache, everything else is sent
/// chunked with an hour-long cache.
#[derive(Clone, Copy, Debug, PartialEq, Eq, Structural)]
pub enum CachePolicy {
    VideoRange,
    ChunkedShortLived,
}

/// The policy owed for a content type: range headers for `video/*`.
pub open spec fn spec_cache_policy(ct: Seq<char>) -> CachePolicy {
    if spec_starts_with(ct, "video/"@) {
        CachePolicy::VideoRange
    } else {
        CachePolicy::ChunkedShortLived
    }
}

/// Decides the header policy for a stored content type.
pub fn cache_policy(content_type: &String) -> (p: CachePolicy)
    ensures
        p == spec_cache_policy(content_type@),
{
    if str_starts_with(content_type.as_str(), "video/") {
        CachePolicy::VideoRange
    } else {
        CachePolicy::ChunkedShortLived
    }
}

/// What to do once the metadata store answered a download request.
#[derive(Debug)]
pub enum DownloadDecision {
    /// The handle is unknown: a not-found response whose message names the
    /// handle.
    NotFound(String),
    /// The record exists: fetch the bytes and stream them under this
    /// content type.
    Fetch(String),
}

/// Decides the download path from the metadata lookup: an absent record is
/// a not-found answer that references the handle, an existing record leads
/// to the store fetch under its recorded content type.
pub fn download_decision(metadata: Option<Bundle>, handle: &String) -> (d: DownloadDecision)
    ensures
        match d {
            DownloadDecision::NotFound(msg) => metadata is None && msg@ == "Bundle not found: "@
                + handle@,
            DownloadDecision::Fetch(ct) => metadata matches Some(b) && ct == b.content_type,
        },
{
    match metadata {
        Option::None => DownloadDecision::NotFound(
            String::from_str("Bundle not found: ").concat(handle.as_str()),
        ),
        Option::Some(b) => DownloadDecision::Fetch(b.content_type),
    }
}

/// How the object-store fetch of the bytes ended.
#[derive(Clone, Copy, Debug, PartialEq, Eq, Structural)]
pub enum StoreFetch {
    /// The bytes are in hand.
    Fetched,
    /// The request to the store could not be made.
    RequestFailed,
    /// The store answered with a failure status.
    RejectedStatus,
    /// The response bytes could not be read.
    ReadFailed,
}

/// The response plan of the download endpoint.
#[derive(Debug)]
pub enum DownloadPlan {
    /// Stream the bytes with this header policy and content type.
    Stream(CachePolicy, String),
    /// The store request failed: a server error.
    StoreRequestFailed,
    /// The store rejected the handle: a not-found answer naming it.
    StoreRejected(String),
    /// The body could not be read: a server error.
    StoreReadFailed,
}

/// Decides the response once the record was found and the store answered:
/// only a fetched payload streams, and a rejected handle is reported as
/// not found with the handle named.
pub fn stream_plan(content_type: &String, fetch: StoreFetch, handle: &String) -> (p: DownloadPlan)
    ensures
        match p {
            DownloadPlan::Stream(policy, ct) => fetch is Fetched && policy == spec_cache_policy(
                content_type@,
            ) && ct == content_type,
            DownloadPlan::StoreRequestFailed => fetch is RequestFailed,
            DownloadPlan::StoreRejected(msg) => fetch is RejectedStatus && msg@
                == "File not found: "@ + handle@,
            DownloadPlan::StoreReadFailed => fetch is ReadFailed,
        },
{
    match fetch {
        StoreFetch::Fetched => DownloadPlan::Stream(
            cache_policy(content_type),
            content_type.clone(),
        ),
        StoreFetch::RequestFailed => DownloadPlan::StoreRequestFailed,
        StoreFetch::RejectedStatus => DownloadPlan::StoreRejected(
            String::from_str("File not found: ").concat(handle.as_str()),
        ),
        StoreFetch::ReadFailed => DownloadPlan::StoreReadFailed,
    }
}

/// The HTTP status owed for each download plan.
pub fn plan_status(p: &DownloadPlan) -> (status: u16)
    ensures
        match p {
            DownloadPlan::Stream(_, _) => status == 200,
            DownloadPlan::StoreRequestFailed => status == 500,
            DownloadPlan::StoreRejected(_) => status == 404,
            DownloadPlan::StoreReadFailed => status == 500,
        },
{
    match p {
        DownloadPlan::Stream(_, _) => 200,
        DownloadPlan::StoreRequestFailed => 500,
        DownloadPlan::StoreRejected(_) => 404,
        DownloadPlan::StoreReadFailed => 500,
    }
}

} // verus!
