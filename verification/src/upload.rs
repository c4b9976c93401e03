//! Upload decisions: the stored content type of a new object and the
//! response owed for each way the upload flow can end.

use vstd::prelude::*;

verus! {

use vstd::string::StringExecFns;

/// The optional `content_type` query parameter of an upload.
#[derive(Debug)]
pub struct UploadQuery {
    pub content_type: Option<String>,
}

/// The response body of the upload endpoint.
#[derive(Debug)]
pub struct UploadResponse {
    pub success: bool,
    pub message: String,
    pub optimistic_hash: Option<String>,
}

/// The content type stored when neither the query parameter nor the
/// `Content-Type` header names one.
pub const DEFAULT_CONTENT_TYPE: &'static str = "application/octet-stream";

/// The content type to store: the query parameter if present, else the
/// request header, else the default.
pub open spec fn spec_resolved_content_type(
    query: Option<Seq<char>>,
    header: Option<Seq<char>>,
) -> Seq<char> {
    match query {
        Option::Some(q) => q,
        Option::None => match header {
            Option::Some(h) => h,
            Option::None => "application/octet-stream"@,
        },
    }
}

/// Resolves the content type of an upload from the query parameter and the
/// `Content-Type` header.
pub fn resolve_content_type(query: UploadQuery, header: Option<String>) -> (ct: String)
    ensures
        ct@ == spec_resolved_content_type(query.content_type.deep_view(), header.deep_view()),
{
    match query.content_type {
        Option::Some(q) => q,
        Option::None => match header {
            Option::Some(h) => h,
            Option::None => String::from_str(DEFAULT_CONTENT_TYPE),
        },
    }
}

/// How the upload flow ended, as reported by the outside steps.
#[derive(Clone, Copy, Debug, PartialEq, Eq, Structural)]
pub enum UploadEvent {
    /// The request body could not be read.
    BodyReadFailed,
    /// The object-store request could not be sent.
    StoreRequestFailed,
    /// The object store answered with a failure status.
    StoreRejected,
    /// Bytes stored and the record inserted.
    RecordInserted,
    /// Bytes stored but the record insert failed; the upload still counts
    /// as successful.
    RecordInsertFailed,
}

/// The status code and response body owed for each upload outcome: the
/// handle is returned exactly when the bytes were stored, and a failed
/// record insert does not fail the upload.
pub fn upload_response(event: UploadEvent, handle: &String) -> (r: (u16, UploadResponse))
    ensures
        match event {
            UploadEvent::BodyReadFailed => r.0 == 500 && !r.1.success && r.1.optimistic_hash
                is None && r.1.message@ == "Error reading request body"@,
            UploadEvent::StoreRequestFailed => r.0 == 500 && !r.1.success && r.1.optimistic_hash
                is None && r.1.message@ == "Upload failed"@,
            UploadEvent::StoreRejected => r.0 == 500 && !r.1.success && r.1.optimistic_hash
                is None && r.1.message@ == "Upload failed"@,
            UploadEvent::RecordInserted => r.0 == 200 && r.1.success && (r.1.optimistic_hash
                matches Some(h) && h@ == handle@) && r.1.message@ == "Upload successful"@,
            UploadEvent::RecordInsertFailed => r.0 == 200 && r.1.success && (r.1.optimistic_hash
                matches Some(h) && h@ == handle@) && r.1.message@
                == "Upload successful but failed to create database record"@,
        },
{
    match event {
        UploadEvent::BodyReadFailed => (
            500,
            UploadResponse {
                success: false,
                message: String::from_str("Error reading request body"),
                optimistic_hash: Option::None,
            },
        ),
        UploadEvent::StoreRequestFailed => (
            500,
            UploadResponse {
                success: false,
                message: String::from_str("Upload failed"),
                optimistic_hash: Option::None,
            },
        ),
        UploadEvent::StoreRejected => (
            500,
            UploadResponse {
                success: false,
                message: String::from_str("Upload failed"),
                optimistic_hash: Option::None,
            },
        ),
        UploadEvent::RecordInserted => (
            200,
            UploadResponse {
                success: true,
                message: String::from_str("Upload successful"),
                optimistic_hash: Option::Some(handle.clone()),
            },
        ),
        UploadEvent::RecordInsertFailed => (
            200,
            UploadResponse {
                success: true,
                message: String::from_str(
                    "Upload successful but failed to create database record",
                ),
                optimistic_hash: Option::Some(handle.clone()),
            },
        ),
    }
}

} // verus!
