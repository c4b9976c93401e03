use load0::dispatch::{route_request, Endpoint, Method, RouteTarget};
use load0::download::{
    cache_policy, download_decision, plan_status, stream_plan, CachePolicy, DownloadDecision,
    DownloadPlan, StoreFetch,
};
use load0::hashing::generate_pseudorandom_keccak_hash;
use load0::records::Bundle;
use load0::upload::{resolve_content_type, upload_response, UploadEvent, UploadQuery};

#[test]
fn routes_match_the_fixed_route_table() {
    assert!(matches!(
        route_request(Method::Get, "/"),
        RouteTarget::ServerStatus
    ));
    assert!(matches!(
        route_request(Method::Get, "/stats"),
        RouteTarget::BundleStats
    ));
    assert!(matches!(
        route_request(Method::Post, "/upload"),
        RouteTarget::UploadBinary
    ));
    match route_request(Method::Get, "/download/0xabc") {
        RouteTarget::Retrieval(Endpoint::DownloadObject, h) => assert_eq!(h, "0xabc"),
        _ => panic!("expected the download endpoint"),
    }
    match route_request(Method::Get, "/resolve/0xabc") {
        RouteTarget::Retrieval(Endpoint::DownloadObject, h) => assert_eq!(h, "0xabc"),
        _ => panic!("expected the resolve alias"),
    }
    match route_request(Method::Get, "/bundle/optimistic/0xdef") {
        RouteTarget::Retrieval(Endpoint::BundleByOpHash, h) => assert_eq!(h, "0xdef"),
        _ => panic!("expected the optimistic lookup"),
    }
    match route_request(Method::Get, "/bundle/load/0x123") {
        RouteTarget::Retrieval(Endpoint::BundleByLoadTxid, h) => assert_eq!(h, "0x123"),
        _ => panic!("expected the settlement lookup"),
    }
    assert!(matches!(
        route_request(Method::Get, "/download/a/b"),
        RouteTarget::NotFound
    ));
    assert!(matches!(
        route_request(Method::Get, "/download/"),
        RouteTarget::NotFound
    ));
    assert!(matches!(
        route_request(Method::Get, "/nope"),
        RouteTarget::NotFound
    ));
    assert!(matches!(
        route_request(Method::Post, "/"),
        RouteTarget::NotFound
    ));
}

#[test]
fn content_type_defaults_to_octet_stream() {
    let ct = resolve_content_type(UploadQuery { content_type: None }, None);
    assert_eq!(ct, "application/octet-stream");

    let ct = resolve_content_type(
        UploadQuery { content_type: None },
        Some("image/png".to_string()),
    );
    assert_eq!(ct, "image/png");

    let ct = resolve_content_type(
        UploadQuery {
            content_type: Some("video/mp4".to_string()),
        },
        Some("image/png".to_string()),
    );
    assert_eq!(ct, "video/mp4");
}

#[test]
fn upload_success_returns_a_nonempty_handle() {
    let handle = generate_pseudorandom_keccak_hash(1_717_171_717_000_000_000);
    assert_eq!(handle.len(), 66);
    assert!(handle.starts_with("0x"));
    assert!(handle[2..].chars().all(|c| c.is_ascii_hexdigit()));

    let (status, body) = upload_response(UploadEvent::RecordInserted, &handle);
    assert_eq!(status, 200);
    assert!(body.success);
    assert_eq!(body.optimistic_hash, Some(handle));
}

#[test]
fn handles_differ_for_different_timestamps() {
    let a = generate_pseudorandom_keccak_hash(1);
    let b = generate_pseudorandom_keccak_hash(2);
    assert_ne!(a, b);
    // the digest is not the decimal input echoed back
    assert_ne!(a, "0x1");
}

#[test]
fn failed_record_insert_still_reports_success() {
    let handle = generate_pseudorandom_keccak_hash(77);
    let (status, body) = upload_response(UploadEvent::RecordInsertFailed, &handle);
    assert_eq!(status, 200);
    assert!(body.success);
    assert_eq!(body.optimistic_hash, Some(handle));
}

#[test]
fn failed_store_upload_reports_an_error() {
    let handle = generate_pseudorandom_keccak_hash(78);
    for event in [
        UploadEvent::BodyReadFailed,
        UploadEvent::StoreRequestFailed,
        UploadEvent::StoreRejected,
    ] {
        let (status, body) = upload_response(event, &handle);
        assert_eq!(status, 500);
        assert!(!body.success);
        assert!(body.optimistic_hash.is_none());
    }
}

#[test]
fn missing_record_yields_not_found_naming_the_handle() {
    let handle = "0xdeadbeef".to_string();
    match download_decision(None, &handle) {
        DownloadDecision::NotFound(msg) => {
            assert_eq!(msg, "Bundle not found: 0xdeadbeef");
        }
        DownloadDecision::Fetch(_) => panic!("expected a not-found decision"),
    }
}

#[test]
fn existing_record_streams_under_its_content_type() {
    let b = Bundle {
        id: 1,
        optimistic_hash: "0xabc".to_string(),
        bundle_txid: String::new(),
        data_size: 4,
        is_settled: false,
        content_type: "video/mp4".to_string(),
    };
    let ct = match download_decision(Some(b), &"0xabc".to_string()) {
        DownloadDecision::Fetch(ct) => ct,
        DownloadDecision::NotFound(_) => panic!("expected a fetch decision"),
    };
    assert_eq!(ct, "video/mp4");

    let plan = stream_plan(&ct, StoreFetch::Fetched, &"0xabc".to_string());
    match &plan {
        DownloadPlan::Stream(policy, stream_ct) => {
            assert_eq!(*policy, CachePolicy::VideoRange);
            assert_eq!(stream_ct, "video/mp4");
        }
        _ => panic!("expected a streaming plan"),
    }
    assert_eq!(plan_status(&plan), 200);
}

#[test]
fn store_rejection_is_reported_as_not_found() {
    let ct = "text/plain".to_string();
    let handle = "0x404".to_string();
    let plan = stream_plan(&ct, StoreFetch::RejectedStatus, &handle);
    match &plan {
        DownloadPlan::StoreRejected(msg) => assert_eq!(msg, "File not found: 0x404"),
        _ => panic!("expected a store rejection"),
    }
    assert_eq!(plan_status(&plan), 404);

    assert_eq!(
        plan_status(&stream_plan(&ct, StoreFetch::RequestFailed, &handle)),
        500
    );
    assert_eq!(
        plan_status(&stream_plan(&ct, StoreFetch::ReadFailed, &handle)),
        500
    );
}

#[test]
fn only_video_content_gets_range_headers() {
    assert_eq!(
        cache_policy(&"video/webm".to_string()),
        CachePolicy::VideoRange
    );
    assert_eq!(
        cache_policy(&"image/png".to_string()),
        CachePolicy::ChunkedShortLived
    );
    assert_eq!(
        cache_policy(&"application/octet-stream".to_string()),
        CachePolicy::ChunkedShortLived
    );
}
