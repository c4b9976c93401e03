use load0::access::{
    classify, AccessTier, HeaderField, KeyError, TokenVerdict, XLoadAuthHeaderExtractor,
};

fn whitelist() -> Vec<String> {
    vec!["cloud.load.network".to_string(), "localhost".to_string()]
}

#[test]
fn whitelisted_host_wins_regardless_of_auth_header() {
    let wl = whitelist();
    let key = "top-secret".to_string();
    let host = "cloud.load.network".to_string();

    let junk = "junk-token".to_string();
    let secret = key.clone();
    for (auth, verdict) in [
        (None, TokenVerdict::Rejected),
        (Some(&junk), TokenVerdict::Accepted),
        (Some(&secret), TokenVerdict::Unavailable),
    ] {
        assert_eq!(
            classify(&host, auth, verdict, &wl, &key),
            AccessTier::Whitelisted
        );
    }
}

#[test]
fn internal_secret_yields_internal_tier() {
    let wl = whitelist();
    let key = "top-secret".to_string();
    let host = "example.com".to_string();
    let auth = "top-secret".to_string();
    assert_eq!(
        classify(&host, Some(&auth), TokenVerdict::Rejected, &wl, &key),
        AccessTier::Internal
    );
}

#[test]
fn accepted_token_yields_authenticated_tier() {
    let wl = whitelist();
    let key = "top-secret".to_string();
    let host = "example.com".to_string();
    let auth = "some-bearer-token".to_string();
    assert_eq!(
        classify(&host, Some(&auth), TokenVerdict::Accepted, &wl, &key),
        AccessTier::Authenticated
    );
}

#[test]
fn verifier_failure_is_treated_like_rejection() {
    let wl = whitelist();
    let key = "top-secret".to_string();
    let host = "example.com".to_string();
    let auth = "some-bearer-token".to_string();
    let rejected = classify(&host, Some(&auth), TokenVerdict::Rejected, &wl, &key);
    let unavailable = classify(&host, Some(&auth), TokenVerdict::Unavailable, &wl, &key);
    assert_eq!(rejected, AccessTier::Public);
    assert_eq!(unavailable, rejected);
}

#[test]
fn absent_auth_header_is_public() {
    let wl = whitelist();
    let key = "top-secret".to_string();
    let host = "example.com".to_string();
    assert_eq!(
        classify(&host, None, TokenVerdict::Rejected, &wl, &key),
        AccessTier::Public
    );
}

#[test]
fn identity_key_prefers_header_over_peer_address() {
    let ex = XLoadAuthHeaderExtractor;
    assert_eq!(
        ex.extract(
            Some("10.0.0.1".to_string()),
            HeaderField::Value("token-abc".to_string())
        ),
        Ok("token-abc".to_string())
    );
    assert_eq!(
        ex.extract(Some("10.0.0.1".to_string()), HeaderField::Missing),
        Ok("10.0.0.1".to_string())
    );
    assert_eq!(
        ex.extract(Some("10.0.0.1".to_string()), HeaderField::Unreadable),
        Err(KeyError::UnableToExtractKey)
    );
    assert_eq!(
        ex.extract(None, HeaderField::Missing),
        Err(KeyError::UnableToExtractKey)
    );
}
