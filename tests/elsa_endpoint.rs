use htsget_elsa::cache::{CacheItem, MemoryCache};
use htsget_elsa::elsa_endpoint::{
    cache_key, check_status, Action, ElsaEndpoint, Event, Phase, Resolution, CACHE_PATH,
};
use htsget_elsa::examples::{example_elsa_manifest, example_elsa_response};
use htsget_elsa::manifest::{
    ElsaLocation, ElsaManifest, ElsaReadsManifest, ElsaResponse, ElsaRestrictionManifest,
    ElsaVariantsManifest,
};
use htsget_elsa::resolver::{Format, Interval, Resolver};
use htsget_elsa::Error;
use serde_json::Value;

const NOW: u128 = 1_700_000_000_000_000_000;

fn format_of(v: &Value) -> Option<Format> {
    v.get("format").map(|f| match f.as_str().unwrap() {
        "BAM" => Format::Bam,
        "CRAM" => Format::Cram,
        "VCF" => Format::Vcf,
        "BCF" => Format::Bcf,
        other => panic!("unknown format {other}"),
    })
}

fn restrictions_of(v: &Value) -> Vec<ElsaRestrictionManifest> {
    v["restrictions"]
        .as_array()
        .unwrap()
        .iter()
        .map(|r| ElsaRestrictionManifest {
            chromosome: r["chromosome"].as_u64().unwrap() as u8,
            start: r.get("start").map(|s| s.as_u64().unwrap() as u32),
            end: r.get("end").map(|s| s.as_u64().unwrap() as u32),
        })
        .collect()
}

fn manifest_from_json(text: &str) -> ElsaManifest {
    let v: Value = serde_json::from_str(text).unwrap();
    let reads = v["reads"]
        .as_object()
        .unwrap()
        .iter()
        .map(|(id, e)| {
            (
                id.clone(),
                ElsaReadsManifest {
                    url: e["url"].as_str().unwrap().to_string(),
                    format: format_of(e),
                    restrictions: restrictions_of(e),
                },
            )
        })
        .collect();
    let variants = v["variants"]
        .as_object()
        .unwrap()
        .iter()
        .map(|(id, e)| {
            (
                id.clone(),
                ElsaVariantsManifest {
                    url: e["url"].as_str().unwrap().to_string(),
                    format: format_of(e),
                    variant_sample_id: e
                        .get("variantSampleId")
                        .map(|s| s.as_str().unwrap().to_string())
                        .unwrap_or_default(),
                    restrictions: restrictions_of(e),
                },
            )
        })
        .collect();
    ElsaManifest::new(
        v["id"].as_str().unwrap().to_string(),
        reads,
        variants,
    )
    .unwrap()
}

fn response_from_json(text: &str) -> ElsaResponse {
    let v: Value = serde_json::from_str(text).unwrap();
    ElsaResponse {
        location: ElsaLocation {
            bucket: v["location"]["bucket"].as_str().unwrap().to_string(),
            key: v["location"]["key"].as_str().unwrap().to_string(),
        },
        max_age: v["maxAge"].as_u64().unwrap(),
    }
}

fn is_rule(
    resolver: &Resolver,
    regex: &str,
    substitution: &str,
    bucket: &str,
    format: Format,
    reference_name: &str,
    interval: Interval,
) -> bool {
    resolver.regex() == regex
        && resolver.substitution_string() == substitution
        && resolver.bucket() == bucket
        && resolver.allow_formats() == [format]
        && resolver.allow_reference_names() == &vec![reference_name.to_string()]
        && resolver.allow_interval() == interval
}

fn is_resolver_from_parts(resolver: &Resolver) -> bool {
    is_rule(
        resolver,
        "^R004/30F9F3FED8F711ED8C35DBEF59E9F537$",
        "HG00097/HG00097",
        "umccr-10g-data-dev",
        Format::Bam,
        "1",
        Interval::new(Some(1), Some(10)),
    )
}

fn is_manifest_resolvers(resolvers: Vec<Resolver>) -> bool {
    resolvers.iter().any(|resolver| {
        is_rule(
            resolver,
            "^R004/30F9FFD4D8F711ED8C353BBCB8861211$",
            "HG00096/HG00096",
            "umccr-10g-data-dev",
            Format::Bam,
            "2",
            Interval::new(None, Some(10)),
        )
    }) && resolvers.iter().any(is_resolver_from_parts)
        && resolvers.iter().any(|resolver| {
            is_rule(
                resolver,
                "^R004/30F9FFD4D8F711ED8C353BBCB8861211$",
                "HG00096/HG00096.hard-filtered",
                "umccr-10g-data-dev",
                Format::Vcf,
                "4",
                Interval::new(None, None),
            )
        })
        && resolvers.iter().any(|resolver| {
            is_rule(
                resolver,
                "^R004/30F9F3FED8F711ED8C35DBEF59E9F537$",
                "HG00097/HG00097.hard-filtered",
                "umccr-10g-data-dev",
                Format::Vcf,
                "3",
                Interval::new(Some(10), None),
            )
        })
}

fn example_restrictions_manifest() -> ElsaRestrictionManifest {
    ElsaRestrictionManifest {
        chromosome: 1,
        start: Some(1),
        end: Some(10),
    }
}

/// Drives a resolution against an in-memory cache, answering the manifest
/// service and the object store with the given documents.
fn resolve(
    endpoint: &ElsaEndpoint,
    cache: &mut MemoryCache,
    release_key: &str,
    response: &str,
    manifest: &str,
    now: u128,
) -> Result<Vec<Resolver>, Error> {
    let (mut resolution, mut action) = endpoint.start(release_key);
    loop {
        let event = match action {
            Action::ReadCache { key } => Event::CacheRead(cache.get(&key, now)),
            Action::FetchLocation { .. } => Event::LocationFetched(Ok(response_from_json(response))),
            Action::FetchManifest { .. } => Event::ManifestFetched(Ok(manifest_from_json(manifest))),
            Action::Store { key, item } => {
                cache.put(&key, item, now);
                Event::Stored(Ok(()))
            }
            Action::Done(rules) => return Ok(rules),
            Action::Fail(e) => return Err(e),
        };
        action = resolution.step(event);
    }
}

fn test_endpoint() -> ElsaEndpoint {
    ElsaEndpoint::new_with_scheme("127.0.0.1:8080".to_string(), "http".to_string())
}

#[test]
fn resolvers_from_manifest() {
    let manifest = manifest_from_json(&example_elsa_manifest());
    let resolvers = manifest.resolvers().unwrap();
    assert!(is_manifest_resolvers(resolvers));
}

#[test]
fn resolver_from_parts() {
    let response = ElsaManifest::resolver_from_manifest_parts(
        "R004",
        "s3://umccr-10g-data-dev/HG00097/HG00097.bam",
        "30F9F3FED8F711ED8C35DBEF59E9F537",
        Format::Bam,
        &example_restrictions_manifest(),
    )
    .unwrap();
    assert!(is_resolver_from_parts(&response));
}

#[test]
fn resolver_from_parts_uppercase() {
    let response = ElsaManifest::resolver_from_manifest_parts(
        "R004",
        "S3://umccr-10g-data-dev/HG00097/HG00097.bam",
        "30F9F3FED8F711ED8C35DBEF59E9F537",
        Format::Bam,
        &example_restrictions_manifest(),
    )
    .unwrap();
    assert!(is_resolver_from_parts(&response));
}

#[test]
fn resolver_from_parts_no_file_ending() {
    let response = ElsaManifest::resolver_from_manifest_parts(
        "R004",
        "s3://umccr-10g-data-dev/HG00097/HG00097",
        "30F9F3FED8F711ED8C35DBEF59E9F537",
        Format::Bam,
        &example_restrictions_manifest(),
    )
    .unwrap();
    assert!(is_resolver_from_parts(&response));
}

#[test]
fn resolver_from_parts_invalid_scheme() {
    let response = ElsaManifest::resolver_from_manifest_parts(
        "R004",
        "gcp://umccr-10g-data-dev/HG00097/HG00097.bam",
        "30F9F3FED8F711ED8C35DBEF59E9F537",
        Format::Bam,
        &example_restrictions_manifest(),
    );
    assert!(matches!(response, Err(Error::UnsupportedManifestFeature(_))));
}

#[test]
fn resolver_from_parts_no_object_key() {
    let response = ElsaManifest::resolver_from_manifest_parts(
        "R004",
        "s3://umccr-10g-data-dev",
        "30F9F3FED8F711ED8C35DBEF59E9F537",
        Format::Bam,
        &example_restrictions_manifest(),
    );
    assert!(matches!(response, Err(Error::InvalidManifest(_))));
}

#[test]
fn resolver_from_parts_no_bucket() {
    let response = ElsaManifest::resolver_from_manifest_parts(
        "R004",
        "s3:///HG00097/HG00097.bam",
        "30F9F3FED8F711ED8C35DBEF59E9F537",
        Format::Bam,
        &example_restrictions_manifest(),
    );
    assert!(matches!(response, Err(Error::InvalidManifest(_))));
}

#[test]
fn try_get_cached() {
    let endpoint = test_endpoint();
    let mut cache = MemoryCache::new();
    cache.put(
        &format!("{CACHE_PATH}/R004"),
        CacheItem {
            item: vec![],
            max_age: 1000,
        },
        NOW,
    );

    // A hit asks nothing else: the documents handed over are never read.
    let resolvers = resolve(&endpoint, &mut cache, "R004", "", "", NOW).unwrap();
    assert!(resolvers.is_empty());
}

#[test]
fn try_get_not_cached() {
    let endpoint = test_endpoint();
    let mut cache = MemoryCache::new();

    assert!(cache.get(&format!("{CACHE_PATH}/R004"), NOW).is_none());
    let resolvers = resolve(
        &endpoint,
        &mut cache,
        "R004",
        &example_elsa_response(),
        &example_elsa_manifest(),
        NOW,
    )
    .unwrap();

    assert!(is_manifest_resolvers(resolvers));
    assert!(cache.get(&format!("{CACHE_PATH}/R004"), NOW).is_some());
}

#[test]
fn resolution_follows_the_protocol() {
    let endpoint = test_endpoint();
    let (mut resolution, action) = endpoint.start("R004");
    assert_eq!(resolution.current_phase(), Phase::AwaitCache);
    match action {
        Action::ReadCache { key } => assert_eq!(key, "htsget-manifest-cache/R004"),
        other => panic!("unexpected {other:?}"),
    }

    match resolution.step(Event::CacheRead(None)) {
        Action::FetchLocation { uri } => assert_eq!(
            uri,
            "http://127.0.0.1:8080/api/manifest/htsget/R004?type=S3"
        ),
        other => panic!("unexpected {other:?}"),
    }

    match resolution.step(Event::LocationFetched(Ok(response_from_json(
        &example_elsa_response(),
    )))) {
        Action::FetchManifest { bucket, key } => {
            assert_eq!(bucket, "elsa-data-tmp");
            assert_eq!(key, "htsget-manifests/R004");
        }
        other => panic!("unexpected {other:?}"),
    }

    match resolution.step(Event::ManifestFetched(Ok(manifest_from_json(
        &example_elsa_manifest(),
    )))) {
        Action::Store { key, item } => {
            assert_eq!(key, "htsget-manifest-cache/R004");
            assert_eq!(item.max_age, 86400);
            assert_eq!(item.item.len(), 4);
        }
        other => panic!("unexpected {other:?}"),
    }

    match resolution.step(Event::Stored(Ok(()))) {
        Action::Done(rules) => assert!(is_manifest_resolvers(rules)),
        other => panic!("unexpected {other:?}"),
    }
    assert_eq!(resolution.current_phase(), Phase::Finished);
}

#[test]
fn resolution_reports_fetch_failures() {
    let endpoint = test_endpoint();
    let (mut resolution, _) = endpoint.start("R004");
    resolution.step(Event::CacheRead(None));
    let action = resolution.step(Event::LocationFetched(Err(Error::GetManifest(
        "404 Not Found".to_string(),
    ))));
    assert!(matches!(action, Action::Fail(Error::GetManifest(ref s)) if s == "404 Not Found"));

    let (mut resolution, _) = endpoint.start("R004");
    resolution.step(Event::CacheRead(None));
    resolution.step(Event::LocationFetched(Ok(response_from_json(
        &example_elsa_response(),
    ))));
    let action = resolution.step(Event::ManifestFetched(Err(Error::GetObjectError(
        "no such key".to_string(),
    ))));
    assert!(matches!(action, Action::Fail(Error::GetObjectError(_))));
}

#[test]
fn resolution_does_not_cache_a_failed_translation() {
    let endpoint = test_endpoint();
    let mut cache = MemoryCache::new();
    let manifest = r#"{"id":"R004","reads":{"E1":{"url":"gcp://data/HG1/HG1.bam","restrictions":[{"chromosome":1}]}},"variants":{}}"#;
    let result = resolve(
        &endpoint,
        &mut cache,
        "R004",
        &example_elsa_response(),
        manifest,
        NOW,
    );
    assert!(matches!(result, Err(Error::UnsupportedManifestFeature(_))));
    assert_eq!(cache.len(), 0);
}

#[test]
fn resolution_reports_a_failed_store() {
    let endpoint = test_endpoint();
    let (mut resolution, _) = endpoint.start("R004");
    resolution.step(Event::CacheRead(None));
    resolution.step(Event::LocationFetched(Ok(response_from_json(
        &example_elsa_response(),
    ))));
    resolution.step(Event::ManifestFetched(Ok(manifest_from_json(
        &example_elsa_manifest(),
    ))));
    let action = resolution.step(Event::Stored(Err(Error::PutObjectError(
        "denied".to_string(),
    ))));
    assert!(matches!(action, Action::Fail(Error::PutObjectError(_))));
}

#[test]
fn resolution_rejects_an_event_out_of_turn() {
    let endpoint = test_endpoint();
    let (mut resolution, _) = endpoint.start("R004");
    let action = resolution.step(Event::Stored(Ok(())));
    assert!(matches!(action, Action::Fail(Error::SystemError(_))));
    assert_eq!(resolution.current_phase(), Phase::Finished);
}

#[test]
fn resolution_rejects_a_key_that_is_no_uri() {
    let endpoint = test_endpoint();
    let (mut resolution, _) = endpoint.start("R 004");
    let action = resolution.step(Event::CacheRead(None));
    assert!(matches!(action, Action::Fail(Error::InvalidReleaseUri(ref k)) if k == "R 004"));
}

#[test]
fn request_uri_for_a_release() {
    let endpoint = ElsaEndpoint::new("elsa.example.org".to_string());
    assert_eq!(endpoint.scheme(), "https");
    assert_eq!(
        endpoint.request_uri("R004").unwrap(),
        "https://elsa.example.org/api/manifest/htsget/R004?type=S3"
    );
    assert!(matches!(
        endpoint.request_uri("R 004"),
        Err(Error::InvalidReleaseUri(_))
    ));
}

#[test]
fn status_decides_success() {
    assert!(check_status(200, "200 OK".to_string()).is_ok());
    assert!(check_status(299, "299".to_string()).is_ok());
    assert!(matches!(
        check_status(404, "404 Not Found".to_string()),
        Err(Error::GetManifest(ref s)) if s == "404 Not Found"
    ));
    assert!(matches!(
        check_status(301, "301 Moved Permanently".to_string()),
        Err(Error::GetManifest(_))
    ));
}

#[test]
fn cache_key_of_release() {
    assert_eq!(cache_key("R004"), "htsget-manifest-cache/R004");
}

#[test]
fn end_to_end_release() {
    let endpoint = test_endpoint();
    let mut cache = MemoryCache::new();
    let manifest = r#"{"id":"R004","reads":{"E1":{"url":"s3://data/HG1/HG1.bam","restrictions":[{"chromosome":1,"start":1,"end":10}]}},"variants":{}}"#;
    let rules = resolve(
        &endpoint,
        &mut cache,
        "R004",
        &example_elsa_response(),
        manifest,
        NOW,
    )
    .unwrap();
    assert_eq!(rules.len(), 1);
    assert!(is_rule(
        &rules[0],
        "^R004/E1$",
        "HG1/HG1",
        "data",
        Format::Bam,
        "1",
        Interval::new(Some(1), Some(10)),
    ));
}

#[test]
fn concurrent_misses_leave_one_record() {
    let endpoint = test_endpoint();
    let mut cache = MemoryCache::new();
    let manifest = manifest_from_json(&example_elsa_manifest());

    let (mut first, _) = endpoint.start("R004");
    let (mut second, _) = endpoint.start("R004");
    let miss_first = cache.get("htsget-manifest-cache/R004", NOW);
    let miss_second = cache.get("htsget-manifest-cache/R004", NOW);
    first.step(Event::CacheRead(miss_first));
    second.step(Event::CacheRead(miss_second));
    let response = || response_from_json(&example_elsa_response());
    first.step(Event::LocationFetched(Ok(response())));
    second.step(Event::LocationFetched(Ok(response())));
    let store_first = first.step(Event::ManifestFetched(Ok(manifest_from_json(
        &example_elsa_manifest(),
    ))));
    let store_second = second.step(Event::ManifestFetched(Ok(manifest_from_json(
        &example_elsa_manifest(),
    ))));
    for store in [store_first, store_second] {
        match store {
            Action::Store { key, item } => cache.put(&key, item, NOW),
            other => panic!("unexpected {other:?}"),
        }
    }
    let done_first = first.step(Event::Stored(Ok(())));
    let done_second = second.step(Event::Stored(Ok(())));
    let (Action::Done(a), Action::Done(b)) = (done_first, done_second) else {
        panic!("both resolutions should succeed");
    };
    assert_eq!(a.len(), b.len());
    for (x, y) in a.iter().zip(b.iter()) {
        assert_eq!(x.regex(), y.regex());
        assert_eq!(x.substitution_string(), y.substitution_string());
        assert_eq!(x.allow_reference_names(), y.allow_reference_names());
    }
    assert_eq!(cache.len(), 1);
    assert_eq!(
        cache.get("htsget-manifest-cache/R004", NOW).unwrap().len(),
        manifest.resolvers().unwrap().len()
    );
}

#[test]
fn request_uri_that_builds_but_is_no_url() {
    let endpoint = ElsaEndpoint::new("elsa.example.org:99999".to_string());
    assert!(matches!(
        endpoint.request_uri("R004"),
        Err(Error::InvalidReleaseUri(ref k)) if k == "R004"
    ));
    let endpoint = ElsaEndpoint::new("elsa.example.org:8443".to_string());
    assert_eq!(
        endpoint.request_uri("R004").unwrap(),
        "https://elsa.example.org:8443/api/manifest/htsget/R004?type=S3"
    );
}
