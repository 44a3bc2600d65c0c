//! Query-service behaviour against refreshed caches.

use fakeup::errors::GraphError;
use fakeup::metadata::{Commit, Release};
use fakeup::scraper::{GetLatest, Scraper};

fn commit(arch: &str, checksum: &str) -> Commit {
    Commit { architecture: arch.to_string(), checksum: checksum.to_string() }
}

fn release(version: &str, commits: Vec<Commit>) -> Release {
    Release { version: version.to_string(), commits }
}

fn scraper_with(streams: &[&str]) -> Scraper {
    Scraper::new(streams.iter().map(|s| s.to_string()).collect(), 30)
}

fn expected_metadata(age_index: &str) -> Vec<(String, String)> {
    vec![
        (
            "org.fedoraproject.coreos.scheme".to_string(),
            "checksum".to_string(),
        ),
        (
            "org.fedoraproject.coreos.releases.age_index".to_string(),
            age_index.to_string(),
        ),
    ]
}

#[test]
fn get_latest_returns_last_matching_commit() {
    let mut scraper = scraper_with(&["stable"]);
    let rel = release("30.1", vec![commit("x86_64", "abc")]);
    scraper.apply_refresh(vec![("stable".to_string(), Some(rel))], 17);

    let node = scraper
        .get_latest(GetLatest::new("x86_64".to_string(), "stable".to_string()))
        .expect("payload for a cached stream");
    assert_eq!(node.version, "30.1");
    assert_eq!(node.payload, "abc");
    assert_eq!(node.metadata, expected_metadata("1"));
}

#[test]
fn get_latest_unknown_stream_fails() {
    let mut scraper = scraper_with(&["stable"]);
    let rel = release("30.1", vec![commit("x86_64", "abc")]);
    scraper.apply_refresh(vec![("stable".to_string(), Some(rel))], 17);

    let err = scraper
        .get_latest(GetLatest::new("x86_64".to_string(), "missing".to_string()))
        .expect_err("unknown stream must fail");
    assert_eq!(err, GraphError::StreamUnavailable);
}

#[test]
fn get_latest_empty_cache_fails() {
    let scraper = scraper_with(&["stable"]);
    let err = scraper
        .get_latest(GetLatest::new("x86_64".to_string(), "stable".to_string()))
        .expect_err("an empty cache answers nothing");
    assert_eq!(err, GraphError::StreamUnavailable);
}

#[test]
fn get_latest_unmatched_basearch_fails() {
    let mut scraper = scraper_with(&["stable"]);
    let rel = release("30.1", vec![commit("ppc64le", "x")]);
    scraper.apply_refresh(vec![("stable".to_string(), Some(rel))], 17);

    let err = scraper
        .get_latest(GetLatest::new("x86_64".to_string(), "stable".to_string()))
        .expect_err("no commit carries the requested architecture");
    assert_eq!(err, GraphError::BasearchUnavailable);
}

#[test]
fn get_latest_later_commit_overrides_earlier() {
    let mut scraper = scraper_with(&["stable"]);
    let rel = release(
        "30.1",
        vec![commit("x86_64", "old"), commit("x86_64", "new")],
    );
    scraper.apply_refresh(vec![("stable".to_string(), Some(rel))], 17);

    let node = scraper
        .get_latest(GetLatest::new("x86_64".to_string(), "stable".to_string()))
        .expect("payload for a cached stream");
    assert_eq!(node.payload, "new");
}

#[test]
fn get_latest_is_idempotent_on_unchanged_cache() {
    let mut scraper = scraper_with(&["stable"]);
    let rel = release(
        "30.1",
        vec![commit("aarch64", "aa"), commit("x86_64", "abc")],
    );
    scraper.apply_refresh(vec![("stable".to_string(), Some(rel))], 17);

    let first = scraper.get_latest(GetLatest::new("x86_64".to_string(), "stable".to_string()));
    let second = scraper.get_latest(GetLatest::new("x86_64".to_string(), "stable".to_string()));
    assert_eq!(first, second);
    let third = scraper.get_latest(GetLatest::new("s390x".to_string(), "stable".to_string()));
    let fourth = scraper.get_latest(GetLatest::new("s390x".to_string(), "stable".to_string()));
    assert_eq!(third, fourth);
}

#[test]
fn get_latest_matches_even_an_empty_checksum() {
    let mut scraper = scraper_with(&["stable"]);
    let rel = release("30.1", vec![commit("x86_64", "")]);
    scraper.apply_refresh(vec![("stable".to_string(), Some(rel))], 17);

    let node = scraper
        .get_latest(GetLatest::new("x86_64".to_string(), "stable".to_string()))
        .expect("a matching commit counts whatever its checksum holds");
    assert_eq!(node.payload, "");
}

#[test]
fn get_latest_message_carries_its_fields() {
    let msg = GetLatest::new("x86_64".to_string(), "stable".to_string());
    assert_eq!(msg.basearch, "x86_64");
    assert_eq!(msg.stream, "stable");
}
