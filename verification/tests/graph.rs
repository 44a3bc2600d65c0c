//! Graph assembly and request validation.

use fakeup::errors::GraphError;
use fakeup::metadata::{Commit, Release};
use fakeup::scraper::Scraper;
use fakeup::serve_graph;

fn commit(arch: &str, checksum: &str) -> Commit {
    Commit { architecture: arch.to_string(), checksum: checksum.to_string() }
}

fn release(version: &str, commits: Vec<Commit>) -> Release {
    Release { version: version.to_string(), commits }
}

fn scraper_with_stable() -> Scraper {
    let mut scraper = Scraper::new(vec!["stable".to_string()], 30);
    let rel = release("30.1", vec![commit("x86_64", "abc")]);
    scraper.apply_refresh(vec![("stable".to_string(), Some(rel))], 17);
    scraper
}

fn expected_metadata(age_index: &str) -> Vec<(String, String)> {
    vec![
        (
            "org.fedoraproject.coreos.scheme".to_string(),
            "checksum".to_string(),
        ),
        (
            "org.fedoraproject.coreos.releases.age_index".to_string(),
            age_index.to_string(),
        ),
    ]
}

#[test]
fn serve_graph_missing_client_id_is_rejected() {
    let scraper = scraper_with_stable();
    let err = serve_graph(
        &scraper,
        String::new(),
        String::new(),
        "stable".to_string(),
    )
    .expect_err("a request without a client id is invalid");
    assert_eq!(err, GraphError::ValidationError);
}

#[test]
fn serve_graph_missing_stream_is_rejected() {
    let scraper = scraper_with_stable();
    let err = serve_graph(
        &scraper,
        "deadbeef".to_string(),
        String::new(),
        String::new(),
    )
    .expect_err("a request without a stream is invalid");
    assert_eq!(err, GraphError::ValidationError);
}

#[test]
fn serve_graph_builds_the_two_node_graph() {
    let scraper = scraper_with_stable();
    let graph = serve_graph(
        &scraper,
        "deadbeef".to_string(),
        String::new(),
        "stable".to_string(),
    )
    .expect("a valid request against a cached stream succeeds");

    assert_eq!(graph.nodes.len(), 2);
    assert_eq!(graph.nodes[0].version, "client-os-version");
    assert_eq!(graph.nodes[0].payload, "deadbeef");
    assert_eq!(graph.nodes[0].metadata, expected_metadata("0"));
    assert_eq!(graph.nodes[1].version, "30.1");
    assert_eq!(graph.nodes[1].payload, "abc");
    assert_eq!(graph.nodes[1].metadata, expected_metadata("1"));
    assert_eq!(graph.edges, vec![(0, 1)]);
}

#[test]
fn serve_graph_falls_back_to_os_checksum() {
    let scraper = scraper_with_stable();
    let graph = serve_graph(
        &scraper,
        String::new(),
        "cafebabe".to_string(),
        "stable".to_string(),
    )
    .expect("os_checksum identifies the client when current_os is empty");
    assert_eq!(graph.nodes[0].payload, "cafebabe");
}

#[test]
fn serve_graph_prefers_current_os() {
    let scraper = scraper_with_stable();
    let graph = serve_graph(
        &scraper,
        "deadbeef".to_string(),
        "cafebabe".to_string(),
        "stable".to_string(),
    )
    .expect("current_os wins when both identifiers are present");
    assert_eq!(graph.nodes[0].payload, "deadbeef");
}

#[test]
fn serve_graph_propagates_query_failures() {
    let scraper = scraper_with_stable();
    let err = serve_graph(
        &scraper,
        "deadbeef".to_string(),
        String::new(),
        "missing".to_string(),
    )
    .expect_err("an unknown stream fails the request");
    assert_eq!(err, GraphError::StreamUnavailable);
}

#[test]
fn serve_graph_propagates_basearch_failures() {
    let mut scraper = Scraper::new(vec!["stable".to_string()], 30);
    let rel = release("30.1", vec![commit("ppc64le", "x")]);
    scraper.apply_refresh(vec![("stable".to_string(), Some(rel))], 17);

    let err = serve_graph(
        &scraper,
        "deadbeef".to_string(),
        String::new(),
        "stable".to_string(),
    )
    .expect_err("the implied architecture has no matching commit");
    assert_eq!(err, GraphError::BasearchUnavailable);
}

#[test]
fn error_messages_name_each_failure() {
    assert_eq!(GraphError::FetchError.message(), "fetch error");
    assert_eq!(GraphError::StreamUnavailable.message(), "stream unavailable");
    assert_eq!(GraphError::BasearchUnavailable.message(), "basearch unavailable");
    assert_eq!(GraphError::ValidationError.message(), "missing required parameters");
    assert_eq!(GraphError::SerializationError.message(), "serialization error");
}

#[test]
fn build_metadata_holds_the_fixed_pairs() {
    assert_eq!(fakeup::build_metadata("0"), expected_metadata("0"));
    assert_eq!(fakeup::build_metadata("1"), expected_metadata("1"));
}
