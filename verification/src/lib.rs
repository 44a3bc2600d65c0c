//! A miniature update-graph server library: a periodically refreshed cache of
//! the latest release per update stream, queried to synthesize a two-node
//! update graph.

pub mod errors;
pub mod metadata;
pub mod scraper;

use crate::errors::GraphError;
use crate::metadata::ReleaseView;
use crate::scraper::{query_latest, GetLatest, Scraper};
use vstd::prelude::*;

verus! {

/// Metadata key naming the payload scheme of a graph node.
pub const SCHEME_KEY: &'static str = "org.fedoraproject.coreos.scheme";

/// Metadata key naming the age index of a graph node.
pub const AGE_INDEX_KEY: &'static str = "org.fedoraproject.coreos.releases.age_index";

/// One output graph node: a version, its payload checksum, and a small
/// string-to-string metadata mapping.
#[derive(Debug, PartialEq, Eq)]
pub struct CincinnatiPayload {
    pub version: String,
    pub metadata: Vec<(String, String)>,
    pub payload: String,
}

/// A two-node update graph: an ordered node list and index edges.
#[derive(Debug, PartialEq, Eq)]
pub struct Graph {
    pub nodes: Vec<CincinnatiPayload>,
    pub edges: Vec<(u64, u64)>,
}

/// Mathematical model of a `CincinnatiPayload`.
pub ghost struct PayloadView {
    pub version: Seq<char>,
    pub metadata: Seq<(Seq<char>, Seq<char>)>,
    pub payload: Seq<char>,
}

/// Mathematical model of a `Graph`.
pub ghost struct GraphView {
    pub nodes: Seq<PayloadView>,
    pub edges: Seq<(u64, u64)>,
}

impl View for CincinnatiPayload {
    type V = PayloadView;

    open spec fn view(&self) -> PayloadView {
        PayloadView {
            version: self.version@,
            metadata: self.metadata@.map_values(|p: (String, String)| (p.0@, p.1@)),
            payload: self.payload@,
        }
    }
}

impl View for Graph {
    type V = GraphView;

    open spec fn view(&self) -> GraphView {
        GraphView {
            nodes: self.nodes@.map_values(|n: CincinnatiPayload| n@),
            edges: self.edges@,
        }
    }
}

/// The fixed metadata mapping of a graph node: its scheme is always
/// "checksum", its age index distinguishes the current node from the latest.
pub open spec fn payload_metadata(age_index: Seq<char>) -> Seq<(Seq<char>, Seq<char>)> {
    seq![(SCHEME_KEY@, "checksum"@), (AGE_INDEX_KEY@, age_index)]
}

/// Build the metadata mapping of a graph node for the given age index.
pub fn build_metadata(age_index: &str) -> (r: Vec<(String, String)>)
    ensures
        r@.map_values(|p: (String, String)| (p.0@, p.1@)) == payload_metadata(age_index@),
{
    let mut metadata: Vec<(String, String)> = Vec::new();
    metadata.push((SCHEME_KEY.to_owned(), "checksum".to_owned()));
    metadata.push((AGE_INDEX_KEY.to_owned(), age_index.to_owned()));
    proof {
        assert(metadata@.map_values(|p: (String, String)| (p.0@, p.1@)) =~= payload_metadata(
            age_index@,
        ));
    }
    metadata
}

/// The client identifier of a graph request: `current_os` preferred when
/// non-empty, else `os_checksum` when non-empty, else nothing.
pub open spec fn chosen_id(current_os: Seq<char>, os_checksum: Seq<char>) -> Option<Seq<char>> {
    if current_os.len() > 0 {
        Some(current_os)
    } else if os_checksum.len() > 0 {
        Some(os_checksum)
    } else {
        None
    }
}

/// The synthesized "current" node for a client identifier.
pub open spec fn current_node(id: Seq<char>) -> PayloadView {
    PayloadView {
        version: "client-os-version"@,
        metadata: payload_metadata("0"@),
        payload: id,
    }
}

/// What a graph request returns against a given cache snapshot: a validation
/// failure when the client identifier or the stream is missing, the query
/// service's failure when it fails, and otherwise the two-node graph from the
/// synthesized current node to the latest release.
pub open spec fn serve_graph_spec(
    cache: Map<Seq<char>, ReleaseView>,
    current_os: Seq<char>,
    os_checksum: Seq<char>,
    stream: Seq<char>,
) -> Result<GraphView, GraphError> {
    match chosen_id(current_os, os_checksum) {
        None => Err(GraphError::ValidationError),
        Some(id) => if stream.len() == 0 {
            Err(GraphError::ValidationError)
        } else {
            match query_latest(cache, stream, "x86_64"@) {
                Err(e) => Err(e),
                Ok(latest) => Ok(
                    GraphView {
                        nodes: seq![current_node(id), latest],
                        edges: seq![(0u64, 1u64)],
                    },
                ),
            }
        },
    }
}

/// Serve one graph request against the current cache snapshot: validate the
/// query parameters, synthesize the current node, obtain the latest node from
/// the query service, and assemble the two-node graph.
pub fn serve_graph(
    scraper: &Scraper,
    current_os: String,
    os_checksum: String,
    stream: String,
) -> (r: Result<Graph, GraphError>)
    requires
        scraper.wf(),
    ensures
        match r {
            Ok(g) => serve_graph_spec(scraper@.cache, current_os@, os_checksum@, stream@) == Ok::<
                GraphView,
                GraphError,
            >(g@),
            Err(e) => serve_graph_spec(scraper@.cache, current_os@, os_checksum@, stream@) == Err::<
                GraphView,
                GraphError,
            >(e),
        },
{
    let os = if !current_os.as_str().is_empty() {
        current_os
    } else {
        os_checksum
    };
    if os.as_str().is_empty() {
        return Err(GraphError::ValidationError);
    }
    if stream.as_str().is_empty() {
        return Err(GraphError::ValidationError);
    }
    let ghost id: Seq<char> = os@;
    let current = CincinnatiPayload {
        version: "client-os-version".to_owned(),
        metadata: build_metadata("0"),
        payload: os,
    };
    let latest = match scraper.get_latest(GetLatest::new("x86_64".to_owned(), stream)) {
        Ok(latest) => latest,
        Err(e) => return Err(e),
    };
    let ghost latest_view: PayloadView = latest@;
    let mut nodes: Vec<CincinnatiPayload> = Vec::new();
    nodes.push(current);
    nodes.push(latest);
    let mut edges: Vec<(u64, u64)> = Vec::new();
    edges.push((0, 1));
    let graph = Graph { nodes, edges };
    proof {
        assert(graph@.nodes =~= seq![current_node(id), latest_view]);
        assert(graph@.edges =~= seq![(0u64, 1u64)]);
    }
    Ok(graph)
}

} // verus!
