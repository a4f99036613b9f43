use llmparty::graph::{GraphProjectionService, GraphRuntimeConfig, ProvenanceSource};

#[test]
fn lbug_feature_is_enabled_by_default() {
    let service = GraphProjectionService::new(
        (),
        GraphRuntimeConfig {
            enabled: true,
            db_dir: Some("/tmp/llmparty-graph".to_string()),
        },
    );
    assert!(
        matches!(
            service.provenance_source(),
            ProvenanceSource::GraphDatabase(ref dir) if dir == "/tmp/llmparty-graph"
        ),
        "an enabled graph with a directory must read provenance from the graph database"
    );
}
