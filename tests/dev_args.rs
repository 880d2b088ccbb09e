use graph_core::dev::{build_args, given_database_url, join_commas, DevOpt};

fn opt(ipfs: Vec<&str>, rpc: Vec<&str>) -> DevOpt {
    DevOpt {
        watch: false,
        manifests: vec!["./subgraph.yaml".to_string()],
        sources: vec![],
        database_dir: "./build".to_string(),
        postgres_url: None,
        ethereum_rpc: rpc.into_iter().map(String::from).collect(),
        ipfs: ipfs.into_iter().map(String::from).collect(),
    }
}

#[test]
fn build_args_with_all_endpoints() {
    let o = opt(vec!["a:1", "b:2"], vec!["mainnet:full:http://x"]);
    assert_eq!(
        build_args(&o, "postgres://db"),
        vec![
            "gnd",
            "--ipfs",
            "a:1,b:2",
            "--ethereum-rpc",
            "mainnet:full:http://x",
            "--postgres-url",
            "postgres://db"
        ]
    );
}

#[test]
fn build_args_without_endpoints() {
    let o = opt(vec![], vec![]);
    assert_eq!(build_args(&o, "u"), vec!["gnd", "--postgres-url", "u"]);
}

#[test]
fn join_handles_empty_and_single() {
    assert_eq!(join_commas(&vec![]), "");
    assert_eq!(join_commas(&vec!["x".to_string()]), "x");
}

#[test]
fn given_url_is_kept() {
    assert_eq!(given_database_url(&Some("u".to_string())), Some("u".to_string()));
    assert_eq!(given_database_url(&None), None);
}
