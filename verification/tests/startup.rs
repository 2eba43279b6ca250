use monero_consensus::startup::{
    cache_file_name, node_urls, total_outs, Network, NetworkError, NoNodes,
};

#[test]
fn networks_by_name() {
    assert_eq!(Network::from_name(&"mainnet".to_string()), Some(Network::Mainnet));
    assert_eq!(Network::from_name(&"testnet".to_string()), Some(Network::Testnet));
    assert_eq!(Network::from_name(&"stagenet".to_string()), Some(Network::Stagenet));
    assert_eq!(Network::from_name(&"Mainnet".to_string()), None);
    assert_eq!(Network::from_name(&"".to_string()), None);
}

#[test]
fn only_the_main_network_is_scanned() {
    assert_eq!(Network::to_scan(&"mainnet".to_string()), Ok(Network::Mainnet));
    assert_eq!(
        Network::to_scan(&"testnet".to_string()),
        Err(NetworkError::Unsupported(Network::Testnet))
    );
    assert_eq!(
        Network::to_scan(&"stagenet".to_string()),
        Err(NetworkError::Unsupported(Network::Stagenet))
    );
    assert_eq!(
        Network::to_scan(&"mainnet ".to_string()),
        Err(NetworkError::Unknown)
    );
}

#[test]
fn default_nodes_come_first() {
    let urls = node_urls(false, vec!["http://localhost:18081".to_string()]).unwrap();
    assert_eq!(urls.len(), 23);
    assert_eq!(urls[0], "http://xmr-node.cakewallet.com:18081");
    assert_eq!(urls[1], "https://node.sethforprivacy.com");
    assert_eq!(urls[2], "http://nodex.monerujo.io:18081");
    assert_eq!(urls[3], "http://nodes.hashvault.pro:18081");
    assert_eq!(urls[4], "http://node.c3pool.com:18081");
    assert_eq!(urls[5], "http://node.trocador.app:18089");
    assert_eq!(urls[6], "http://xmr.lukas.services:18089");
    assert_eq!(urls[7], "http://xmr-node-eu.cakewallet.com:18081");
    assert_eq!(urls[8], "http://38.105.209.54:18089");
    assert_eq!(urls[9], "http://68.118.241.70:18089");
    assert_eq!(urls[10], "http://145.239.97.211:18089");
    assert_eq!(urls[..11], urls[11..22]);
    assert_eq!(urls[22], "http://localhost:18081");

    assert_eq!(node_urls(false, vec![]).unwrap().len(), 22);
}

#[test]
fn default_nodes_can_be_left_out() {
    let given = vec!["http://a".to_string(), "http://b".to_string()];
    assert_eq!(node_urls(true, given.clone()), Ok(given));
}

#[test]
fn a_scanner_needs_nodes() {
    assert_eq!(node_urls(true, vec![]), Err(NoNodes));
}

#[test]
fn name_of_the_cache_file() {
    assert_eq!(cache_file_name(), "cuprate_rpc_scanning_cache.bin");
}

#[test]
fn outputs_are_added_up() {
    assert_eq!(total_outs(&vec![]), Some(0));
    assert_eq!(total_outs(&vec![Some(5), None, Some(7)]), Some(12));
    assert_eq!(total_outs(&vec![Some(u64::MAX), None, Some(0)]), Some(u64::MAX));
    assert_eq!(total_outs(&vec![Some(u64::MAX), Some(1)]), None);
}
