use state_migration::cli::uses_calibnet;

#[test]
fn calibnet_is_used_where_the_node_reports_it_and_no_chain_was_chosen() {
    let calibnet = "calibnet".to_string();
    let mainnet = "mainnet".to_string();
    assert!(uses_calibnet(false, Some(&calibnet)));
    assert!(!uses_calibnet(true, Some(&calibnet)));
    assert!(!uses_calibnet(false, Some(&mainnet)));
    assert!(!uses_calibnet(false, Some(&"Calibnet".to_string())));
    assert!(!uses_calibnet(false, Some(&String::new())));
    assert!(!uses_calibnet(false, None));
    assert!(!uses_calibnet(true, None));
}
