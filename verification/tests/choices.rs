use projectpad::choices::{interest_type_entries, run_on_entries, server_access_type_entries, server_type_entries, sort_by_desc};
use projectpad::models::{InterestType, RunOn, ServerAccessType, ServerType};

#[test]
fn server_types_sorted_by_description() {
    assert_eq!(
        vec![
            (ServerType::SrvApplication, "Application"),
            (ServerType::SrvDatabase, "Database"),
            (ServerType::SrvHttpOrProxy, "HTTP server or proxy"),
            (ServerType::SrvMonitoring, "Monitoring"),
            (ServerType::SrvReporting, "Reporting"),
        ],
        server_type_entries()
    );
}

#[test]
fn access_types_sorted_by_description() {
    assert_eq!(
        vec![
            (ServerAccessType::SrvAccessRdp, "Remote Desktop (RDP)"),
            (ServerAccessType::SrvAccessSsh, "SSH"),
            (ServerAccessType::SrvAccessSshTunnel, "SSH tunnel"),
            (ServerAccessType::SrvAccessWww, "Website"),
        ],
        server_access_type_entries()
    );
}

#[test]
fn interest_types_and_run_on_sorted_by_description() {
    let names: Vec<&str> = interest_type_entries().iter().map(|e| e.1).collect();
    assert_eq!(
        vec!["Application", "Backup/archive", "Command to run", "Command to run (terminal)", "Config file", "Log file"],
        names
    );
    assert_eq!(InterestType::PoiBackupArchive, interest_type_entries()[1].0);
    assert_eq!(vec![(RunOn::RunOnClient, "Client"), (RunOn::RunOnServer, "Server")], run_on_entries());
}

#[test]
fn sort_by_desc_is_stable_and_by_code_point() {
    let entries = vec![(1, "b"), (2, "a"), (3, "b"), (4, "B"), (5, "")];
    assert_eq!(vec![(5, ""), (4, "B"), (2, "a"), (1, "b"), (3, "b")], sort_by_desc(&entries));
}

#[test]
fn sort_keeps_order_of_equal_descriptions() {
    let entries = vec![(1, "b"), (2, "a"), (3, "b"), (4, "a"), (5, "c")];
    assert_eq!(vec![(2, "a"), (4, "a"), (1, "b"), (3, "b"), (5, "c")], sort_by_desc(&entries));
}
