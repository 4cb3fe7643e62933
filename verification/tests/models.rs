use projectpad::icons::Icon;
use projectpad::models::{
    interest_type_desc, is_run_on_visible, run_on_desc, server_access_type_desc, server_poi_get_text_label,
    server_type_desc, EnvironmentType, InterestType, RunOn, Server, ServerAccessType, ServerType,
};
use projectpad::project_items::server_access_icon;

#[test]
fn server_type_descriptions() {
    assert_eq!("Application", server_type_desc(ServerType::SrvApplication));
    assert_eq!("Database", server_type_desc(ServerType::SrvDatabase));
    assert_eq!("HTTP server or proxy", server_type_desc(ServerType::SrvHttpOrProxy));
    assert_eq!("Monitoring", server_type_desc(ServerType::SrvMonitoring));
    assert_eq!("Reporting", server_type_desc(ServerType::SrvReporting));
}

#[test]
fn access_type_descriptions() {
    assert_eq!("SSH", server_access_type_desc(ServerAccessType::SrvAccessSsh));
    assert_eq!("Website", server_access_type_desc(ServerAccessType::SrvAccessWww));
    assert_eq!("Remote Desktop (RDP)", server_access_type_desc(ServerAccessType::SrvAccessRdp));
    assert_eq!("SSH tunnel", server_access_type_desc(ServerAccessType::SrvAccessSshTunnel));
}

#[test]
fn interest_type_descriptions_and_labels() {
    assert_eq!("Log file", interest_type_desc(InterestType::PoiLogFile));
    assert_eq!("Config file", interest_type_desc(InterestType::PoiConfigFile));
    assert_eq!("Application", interest_type_desc(InterestType::PoiApplication));
    assert_eq!("Command to run", interest_type_desc(InterestType::PoiCommandToRun));
    assert_eq!("Backup/archive", interest_type_desc(InterestType::PoiBackupArchive));
    assert_eq!("Command to run (terminal)", interest_type_desc(InterestType::PoiCommandTerminal));
    assert_eq!("Command", server_poi_get_text_label(InterestType::PoiCommandToRun));
    assert_eq!("Command", server_poi_get_text_label(InterestType::PoiCommandTerminal));
    assert_eq!("Text", server_poi_get_text_label(InterestType::PoiLogFile));
    assert!(is_run_on_visible(InterestType::PoiCommandTerminal));
    assert!(!is_run_on_visible(InterestType::PoiApplication));
    assert_eq!("Client", run_on_desc(RunOn::RunOnClient));
    assert_eq!("Server", run_on_desc(RunOn::RunOnServer));
}

#[test]
fn type_names_parse_back() {
    for t in [
        ServerType::SrvDatabase,
        ServerType::SrvApplication,
        ServerType::SrvHttpOrProxy,
        ServerType::SrvMonitoring,
        ServerType::SrvReporting,
    ] {
        assert_eq!(Some(t), ServerType::parse(&t.name().to_string()));
    }
    for t in [
        ServerAccessType::SrvAccessSsh,
        ServerAccessType::SrvAccessRdp,
        ServerAccessType::SrvAccessWww,
        ServerAccessType::SrvAccessSshTunnel,
    ] {
        assert_eq!(Some(t), ServerAccessType::parse(&t.name().to_string()));
    }
    assert_eq!("SrvAccessSshTunnel", ServerAccessType::SrvAccessSshTunnel.name());
    assert_eq!(None, ServerType::parse(&"database".to_string()));
    assert_eq!("PoiBackupArchive", InterestType::PoiBackupArchive.name());
}

fn server_reached_by(access_type: ServerAccessType) -> Server {
    Server {
        id: 1,
        desc: "srv".to_string(),
        is_retired: false,
        ip: "1.2.3.4".to_string(),
        text: String::new(),
        group_name: None,
        username: String::new(),
        password: String::new(),
        auth_key_filename: None,
        server_type: ServerType::SrvApplication,
        access_type,
        ssh_tunnel_port: None,
        ssh_tunnel_through_server_id: None,
        environment: EnvironmentType::EnvProd,
        project_id: 1,
    }
}

#[test]
fn access_icons() {
    assert_eq!("ssh", server_access_icon(&server_reached_by(ServerAccessType::SrvAccessSsh)).name());
    assert_eq!("ssh", server_access_icon(&server_reached_by(ServerAccessType::SrvAccessSshTunnel)).name());
    assert_eq!("windows", server_access_icon(&server_reached_by(ServerAccessType::SrvAccessRdp)).name());
    assert_eq!("http", server_access_icon(&server_reached_by(ServerAccessType::SrvAccessWww)).name());
    assert_eq!(Icon::HTTP().name(), "http");
}
