use projectpad::import_export_dtos::{
    ExportValue, ProjectEnvGroupImportExport, ProjectEnvImportExport, ProjectImportExport,
    ProjectNoteImportExport, ProjectPoiImportExport, ServerDatabaseImportExport, ServerDatabasePath,
    ServerGroupImportExport, ServerImportError, ServerImportExport, ServerLinkImportExport, ServerPath,
    ServerWebsiteImportExport, ServerWithItemsImportExport,
};
use projectpad::models::{
    EnvironmentType, InterestType, Server, ServerAccessType, ServerDatabase, ServerType,
};

fn s(t: &str) -> String {
    t.to_string()
}

fn sample_server(desc: &str) -> Server {
    Server {
        id: 42,
        desc: s(desc),
        is_retired: true,
        ip: s("10.0.0.1"),
        text: s(""),
        group_name: None,
        username: s("root"),
        password: s("pw"),
        auth_key_filename: Some(s("key.pem")),
        server_type: ServerType::SrvMonitoring,
        access_type: ServerAccessType::SrvAccessSshTunnel,
        ssh_tunnel_port: Some(2222),
        ssh_tunnel_through_server_id: None,
        environment: EnvironmentType::EnvProd,
        project_id: 3,
    }
}

#[test]
fn note_export_entries_full_and_shared() {
    let full = ProjectNoteImportExport {
        title: s("Title"),
        contents: s(""),
        shared_with_other_environments: None,
    };
    assert_eq!(
        vec![(s("title"), ExportValue::Str(s("Title")))],
        full.export_entries()
    );
    let shared = ProjectNoteImportExport {
        title: s("Title"),
        contents: s("body"),
        shared_with_other_environments: Some(s("Title")),
    };
    assert_eq!(
        vec![(s("shared_with_other_environments"), ExportValue::Str(s("Title")))],
        shared.export_entries()
    );
}

#[test]
fn poi_export_entries_full_and_shared() {
    let full = ProjectPoiImportExport {
        desc: s("logs"),
        path: s("/var/log"),
        text: s(""),
        interest_type: InterestType::PoiLogFile,
        shared_with_other_environments: None,
    };
    assert_eq!(
        vec![
            (s("desc"), ExportValue::Str(s("logs"))),
            (s("path"), ExportValue::Str(s("/var/log"))),
            (s("interest_type"), ExportValue::Str(s("PoiLogFile"))),
        ],
        full.export_entries()
    );
    let shared = ProjectPoiImportExport {
        desc: s(""),
        path: s("/x"),
        text: s("run me"),
        interest_type: InterestType::PoiCommandToRun,
        shared_with_other_environments: Some(s("run me")),
    };
    assert_eq!(
        vec![(s("shared_with_other_environments"), ExportValue::Str(s("run me")))],
        shared.export_entries()
    );
}

#[test]
fn server_export_entries_in_order() {
    let srv = ServerImportExport {
        server: sample_server("My server"),
        data_path: Some(s("files/42")),
    };
    assert_eq!(
        vec![
            (s("desc"), ExportValue::Str(s("My server"))),
            (s("ip"), ExportValue::Str(s("10.0.0.1"))),
            (s("is_retired"), ExportValue::Bool(true)),
            (s("username"), ExportValue::Str(s("root"))),
            (s("password"), ExportValue::Str(s("pw"))),
            (s("data_folder"), ExportValue::Str(s("files/42"))),
            (s("auth_key_filename"), ExportValue::Str(s("key.pem"))),
            (s("server_type"), ExportValue::Str(s("SrvMonitoring"))),
            (s("access_type"), ExportValue::Str(s("SrvAccessSshTunnel"))),
            (s("ssh_tunnel_port"), ExportValue::Int(2222)),
        ],
        srv.export_entries()
    );
}

#[test]
fn server_without_desc_is_exported_by_id() {
    let srv = ServerImportExport {
        server: sample_server(""),
        data_path: None,
    };
    let entries = srv.export_entries();
    assert_eq!((s("id"), ExportValue::Int(42)), entries[0]);
}

fn as_texts(entries: Vec<(String, ExportValue)>) -> Vec<(String, String)> {
    entries
        .into_iter()
        .map(|(k, v)| {
            let t = match v {
                ExportValue::Str(x) => x,
                ExportValue::Int(i) => i.to_string(),
                ExportValue::Bool(b) => b.to_string(),
            };
            (k, t)
        })
        .collect()
}

#[test]
fn server_export_reads_back() {
    let srv = ServerImportExport {
        server: sample_server("My server"),
        data_path: Some(s("files/42")),
    };
    let back = ServerImportExport::from_entries(&as_texts(srv.export_entries())).unwrap();
    assert_eq!("My server", back.server.desc);
    assert_eq!("10.0.0.1", back.server.ip);
    assert_eq!("", back.server.text);
    assert!(back.server.is_retired);
    assert_eq!("root", back.server.username);
    assert_eq!("pw", back.server.password);
    assert_eq!(Some(s("key.pem")), back.server.auth_key_filename);
    assert_eq!(ServerType::SrvMonitoring, back.server.server_type);
    assert_eq!(ServerAccessType::SrvAccessSshTunnel, back.server.access_type);
    assert_eq!(Some(s("files/42")), back.data_path);
    assert_eq!(0, back.server.id);
    assert_eq!(None, back.server.ssh_tunnel_port);
    assert_eq!(EnvironmentType::EnvDevelopment, back.server.environment);
}

#[test]
fn server_import_later_entry_wins_and_defaults() {
    let entries = vec![
        (s("server_type"), s("SrvDatabase")),
        (s("access_type"), s("SrvAccessRdp")),
        (s("desc"), s("first")),
        (s("desc"), s("second")),
        (s("is_retired"), s("false")),
    ];
    let back = ServerImportExport::from_entries(&entries).unwrap();
    assert_eq!("second", back.server.desc);
    assert!(!back.server.is_retired);
    assert_eq!("", back.server.ip);
    assert_eq!(None, back.data_path);
    assert_eq!(None, back.server.auth_key_filename);
}

#[test]
fn server_import_errors() {
    let no_type = vec![(s("access_type"), s("SrvAccessRdp"))];
    assert_eq!(
        ServerImportError::MissingOrInvalidServerType,
        ServerImportExport::from_entries(&no_type).err().unwrap()
    );
    let bad_type = vec![(s("server_type"), s("Database")), (s("access_type"), s("SrvAccessRdp"))];
    assert_eq!(
        ServerImportError::MissingOrInvalidServerType,
        ServerImportExport::from_entries(&bad_type).err().unwrap()
    );
    let bad_access = vec![(s("server_type"), s("SrvDatabase")), (s("access_type"), s("ssh"))];
    let err = ServerImportExport::from_entries(&bad_access).err().unwrap();
    assert_eq!(ServerImportError::MissingOrInvalidAccessType, err);
    assert_eq!("missing or invalid access_type", err.message());
}

#[test]
fn database_export_entries() {
    let db = ServerDatabaseImportExport(ServerDatabase {
        id: 7,
        desc: s(""),
        name: s("app"),
        group_name: None,
        text: s(""),
        username: s("u"),
        password: s(""),
        server_id: 1,
    });
    assert_eq!(
        vec![
            (s("id"), ExportValue::Int(7)),
            (s("name"), ExportValue::Str(s("app"))),
            (s("username"), ExportValue::Str(s("u"))),
        ],
        db.export_entries()
    );
}

fn empty_server_group() -> ServerGroupImportExport {
    ServerGroupImportExport {
        server_pois: vec![],
        server_websites: vec![],
        server_databases: vec![],
        server_notes: vec![],
        server_extra_users: vec![],
    }
}

fn website_using(project: &str) -> ServerWebsiteImportExport {
    ServerWebsiteImportExport {
        desc: s("site"),
        url: s("http://x"),
        text: s(""),
        username: s(""),
        password: s(""),
        server_database: Some(ServerDatabasePath {
            project_name: s(project),
            environment: EnvironmentType::EnvProd,
            server_id: None,
            server_desc: Some(s("db server")),
            database_id: Some(3),
            database_desc: None,
        }),
    }
}

fn link_to(project: &str) -> ServerLinkImportExport {
    ServerLinkImportExport {
        desc: s("link"),
        server: ServerPath {
            project_name: s(project),
            environment: EnvironmentType::EnvUat,
            server_id: Some(1),
            server_desc: None,
        },
    }
}

#[test]
fn project_dependencies_each_once() {
    let mut grouped = empty_server_group();
    grouped.server_websites.push(website_using("Billing"));
    grouped.server_websites.push(website_using("Auth"));
    let mut items = empty_server_group();
    items.server_websites.push(website_using("Billing"));
    let server = ServerWithItemsImportExport {
        server: ServerImportExport {
            server: sample_server("srv"),
            data_path: None,
        },
        items,
        items_in_groups: vec![(s("group"), grouped)],
    };
    let env = ProjectEnvImportExport {
        items: ProjectEnvGroupImportExport {
            servers: vec![server],
            server_links: vec![link_to("Auth"), link_to("Mail")],
            project_pois: vec![],
            project_notes: vec![],
        },
        items_in_groups: vec![(
            s("other"),
            ProjectEnvGroupImportExport {
                servers: vec![],
                server_links: vec![link_to("Mail")],
                project_pois: vec![],
                project_notes: vec![],
            },
        )],
    };
    let prj = ProjectImportExport {
        project_name: s("Demo"),
        development_environment: None,
        staging_environment: None,
        uat_environment: None,
        prod_environment: Some(env),
    };
    let mut deps = prj.dependencies_project_names();
    deps.sort();
    assert_eq!(vec![s("Auth"), s("Billing"), s("Mail")], deps);
}

#[test]
fn project_without_environments_has_no_dependencies() {
    let prj = ProjectImportExport {
        project_name: s("Alone"),
        development_environment: None,
        staging_environment: None,
        uat_environment: None,
        prod_environment: None,
    };
    assert!(prj.dependencies_project_names().is_empty());
}

fn sample_database(name: &str) -> ServerDatabaseImportExport {
    ServerDatabaseImportExport(ServerDatabase {
        id: 1,
        desc: s("db"),
        name: s(name),
        group_name: None,
        text: s(""),
        username: s("u"),
        password: s("p"),
        server_id: 9,
    })
}

fn server_with_databases(desc: &str, own: &[&str], grouped: &[(&str, &[&str])]) -> ServerWithItemsImportExport {
    let mut items = empty_server_group();
    for n in own {
        items.server_databases.push(sample_database(n));
    }
    let mut items_in_groups = vec![];
    for (g, names) in grouped {
        let mut group = empty_server_group();
        for n in names.iter() {
            group.server_databases.push(sample_database(n));
        }
        items_in_groups.push((s(g), group));
    }
    ServerWithItemsImportExport {
        server: ServerImportExport {
            server: sample_server(desc),
            data_path: None,
        },
        items,
        items_in_groups,
    }
}

fn env_with(servers: Vec<ServerWithItemsImportExport>, grouped_servers: Vec<ServerWithItemsImportExport>) -> ProjectEnvImportExport {
    ProjectEnvImportExport {
        items: ProjectEnvGroupImportExport {
            servers,
            server_links: vec![link_to("Other")],
            project_pois: vec![],
            project_notes: vec![],
        },
        items_in_groups: vec![(
            s("grp"),
            ProjectEnvGroupImportExport {
                servers: grouped_servers,
                server_links: vec![],
                project_pois: vec![],
                project_notes: vec![],
            },
        )],
    }
}

#[test]
fn import_plan_rows() {
    let prj = ProjectImportExport {
        project_name: s("Imported"),
        development_environment: Some(env_with(
            vec![server_with_databases("dev1", &["a"], &[("g1", &["b", "c"])])],
            vec![server_with_databases("ignored", &["z"], &[])],
        )),
        staging_environment: None,
        uat_environment: None,
        prod_environment: Some(env_with(
            vec![
                server_with_databases("prod1", &[], &[]),
                server_with_databases("prod2", &["d"], &[]),
            ],
            vec![],
        )),
    };
    let plan = projectpad::import::import_plan(prj, false).ok().unwrap();
    assert_eq!("Imported", plan.project.name);
    assert!(plan.project.has_dev);
    assert!(!plan.project.has_stage);
    assert!(!plan.project.has_uat);
    assert!(plan.project.has_prod);
    let servers: Vec<(EnvironmentType, String)> = plan
        .servers
        .iter()
        .map(|r| (r.environment, r.server.desc.clone()))
        .collect();
    assert_eq!(
        vec![
            (EnvironmentType::EnvDevelopment, s("dev1")),
            (EnvironmentType::EnvProd, s("prod1")),
            (EnvironmentType::EnvProd, s("prod2")),
        ],
        servers
    );
    let dbs: Vec<(usize, Option<String>, String)> = plan
        .databases
        .iter()
        .map(|r| (r.server_row, r.group_name.clone(), r.database.name.clone()))
        .collect();
    assert_eq!(
        vec![
            (0, None, s("a")),
            (0, Some(s("g1")), s("b")),
            (0, Some(s("g1")), s("c")),
            (2, None, s("d")),
        ],
        dbs
    );
}

#[test]
fn import_refused_when_name_taken() {
    let prj = ProjectImportExport {
        project_name: s("Taken"),
        development_environment: None,
        staging_environment: None,
        uat_environment: None,
        prod_environment: None,
    };
    let refusal = projectpad::import::import_plan(prj, true).err().unwrap();
    assert_eq!(projectpad::import::ImportRefusal::ProjectExists, refusal);
    assert_eq!("A project with this name already exists", refusal.message());
}

#[test]
fn group_names_must_be_distinct() {
    let ok = vec![(s("a"), empty_server_group()), (s("b"), empty_server_group())];
    let dup = vec![(s("a"), empty_server_group()), (s("b"), empty_server_group()), (s("a"), empty_server_group())];
    assert!(projectpad::import_export_dtos::distinct_group_names(&ok));
    assert!(!projectpad::import_export_dtos::distinct_group_names(&dup));
}
