use projectpad::deletion::{item_deletion_confirmation, project_deletion_check, project_deletion_confirmation, server_deletion_check};
use projectpad::models::{EnvironmentType, Server, ServerAccessType, ServerDatabase, ServerLink, ServerType, ServerWebsite};

fn s(t: &str) -> String {
    t.to_string()
}

fn server(desc: &str) -> Server {
    Server {
        id: 1,
        desc: s(desc),
        is_retired: false,
        ip: s(""),
        text: s(""),
        group_name: None,
        username: s(""),
        password: s(""),
        auth_key_filename: None,
        server_type: ServerType::SrvDatabase,
        access_type: ServerAccessType::SrvAccessSsh,
        ssh_tunnel_port: None,
        ssh_tunnel_through_server_id: None,
        environment: EnvironmentType::EnvProd,
        project_id: 1,
    }
}

fn link(desc: &str) -> ServerLink {
    ServerLink {
        id: 1,
        project_id: 2,
        desc: s(desc),
        linked_server_id: 1,
        linked_group_name: None,
        environment: EnvironmentType::EnvProd,
        group_name: None,
    }
}

fn db(id: i32, desc: &str) -> ServerDatabase {
    ServerDatabase { id, desc: s(desc), name: s("n"), group_name: None, text: s(""), username: s(""), password: s(""), server_id: 1 }
}

fn website(desc: &str, db: Option<i32>) -> ServerWebsite {
    ServerWebsite {
        id: 1,
        desc: s(desc),
        url: s(""),
        text: s(""),
        username: s(""),
        password: s(""),
        server_database_id: db,
        group_name: None,
        server_id: 9,
    }
}

#[test]
fn project_with_linked_servers_cannot_be_deleted() {
    let links = vec![(link("l1"), server("s1")), (link("l2"), server("s2"))];
    assert_eq!(
        Err(("Cannot delete project", Some(s("servers s1, s2 on that server are linked to by servers l1, l2")))),
        project_deletion_check(&links, &vec![], &vec![])
    );
}

#[test]
fn project_with_used_databases_cannot_be_deleted() {
    let dbs = vec![db(3, "main"), db(4, "audit")];
    let sites = vec![website("shop", Some(4)), website("blog", Some(3))];
    assert_eq!(
        Err(("Cannot delete project", Some(s("databases audit, main on that server are linked to by websites shop, blog")))),
        project_deletion_check(&vec![], &dbs, &sites)
    );
    assert_eq!(Ok(()), project_deletion_check(&vec![], &dbs, &vec![]));
}

#[test]
fn server_deletion_refusals() {
    let used = vec![(website("shop", Some(3)), db(3, "main"))];
    assert_eq!(
        Err(("Cannot delete server", Some(s("databases n on that server are used by websites shop")))),
        server_deletion_check(&used, &vec![link("l")])
    );
    assert_eq!(
        Err(("Cannot delete server", Some(s("server links a, b are tied to this server")))),
        server_deletion_check(&vec![], &vec![link("a"), link("b")])
    );
    assert_eq!(Ok(()), server_deletion_check(&vec![], &vec![]));
}

#[test]
fn deletion_confirmations() {
    assert_eq!(
        (s("Delete server"), s("Are you sure you want to delete the server web? This action cannot be undone.")),
        item_deletion_confirmation("server", "web")
    );
    assert_eq!(
        (s("Delete Demo"), s("Are you sure you want to delete the project Demo? This action cannot be undone.")),
        project_deletion_confirmation("Demo")
    );
}
