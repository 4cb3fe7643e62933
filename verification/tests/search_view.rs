use projectpad::models::{
    EnvironmentType, Project, ProjectNote, Server, ServerAccessType, ServerExtraUserAccount, ServerLink, ServerNote,
    ServerType, ServerWebsite,
};
use projectpad::project_items::ProjectItem;
use projectpad::search::SearchResult;
use projectpad::search_view::{search_item_refs, search_key_action, Area, ProjectPadItem, SearchItemRef, SearchKey, SearchKeyAction};

fn s(t: &str) -> String {
    t.to_string()
}

fn project(id: i32, name: &str) -> Project {
    Project { id, name: s(name), has_dev: true, has_uat: false, has_stage: false, has_prod: true }
}

fn server(id: i32, project_id: i32, access_type: ServerAccessType, ip: &str, password: &str) -> Server {
    Server {
        id,
        desc: s("srv"),
        is_retired: false,
        ip: s(ip),
        text: s(""),
        group_name: None,
        username: s(""),
        password: s(password),
        auth_key_filename: None,
        server_type: ServerType::SrvApplication,
        access_type,
        ssh_tunnel_port: None,
        ssh_tunnel_through_server_id: None,
        environment: EnvironmentType::EnvProd,
        project_id,
    }
}

fn website(server_id: i32, url: &str, password: &str) -> ServerWebsite {
    ServerWebsite {
        id: 1,
        desc: s("w"),
        url: s(url),
        text: s(""),
        username: s(""),
        password: s(password),
        server_database_id: None,
        group_name: None,
        server_id,
    }
}

fn note(project_id: i32) -> ProjectNote {
    ProjectNote {
        id: 1,
        project_id,
        title: s("n"),
        contents: s(""),
        has_dev: true,
        has_uat: false,
        has_stage: false,
        has_prod: false,
        group_name: None,
    }
}

fn empty_result() -> SearchResult {
    SearchResult {
        projects: vec![],
        project_notes: vec![],
        project_pois: vec![],
        server_links: vec![],
        servers: vec![],
        server_databases: vec![],
        server_extra_users: vec![],
        server_notes: vec![],
        server_pois: vec![],
        server_websites: vec![],
        reset_scroll: false,
    }
}

#[test]
fn results_are_laid_out_project_by_project() {
    let mut r = empty_result();
    r.projects = vec![project(1, "A"), project(2, "B")];
    r.servers = vec![
        server(10, 2, ServerAccessType::SrvAccessSsh, "", ""),
        server(11, 1, ServerAccessType::SrvAccessSsh, "", ""),
    ];
    r.server_websites = vec![website(11, "u", ""), website(10, "v", "")];
    r.server_notes = vec![ServerNote { id: 5, title: s("t"), group_name: None, contents: s(""), server_id: 10 }];
    r.server_extra_users = vec![ServerExtraUserAccount {
        id: 6,
        username: s("u"),
        password: s("monpass"),
        desc: s(""),
        group_name: None,
        auth_key_filename: None,
        server_id: 11,
    }];
    r.server_links = vec![ServerLink {
        id: 7,
        project_id: 1,
        desc: s("l"),
        linked_server_id: 10,
        linked_group_name: None,
        environment: EnvironmentType::EnvProd,
        group_name: None,
    }];
    r.project_notes = vec![note(2), note(1)];
    assert_eq!(
        vec![
            SearchItemRef::Project(0),
            SearchItemRef::Server(1),
            SearchItemRef::ServerWebsite(0),
            SearchItemRef::ServerExtraUserAccount(0),
            SearchItemRef::ServerLink(0),
            SearchItemRef::ProjectNote(1),
            SearchItemRef::Project(1),
            SearchItemRef::Server(0),
            SearchItemRef::ServerWebsite(1),
            SearchItemRef::ServerNote(0),
            SearchItemRef::ProjectNote(0),
        ],
        search_item_refs(&r)
    );
}

#[test]
fn items_of_projects_not_found_are_not_shown() {
    let mut r = empty_result();
    r.project_notes = vec![note(3)];
    assert!(search_item_refs(&r).is_empty());
}

#[test]
fn enter_opens_the_deepest_single_item() {
    let items = vec![
        ProjectPadItem::Project(project(1, "Demo")),
        ProjectPadItem::Server(server(2, 1, ServerAccessType::SrvAccessSsh, "", "")),
        ProjectPadItem::ServerWebsite(website(2, "http://a", "")),
    ];
    assert_eq!(SearchKeyAction::OpenItem(2), search_key_action(&items, SearchKey::Enter, false));
    let items2 = vec![ProjectPadItem::Project(project(1, "Demo")), ProjectPadItem::ProjectNote(note(1))];
    assert_eq!(SearchKeyAction::OpenItem(1), search_key_action(&items2, SearchKey::Enter, false));
    let two_notes = vec![
        ProjectPadItem::Project(project(1, "Demo")),
        ProjectPadItem::ProjectNote(note(1)),
        ProjectPadItem::ProjectNote(note(1)),
    ];
    assert_eq!(SearchKeyAction::Nothing, search_key_action(&two_notes, SearchKey::Enter, false));
}

#[test]
fn ctrl_e_opens_the_single_address() {
    let items = vec![
        ProjectPadItem::Project(project(1, "Demo")),
        ProjectPadItem::Server(server(2, 1, ServerAccessType::SrvAccessSsh, "10.0.0.1", "")),
        ProjectPadItem::ServerWebsite(website(2, "http://a", "")),
    ];
    assert_eq!(SearchKeyAction::OpenUri(s("http://a")), search_key_action(&items, SearchKey::CtrlE, false));
    let two = vec![
        ProjectPadItem::Server(server(2, 1, ServerAccessType::SrvAccessWww, "http://b", "")),
        ProjectPadItem::ServerWebsite(website(2, "http://a", "")),
    ];
    assert_eq!(SearchKeyAction::Nothing, search_key_action(&two, SearchKey::CtrlE, false));
}

#[test]
fn ctrl_y_copies_the_single_password() {
    let items = vec![
        ProjectPadItem::Server(server(2, 1, ServerAccessType::SrvAccessSsh, "", "secret")),
        ProjectPadItem::ServerWebsite(website(2, "http://a", "")),
    ];
    assert_eq!(SearchKeyAction::CopyToClipboard(s("secret")), search_key_action(&items, SearchKey::CtrlY, false));
}

#[test]
fn modifier_keys_toggle_shortcuts() {
    let items: Vec<ProjectPadItem> = vec![];
    assert_eq!(SearchKeyAction::SetShowShortcuts(true), search_key_action(&items, SearchKey::Modifier, false));
    assert_eq!(SearchKeyAction::Nothing, search_key_action(&items, SearchKey::Modifier, true));
    assert_eq!(SearchKeyAction::SetShowShortcuts(false), search_key_action(&items, SearchKey::Other, true));
    assert_eq!(SearchKeyAction::Nothing, search_key_action(&items, SearchKey::Other, false));
}

#[test]
fn area_contains_its_top_left_not_its_bottom_right() {
    let a = Area::new(10, 20, 5, 5);
    assert!(a.contains(10, 20));
    assert!(a.contains(14, 24));
    assert!(!a.contains(15, 24));
    assert!(!a.contains(14, 25));
    assert!(!a.contains(9, 22));
}

use projectpad::search_view::open_item_positions;

#[test]
fn opening_an_item_finds_its_server_and_project() {
    let items = vec![
        ProjectPadItem::Project(project(1, "Demo")),
        ProjectPadItem::Server(server(2, 1, ServerAccessType::SrvAccessSsh, "", "")),
        ProjectPadItem::ServerWebsite(website(2, "http://a", "")),
        ProjectPadItem::Project(project(3, "Other")),
        ProjectPadItem::ProjectNote(note(3)),
    ];
    assert_eq!((0, Some(1)), open_item_positions(&items, 2));
    assert_eq!((0, None), open_item_positions(&items, 1));
    assert_eq!((3, None), open_item_positions(&items, 4));
    assert_eq!((3, None), open_item_positions(&items, 3));
}

use projectpad::search_view::{visible_search_items, VisibleItem};

#[test]
fn visible_rows_follow_the_scroll() {
    let items = vec![
        ProjectPadItem::Project(project(1, "Demo")),
        ProjectPadItem::Server(server(2, 1, ServerAccessType::SrvAccessSsh, "", "")),
        ProjectPadItem::ServerWebsite(website(2, "http://a", "")),
        ProjectPadItem::ProjectNote(note(1)),
    ];
    assert_eq!(
        vec![
            VisibleItem { index: 0, y: 0, server: None, shortcut: Some(1) },
            VisibleItem { index: 1, y: 75, server: Some(1), shortcut: Some(2) },
            VisibleItem { index: 2, y: 150, server: Some(1), shortcut: Some(3) },
        ],
        visible_search_items(&items, 0, 200)
    );
    assert_eq!(
        vec![
            VisibleItem { index: 1, y: -25, server: Some(1), shortcut: Some(2) },
            VisibleItem { index: 2, y: 50, server: Some(1), shortcut: Some(3) },
        ],
        visible_search_items(&items, 100, 100)
    );
    assert!(visible_search_items(&vec![], 0, 300).is_empty());
}

use projectpad::search::SearchItemsType;
use projectpad::search_view::{is_over_link, search_click, ClickOutcome, OperationMode};

#[test]
fn clicks_open_links_first() {
    let links = vec![(Area::new(0, 0, 10, 10), s("http://a"))];
    let actions = vec![
        (Area::new(0, 0, 50, 50), ProjectPadItem::Project(project(1, "Demo"))),
        (Area::new(60, 0, 10, 10), ProjectPadItem::Server(server(2, 1, ServerAccessType::SrvAccessSsh, "", ""))),
    ];
    let item_links = vec![(Area::new(20, 20, 10, 10), ProjectPadItem::Project(project(1, "Demo")))];
    let none = ClickOutcome { open_link: None, show_actions: None, open_item: None, select_item: None };
    assert_eq!(
        ClickOutcome { open_link: Some(0), ..none },
        search_click(&links, &actions, &item_links, OperationMode::ItemActions, SearchItemsType::All, 5, 5)
    );
    assert_eq!(
        ClickOutcome { show_actions: Some(0), open_item: Some(0), ..none },
        search_click(&links, &actions, &item_links, OperationMode::ItemActions, SearchItemsType::All, 25, 25)
    );
    assert_eq!(
        none,
        search_click(&links, &actions, &item_links, OperationMode::SelectItem, SearchItemsType::ServersOnly, 25, 25)
    );
    assert_eq!(
        ClickOutcome { select_item: Some(1), ..none },
        search_click(&links, &actions, &item_links, OperationMode::SelectItem, SearchItemsType::ServersOnly, 65, 5)
    );
    assert!(is_over_link(&links, &item_links, 25, 25));
    assert!(!is_over_link(&links, &item_links, 45, 45));
}

#[test]
fn search_items_as_project_items() {
    let srv = ProjectPadItem::Server(server(4, 1, ServerAccessType::SrvAccessSsh, "10.1.1.1", ""));
    assert!(matches!(srv.to_project_item(), Some(ProjectItem::Server(ref s)) if s.id == 4));
    let n = ProjectPadItem::ProjectNote(note(1));
    assert!(matches!(n.to_project_item(), Some(ProjectItem::ProjectNote(_))));
    assert!(ProjectPadItem::Project(project(1, "p")).to_project_item().is_none());
    assert!(ProjectPadItem::ServerWebsite(website(4, "http://x", "")).to_project_item().is_none());
}

use projectpad::search_view::{dialog_title, edit_dialog_choice, release_action, EditDialogSlot};

#[test]
fn digit_release_opens_or_edits() {
    let r = release_action(3, true, Some(2), true, false);
    assert!(r.hide_shortcuts);
    assert_eq!(Some(1), r.open);
    assert_eq!(None, r.edit);
    let r = release_action(10, false, Some(0), false, true);
    assert_eq!(None, r.open);
    assert_eq!(Some(9), r.edit);
    let r = release_action(3, false, Some(0), true, true);
    assert_eq!((None, None), (r.open, r.edit));
    let r = release_action(3, false, None, true, true);
    assert_eq!((None, None), (r.open, r.edit));
}

#[test]
fn edit_dialog_choices() {
    let c = edit_dialog_choice(&ProjectPadItem::Server(server(4, 7, ServerAccessType::SrvAccessSsh, "1.1.1.1", "")));
    assert_eq!("Edit Server", c.title);
    assert_eq!(Some(7), c.parent_id);
    assert_eq!(EditDialogSlot::ProjectItem, c.slot);
    let c = edit_dialog_choice(&ProjectPadItem::ServerWebsite(website(4, "http://x", "")));
    assert_eq!("Edit Server Website", c.title);
    assert_eq!(Some(4), c.parent_id);
    assert_eq!(EditDialogSlot::ServerItem, c.slot);
    let c = edit_dialog_choice(&ProjectPadItem::Project(project(1, "p")));
    assert_eq!("Edit Project", c.title);
    assert_eq!(None, c.parent_id);
    assert_eq!(EditDialogSlot::Project, c.slot);
    assert_eq!("Add Server Note", dialog_title(false, "Server Note"));
}
