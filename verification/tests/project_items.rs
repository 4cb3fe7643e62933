use projectpad::models::{EnvironmentType, InterestType, ProjectNote, ProjectPointOfInterest, Server, ServerAccessType, ServerLink, ServerType};
use projectpad::project_items::{
    deletion_prompt, get_project_env, get_project_item_fields, open_item_action, server_ip_display, KeyShortcut,
    LabelText, OpenItemAction, ProjectItem,
};

fn s(t: &str) -> String {
    t.to_string()
}

fn server(access_type: ServerAccessType, password: &str) -> Server {
    Server {
        id: 1,
        desc: s("web"),
        is_retired: false,
        ip: s("a&b"),
        text: s("txt"),
        group_name: None,
        username: s("me"),
        password: s(password),
        auth_key_filename: None,
        server_type: ServerType::SrvApplication,
        access_type,
        ssh_tunnel_port: None,
        ssh_tunnel_through_server_id: None,
        environment: EnvironmentType::EnvUat,
        project_id: 4,
    }
}

fn note(has_dev: bool, has_stage: bool, has_uat: bool, has_prod: bool) -> ProjectNote {
    ProjectNote { id: 1, project_id: 9, title: s("T"), contents: s(""), has_dev, has_uat, has_stage, has_prod, group_name: None }
}

#[test]
fn project_env_of_items() {
    assert_eq!((4, EnvironmentType::EnvUat), get_project_env(&ProjectItem::Server(server(ServerAccessType::SrvAccessSsh, ""))));
    assert_eq!((9, EnvironmentType::EnvStage), get_project_env(&ProjectItem::ProjectNote(note(true, true, false, false))));
    assert_eq!((9, EnvironmentType::EnvDevelopment), get_project_env(&ProjectItem::ProjectNote(note(false, false, false, false))));
    let poi = ProjectPointOfInterest {
        id: 2,
        project_id: 3,
        desc: s("d"),
        path: s("/p"),
        text: s("run"),
        group_name: None,
        interest_type: InterestType::PoiCommandToRun,
    };
    assert_eq!((3, EnvironmentType::EnvProd), get_project_env(&ProjectItem::ProjectPointOfInterest(poi)));
}

#[test]
fn website_server_address_is_a_link() {
    let srv = server(ServerAccessType::SrvAccessWww, "");
    assert_eq!(LabelText::Markup(s("<a href=\"a&amp;b\">a&amp;b</a>")), server_ip_display(&srv, "a&amp;b"));
    let ssh = server(ServerAccessType::SrvAccessSsh, "");
    assert_eq!(LabelText::PlainText(s("a&b")), server_ip_display(&ssh, "a&amp;b"));
}

#[test]
fn server_fields_mask_the_password() {
    let srv = server(ServerAccessType::SrvAccessRdp, "pw");
    let fields = get_project_item_fields(&ProjectItem::Server(srv), &None, false, "a&amp;b");
    assert_eq!(4, fields.len());
    assert_eq!("Address", fields[0].label_name);
    assert_eq!("windows", fields[0].icon.as_ref().unwrap().name());
    assert_eq!(LabelText::PlainText(s("●●●●●")), fields[2].label);
    assert_eq!("pw", fields[2].raw_value);
    assert_eq!(Some(KeyShortcut { key: 'y', ctrl: true }), fields[2].shortcut);
    let in_search = get_project_item_fields(&ProjectItem::Server(server(ServerAccessType::SrvAccessRdp, "")), &None, true, "");
    assert_eq!(LabelText::PlainText(s("")), in_search[2].label);
    assert_eq!(None, in_search[2].shortcut);
}

#[test]
fn server_link_fields_show_the_target() {
    let link = ServerLink {
        id: 1,
        project_id: 2,
        desc: s("l"),
        linked_server_id: 1,
        linked_group_name: None,
        environment: EnvironmentType::EnvProd,
        group_name: None,
    };
    let fields = get_project_item_fields(&ProjectItem::ServerLink(link.clone()), &Some(server(ServerAccessType::SrvAccessSsh, "")), false, "");
    assert_eq!(5, fields.len());
    assert_eq!("Links to", fields[0].label_name);
    assert_eq!(LabelText::PlainText(s("web")), fields[0].label);
    assert!(get_project_item_fields(&ProjectItem::ServerLink(link), &None, false, "").is_empty());
}

#[test]
fn poi_fields_name_commands() {
    let poi = ProjectPointOfInterest {
        id: 2,
        project_id: 3,
        desc: s("d"),
        path: s("/p"),
        text: s("run"),
        group_name: None,
        interest_type: InterestType::PoiCommandToRun,
    };
    let fields = get_project_item_fields(&ProjectItem::ProjectPointOfInterest(poi), &None, false, "");
    assert_eq!(3, fields.len());
    assert_eq!(LabelText::PlainText(s("Command to run")), fields[0].label);
    assert_eq!("/p", fields[0].raw_value);
    assert_eq!("Command", fields[2].label_name);
}

#[test]
fn deletion_and_open_actions() {
    let n = ProjectItem::ProjectNote(note(true, false, false, false));
    assert_eq!(("project note", s("T")), deletion_prompt(&n));
    assert_eq!(OpenItemAction::EditProjectNote, open_item_action(&Some(n)));
    let www = ProjectItem::Server(server(ServerAccessType::SrvAccessWww, ""));
    assert_eq!(OpenItemAction::OpenUri(s("a&b")), open_item_action(&Some(www)));
    let ssh = ProjectItem::Server(server(ServerAccessType::SrvAccessSsh, ""));
    assert_eq!(OpenItemAction::OpenSingleWebsiteLink, open_item_action(&Some(ssh)));
    assert_eq!(OpenItemAction::Nothing, open_item_action(&None));
}

use projectpad::project_items::{get_item_model, group_project_items, ProjectItemRef};

fn grouped_server(group: Option<&str>) -> Server {
    let mut srv = server(ServerAccessType::SrvAccessSsh, "");
    srv.group_name = group.map(|g| g.to_string());
    srv
}

fn grouped_note(group: Option<&str>) -> ProjectNote {
    let mut n = note(true, false, false, false);
    n.group_name = group.map(|g| g.to_string());
    n
}

fn grouped_link(group: Option<&str>) -> ServerLink {
    ServerLink {
        id: 1,
        project_id: 2,
        desc: s("l"),
        linked_server_id: 1,
        linked_group_name: None,
        environment: EnvironmentType::EnvProd,
        group_name: group.map(|g| g.to_string()),
    }
}

#[test]
fn project_items_grouped_by_group_name() {
    let servers = vec![grouped_server(None), grouped_server(Some("a")), grouped_server(Some("b"))];
    let links = vec![grouped_link(Some("b"))];
    let notes = vec![grouped_note(None), grouped_note(Some("a"))];
    let (items, starts) = group_project_items(&servers, &links, &notes, &vec![]);
    assert_eq!(
        vec![
            ProjectItemRef::Server(0),
            ProjectItemRef::ProjectNote(0),
            ProjectItemRef::Server(1),
            ProjectItemRef::ProjectNote(1),
            ProjectItemRef::Server(2),
            ProjectItemRef::ServerLink(0),
        ],
        items
    );
    assert_eq!(vec![(2, s("a")), (4, s("b"))], starts);
}

#[test]
fn project_items_out_of_group_order_are_skipped() {
    let servers = vec![grouped_server(Some("b")), grouped_server(Some("a"))];
    let (items, starts) = group_project_items(&servers, &vec![], &vec![], &vec![]);
    assert_eq!(vec![ProjectItemRef::Server(0)], items);
    assert_eq!(vec![(0, s("b"))], starts);
}

#[test]
fn item_model_of_retired_server_is_italic() {
    let mut srv = server(ServerAccessType::SrvAccessRdp, "");
    srv.is_retired = true;
    srv.group_name = Some(s("g"));
    let m = get_item_model(&ProjectItem::Server(srv), "a &amp; b");
    assert_eq!("<i>a &amp; b</i>", m.markup);
    assert_eq!("windows", m.icon.name());
    assert_eq!(Some(s("g")), m.group_name);
    let n = get_item_model(&ProjectItem::ProjectNote(note(true, false, false, false)), "T");
    assert_eq!("T", n.markup);
    assert_eq!("clipboard", n.icon.name());
}

use projectpad::models::Project;
use projectpad::project_items::{move_project_item, project_enable_env, ProjectUpdated};

#[test]
fn moving_a_note_adds_the_environment() {
    let moved = move_project_item(ProjectItem::ProjectNote(note(true, false, false, false)), 12, EnvironmentType::EnvUat);
    match moved {
        ProjectItem::ProjectNote(n) => {
            assert_eq!(12, n.project_id);
            assert!(n.has_dev && n.has_uat && !n.has_stage && !n.has_prod);
        }
        _ => panic!("a note stays a note"),
    }
    let moved = move_project_item(ProjectItem::Server(server(ServerAccessType::SrvAccessSsh, "")), 12, EnvironmentType::EnvDevelopment);
    assert_eq!((12, EnvironmentType::EnvDevelopment), get_project_env(&moved));
}

#[test]
fn enabling_an_environment_reports_a_change_once() {
    let p = Project { id: 1, name: s("P"), has_dev: false, has_uat: false, has_stage: true, has_prod: false };
    let (changed, p) = project_enable_env(p, EnvironmentType::EnvDevelopment);
    assert_eq!(ProjectUpdated::Yes, changed);
    assert!(p.has_dev && p.has_stage);
    let (changed, _) = project_enable_env(p, EnvironmentType::EnvDevelopment);
    assert_eq!(ProjectUpdated::No, changed);
}

use projectpad::project_items::stored_group_name;

#[test]
fn empty_group_names_are_stored_as_none() {
    assert_eq!(None, stored_group_name(Some(s(""))));
    assert_eq!(None, stored_group_name(None));
    assert_eq!(Some(s("g")), stored_group_name(Some(s("g"))));
}

use projectpad::project_items::{header_action, password_to_copy, ActionTypes, HeaderAction};

#[test]
fn header_actions_on_the_item_shown() {
    let link = ProjectItem::ServerLink(grouped_link(None));
    assert_eq!(HeaderAction::GotoLinkedServer(1), header_action(ActionTypes::GotoItem, s(""), &Some(link.clone())));
    assert_eq!(HeaderAction::EditItem("Server link"), header_action(ActionTypes::Edit, s(""), &Some(link)));
    assert_eq!(HeaderAction::CopyToClipboard(s("v")), header_action(ActionTypes::Copy, s("v"), &None));
    assert_eq!(HeaderAction::Nothing, header_action(ActionTypes::Move, s(""), &None));
    let srv = ProjectItem::Server(server(ServerAccessType::SrvAccessSsh, "pw"));
    assert_eq!(
        HeaderAction::ConfirmDeletion(s("Delete server"), s("Are you sure you want to delete the server web? This action cannot be undone.")),
        header_action(ActionTypes::Delete, s(""), &Some(srv.clone()))
    );
    assert_eq!(Some(s("pw")), password_to_copy(&Some(srv)));
    assert_eq!(None, password_to_copy(&Some(ProjectItem::Server(server(ServerAccessType::SrvAccessSsh, "")))));
}

use projectpad::project_items::default_environment;

#[test]
fn projects_open_on_their_last_environment() {
    let p = Project { id: 1, name: s("P"), has_dev: true, has_uat: true, has_stage: true, has_prod: false };
    assert_eq!(Some(EnvironmentType::EnvUat), default_environment(&p));
    let none = Project { id: 1, name: s("P"), has_dev: false, has_uat: false, has_stage: false, has_prod: false };
    assert_eq!(None, default_environment(&none));
}

use projectpad::project_items::project_item_desc;

#[test]
fn item_desc_is_a_note_title() {
    assert_eq!("T", project_item_desc(&ProjectItem::ProjectNote(note(true, false, false, false))));
    assert_eq!("web", project_item_desc(&ProjectItem::Server(server(ServerAccessType::SrvAccessSsh, ""))));
}

use projectpad::project_items::{project_to_activate, UpdateParents};

#[test]
fn reloaded_list_keeps_the_active_project() {
    let prj = |id: i32| Project { id, name: s("P"), has_dev: true, has_uat: false, has_stage: false, has_prod: false };
    let projects = vec![prj(4), prj(7)];
    assert_eq!(Some((1, UpdateParents::No)), project_to_activate(&projects, Some(7)));
    assert_eq!(Some((0, UpdateParents::Yes)), project_to_activate(&projects, Some(9)));
    assert_eq!(Some((0, UpdateParents::Yes)), project_to_activate(&projects, None));
    assert_eq!(None, project_to_activate(&vec![], Some(7)));
}

use projectpad::project_items::icon_desc;

#[test]
fn project_picture_description() {
    assert_eq!(Some("<Billing picture>".to_string()), icon_desc("Billing", &Some(vec![1, 2, 3])));
    assert_eq!(None, icon_desc("Billing", &None));
}
