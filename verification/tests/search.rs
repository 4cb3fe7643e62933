use projectpad::search::{search_parse, SearchSpec};

#[test]
fn search_parse_no_project() {
    assert_eq!(
        SearchSpec {
            search_pattern: "%test no project%".to_string(),
            project_pattern: None
        },
        search_parse("test no project")
    );
}

#[test]
fn search_parse_with_project() {
    assert_eq!(
        SearchSpec {
            search_pattern: "%item1 test item3%".to_string(),
            project_pattern: Some("project".to_string())
        },
        search_parse("item1 test prj:prOject item3")
    );
}

#[test]
fn search_parse_escapes_percent() {
    assert_eq!("%50\\% off%", search_parse("50% off").search_pattern);
}

#[test]
fn search_parse_project_first_word() {
    let spec = search_parse("prj:ÉTÉ prj:other x");
    assert_eq!("%x%", spec.search_pattern);
    assert_eq!(Some("été".to_string()), spec.project_pattern);
}

#[test]
fn search_parse_prefix_inside_a_word_is_no_filter() {
    assert_eq!(
        SearchSpec {
            search_pattern: "%aprj:b%".to_string(),
            project_pattern: None
        },
        search_parse("aprj:b")
    );
}

use projectpad::search::{filter_projects_by_name, project_ids_to_load, search_plan, server_ids_to_load, SearchItemsType, SearchLeaves};

fn no_leaves() -> SearchLeaves {
    SearchLeaves {
        server_ids: vec![],
        website_server_ids: vec![],
        note_server_ids: vec![],
        link_linked_server_ids: vec![],
        extra_user_server_ids: vec![],
        poi_server_ids: vec![],
        database_server_ids: vec![],
        project_ids: vec![],
        project_poi_project_ids: vec![],
        project_note_project_ids: vec![],
        link_project_ids: vec![],
    }
}

// The items that the search "monitor" finds in the sample project: one extra
// user ("monpass") on the server "My server" (id 1) of the project "Demo" (id 1).
#[test]
fn search_finds_users() {
    let plan = search_plan(SearchItemsType::All);
    assert!(plan.servers && plan.server_databases && plan.other_items);
    let mut leaves = no_leaves();
    leaves.extra_user_server_ids.push(1);
    // should also include the server on which the user is...
    let servers = server_ids_to_load(&leaves);
    assert_eq!(vec![1], servers);
    // should also include the project on which the server is...
    let projects = project_ids_to_load(&leaves, &vec![1]);
    assert_eq!(vec![1], projects);
    let kept = filter_projects_by_name(&vec![(1, "Demo".to_string())], &None);
    assert_eq!(vec![1], kept);
}

#[test]
fn search_plan_by_type() {
    let p = search_plan(SearchItemsType::ServersOnly);
    assert!(p.servers && !p.server_databases && !p.other_items);
    let p = search_plan(SearchItemsType::ServerDbsOnly);
    assert!(!p.servers && p.server_databases && !p.other_items);
}

#[test]
fn search_bubbles_up_each_id_once() {
    let mut leaves = no_leaves();
    leaves.server_ids = vec![3, 1];
    leaves.note_server_ids = vec![1, 4];
    leaves.database_server_ids = vec![4, 4, 5];
    leaves.link_linked_server_ids = vec![9];
    let mut servers = server_ids_to_load(&leaves);
    servers.sort();
    assert_eq!(vec![1, 3, 4, 5, 9], servers);
    leaves.project_ids = vec![2];
    leaves.link_project_ids = vec![7, 2];
    let mut projects = project_ids_to_load(&leaves, &vec![7, 7, 8]);
    projects.sort();
    assert_eq!(vec![2, 7, 8], projects);
}

#[test]
fn search_filters_projects_by_lowercased_name() {
    let projects = vec![(1, "Demo".to_string()), (2, "Other".to_string()), (3, "DEMOS".to_string())];
    assert_eq!(vec![1, 3], filter_projects_by_name(&projects, &Some("demo".to_string())));
    assert_eq!(vec![1, 2, 3], filter_projects_by_name(&projects, &None));
    assert!(filter_projects_by_name(&projects, &Some("Demo".to_string())).is_empty());
}
