use projectpad::export::{
    export_project_note, export_project_poi, exported_environments, is_first_env_for_note, server_database_path,
    server_path, Environments,
};
use projectpad::models::{EnvironmentType, InterestType};

fn envs(has_dev: bool, has_stage: bool, has_uat: bool, has_prod: bool) -> Environments {
    Environments { has_dev, has_stage, has_uat, has_prod }
}

#[test]
fn note_is_written_in_full_in_its_first_environment() {
    let all = envs(true, true, true, true);
    let note = envs(false, true, false, true);
    assert!(is_first_env_for_note(&note, &all, EnvironmentType::EnvStage));
    assert!(!is_first_env_for_note(&note, &all, EnvironmentType::EnvProd));
    // the project has no staging: the note is first met in production
    let no_stage = envs(true, false, true, true);
    assert!(is_first_env_for_note(&note, &no_stage, EnvironmentType::EnvProd));
    assert!(is_first_env_for_note(&note, &no_stage, EnvironmentType::EnvDevelopment));
}

#[test]
fn note_written_in_full_once_over_environments() {
    let project = envs(true, true, true, true);
    let note = envs(false, true, true, true);
    let order = [
        (EnvironmentType::EnvDevelopment, note.has_dev),
        (EnvironmentType::EnvStage, note.has_stage),
        (EnvironmentType::EnvUat, note.has_uat),
        (EnvironmentType::EnvProd, note.has_prod),
    ];
    let full: Vec<EnvironmentType> = order
        .iter()
        .filter(|(e, present)| *present && is_first_env_for_note(&note, &project, *e))
        .map(|(e, _)| *e)
        .collect();
    assert_eq!(vec![EnvironmentType::EnvStage], full);
}

#[test]
fn exported_note_shared_or_not() {
    let n = export_project_note("T".to_string(), "c".to_string(), true);
    assert_eq!(None, n.shared_with_other_environments);
    assert_eq!("c", n.contents);
    let n = export_project_note("T".to_string(), "c".to_string(), false);
    assert_eq!(Some("T".to_string()), n.shared_with_other_environments);
}

#[test]
fn exported_poi_shared_by_desc_or_text() {
    let p = export_project_poi("".to_string(), "/p".to_string(), "cmd".to_string(), InterestType::PoiCommandToRun, false);
    assert_eq!(Some("cmd".to_string()), p.shared_with_other_environments);
    let p = export_project_poi("d".to_string(), "/p".to_string(), "cmd".to_string(), InterestType::PoiCommandToRun, false);
    assert_eq!(Some("d".to_string()), p.shared_with_other_environments);
    let p = export_project_poi("d".to_string(), "/p".to_string(), "cmd".to_string(), InterestType::PoiApplication, true);
    assert_eq!(None, p.shared_with_other_environments);
    assert_eq!(InterestType::PoiApplication, p.interest_type);
}

#[test]
fn environments_exported_in_order_first_flagged() {
    assert_eq!(
        vec![(EnvironmentType::EnvStage, true), (EnvironmentType::EnvProd, false)],
        exported_environments(&envs(false, true, false, true))
    );
    assert!(exported_environments(&envs(false, false, false, false)).is_empty());
}

#[test]
fn server_paths_by_id_or_desc() {
    let p = server_path("Prj".to_string(), EnvironmentType::EnvUat, 5, "".to_string());
    assert_eq!(Some(5), p.server_id);
    assert_eq!(None, p.server_desc);
    let p = server_path("Prj".to_string(), EnvironmentType::EnvUat, 5, "web".to_string());
    assert_eq!(None, p.server_id);
    assert_eq!(Some("web".to_string()), p.server_desc);
    let d = server_database_path("Prj".to_string(), EnvironmentType::EnvProd, 5, "srv".to_string(), 9, "".to_string());
    assert_eq!(None, d.server_id);
    assert_eq!(Some("srv".to_string()), d.server_desc);
    assert_eq!(Some(9), d.database_id);
    assert_eq!(None, d.database_desc);
    assert_eq!("Prj", d.project_name);
}
