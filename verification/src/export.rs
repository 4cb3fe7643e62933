use vstd::prelude::*;
use crate::import_export_dtos::{opt_text, ProjectNoteImportExport, ProjectPoiImportExport, ServerDatabasePath, ServerPath};
use crate::models::{EnvironmentType, InterestType};

verus! {

/// The environments that a project, or one of its notes, is present in.
#[derive(PartialEq, Eq, Structural, Debug, Clone, Copy)]
pub struct Environments {
    pub has_dev: bool,
    pub has_stage: bool,
    pub has_uat: bool,
    pub has_prod: bool,
}

/// The place of an environment in the order of export: development, staging,
/// UAT, production.
pub open spec fn env_rank(env: EnvironmentType) -> int {
    match env {
        EnvironmentType::EnvDevelopment => 0,
        EnvironmentType::EnvStage => 1,
        EnvironmentType::EnvUat => 2,
        EnvironmentType::EnvProd => 3,
    }
}

pub open spec fn has_env(e: Environments, env: EnvironmentType) -> bool {
    match env {
        EnvironmentType::EnvDevelopment => e.has_dev,
        EnvironmentType::EnvStage => e.has_stage,
        EnvironmentType::EnvUat => e.has_uat,
        EnvironmentType::EnvProd => e.has_prod,
    }
}

/// A note is exported in an environment when both the note and its project are
/// present in it.
pub open spec fn note_exported_in(note: Environments, project: Environments, env: EnvironmentType) -> bool {
    has_env(note, env) && has_env(project, env)
}

/// A note is written in full in an environment when no environment before it
/// exports the note.
pub open spec fn note_in_full_in(note: Environments, project: Environments, env: EnvironmentType) -> bool {
    forall|e: EnvironmentType| env_rank(e) < env_rank(env) ==> !#[trigger] note_exported_in(note, project, e)
}

/// Whether a note is written in full when the given environment is exported,
/// rather than only named as shared with another environment: so it is the first
/// time that the export meets the note.
pub fn is_first_env_for_note(note: &Environments, project: &Environments, env: EnvironmentType) -> (r: bool)
    ensures
        r == note_in_full_in(*note, *project, env),
{
    let in_dev = note.has_dev && project.has_dev;
    let in_stage = note.has_stage && project.has_stage;
    let in_uat = note.has_uat && project.has_uat;
    proof {
        assert(in_dev == note_exported_in(*note, *project, EnvironmentType::EnvDevelopment));
        assert(in_stage == note_exported_in(*note, *project, EnvironmentType::EnvStage));
        assert(in_uat == note_exported_in(*note, *project, EnvironmentType::EnvUat));
    }
    match env {
        EnvironmentType::EnvDevelopment => true,
        EnvironmentType::EnvStage => !in_dev,
        EnvironmentType::EnvUat => !in_dev && !in_stage,
        EnvironmentType::EnvProd => !in_dev && !in_stage && !in_uat,
    }
}

/// A note as exported in an environment: in full the first time, else only its
/// title, as the note it shares with another environment.
pub fn export_project_note(title: String, contents: String, is_first_env_for_this_note: bool) -> (r: ProjectNoteImportExport)
    ensures
        r.title@ == title@,
        r.contents@ == contents@,
        opt_text(r.shared_with_other_environments) == (if is_first_env_for_this_note { None } else { Some(title@) }),
{
    let shared = if is_first_env_for_this_note { None } else { Some(title.clone()) };
    ProjectNoteImportExport { title, contents, shared_with_other_environments: shared }
}

/// A point of interest of a project as exported in an environment: in full in the
/// first exported environment, else only named by its description (or, without
/// one, its text) as shared with another environment.
pub fn export_project_poi(desc: String, path: String, text: String, interest_type: InterestType, is_first_env: bool) -> (r: ProjectPoiImportExport)
    ensures
        r.desc@ == desc@,
        r.path@ == path@,
        r.text@ == text@,
        r.interest_type == interest_type,
        opt_text(r.shared_with_other_environments) == (if is_first_env {
            None
        } else {
            Some(if desc@.len() == 0 { text@ } else { desc@ })
        }),
{
    let shared = if is_first_env {
        None
    } else if desc.as_str().is_empty() {
        Some(text.clone())
    } else {
        Some(desc.clone())
    };
    ProjectPoiImportExport { desc, path, text, interest_type, shared_with_other_environments: shared }
}

/// The environments of a project, in the order of export.
pub open spec fn present_envs(project: Environments) -> Seq<EnvironmentType> {
    (if project.has_dev { seq![EnvironmentType::EnvDevelopment] } else { Seq::empty() })
        + (if project.has_stage { seq![EnvironmentType::EnvStage] } else { Seq::empty() })
        + (if project.has_uat { seq![EnvironmentType::EnvUat] } else { Seq::empty() })
        + (if project.has_prod { seq![EnvironmentType::EnvProd] } else { Seq::empty() })
}

/// The environments that the export of a project writes, in order, each with
/// whether it is the first one written.
pub fn exported_environments(project: &Environments) -> (r: Vec<(EnvironmentType, bool)>)
    ensures
        r@.len() == present_envs(*project).len(),
        forall|i: int| 0 <= i < r@.len() ==> (#[trigger] r@[i]).0 == present_envs(*project)[i] && r@[i].1 == (i == 0),
{
    let mut r: Vec<(EnvironmentType, bool)> = Vec::new();
    let mut is_first_env = true;
    if project.has_dev {
        r.push((EnvironmentType::EnvDevelopment, is_first_env));
        is_first_env = false;
    }
    if project.has_stage {
        r.push((EnvironmentType::EnvStage, is_first_env));
        is_first_env = false;
    }
    if project.has_uat {
        r.push((EnvironmentType::EnvUat, is_first_env));
        is_first_env = false;
    }
    if project.has_prod {
        r.push((EnvironmentType::EnvProd, is_first_env));
    }
    let ghost p = present_envs(*project);
    assert(r@.len() == p.len());
    assert forall|i: int| 0 <= i < r@.len() implies (#[trigger] r@[i]).0 == p[i] && r@[i].1 == (i == 0) by {
    }
    r
}

/// Where a linked server is found: by id when it has no description, else by
/// its description.
pub fn server_path(project_name: String, environment: EnvironmentType, server_id: i32, server_desc: String) -> (r: ServerPath)
    ensures
        r.project_name@ == project_name@,
        r.environment == environment,
        r.server_id == (if server_desc@.len() == 0 { Some(server_id) } else { None::<i32> }),
        opt_text(r.server_desc) == (if server_desc@.len() == 0 { None } else { Some(server_desc@) }),
{
    let empty = server_desc.as_str().is_empty();
    ServerPath {
        project_name,
        environment,
        server_id: if empty { Some(server_id) } else { None },
        server_desc: if empty { None } else { Some(server_desc) },
    }
}

/// Where the database that a website uses is found: its server and the database,
/// each by id when it has no description, else by its description.
pub fn server_database_path(
    project_name: String,
    environment: EnvironmentType,
    server_id: i32,
    server_desc: String,
    database_id: i32,
    database_desc: String,
) -> (r: ServerDatabasePath)
    ensures
        r.project_name@ == project_name@,
        r.environment == environment,
        r.server_id == (if server_desc@.len() == 0 { Some(server_id) } else { None::<i32> }),
        opt_text(r.server_desc) == (if server_desc@.len() == 0 { None } else { Some(server_desc@) }),
        r.database_id == (if database_desc@.len() == 0 { Some(database_id) } else { None::<i32> }),
        opt_text(r.database_desc) == (if database_desc@.len() == 0 { None } else { Some(database_desc@) }),
{
    let srv_empty = server_desc.as_str().is_empty();
    let db_empty = database_desc.as_str().is_empty();
    ServerDatabasePath {
        project_name,
        environment,
        server_id: if srv_empty { Some(server_id) } else { None },
        server_desc: if srv_empty { None } else { Some(server_desc) },
        database_id: if db_empty { Some(database_id) } else { None },
        database_desc: if db_empty { None } else { Some(database_desc) },
    }
}

/// A note that the export meets in some environment is written in full in
/// exactly one of the environments that export it: the first of them.
pub proof fn law_note_in_full_once(note: Environments, project: Environments, env: EnvironmentType)
    requires
        note_exported_in(note, project, env),
    ensures
        exists|first: EnvironmentType| #[trigger] note_exported_in(note, project, first) && note_in_full_in(note, project, first)
            && env_rank(first) <= env_rank(env),
        forall|a: EnvironmentType, b: EnvironmentType|
            #![trigger note_in_full_in(note, project, a), note_in_full_in(note, project, b)]
            note_exported_in(note, project, a) && note_in_full_in(note, project, a)
            && note_exported_in(note, project, b) && note_in_full_in(note, project, b) ==> a == b,
{
    let d = EnvironmentType::EnvDevelopment;
    let s = EnvironmentType::EnvStage;
    let u = EnvironmentType::EnvUat;
    let p = EnvironmentType::EnvProd;
    let first = if note_exported_in(note, project, d) { d }
        else if note_exported_in(note, project, s) { s }
        else if note_exported_in(note, project, u) { u }
        else { p };
    assert(note_exported_in(note, project, first) && note_in_full_in(note, project, first) && env_rank(first) <= env_rank(env));
    assert forall|a: EnvironmentType, b: EnvironmentType|
        note_exported_in(note, project, a) && note_in_full_in(note, project, a)
        && note_exported_in(note, project, b) && note_in_full_in(note, project, b) implies a == b by {
        if env_rank(a) < env_rank(b) {
            assert(!note_exported_in(note, project, a));
        } else if env_rank(b) < env_rank(a) {
            assert(!note_exported_in(note, project, b));
        }
    }
}

/// The points of interest of a project are written in full in exactly one
/// environment: the first one that the export writes, when it writes any.
pub proof fn law_pois_in_full_once(project: Environments, flags: Seq<(EnvironmentType, bool)>)
    requires
        flags.len() == present_envs(project).len(),
        forall|i: int| 0 <= i < flags.len() ==> (#[trigger] flags[i]).0 == present_envs(project)[i] && flags[i].1 == (i == 0),
    ensures
        forall|i: int, j: int| 0 <= i < flags.len() && 0 <= j < flags.len() && (#[trigger] flags[i]).1 && (#[trigger] flags[j]).1 ==> i == j,
        (project.has_dev || project.has_stage || project.has_uat || project.has_prod) ==> flags.len() > 0 && flags[0].1,
{
}

} // verus!
