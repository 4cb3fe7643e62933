use vstd::prelude::*;
use crate::models::{EnvironmentType, Server, ServerDatabase};
use crate::import_export_dtos::{ProjectEnvImportExport, ProjectImportExport, ServerDatabaseImportExport,
    ServerGroupImportExport, ServerWithItemsImportExport, opt_text};

verus! {

/// Why an import is refused.
#[derive(PartialEq, Eq, Structural, Debug, Clone, Copy)]
pub enum ImportRefusal {
    /// The database already holds a project of the same name.
    ProjectExists,
}

impl ImportRefusal {
    /// The message of the refusal.
    pub fn message(&self) -> (r: &'static str)
        ensures
            r@ == "A project with this name already exists"@,
    {
        "A project with this name already exists"
    }
}

/// The project row that an import creates: its name, and the environments that
/// the imported file holds.
pub struct ImportedProject {
    pub name: String,
    pub has_dev: bool,
    pub has_stage: bool,
    pub has_uat: bool,
    pub has_prod: bool,
}

/// A server row that an import creates, in the given environment and outside any
/// group; its project is the imported one.
pub struct ServerRow {
    pub environment: EnvironmentType,
    pub server: Server,
}

/// A database row that an import creates: the server it lies on (a position among
/// the plan's server rows), the group it belongs to, and the database.
pub struct DatabaseRow {
    pub server_row: usize,
    pub group_name: Option<String>,
    pub database: ServerDatabase,
}

/// The rows that importing a project creates.
pub struct ImportPlan {
    pub project: ImportedProject,
    pub servers: Vec<ServerRow>,
    pub databases: Vec<DatabaseRow>,
}

pub open spec fn db_row_view(r: DatabaseRow) -> (int, Option<Seq<char>>, ServerDatabase) {
    (r.server_row as int, opt_text(r.group_name), r.database)
}

pub open spec fn db_rows_view(v: Seq<DatabaseRow>) -> Seq<(int, Option<Seq<char>>, ServerDatabase)> {
    v.map_values(|r: DatabaseRow| db_row_view(r))
}

/// The rows of a list of databases, in a group, on the server row `row`.
pub open spec fn database_rows(ds: Seq<ServerDatabaseImportExport>, group: Option<Seq<char>>, row: int)
    -> Seq<(int, Option<Seq<char>>, ServerDatabase)>
{
    ds.map_values(|d: ServerDatabaseImportExport| (row, group, d.0))
}

/// The database rows of one group of a server's items, on the server row `row`.
pub open spec fn group_db_rows(g: ServerGroupImportExport, group: Option<Seq<char>>, row: int)
    -> Seq<(int, Option<Seq<char>>, ServerDatabase)>
{
    database_rows(g.server_databases@, group, row)
}

/// The database rows of the named groups of a server's items, group after group.
pub open spec fn named_groups_db_rows(gs: Seq<(String, ServerGroupImportExport)>, row: int)
    -> Seq<(int, Option<Seq<char>>, ServerDatabase)>
    decreases gs.len(),
{
    if gs.len() == 0 {
        Seq::empty()
    } else {
        named_groups_db_rows(gs.drop_last(), row) + group_db_rows(gs.last().1, Some(gs.last().0@), row)
    }
}

/// The database rows of a server: those outside any group, then those of its groups.
pub open spec fn server_db_rows(s: ServerWithItemsImportExport, row: int) -> Seq<(int, Option<Seq<char>>, ServerDatabase)> {
    group_db_rows(s.items, None, row) + named_groups_db_rows(s.items_in_groups@, row)
}

/// The database rows of a list of servers whose rows start at `first_row`.
pub open spec fn servers_db_rows(ss: Seq<ServerWithItemsImportExport>, first_row: int)
    -> Seq<(int, Option<Seq<char>>, ServerDatabase)>
    decreases ss.len(),
{
    if ss.len() == 0 {
        Seq::empty()
    } else {
        servers_db_rows(ss.drop_last(), first_row) + server_db_rows(ss.last(), first_row + ss.len() - 1)
    }
}

/// The servers of an environment that an import creates: those outside any group.
/// The grouped servers, server links, points of interest and notes of the
/// environment are not imported.
pub open spec fn env_servers(e: Option<ProjectEnvImportExport>) -> Seq<ServerWithItemsImportExport> {
    match e {
        Some(x) => x.items.servers@,
        None => Seq::empty(),
    }
}

pub open spec fn server_rows(env: EnvironmentType, ss: Seq<ServerWithItemsImportExport>) -> Seq<ServerRow> {
    ss.map_values(|s: ServerWithItemsImportExport| ServerRow { environment: env, server: s.server.server })
}

/// The server rows of an import: development, staging, uat, then production.
pub open spec fn planned_servers(p: ProjectImportExport) -> Seq<ServerRow> {
    server_rows(EnvironmentType::EnvDevelopment, env_servers(p.development_environment))
        + server_rows(EnvironmentType::EnvStage, env_servers(p.staging_environment))
        + server_rows(EnvironmentType::EnvUat, env_servers(p.uat_environment))
        + server_rows(EnvironmentType::EnvProd, env_servers(p.prod_environment))
}

/// The database rows of an import, server row after server row.
pub open spec fn planned_databases(p: ProjectImportExport) -> Seq<(int, Option<Seq<char>>, ServerDatabase)> {
    let d = env_servers(p.development_environment);
    let s = env_servers(p.staging_environment);
    let u = env_servers(p.uat_environment);
    let r = env_servers(p.prod_environment);
    servers_db_rows(d, 0) + servers_db_rows(s, d.len() as int) + servers_db_rows(u, (d.len() + s.len()) as int)
        + servers_db_rows(r, (d.len() + s.len() + u.len()) as int)
}

fn opt_clone(o: &Option<String>) -> (r: Option<String>)
    ensures
        opt_text(r) == opt_text(*o),
{
    match o {
        Some(t) => Some(t.clone()),
        None => None,
    }
}

fn take_group_databases(g: ServerGroupImportExport, group: &Option<String>, row: usize, out: &mut Vec<DatabaseRow>)
    ensures
        db_rows_view(final(out)@) == db_rows_view(old(out)@) + group_db_rows(g, opt_text(*group), row as int),
{
    let ghost start = out@;
    let ghost orig = g.server_databases@;
    let ghost grp = opt_text(*group);
    let mut dbs = g.server_databases;
    let total = dbs.len();
    let mut k: usize = 0;
    assert(db_rows_view(out@) =~= db_rows_view(start) + database_rows(orig.take(0), grp, row as int));
    while dbs.len() > 0
        invariant
            k <= orig.len(),
            orig.len() == total,
            grp == opt_text(*group),
            dbs@ == orig.skip(k as int),
            db_rows_view(out@) == db_rows_view(start) + database_rows(orig.take(k as int), grp, row as int),
        decreases dbs@.len(),
    {
        let d = dbs.remove(0);
        assert(d == orig[k as int]);
        let ghost before = out@;
        let new_row = DatabaseRow { server_row: row, group_name: opt_clone(group), database: d.0 };
        let ghost v = (row as int, grp, orig[k as int].0);
        assert(db_row_view(new_row) == v);
        out.push(new_row);
        proof {
            assert(db_rows_view(out@) =~= db_rows_view(before).push(v));
            assert(database_rows(orig.take(k + 1), grp, row as int) =~= database_rows(orig.take(k as int), grp, row as int).push(v));
            assert(dbs@ =~= orig.skip(k + 1));
        }
        k = k + 1;
    }
    assert(orig.take(k as int) =~= orig);
}

fn take_server(s: ServerWithItemsImportExport, row: usize, out: &mut Vec<DatabaseRow>) -> (r: Server)
    ensures
        r == s.server.server,
        db_rows_view(final(out)@) == db_rows_view(old(out)@) + server_db_rows(s, row as int),
{
    let ghost start = out@;
    let ghost orig = s.items_in_groups@;
    let ServerWithItemsImportExport { server, items, items_in_groups } = s;
    let ghost own = group_db_rows(items, None, row as int);
    take_group_databases(items, &None, row, out);
    let mut groups = items_in_groups;
    let total = groups.len();
    let mut k: usize = 0;
    while groups.len() > 0
        invariant
            k <= orig.len(),
            orig.len() == total,
            groups@ == orig.skip(k as int),
            db_rows_view(out@) == db_rows_view(start) + own + named_groups_db_rows(orig.take(k as int), row as int),
        decreases groups@.len(),
    {
        let (name, g) = groups.remove(0);
        assert((name, g) == orig[k as int]);
        let group = Some(name);
        take_group_databases(g, &group, row, out);
        proof {
            assert(orig.take(k + 1).drop_last() =~= orig.take(k as int));
            assert(orig.take(k + 1).last() == orig[k as int]);
            assert(groups@ =~= orig.skip(k + 1));
        }
        k = k + 1;
    }
    assert(orig.take(k as int) =~= orig);
    server.server
}

fn take_env(env: EnvironmentType, e: Option<ProjectEnvImportExport>, servers: &mut Vec<ServerRow>,
    dbs: &mut Vec<DatabaseRow>)
    ensures
        final(servers)@ == old(servers)@ + server_rows(env, env_servers(e)),
        db_rows_view(final(dbs)@) == db_rows_view(old(dbs)@) + servers_db_rows(env_servers(e), old(servers)@.len() as int),
{
    match e {
        None => {
            assert(servers@ =~= old(servers)@ + server_rows(env, Seq::empty()));
            assert(db_rows_view(dbs@) =~= db_rows_view(old(dbs)@) + Seq::empty());
        },
        Some(x) => {
            let ghost start_s = servers@;
            let ghost start_d = dbs@;
            let ghost orig = x.items.servers@;
            let mut ss = x.items.servers;
            let total = ss.len();
            let mut k: usize = 0;
            assert(server_rows(env, orig.take(0)) =~= Seq::empty());
            assert(servers@ =~= start_s + server_rows(env, orig.take(0)));
            assert(db_rows_view(dbs@) =~= db_rows_view(start_d) + servers_db_rows(orig.take(0), start_s.len() as int));
            while ss.len() > 0
                invariant
                    k <= orig.len(),
                    orig.len() == total,
                    ss@ == orig.skip(k as int),
                    servers@ == start_s + server_rows(env, orig.take(k as int)),
                    db_rows_view(dbs@) == db_rows_view(start_d) + servers_db_rows(orig.take(k as int), start_s.len() as int),
                decreases ss@.len(),
            {
                let s = ss.remove(0);
                assert(s == orig[k as int]);
                let row = servers.len();
                assert(row == start_s.len() + k);
                let srv = take_server(s, row, dbs);
                servers.push(ServerRow { environment: env, server: srv });
                proof {
                    let t = orig.take(k + 1);
                    assert(t.drop_last() =~= orig.take(k as int));
                    assert(t.last() == orig[k as int]);
                    assert(server_rows(env, t) =~= server_rows(env, orig.take(k as int)).push(
                        ServerRow { environment: env, server: orig[k as int].server.server }));
                    assert(servers@ =~= start_s + server_rows(env, t));
                    assert(ss@ =~= orig.skip(k + 1));
                }
                k = k + 1;
            }
            assert(orig.take(k as int) =~= orig);
        },
    }
}

/// Plans the import of an exported project: the project row, and the server and
/// database rows to create. The project has the environments that the file holds;
/// of each environment only the servers outside any group are imported, each with
/// the databases of its items, outside any group or in a named one. When
/// `name_taken` (the database already holds a project of that name), the import is
/// refused.
pub fn import_plan(p: ProjectImportExport, name_taken: bool) -> (r: Result<ImportPlan, ImportRefusal>)
    ensures
        r is Err <==> name_taken,
        r matches Err(e) ==> e == ImportRefusal::ProjectExists,
        r matches Ok(plan) ==> {
            &&& plan.project.name == p.project_name
            &&& plan.project.has_dev == p.development_environment is Some
            &&& plan.project.has_stage == p.staging_environment is Some
            &&& plan.project.has_uat == p.uat_environment is Some
            &&& plan.project.has_prod == p.prod_environment is Some
            &&& plan.servers@ == planned_servers(p)
            &&& db_rows_view(plan.databases@) == planned_databases(p)
        },
{
    if name_taken {
        return Err(ImportRefusal::ProjectExists);
    }
    let ghost p0 = p;
    let ProjectImportExport { project_name, development_environment, staging_environment, uat_environment,
        prod_environment } = p;
    let project = ImportedProject {
        name: project_name,
        has_dev: development_environment.is_some(),
        has_stage: staging_environment.is_some(),
        has_uat: uat_environment.is_some(),
        has_prod: prod_environment.is_some(),
    };
    let mut servers: Vec<ServerRow> = Vec::new();
    let mut databases: Vec<DatabaseRow> = Vec::new();
    assert(db_rows_view(databases@) =~= Seq::empty());
    take_env(EnvironmentType::EnvDevelopment, development_environment, &mut servers, &mut databases);
    take_env(EnvironmentType::EnvStage, staging_environment, &mut servers, &mut databases);
    take_env(EnvironmentType::EnvUat, uat_environment, &mut servers, &mut databases);
    take_env(EnvironmentType::EnvProd, prod_environment, &mut servers, &mut databases);
    proof {
        assert(servers@ =~= planned_servers(p0));
        assert(db_rows_view(databases@) =~= planned_databases(p0));
    }
    Ok(ImportPlan { project, servers, databases })
}

} // verus!
