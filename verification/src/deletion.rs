use vstd::prelude::*;
use crate::chars::{join_with, join_lines, line_views, push_all};
use crate::models::{Server, ServerDatabase, ServerLink, ServerWebsite};
use crate::text::{chars_of, string_of_chars};

verus! {

/// Why a deletion is refused: a title, and what depends on the item.
pub type DeletionRefusal = (&'static str, Option<String>);

pub open spec fn refusal_view(r: Result<(), DeletionRefusal>) -> Option<(Seq<char>, Seq<char>)> {
    match r {
        Ok(_) => None,
        Err((t, Some(d))) => Some((t@, d@)),
        Err((t, None)) => Some((t@, Seq::empty())),
    }
}

/// The texts joined with ", ".
pub open spec fn comma_list(texts: Seq<Seq<char>>) -> Seq<char> {
    join_with(texts, ", "@)
}

fn comma_joined(texts: &Vec<Vec<char>>) -> (r: Vec<char>)
    ensures
        r@ == comma_list(line_views(texts@)),
{
    let sep = chars_of(", ");
    join_lines(texts, &sep)
}

fn concat4(a: &str, b: &Vec<char>, c: &str, d: &Vec<char>) -> (r: String)
    ensures
        r@ == a@ + b@ + c@ + d@,
{
    let mut v = chars_of(a);
    push_all(&mut v, b);
    let cv = chars_of(c);
    push_all(&mut v, &cv);
    push_all(&mut v, d);
    string_of_chars(&v)
}

/// The descriptions of the servers of links and servers.
pub open spec fn link_server_descs(l: Seq<(ServerLink, Server)>) -> Seq<Seq<char>> {
    Seq::new(l.len(), |i: int| l[i].1.desc@)
}

/// The descriptions of the links of links and servers.
pub open spec fn link_descs(l: Seq<(ServerLink, Server)>) -> Seq<Seq<char>> {
    Seq::new(l.len(), |i: int| l[i].0.desc@)
}

/// The position of the first database with the given id.
pub open spec fn db_position(dbs: Seq<ServerDatabase>, id: Option<i32>) -> Option<int>
    decreases dbs.len(),
{
    if dbs.len() == 0 {
        None
    } else {
        match db_position(dbs.drop_last(), id) {
            Some(i) => Some(i),
            None => if Some(dbs.last().id) == id { Some(dbs.len() - 1) } else { None },
        }
    }
}

/// Whether the database of each website is among the databases.
pub open spec fn websites_dbs_known(dbs: Seq<ServerDatabase>, websites: Seq<ServerWebsite>) -> bool {
    forall|i: int| 0 <= i < websites.len() ==> (#[trigger] db_position(dbs, websites[i].server_database_id)) is Some
}

/// The descriptions of the databases that the websites use.
pub open spec fn website_db_descs(dbs: Seq<ServerDatabase>, websites: Seq<ServerWebsite>) -> Seq<Seq<char>> {
    Seq::new(websites.len(), |i: int| dbs[db_position(dbs, websites[i].server_database_id)->0].desc@)
}

pub open spec fn website_descs(websites: Seq<ServerWebsite>) -> Seq<Seq<char>> {
    Seq::new(websites.len(), |i: int| websites[i].desc@)
}

/// Whether a project can be deleted: not while a server of it is linked to from
/// another project (`dependent_serverlinks`, with the servers they link to), nor
/// while a database of it (among `contained_dbs`) is used by a website of another
/// project (`dependent_websites`); the refusal names them.
pub open spec fn project_deletion(
    links: Seq<(ServerLink, Server)>,
    dbs: Seq<ServerDatabase>,
    websites: Seq<ServerWebsite>,
) -> Option<(Seq<char>, Seq<char>)> {
    if links.len() != 0 {
        Some((
            "Cannot delete project"@,
            "servers "@ + comma_list(link_server_descs(links)) + " on that server are linked to by servers "@
                + comma_list(link_descs(links)),
        ))
    } else if websites.len() != 0 {
        Some((
            "Cannot delete project"@,
            "databases "@ + comma_list(website_db_descs(dbs, websites)) + " on that server are linked to by websites "@
                + comma_list(website_descs(websites)),
        ))
    } else {
        None
    }
}

fn db_position_of(dbs: &Vec<ServerDatabase>, id: Option<i32>) -> (r: Option<usize>)
    ensures
        match r {
            Some(i) => i < dbs@.len() && db_position(dbs@, id) == Some(i as int),
            None => db_position(dbs@, id) is None,
        },
{
    let mut i: usize = 0;
    while i < dbs.len()
        invariant
            i <= dbs@.len(),
            db_position(dbs@.take(i as int), id) is None,
        decreases dbs@.len() - i,
    {
        let ghost t = dbs@.take(i + 1);
        assert(t.drop_last() =~= dbs@.take(i as int));
        assert(t.last() == dbs@[i as int]);
        if Some(dbs[i].id) == id {
            proof {
                assert(db_position(t, id) == Some(i as int));
                lemma_db_position_prefix(dbs@, i as int + 1, id);
            }
            return Some(i);
        }
        i = i + 1;
    }
    assert(dbs@.take(dbs@.len() as int) =~= dbs@);
    None
}

proof fn lemma_db_position_prefix(dbs: Seq<ServerDatabase>, n: int, id: Option<i32>)
    requires
        0 <= n <= dbs.len(),
        db_position(dbs.take(n), id) is Some,
    ensures
        db_position(dbs, id) == db_position(dbs.take(n), id),
    decreases dbs.len() - n,
{
    if n < dbs.len() {
        assert(dbs.take(n + 1).drop_last() =~= dbs.take(n));
        lemma_db_position_prefix(dbs, n + 1, id);
    } else {
        assert(dbs.take(n) =~= dbs);
    }
}

/// Whether a project can be deleted, given what depends on it (see
/// `project_deletion`). The database of each dependent website is among the
/// project's databases.
pub fn project_deletion_check(
    dependent_serverlinks: &Vec<(ServerLink, Server)>,
    contained_dbs: &Vec<ServerDatabase>,
    dependent_websites: &Vec<ServerWebsite>,
) -> (r: Result<(), DeletionRefusal>)
    requires
        websites_dbs_known(contained_dbs@, dependent_websites@),
    ensures
        refusal_view(r) == project_deletion(dependent_serverlinks@, contained_dbs@, dependent_websites@),
        r matches Err((_, d)) ==> d is Some,
{
    if dependent_serverlinks.len() > 0 {
        let mut servers: Vec<Vec<char>> = Vec::new();
        let mut links: Vec<Vec<char>> = Vec::new();
        let mut i: usize = 0;
        while i < dependent_serverlinks.len()
            invariant
                i <= dependent_serverlinks@.len(),
                servers@.len() == i,
                forall|j: int| 0 <= j < i ==> #[trigger] servers@[j]@ == link_server_descs(dependent_serverlinks@)[j],
                links@.len() == i,
                forall|j: int| 0 <= j < i ==> #[trigger] links@[j]@ == link_descs(dependent_serverlinks@)[j],
            decreases dependent_serverlinks@.len() - i,
        {
            servers.push(chars_of(dependent_serverlinks[i].1.desc.as_str()));
            links.push(chars_of(dependent_serverlinks[i].0.desc.as_str()));
            i = i + 1;
        }
        assert(line_views(servers@) =~= link_server_descs(dependent_serverlinks@));
        assert(line_views(links@) =~= link_descs(dependent_serverlinks@));
        let a = comma_joined(&servers);
        let b = comma_joined(&links);
        Err(("Cannot delete project", Some(concat4("servers ", &a, " on that server are linked to by servers ", &b))))
    } else if dependent_websites.len() > 0 {
        let mut dbs: Vec<Vec<char>> = Vec::new();
        let mut sites: Vec<Vec<char>> = Vec::new();
        let mut i: usize = 0;
        while i < dependent_websites.len()
            invariant
                i <= dependent_websites@.len(),
                websites_dbs_known(contained_dbs@, dependent_websites@),
                dbs@.len() == i,
                forall|j: int| 0 <= j < i ==> #[trigger] dbs@[j]@ == website_db_descs(contained_dbs@, dependent_websites@)[j],
                sites@.len() == i,
                forall|j: int| 0 <= j < i ==> #[trigger] sites@[j]@ == website_descs(dependent_websites@)[j],
            decreases dependent_websites@.len() - i,
        {
            assert(db_position(contained_dbs@, dependent_websites@[i as int].server_database_id) is Some);
            let k = db_position_of(contained_dbs, dependent_websites[i].server_database_id).unwrap();
            dbs.push(chars_of(contained_dbs[k].desc.as_str()));
            sites.push(chars_of(dependent_websites[i].desc.as_str()));
            i = i + 1;
        }
        assert(line_views(dbs@) =~= website_db_descs(contained_dbs@, dependent_websites@));
        assert(line_views(sites@) =~= website_descs(dependent_websites@));
        let a = comma_joined(&dbs);
        let b = comma_joined(&sites);
        Err(("Cannot delete project", Some(concat4("databases ", &a, " on that server are linked to by websites ", &b))))
    } else {
        Ok(())
    }
}

pub open spec fn used_db_names(w: Seq<(ServerWebsite, ServerDatabase)>) -> Seq<Seq<char>> {
    Seq::new(w.len(), |i: int| w[i].1.name@)
}

pub open spec fn using_website_descs(w: Seq<(ServerWebsite, ServerDatabase)>) -> Seq<Seq<char>> {
    Seq::new(w.len(), |i: int| w[i].0.desc@)
}

pub open spec fn server_link_descs(l: Seq<ServerLink>) -> Seq<Seq<char>> {
    Seq::new(l.len(), |i: int| l[i].desc@)
}

/// Whether a server can be deleted: not while a database on it is used by a
/// website (`dependent_websites`, with the databases they use), nor while a server
/// link points to it (`dependent_serverlinks`); the refusal names them.
pub open spec fn server_deletion(
    websites: Seq<(ServerWebsite, ServerDatabase)>,
    links: Seq<ServerLink>,
) -> Option<(Seq<char>, Seq<char>)> {
    if websites.len() != 0 {
        Some((
            "Cannot delete server"@,
            "databases "@ + comma_list(used_db_names(websites)) + " on that server are used by websites "@
                + comma_list(using_website_descs(websites)),
        ))
    } else if links.len() != 0 {
        Some(("Cannot delete server"@, "server links "@ + comma_list(server_link_descs(links)) + " are tied to this server"@))
    } else {
        None
    }
}

/// Whether a server can be deleted, given what depends on it (see
/// `server_deletion`).
pub fn server_deletion_check(
    dependent_websites: &Vec<(ServerWebsite, ServerDatabase)>,
    dependent_serverlinks: &Vec<ServerLink>,
) -> (r: Result<(), DeletionRefusal>)
    ensures
        refusal_view(r) == server_deletion(dependent_websites@, dependent_serverlinks@),
        r matches Err((_, d)) ==> d is Some,
{
    if dependent_websites.len() > 0 {
        let mut names: Vec<Vec<char>> = Vec::new();
        let mut sites: Vec<Vec<char>> = Vec::new();
        let mut i: usize = 0;
        while i < dependent_websites.len()
            invariant
                i <= dependent_websites@.len(),
                names@.len() == i,
                forall|j: int| 0 <= j < i ==> #[trigger] names@[j]@ == used_db_names(dependent_websites@)[j],
                sites@.len() == i,
                forall|j: int| 0 <= j < i ==> #[trigger] sites@[j]@ == using_website_descs(dependent_websites@)[j],
            decreases dependent_websites@.len() - i,
        {
            names.push(chars_of(dependent_websites[i].1.name.as_str()));
            sites.push(chars_of(dependent_websites[i].0.desc.as_str()));
            i = i + 1;
        }
        assert(line_views(names@) =~= used_db_names(dependent_websites@));
        assert(line_views(sites@) =~= using_website_descs(dependent_websites@));
        let a = comma_joined(&names);
        let b = comma_joined(&sites);
        Err(("Cannot delete server", Some(concat4("databases ", &a, " on that server are used by websites ", &b))))
    } else if dependent_serverlinks.len() > 0 {
        let mut links: Vec<Vec<char>> = Vec::new();
        let mut i: usize = 0;
        while i < dependent_serverlinks.len()
            invariant
                i <= dependent_serverlinks@.len(),
                links@.len() == i,
                forall|j: int| 0 <= j < i ==> #[trigger] links@[j]@ == server_link_descs(dependent_serverlinks@)[j],
            decreases dependent_serverlinks@.len() - i,
        {
            links.push(chars_of(dependent_serverlinks[i].desc.as_str()));
            i = i + 1;
        }
        assert(line_views(links@) =~= server_link_descs(dependent_serverlinks@));
        let a = comma_joined(&links);
        let mut v = chars_of("server links ");
        push_all(&mut v, &a);
        let tail = chars_of(" are tied to this server");
        push_all(&mut v, &tail);
        Err(("Cannot delete server", Some(string_of_chars(&v))))
    } else {
        Ok(())
    }
}

/// The confirmation asked before deleting an item: a title naming the kind of
/// item, and a question naming the item.
pub open spec fn deletion_confirmation(kind: Seq<char>, name: Seq<char>) -> (Seq<char>, Seq<char>) {
    (
        "Delete "@ + kind,
        "Are you sure you want to delete the "@ + kind + " "@ + name + "? This action cannot be undone."@,
    )
}

/// The confirmation asked before deleting an item of a project (see
/// `deletion_confirmation`).
pub fn item_deletion_confirmation(item_type_desc: &str, item_desc: &str) -> (r: (String, String))
    ensures
        (r.0@, r.1@) == deletion_confirmation(item_type_desc@, item_desc@),
{
    let kind = chars_of(item_type_desc);
    let name = chars_of(item_desc);
    let mut title = chars_of("Delete ");
    push_all(&mut title, &kind);
    let mut question = chars_of("Are you sure you want to delete the ");
    push_all(&mut question, &kind);
    let space = chars_of(" ");
    push_all(&mut question, &space);
    push_all(&mut question, &name);
    let end = chars_of("? This action cannot be undone.");
    push_all(&mut question, &end);
    (string_of_chars(&title), string_of_chars(&question))
}

/// The confirmation asked before deleting a project: a title and a question
/// naming the project.
pub fn project_deletion_confirmation(name: &str) -> (r: (String, String))
    ensures
        r.0@ == "Delete "@ + name@,
        r.1@ == "Are you sure you want to delete the project "@ + name@ + "? This action cannot be undone."@,
{
    let n = chars_of(name);
    let mut title = chars_of("Delete ");
    push_all(&mut title, &n);
    let mut question = chars_of("Are you sure you want to delete the project ");
    push_all(&mut question, &n);
    let end = chars_of("? This action cannot be undone.");
    push_all(&mut question, &end);
    (string_of_chars(&title), string_of_chars(&question))
}

} // verus!
