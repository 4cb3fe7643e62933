use vstd::prelude::*;
use crate::chars::{matches_at, contains_seq, first_occurrence, lemma_first_occurrence, split_str, replace_str, join_with, line_views, chars_match_at, chars_contain,
    split_chars, replace_chars, join_lines, push_all, subvec};
use crate::models::{Project, ProjectNote, ProjectPointOfInterest, Server, ServerDatabase, ServerExtraUserAccount,
    ServerLink, ServerNote, ServerPointOfInterest, ServerWebsite};
use crate::text::{chars_of, string_of_chars};

verus! {

/// The prefix that marks a word of a search as a filter on the project's name.
pub const PROJECT_FILTER_PREFIX: &'static str = "prj:";

/// What a search looks for: a pattern for SQL `LIKE` over the items, and
/// optionally a text that the project names must contain.
#[derive(PartialEq, Eq, Debug)]
pub struct SearchSpec {
    pub search_pattern: String,
    pub project_pattern: Option<String>,
}

/// The lower-case form of a text, as std's `str::to_lowercase` gives it (Unicode's
/// lower-case mapping).
pub uninterp spec fn lowercase(s: Seq<char>) -> Seq<char>;

/// Lower-cases a text with std's `str::to_lowercase`. The contract claims only that
/// the result is that function of the text: Unicode's case mapping is not stated.
#[verifier::external_body]
fn to_lowercase(s: &str) -> (r: String)
    ensures
        r@ == lowercase(s@),
{
    s.to_lowercase()
}

/// A text as a pattern for SQL `LIKE ... ESCAPE '\'`: its `%` escaped, and a `%`
/// on each side.
pub open spec fn like_pattern(t: Seq<char>) -> Seq<char> {
    "%"@ + replace_str(t, "%"@, "\\%"@) + "%"@
}

pub open spec fn is_project_word(w: Seq<char>) -> bool {
    matches_at(w, 0, "prj:"@)
}

/// The words that filter on the project.
pub open spec fn project_words(ws: Seq<Seq<char>>) -> Seq<Seq<char>>
    decreases ws.len(),
{
    if ws.len() == 0 {
        Seq::empty()
    } else if is_project_word(ws.last()) {
        project_words(ws.drop_last()).push(ws.last())
    } else {
        project_words(ws.drop_last())
    }
}

/// The other words.
pub open spec fn other_words(ws: Seq<Seq<char>>) -> Seq<Seq<char>>
    decreases ws.len(),
{
    if ws.len() == 0 {
        Seq::empty()
    } else if is_project_word(ws.last()) {
        other_words(ws.drop_last())
    } else {
        other_words(ws.drop_last()).push(ws.last())
    }
}

/// Whether the search holds a word that filters on the project.
pub open spec fn has_project_filter(s: Seq<char>) -> bool {
    matches_at(s, 0, "prj:"@) || contains_seq(s, " prj:"@)
}

/// The pattern of a search.
pub open spec fn search_pattern_of(s: Seq<char>) -> Seq<char> {
    if has_project_filter(s) {
        like_pattern(join_with(other_words(split_str(s, " "@)), " "@))
    } else {
        like_pattern(s)
    }
}

/// The project text of a search, before it is lower-cased: what follows `prj:`
/// in the first word that starts with it.
pub open spec fn project_filter_of(s: Seq<char>) -> Option<Seq<char>> {
    if has_project_filter(s) {
        let pw = project_words(split_str(s, " "@));
        if pw.len() > 0 {
            Some(pw[0].subrange(4, pw[0].len() as int))
        } else {
            None
        }
    } else {
        None
    }
}

fn partition_words(words: &Vec<Vec<char>>) -> (r: (Vec<Vec<char>>, Vec<Vec<char>>))
    ensures
        line_views(r.0@) == project_words(line_views(words@)),
        line_views(r.1@) == other_words(line_views(words@)),
{
    let prefix = chars_of("prj:");
    let mut prj: Vec<Vec<char>> = Vec::new();
    let mut rest: Vec<Vec<char>> = Vec::new();
    let mut i: usize = 0;
    while i < words.len()
        invariant
            i <= words@.len(),
            prefix@ == "prj:"@,
            line_views(prj@) == project_words(line_views(words@).take(i as int)),
            line_views(rest@) == other_words(line_views(words@).take(i as int)),
        decreases words@.len() - i,
    {
        let ghost ws = line_views(words@);
        assert(ws.take(i + 1).drop_last() =~= ws.take(i as int));
        assert(ws.take(i + 1).last() == words@[i as int]@);
        let ghost p0 = prj@;
        let ghost r0 = rest@;
        let w = subvec(&words[i], 0, words[i].len());
        assert(w@ =~= words@[i as int]@);
        if chars_match_at(&words[i], 0, &prefix) {
            prj.push(w);
            assert(line_views(prj@) =~= line_views(p0).push(w@));
        } else {
            rest.push(w);
            assert(line_views(rest@) =~= line_views(r0).push(w@));
        }
        i = i + 1;
    }
    assert(line_views(words@).take(words@.len() as int) =~= line_views(words@));
    (prj, rest)
}

fn like_pattern_of(t: &Vec<char>) -> (r: String)
    ensures
        r@ == like_pattern(t@),
{
    let pct = chars_of("%");
    let esc = chars_of("\\%");
    proof {
        reveal_strlit("%");
    }
    let escaped = replace_chars(t, &pct, &esc);
    let mut out = chars_of("%");
    push_all(&mut out, &escaped);
    push_all(&mut out, &pct);
    string_of_chars(&out)
}

/// Parses a search: the words that start with `prj:` filter on the project's name
/// (the first of them, lower-cased, gives the text), and the other words, joined
/// again with spaces, make the pattern.
pub fn search_parse(search: &str) -> (r: SearchSpec)
    ensures
        r.search_pattern@ == search_pattern_of(search@),
        r.project_pattern matches Some(p) ==> project_filter_of(search@) matches Some(f) && p@ == lowercase(f),
        r.project_pattern is None ==> project_filter_of(search@) is None,
        r.project_pattern is Some <==> has_project_filter(search@),
{
    proof {
        law_project_filter_present(search@);
    }
    let s = chars_of(search);
    let prefix = chars_of("prj:");
    let spaced = chars_of(" prj:");
    if chars_match_at(&s, 0, &prefix) || chars_contain(&s, &spaced) {
        let space = chars_of(" ");
        proof {
            reveal_strlit(" ");
        }
        let words = split_chars(&s, &space);
        let (prj, rest) = partition_words(&words);
        let joined = join_lines(&rest, &space);
        let project_pattern = if prj.len() > 0 {
            proof {
                reveal_strlit("prj:");
            }
            let first = &prj[0];
            assert(matches_at(line_views(prj@)[0], 0, "prj:"@)) by {
                lemma_project_words_marked(line_views(words@));
            }
            let tail = subvec(first, 4, first.len());
            let tail_str = string_of_chars(&tail);
            Some(to_lowercase(tail_str.as_str()))
        } else {
            None
        };
        SearchSpec { search_pattern: like_pattern_of(&joined), project_pattern }
    } else {
        SearchSpec { search_pattern: like_pattern_of(&s), project_pattern: None }
    }
}

proof fn lemma_project_words_marked(ws: Seq<Seq<char>>)
    ensures
        forall|i: int| 0 <= i < project_words(ws).len() ==> is_project_word(#[trigger] project_words(ws)[i]),
    decreases ws.len(),
{
    if ws.len() > 0 {
        lemma_project_words_marked(ws.drop_last());
        let prev = project_words(ws.drop_last());
        assert forall|i: int| 0 <= i < project_words(ws).len() implies is_project_word(#[trigger] project_words(ws)[i]) by {
            if i < prev.len() {
                assert(project_words(ws)[i] == prev[i]);
            }
        }
    }
}

proof fn lemma_has_project_word(ws: Seq<Seq<char>>, j: int)
    requires
        0 <= j < ws.len(),
        is_project_word(ws[j]),
    ensures
        project_words(ws).len() > 0,
    decreases ws.len(),
{
    if j < ws.len() - 1 {
        assert(ws.drop_last()[j] == ws[j]);
        lemma_has_project_word(ws.drop_last(), j);
    }
}

/// Some word of a search split at its spaces starts with `prj:`, when the search
/// starts with it or holds ` prj:`.
proof fn lemma_split_has_project_word(s: Seq<char>)
    requires
        has_project_filter(s),
    ensures
        exists|j: int| 0 <= j < split_str(s, " "@).len() && is_project_word(#[trigger] split_str(s, " "@)[j]),
    decreases s.len(),
{
    reveal_strlit(" ");
    reveal_strlit("prj:");
    reveal_strlit(" prj:");
    let sp = " "@;
    lemma_first_occurrence(s, sp);
    match first_occurrence(s, sp) {
        None => {
            if !matches_at(s, 0, "prj:"@) {
                let i = choose|i: int| 0 <= i <= s.len() - " prj:"@.len() && #[trigger] matches_at(s, i, " prj:"@);
                assert(s.subrange(i, i + 1) =~= s.subrange(i, i + 5).subrange(0, 1));
                assert(" prj:"@.subrange(0, 1) =~= sp);
                assert(matches_at(s, i, sp));
            }
            assert(split_str(s, sp) == seq![s]);
            assert(is_project_word(split_str(s, sp)[0]));
        },
        Some(k) => {
            let first = s.subrange(0, k);
            let rest = s.subrange(k + 1, s.len() as int);
            assert(split_str(s, sp) == seq![first] + split_str(rest, sp));
            if matches_at(s, 0, "prj:"@) {
                assert forall|j: int| 0 <= j < 4 implies !matches_at(s, j, sp) by {
                    assert(s[j] == s.subrange(0, 4)[j]);
                    assert(s.subrange(j, j + 1)[0] == s[j]);
                }
                assert(k >= 4);
                assert(first.subrange(0, 4) =~= s.subrange(0, 4));
                assert(is_project_word(split_str(s, sp)[0]));
            } else {
                let i = choose|i: int| 0 <= i <= s.len() - " prj:"@.len() && #[trigger] matches_at(s, i, " prj:"@);
                assert(s.subrange(i, i + 1) =~= s.subrange(i, i + 5).subrange(0, 1));
                assert(" prj:"@.subrange(0, 1) =~= sp);
                assert(matches_at(s, i, sp));
                assert(k <= i);
                if i == k {
                    assert(rest.subrange(0, 4) =~= s.subrange(i + 1, i + 5));
                    assert(s.subrange(i + 1, i + 5) =~= s.subrange(i, i + 5).subrange(1, 5));
                    assert(" prj:"@.subrange(1, 5) =~= "prj:"@);
                    assert(matches_at(rest, 0, "prj:"@));
                } else {
                    assert(rest.subrange(i - k - 1, i - k + 4) =~= s.subrange(i, i + 5));
                    assert(matches_at(rest, i - k - 1, " prj:"@));
                }
                lemma_split_has_project_word(rest);
                let j = choose|j: int| 0 <= j < split_str(rest, sp).len() && is_project_word(#[trigger] split_str(rest, sp)[j]);
                assert(split_str(s, sp)[j + 1] == split_str(rest, sp)[j]);
            }
        },
    }
}

/// A search filters on a project exactly when it starts with `prj:` or holds a
/// word that does (` prj:`).
pub proof fn law_project_filter_present(s: Seq<char>)
    ensures
        project_filter_of(s) is Some <==> has_project_filter(s),
{
    if has_project_filter(s) {
        lemma_split_has_project_word(s);
        let j = choose|j: int| 0 <= j < split_str(s, " "@).len() && is_project_word(#[trigger] split_str(s, " "@)[j]);
        lemma_has_project_word(split_str(s, " "@), j);
    }
}

/// What a search found: the items that match it, the servers and projects that
/// hold them, and whether the view should scroll back to the top.
pub struct SearchResult {
    pub projects: Vec<Project>,
    pub project_notes: Vec<ProjectNote>,
    pub project_pois: Vec<ProjectPointOfInterest>,
    pub server_links: Vec<ServerLink>,
    pub servers: Vec<Server>,
    pub server_databases: Vec<ServerDatabase>,
    pub server_extra_users: Vec<ServerExtraUserAccount>,
    pub server_notes: Vec<ServerNote>,
    pub server_pois: Vec<ServerPointOfInterest>,
    pub server_websites: Vec<ServerWebsite>,
    pub reset_scroll: bool,
}

/// Which kinds of items a search looks at.
#[derive(PartialEq, Eq, Structural, Debug, Clone, Copy)]
pub enum SearchItemsType {
    All,
    ServerDbsOnly,
    ServersOnly,
}

/// Which kinds of items a search queries: servers, server databases, and all
/// the other kinds (projects, their points of interest and notes, server notes,
/// links, points of interest, extra users and websites).
#[derive(PartialEq, Eq, Structural, Debug, Clone, Copy)]
pub struct SearchPlan {
    pub servers: bool,
    pub server_databases: bool,
    pub other_items: bool,
}

/// The kinds of items that a search of the given type queries.
pub fn search_plan(search_item_types: SearchItemsType) -> (r: SearchPlan)
    ensures
        r.servers == (search_item_types == SearchItemsType::ServersOnly || search_item_types == SearchItemsType::All),
        r.server_databases == (search_item_types == SearchItemsType::ServerDbsOnly || search_item_types == SearchItemsType::All),
        r.other_items == (search_item_types == SearchItemsType::All),
{
    SearchPlan {
        servers: search_item_types == SearchItemsType::ServersOnly || search_item_types == SearchItemsType::All,
        server_databases: search_item_types == SearchItemsType::ServerDbsOnly || search_item_types == SearchItemsType::All,
        other_items: search_item_types == SearchItemsType::All,
    }
}

/// The items that a search found directly, each by the ids that lead up to
/// their server and their project.
pub struct SearchLeaves {
    /// The ids of the servers found.
    pub server_ids: Vec<i32>,
    /// The servers of the websites found.
    pub website_server_ids: Vec<i32>,
    /// The servers of the server notes found.
    pub note_server_ids: Vec<i32>,
    /// The servers that the server links found point to.
    pub link_linked_server_ids: Vec<i32>,
    /// The servers of the extra users found.
    pub extra_user_server_ids: Vec<i32>,
    /// The servers of the server points of interest found.
    pub poi_server_ids: Vec<i32>,
    /// The servers of the databases found.
    pub database_server_ids: Vec<i32>,
    /// The ids of the projects found.
    pub project_ids: Vec<i32>,
    /// The projects of the project points of interest found.
    pub project_poi_project_ids: Vec<i32>,
    /// The projects of the project notes found.
    pub project_note_project_ids: Vec<i32>,
    /// The projects of the server links found.
    pub link_project_ids: Vec<i32>,
}

/// The ids that a list holds.
pub open spec fn id_set(v: Seq<i32>) -> Set<i32> {
    Set::new(|x: i32| v.contains(x))
}

/// No id occurs twice in a list.
pub open spec fn ids_distinct(v: Seq<i32>) -> bool {
    forall|i: int, j: int| 0 <= i < j < v.len() ==> v[i] != v[j]
}

/// The servers that a search shows: those found, and those of every item found
/// on a server.
pub open spec fn search_server_ids(l: SearchLeaves) -> Set<i32> {
    id_set(l.server_ids@) + id_set(l.website_server_ids@) + id_set(l.note_server_ids@)
        + id_set(l.link_linked_server_ids@) + id_set(l.extra_user_server_ids@) + id_set(l.poi_server_ids@)
        + id_set(l.database_server_ids@)
}

/// The projects that a search shows: those of the servers that it shows, those
/// found, and those of every item found in a project.
pub open spec fn search_project_ids(l: SearchLeaves, server_project_ids: Seq<i32>) -> Set<i32> {
    id_set(server_project_ids) + id_set(l.project_ids@) + id_set(l.project_poi_project_ids@)
        + id_set(l.project_note_project_ids@) + id_set(l.link_project_ids@)
}

fn extend_ids(ids: &mut Vec<i32>, other: &Vec<i32>)
    requires
        ids_distinct(old(ids)@),
    ensures
        ids_distinct(final(ids)@),
        id_set(final(ids)@) == id_set(old(ids)@) + id_set(other@),
{
    let mut i: usize = 0;
    while i < other.len()
        invariant
            i <= other@.len(),
            ids_distinct(ids@),
            id_set(ids@) == id_set(old(ids)@) + id_set(other@.take(i as int)),
        decreases other@.len() - i,
    {
        let x = other[i];
        let mut found = false;
        let mut j: usize = 0;
        while j < ids.len()
            invariant
                j <= ids@.len(),
                found <==> exists|k: int| 0 <= k < j && ids@[k] == x,
            decreases ids@.len() - j,
        {
            if ids[j] == x {
                found = true;
            }
            j = j + 1;
        }
        let ghost before = ids@;
        if !found {
            ids.push(x);
            assert(ids@ =~= before.push(x));
        }
        assert(other@.take(i + 1) =~= other@.take(i as int).push(x));
        assert(id_set(ids@) =~= id_set(before).insert(x)) by {
            if found {
                let k = choose|k: int| 0 <= k < before.len() && before[k] == x;
                assert(before.contains(x));
            }
            assert forall|y: i32| id_set(ids@).contains(y) implies id_set(before).insert(y).contains(y) && (y == x || id_set(before).contains(y)) by {
                if !found {
                    let k = choose|k: int| 0 <= k < ids@.len() && ids@[k] == y;
                    if k < before.len() {
                        assert(before[k] == y);
                    }
                }
            }
            assert forall|y: i32| id_set(before).contains(y) implies id_set(ids@).contains(y) by {
                let k = choose|k: int| 0 <= k < before.len() && before[k] == y;
                assert(ids@[k] == y);
            }
            if !found {
                assert(ids@[ids@.len() - 1] == x);
            }
        }
        assert(id_set(other@.take(i + 1)) =~= id_set(other@.take(i as int)).insert(x)) by {
            let t1 = other@.take(i + 1);
            let t0 = other@.take(i as int);
            assert forall|y: i32| id_set(t1).contains(y) implies id_set(t0).insert(x).contains(y) by {
                let k = choose|k: int| 0 <= k < t1.len() && t1[k] == y;
                if k < t0.len() {
                    assert(t0[k] == y);
                }
            }
            assert forall|y: i32| id_set(t0).contains(y) implies id_set(t1).contains(y) by {
                let k = choose|k: int| 0 <= k < t0.len() && t0[k] == y;
                assert(t1[k] == y);
            }
            assert(t1[i as int] == x);
        }
        i = i + 1;
    }
    assert(other@.take(other@.len() as int) =~= other@);
}

/// The servers to load for a search, each once: those found, and those of the
/// websites, server notes, server links, extra users, points of interest and
/// databases found (what is found bubbles up to its server).
pub fn server_ids_to_load(leaves: &SearchLeaves) -> (r: Vec<i32>)
    ensures
        ids_distinct(r@),
        id_set(r@) == search_server_ids(*leaves),
{
    let mut ids: Vec<i32> = Vec::new();
    assert(id_set(ids@) =~= Set::<i32>::empty());
    extend_ids(&mut ids, &leaves.server_ids);
    extend_ids(&mut ids, &leaves.website_server_ids);
    extend_ids(&mut ids, &leaves.note_server_ids);
    extend_ids(&mut ids, &leaves.link_linked_server_ids);
    extend_ids(&mut ids, &leaves.extra_user_server_ids);
    extend_ids(&mut ids, &leaves.poi_server_ids);
    extend_ids(&mut ids, &leaves.database_server_ids);
    assert(id_set(ids@) =~= search_server_ids(*leaves));
    ids
}

/// The projects to load for a search, each once: those of the servers loaded
/// (given by `server_project_ids`), those found, and those of the project points
/// of interest, project notes and server links found.
pub fn project_ids_to_load(leaves: &SearchLeaves, server_project_ids: &Vec<i32>) -> (r: Vec<i32>)
    ensures
        ids_distinct(r@),
        id_set(r@) == search_project_ids(*leaves, server_project_ids@),
{
    let mut ids: Vec<i32> = Vec::new();
    assert(id_set(ids@) =~= Set::<i32>::empty());
    extend_ids(&mut ids, server_project_ids);
    extend_ids(&mut ids, &leaves.project_ids);
    extend_ids(&mut ids, &leaves.project_poi_project_ids);
    extend_ids(&mut ids, &leaves.project_note_project_ids);
    extend_ids(&mut ids, &leaves.link_project_ids);
    assert(id_set(ids@) =~= search_project_ids(*leaves, server_project_ids@));
    ids
}

/// Whether a project's name passes a search's project filter: with no filter
/// every name does, else its lower-cased form must contain the filter text.
pub open spec fn project_name_passes(name: Seq<char>, project_pattern: Option<Seq<char>>) -> bool {
    match project_pattern {
        None => true,
        Some(p) => contains_seq(lowercase(name), p),
    }
}

/// The ids of the projects, in order, whose names pass the filter.
pub open spec fn kept_projects(projects: Seq<(i32, Seq<char>)>, project_pattern: Option<Seq<char>>) -> Seq<i32>
    decreases projects.len(),
{
    if projects.len() == 0 {
        Seq::empty()
    } else {
        let rest = kept_projects(projects.drop_last(), project_pattern);
        if project_name_passes(projects.last().1, project_pattern) { rest.push(projects.last().0) } else { rest }
    }
}

pub open spec fn project_views(projects: Seq<(i32, String)>) -> Seq<(i32, Seq<char>)> {
    Seq::new(projects.len(), |i: int| (projects[i].0, projects[i].1@))
}

pub open spec fn opt_view(o: Option<String>) -> Option<Seq<char>> {
    match o {
        Some(t) => Some(t@),
        None => None,
    }
}

/// The projects of a search that its project filter keeps, given by id and name,
/// in their order: the ids of those whose lower-cased name contains the filter
/// text, or all of them when there is no filter.
pub fn filter_projects_by_name(projects: &Vec<(i32, String)>, project_pattern: &Option<String>) -> (r: Vec<i32>)
    ensures
        r@ == kept_projects(project_views(projects@), opt_view(*project_pattern)),
{
    let ghost ps = project_views(projects@);
    let mut r: Vec<i32> = Vec::new();
    let mut i: usize = 0;
    while i < projects.len()
        invariant
            i <= projects@.len(),
            ps == project_views(projects@),
            r@ == kept_projects(ps.take(i as int), opt_view(*project_pattern)),
        decreases projects@.len() - i,
    {
        assert(ps.take(i + 1).drop_last() =~= ps.take(i as int));
        assert(ps.take(i + 1).last() == ps[i as int]);
        let keep = match project_pattern {
            None => true,
            Some(p) => {
                let lower = to_lowercase(projects[i].1.as_str());
                let lower_chars = chars_of(lower.as_str());
                let pat = chars_of(p.as_str());
                chars_contain(&lower_chars, &pat)
            },
        };
        if keep {
            r.push(projects[i].0);
        }
        i = i + 1;
    }
    assert(ps.take(projects@.len() as int) =~= ps);
    r
}

} // verus!
