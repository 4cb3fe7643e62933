use vstd::prelude::*;
use crate::models::{Project, ProjectNote, ProjectPointOfInterest, Server, ServerAccessType, ServerDatabase,
    ServerExtraUserAccount, ServerLink, ServerNote, ServerPointOfInterest, ServerWebsite};
use crate::project_items::ProjectItem;
use crate::search::{SearchItemsType, SearchResult};
use crate::chars::push_all;
use crate::text::{chars_of, string_of_chars};

verus! {

/// The height of one search result on screen.
pub const SEARCH_RESULT_WIDGET_HEIGHT: i32 = 75;

/// A rectangle of the search results' drawing area.
#[derive(PartialEq, Eq, Structural, Debug, Clone, Copy)]
pub struct Area {
    pub x: i32,
    pub y: i32,
    pub width: i32,
    pub height: i32,
}

impl Area {
    pub fn new(x: i32, y: i32, width: i32, height: i32) -> (r: Area)
        ensures
            r == (Area { x, y, width, height }),
    {
        Area { x, y, width, height }
    }

    /// Whether a point lies in the area (its left and top edges included, its
    /// right and bottom edges not).
    pub fn contains(&self, x: i32, y: i32) -> (r: bool)
        requires
            self.x + self.width <= i32::MAX,
            self.y + self.height <= i32::MAX,
            i32::MIN <= self.x + self.width,
            i32::MIN <= self.y + self.height,
        ensures
            r == (self.x <= x < self.x + self.width && self.y <= y < self.y + self.height),
    {
        x >= self.x && x < self.x + self.width && y >= self.y && y < self.y + self.height
    }
}

/// An item shown among the search results.
#[derive(PartialEq, Eq, Debug, Clone)]
pub enum ProjectPadItem {
    Project(Project),
    ProjectNote(ProjectNote),
    ProjectPoi(ProjectPointOfInterest),
    ServerLink(ServerLink),
    Server(Server),
    ServerDatabase(ServerDatabase),
    ServerExtraUserAccount(ServerExtraUserAccount),
    ServerNote(ServerNote),
    ServerPoi(ServerPointOfInterest),
    ServerWebsite(ServerWebsite),
}

impl ProjectPadItem {
    /// The item as an item of a project, for the kinds that a project holds
    /// directly: servers, server links, project notes and points of interest.
    pub fn to_project_item(self) -> (r: Option<ProjectItem>)
        ensures
            r == (match self {
                ProjectPadItem::Server(s) => Some(ProjectItem::Server(s)),
                ProjectPadItem::ServerLink(l) => Some(ProjectItem::ServerLink(l)),
                ProjectPadItem::ProjectNote(n) => Some(ProjectItem::ProjectNote(n)),
                ProjectPadItem::ProjectPoi(p) => Some(ProjectItem::ProjectPointOfInterest(p)),
                _ => None,
            }),
    {
        match self {
            ProjectPadItem::Server(s) => Some(ProjectItem::Server(s)),
            ProjectPadItem::ServerLink(l) => Some(ProjectItem::ServerLink(l)),
            ProjectPadItem::ProjectNote(n) => Some(ProjectItem::ProjectNote(n)),
            ProjectPadItem::ProjectPoi(p) => Some(ProjectItem::ProjectPointOfInterest(p)),
            _ => None,
        }
    }
}

/// Where an item of the search results comes from: the list of the search result
/// that holds it, and its position there.
#[derive(PartialEq, Eq, Structural, Debug, Clone, Copy)]
pub enum SearchItemRef {
    Project(usize),
    Server(usize),
    ServerWebsite(usize),
    ServerNote(usize),
    ServerExtraUserAccount(usize),
    ServerDatabase(usize),
    ServerPoi(usize),
    ServerLink(usize),
    ProjectNote(usize),
    ProjectPoi(usize),
}

/// The ids by which the search results are laid out.
pub struct SearchKeys {
    pub project_ids: Vec<i32>,
    pub server_ids: Vec<i32>,
    pub server_project_ids: Vec<i32>,
    pub website_server_ids: Vec<i32>,
    pub note_server_ids: Vec<i32>,
    pub extra_user_server_ids: Vec<i32>,
    pub database_server_ids: Vec<i32>,
    pub poi_server_ids: Vec<i32>,
    pub link_project_ids: Vec<i32>,
    pub project_note_project_ids: Vec<i32>,
    pub project_poi_project_ids: Vec<i32>,
}

/// The ids by which the search results are laid out, as seen in specifications.
pub struct KeysView {
    pub project_ids: Seq<i32>,
    pub server_ids: Seq<i32>,
    pub server_project_ids: Seq<i32>,
    pub website_server_ids: Seq<i32>,
    pub note_server_ids: Seq<i32>,
    pub extra_user_server_ids: Seq<i32>,
    pub database_server_ids: Seq<i32>,
    pub poi_server_ids: Seq<i32>,
    pub link_project_ids: Seq<i32>,
    pub project_note_project_ids: Seq<i32>,
    pub project_poi_project_ids: Seq<i32>,
}

pub open spec fn keys_view(k: SearchKeys) -> KeysView {
    KeysView {
        project_ids: k.project_ids@,
        server_ids: k.server_ids@,
        server_project_ids: k.server_project_ids@,
        website_server_ids: k.website_server_ids@,
        note_server_ids: k.note_server_ids@,
        extra_user_server_ids: k.extra_user_server_ids@,
        database_server_ids: k.database_server_ids@,
        poi_server_ids: k.poi_server_ids@,
        link_project_ids: k.link_project_ids@,
        project_note_project_ids: k.project_note_project_ids@,
        project_poi_project_ids: k.project_poi_project_ids@,
    }
}

/// The ids of a search result that its layout reads.
pub open spec fn result_keys(r: SearchResult) -> KeysView {
    KeysView {
        project_ids: Seq::new(r.projects@.len(), |i: int| r.projects@[i].id),
        server_ids: Seq::new(r.servers@.len(), |i: int| r.servers@[i].id),
        server_project_ids: Seq::new(r.servers@.len(), |i: int| r.servers@[i].project_id),
        website_server_ids: Seq::new(r.server_websites@.len(), |i: int| r.server_websites@[i].server_id),
        note_server_ids: Seq::new(r.server_notes@.len(), |i: int| r.server_notes@[i].server_id),
        extra_user_server_ids: Seq::new(r.server_extra_users@.len(), |i: int| r.server_extra_users@[i].server_id),
        database_server_ids: Seq::new(r.server_databases@.len(), |i: int| r.server_databases@[i].server_id),
        poi_server_ids: Seq::new(r.server_pois@.len(), |i: int| r.server_pois@[i].server_id),
        link_project_ids: Seq::new(r.server_links@.len(), |i: int| r.server_links@[i].project_id),
        project_note_project_ids: Seq::new(r.project_notes@.len(), |i: int| r.project_notes@[i].project_id),
        project_poi_project_ids: Seq::new(r.project_pois@.len(), |i: int| r.project_pois@[i].project_id),
    }
}

fn keys_of(r: &SearchResult) -> (k: SearchKeys)
    ensures
        keys_view(k) == result_keys(*r),
{
    let mut project_ids: Vec<i32> = Vec::new();
    let mut i: usize = 0;
    while i < r.projects.len()
        invariant
            i <= r.projects@.len(),
            project_ids@ =~= Seq::new(i as nat, |j: int| r.projects@[j].id),
        decreases r.projects@.len() - i,
    {
        project_ids.push(r.projects[i].id);
        i = i + 1;
    }
    let mut server_ids: Vec<i32> = Vec::new();
    let mut i: usize = 0;
    while i < r.servers.len()
        invariant
            i <= r.servers@.len(),
            server_ids@ =~= Seq::new(i as nat, |j: int| r.servers@[j].id),
        decreases r.servers@.len() - i,
    {
        server_ids.push(r.servers[i].id);
        i = i + 1;
    }
    let mut server_project_ids: Vec<i32> = Vec::new();
    let mut i: usize = 0;
    while i < r.servers.len()
        invariant
            i <= r.servers@.len(),
            server_project_ids@ =~= Seq::new(i as nat, |j: int| r.servers@[j].project_id),
        decreases r.servers@.len() - i,
    {
        server_project_ids.push(r.servers[i].project_id);
        i = i + 1;
    }
    let mut website_server_ids: Vec<i32> = Vec::new();
    let mut i: usize = 0;
    while i < r.server_websites.len()
        invariant
            i <= r.server_websites@.len(),
            website_server_ids@ =~= Seq::new(i as nat, |j: int| r.server_websites@[j].server_id),
        decreases r.server_websites@.len() - i,
    {
        website_server_ids.push(r.server_websites[i].server_id);
        i = i + 1;
    }
    let mut note_server_ids: Vec<i32> = Vec::new();
    let mut i: usize = 0;
    while i < r.server_notes.len()
        invariant
            i <= r.server_notes@.len(),
            note_server_ids@ =~= Seq::new(i as nat, |j: int| r.server_notes@[j].server_id),
        decreases r.server_notes@.len() - i,
    {
        note_server_ids.push(r.server_notes[i].server_id);
        i = i + 1;
    }
    let mut extra_user_server_ids: Vec<i32> = Vec::new();
    let mut i: usize = 0;
    while i < r.server_extra_users.len()
        invariant
            i <= r.server_extra_users@.len(),
            extra_user_server_ids@ =~= Seq::new(i as nat, |j: int| r.server_extra_users@[j].server_id),
        decreases r.server_extra_users@.len() - i,
    {
        extra_user_server_ids.push(r.server_extra_users[i].server_id);
        i = i + 1;
    }
    let mut database_server_ids: Vec<i32> = Vec::new();
    let mut i: usize = 0;
    while i < r.server_databases.len()
        invariant
            i <= r.server_databases@.len(),
            database_server_ids@ =~= Seq::new(i as nat, |j: int| r.server_databases@[j].server_id),
        decreases r.server_databases@.len() - i,
    {
        database_server_ids.push(r.server_databases[i].server_id);
        i = i + 1;
    }
    let mut poi_server_ids: Vec<i32> = Vec::new();
    let mut i: usize = 0;
    while i < r.server_pois.len()
        invariant
            i <= r.server_pois@.len(),
            poi_server_ids@ =~= Seq::new(i as nat, |j: int| r.server_pois@[j].server_id),
        decreases r.server_pois@.len() - i,
    {
        poi_server_ids.push(r.server_pois[i].server_id);
        i = i + 1;
    }
    let mut link_project_ids: Vec<i32> = Vec::new();
    let mut i: usize = 0;
    while i < r.server_links.len()
        invariant
            i <= r.server_links@.len(),
            link_project_ids@ =~= Seq::new(i as nat, |j: int| r.server_links@[j].project_id),
        decreases r.server_links@.len() - i,
    {
        link_project_ids.push(r.server_links[i].project_id);
        i = i + 1;
    }
    let mut project_note_project_ids: Vec<i32> = Vec::new();
    let mut i: usize = 0;
    while i < r.project_notes.len()
        invariant
            i <= r.project_notes@.len(),
            project_note_project_ids@ =~= Seq::new(i as nat, |j: int| r.project_notes@[j].project_id),
        decreases r.project_notes@.len() - i,
    {
        project_note_project_ids.push(r.project_notes[i].project_id);
        i = i + 1;
    }
    let mut project_poi_project_ids: Vec<i32> = Vec::new();
    let mut i: usize = 0;
    while i < r.project_pois.len()
        invariant
            i <= r.project_pois@.len(),
            project_poi_project_ids@ =~= Seq::new(i as nat, |j: int| r.project_pois@[j].project_id),
        decreases r.project_pois@.len() - i,
    {
        project_poi_project_ids.push(r.project_pois[i].project_id);
        i = i + 1;
    }
    let k = SearchKeys {
        project_ids,
        server_ids,
        server_project_ids,
        website_server_ids,
        note_server_ids,
        extra_user_server_ids,
        database_server_ids,
        poi_server_ids,
        link_project_ids,
        project_note_project_ids,
        project_poi_project_ids,
    };
    assert(keys_view(k) =~~= result_keys(*r));
    k
}

/// Which list of a search result a reference points into.
#[derive(PartialEq, Eq, Structural, Debug, Clone, Copy)]
pub enum RefKind {
    Project,
    Server,
    ServerWebsite,
    ServerNote,
    ServerExtraUserAccount,
    ServerDatabase,
    ServerPoi,
    ServerLink,
    ProjectNote,
    ProjectPoi,
}

pub open spec fn make_ref(kind: RefKind, i: int) -> SearchItemRef {
    let u = i as usize;
    match kind {
        RefKind::Project => SearchItemRef::Project(u),
        RefKind::Server => SearchItemRef::Server(u),
        RefKind::ServerWebsite => SearchItemRef::ServerWebsite(u),
        RefKind::ServerNote => SearchItemRef::ServerNote(u),
        RefKind::ServerExtraUserAccount => SearchItemRef::ServerExtraUserAccount(u),
        RefKind::ServerDatabase => SearchItemRef::ServerDatabase(u),
        RefKind::ServerPoi => SearchItemRef::ServerPoi(u),
        RefKind::ServerLink => SearchItemRef::ServerLink(u),
        RefKind::ProjectNote => SearchItemRef::ProjectNote(u),
        RefKind::ProjectPoi => SearchItemRef::ProjectPoi(u),
    }
}

fn make_ref_exec(kind: RefKind, i: usize) -> (r: SearchItemRef)
    ensures
        r == make_ref(kind, i as int),
{
    match kind {
        RefKind::Project => SearchItemRef::Project(i),
        RefKind::Server => SearchItemRef::Server(i),
        RefKind::ServerWebsite => SearchItemRef::ServerWebsite(i),
        RefKind::ServerNote => SearchItemRef::ServerNote(i),
        RefKind::ServerExtraUserAccount => SearchItemRef::ServerExtraUserAccount(i),
        RefKind::ServerDatabase => SearchItemRef::ServerDatabase(i),
        RefKind::ServerPoi => SearchItemRef::ServerPoi(i),
        RefKind::ServerLink => SearchItemRef::ServerLink(i),
        RefKind::ProjectNote => SearchItemRef::ProjectNote(i),
        RefKind::ProjectPoi => SearchItemRef::ProjectPoi(i),
    }
}

/// The references, in order, to the items of a list whose key is `key`.
pub open spec fn refs_with_key(keys: Seq<i32>, key: i32, kind: RefKind) -> Seq<SearchItemRef>
    decreases keys.len(),
{
    if keys.len() == 0 {
        Seq::empty()
    } else {
        let rest = refs_with_key(keys.drop_last(), key, kind);
        if keys.last() == key { rest.push(make_ref(kind, keys.len() - 1)) } else { rest }
    }
}

/// A server among the results, followed by its websites, notes, extra users,
/// databases and points of interest.
pub open spec fn server_block(k: KeysView, s: int) -> Seq<SearchItemRef> {
    let sid = k.server_ids[s];
    seq![make_ref(RefKind::Server, s)]
        + refs_with_key(k.website_server_ids, sid, RefKind::ServerWebsite)
        + refs_with_key(k.note_server_ids, sid, RefKind::ServerNote)
        + refs_with_key(k.extra_user_server_ids, sid, RefKind::ServerExtraUserAccount)
        + refs_with_key(k.database_server_ids, sid, RefKind::ServerDatabase)
        + refs_with_key(k.poi_server_ids, sid, RefKind::ServerPoi)
}

/// The blocks of the first `n` servers that belong to the project `pid`, in order.
pub open spec fn project_servers(k: KeysView, pid: i32, n: int) -> Seq<SearchItemRef>
    decreases n,
{
    if n <= 0 {
        Seq::empty()
    } else if k.server_project_ids[n - 1] == pid {
        project_servers(k, pid, n - 1) + server_block(k, n - 1)
    } else {
        project_servers(k, pid, n - 1)
    }
}

/// A project among the results, followed by its servers (each with its items),
/// its server links, its notes and its points of interest.
pub open spec fn project_block(k: KeysView, p: int) -> Seq<SearchItemRef> {
    let pid = k.project_ids[p];
    seq![make_ref(RefKind::Project, p)]
        + project_servers(k, pid, k.server_ids.len() as int)
        + refs_with_key(k.link_project_ids, pid, RefKind::ServerLink)
        + refs_with_key(k.project_note_project_ids, pid, RefKind::ProjectNote)
        + refs_with_key(k.project_poi_project_ids, pid, RefKind::ProjectPoi)
}

/// The blocks of the first `n` projects, in order: the layout of the results.
pub open spec fn results_layout(k: KeysView, n: int) -> Seq<SearchItemRef>
    decreases n,
{
    if n <= 0 {
        Seq::empty()
    } else {
        results_layout(k, n - 1) + project_block(k, n - 1)
    }
}

fn push_refs_with_key(out: &mut Vec<SearchItemRef>, keys: &Vec<i32>, key: i32, kind: RefKind)
    ensures
        final(out)@ == old(out)@ + refs_with_key(keys@, key, kind),
{
    let mut i: usize = 0;
    while i < keys.len()
        invariant
            i <= keys@.len(),
            out@ == old(out)@ + refs_with_key(keys@.take(i as int), key, kind),
        decreases keys@.len() - i,
    {
        assert(keys@.take(i + 1).drop_last() =~= keys@.take(i as int));
        if keys[i] == key {
            let r = make_ref_exec(kind, i);
            out.push(r);
        }
        assert(out@ =~= old(out)@ + refs_with_key(keys@.take(i + 1), key, kind));
        i = i + 1;
    }
    assert(keys@.take(keys@.len() as int) =~= keys@);
}

fn layout_refs(k: &SearchKeys) -> (r: Vec<SearchItemRef>)
    requires
        k.server_project_ids@.len() == k.server_ids@.len(),
    ensures
        r@ == results_layout(keys_view(*k), k.project_ids@.len() as int),
{
    let ghost kv = keys_view(*k);
    let mut out: Vec<SearchItemRef> = Vec::new();
    let mut p: usize = 0;
    while p < k.project_ids.len()
        invariant
            kv == keys_view(*k),
            k.server_project_ids@.len() == k.server_ids@.len(),
            p <= k.project_ids@.len(),
            out@ == results_layout(kv, p as int),
        decreases k.project_ids@.len() - p,
    {
        let pid = k.project_ids[p];
        let ghost before = out@;
        out.push(make_ref_exec(RefKind::Project, p));
        let mut s: usize = 0;
        while s < k.server_ids.len()
            invariant
                kv == keys_view(*k),
                k.server_project_ids@.len() == k.server_ids@.len(),
                s <= k.server_ids@.len(),
                pid == kv.project_ids[p as int],
                out@ == before + seq![make_ref(RefKind::Project, p as int)] + project_servers(kv, pid, s as int),
            decreases k.server_ids@.len() - s,
        {
            if k.server_project_ids[s] == pid {
                let sid = k.server_ids[s];
                let ghost mid = out@;
                out.push(make_ref_exec(RefKind::Server, s));
                push_refs_with_key(&mut out, &k.website_server_ids, sid, RefKind::ServerWebsite);
                push_refs_with_key(&mut out, &k.note_server_ids, sid, RefKind::ServerNote);
                push_refs_with_key(&mut out, &k.extra_user_server_ids, sid, RefKind::ServerExtraUserAccount);
                push_refs_with_key(&mut out, &k.database_server_ids, sid, RefKind::ServerDatabase);
                push_refs_with_key(&mut out, &k.poi_server_ids, sid, RefKind::ServerPoi);
                assert(out@ =~= mid + server_block(kv, s as int));
            }
            s = s + 1;
        }
        let ghost mid2 = out@;
        push_refs_with_key(&mut out, &k.link_project_ids, pid, RefKind::ServerLink);
        push_refs_with_key(&mut out, &k.project_note_project_ids, pid, RefKind::ProjectNote);
        push_refs_with_key(&mut out, &k.project_poi_project_ids, pid, RefKind::ProjectPoi);
        assert(out@ =~= before + project_block(kv, p as int));
        p = p + 1;
    }
    out
}

/// The order in which the search results are shown, as references into the search
/// result: each project in turn, followed by each of its servers (each followed by
/// its websites, notes, extra users, databases and points of interest), then its
/// server links, its notes and its points of interest, each list in the order of
/// the search result. Items whose project (or server) is not among the results are
/// not shown.
pub fn search_item_refs(result: &SearchResult) -> (r: Vec<SearchItemRef>)
    ensures
        r@ == results_layout(result_keys(*result), result.projects@.len() as int),
{
    let k = keys_of(result);
    layout_refs(&k)
}

/// A key press in the search view, as its handling tells them apart: Enter (or
/// the keypad's Enter), Ctrl+E, Ctrl+Y, a Ctrl or Alt key alone, and any other.
#[derive(PartialEq, Eq, Structural, Debug, Clone, Copy)]
pub enum SearchKey {
    Enter,
    CtrlE,
    CtrlY,
    Modifier,
    Other,
}

/// What the search view does on a key press.
#[derive(PartialEq, Eq, Debug, Clone)]
pub enum SearchKeyAction {
    /// Open the item at this position of the results.
    OpenItem(usize),
    /// Open this address in the browser.
    OpenUri(String),
    /// Copy this text to the clipboard.
    CopyToClipboard(String),
    /// Show, or stop showing, the keyboard shortcuts.
    SetShowShortcuts(bool),
    Nothing,
}

/// What the search view does on a key press, as seen in specifications.
pub enum KeyActionView {
    OpenItem(int),
    OpenUri(Seq<char>),
    CopyToClipboard(Seq<char>),
    SetShowShortcuts(bool),
    Nothing,
}

pub open spec fn key_action_view(a: SearchKeyAction) -> KeyActionView {
    match a {
        SearchKeyAction::OpenItem(i) => KeyActionView::OpenItem(i as int),
        SearchKeyAction::OpenUri(u) => KeyActionView::OpenUri(u@),
        SearchKeyAction::CopyToClipboard(t) => KeyActionView::CopyToClipboard(t@),
        SearchKeyAction::SetShowShortcuts(b) => KeyActionView::SetShowShortcuts(b),
        SearchKeyAction::Nothing => KeyActionView::Nothing,
    }
}

/// The depth of an item in the results: 1 for a project, 2 for what a project
/// holds directly (servers, server links, notes, points of interest), 3 for what
/// a server holds.
pub open spec fn item_level(item: ProjectPadItem) -> int {
    match item {
        ProjectPadItem::Project(_) => 1,
        ProjectPadItem::Server(_) | ProjectPadItem::ServerLink(_) | ProjectPadItem::ProjectNote(_)
        | ProjectPadItem::ProjectPoi(_) => 2,
        _ => 3,
    }
}

/// The positions, in order, of the items of a given depth.
pub open spec fn level_positions(items: Seq<ProjectPadItem>, level: int) -> Seq<int>
    decreases items.len(),
{
    if items.len() == 0 {
        Seq::empty()
    } else {
        let rest = level_positions(items.drop_last(), level);
        if item_level(items.last()) == level { rest.push(items.len() - 1) } else { rest }
    }
}

/// The item that Enter opens: when the results hold one project and at most one
/// item below it at each depth, the deepest of them.
pub open spec fn enter_target(items: Seq<ProjectPadItem>) -> Option<int> {
    let l1 = level_positions(items, 1);
    let l2 = level_positions(items, 2);
    let l3 = level_positions(items, 3);
    if l1.len() == 1 && l2.len() == 0 && l3.len() == 0 {
        Some(l1[0])
    } else if l1.len() == 1 && l2.len() == 1 && l3.len() == 0 {
        Some(l2[0])
    } else if l1.len() == 1 && l2.len() == 1 && l3.len() == 1 {
        Some(l3[0])
    } else {
        None
    }
}

/// The address that an item can open: that of a website server, or of a website.
pub open spec fn item_url(item: ProjectPadItem) -> Option<Seq<char>> {
    match item {
        ProjectPadItem::Server(srv) => if srv.access_type == ServerAccessType::SrvAccessWww && srv.ip@.len() != 0 {
            Some(srv.ip@)
        } else {
            None
        },
        ProjectPadItem::ServerWebsite(www) => if www.url@.len() != 0 { Some(www.url@) } else { None },
        _ => None,
    }
}

/// The password of an item: that of a server or of a website, when set.
pub open spec fn item_password(item: ProjectPadItem) -> Option<Seq<char>> {
    match item {
        ProjectPadItem::Server(srv) => if srv.password@.len() != 0 { Some(srv.password@) } else { None },
        ProjectPadItem::ServerWebsite(www) => if www.password@.len() != 0 { Some(www.password@) } else { None },
        _ => None,
    }
}

/// The addresses that the items can open, in order.
pub open spec fn urls_of(items: Seq<ProjectPadItem>) -> Seq<Seq<char>>
    decreases items.len(),
{
    if items.len() == 0 {
        Seq::empty()
    } else {
        let rest = urls_of(items.drop_last());
        match item_url(items.last()) {
            Some(u) => rest.push(u),
            None => rest,
        }
    }
}

/// The passwords of the items, in order.
pub open spec fn passwords_of(items: Seq<ProjectPadItem>) -> Seq<Seq<char>>
    decreases items.len(),
{
    if items.len() == 0 {
        Seq::empty()
    } else {
        let rest = passwords_of(items.drop_last());
        match item_password(items.last()) {
            Some(p) => rest.push(p),
            None => rest,
        }
    }
}

/// What a key press does: Enter opens the one item that the results lead to;
/// Ctrl+E opens the address of the results when exactly one item has one; Ctrl+Y
/// copies their password when exactly one item has one; a Ctrl or Alt key shows
/// the shortcuts, and any other key hides them.
pub open spec fn key_action_of(items: Seq<ProjectPadItem>, key: SearchKey, showing_shortcuts: bool) -> KeyActionView {
    match key {
        SearchKey::Enter => match enter_target(items) {
            Some(i) => KeyActionView::OpenItem(i),
            None => KeyActionView::Nothing,
        },
        SearchKey::CtrlE => if urls_of(items).len() == 1 {
            KeyActionView::OpenUri(urls_of(items)[0])
        } else {
            KeyActionView::Nothing
        },
        SearchKey::CtrlY => if passwords_of(items).len() == 1 {
            KeyActionView::CopyToClipboard(passwords_of(items)[0])
        } else {
            KeyActionView::Nothing
        },
        SearchKey::Modifier => if showing_shortcuts { KeyActionView::Nothing } else { KeyActionView::SetShowShortcuts(true) },
        SearchKey::Other => if showing_shortcuts { KeyActionView::SetShowShortcuts(false) } else { KeyActionView::Nothing },
    }
}

fn item_level_of(item: &ProjectPadItem) -> (r: u8)
    ensures
        r as int == item_level(*item),
{
    match item {
        ProjectPadItem::Project(_) => 1,
        ProjectPadItem::Server(_) | ProjectPadItem::ServerLink(_) | ProjectPadItem::ProjectNote(_)
        | ProjectPadItem::ProjectPoi(_) => 2,
        _ => 3,
    }
}

fn enter_target_of(items: &Vec<ProjectPadItem>) -> (r: Option<usize>)
    ensures
        match r {
            Some(i) => enter_target(items@) == Some(i as int),
            None => enter_target(items@) is None,
        },
{
    let mut n1: usize = 0;
    let mut n2: usize = 0;
    let mut n3: usize = 0;
    let mut f1: usize = 0;
    let mut f2: usize = 0;
    let mut f3: usize = 0;
    let mut i: usize = 0;
    while i < items.len()
        invariant
            i <= items@.len(),
            n1 == level_positions(items@.take(i as int), 1).len(),
            n2 == level_positions(items@.take(i as int), 2).len(),
            n3 == level_positions(items@.take(i as int), 3).len(),
            n1 > 0 ==> f1 == level_positions(items@.take(i as int), 1)[0],
            n2 > 0 ==> f2 == level_positions(items@.take(i as int), 2)[0],
            n3 > 0 ==> f3 == level_positions(items@.take(i as int), 3)[0],
            n1 <= i && n2 <= i && n3 <= i,
        decreases items@.len() - i,
    {
        let ghost t = items@.take(i + 1);
        assert(t.drop_last() =~= items@.take(i as int));
        assert(t.last() == items@[i as int]);
        proof {
            lemma_level_positions_prefix(items@.take(i as int), items@[i as int], 1);
            lemma_level_positions_prefix(items@.take(i as int), items@[i as int], 2);
            lemma_level_positions_prefix(items@.take(i as int), items@[i as int], 3);
        }
        let l = item_level_of(&items[i]);
        if l == 1 {
            if n1 == 0 {
                f1 = i;
            }
            n1 = n1 + 1;
        } else if l == 2 {
            if n2 == 0 {
                f2 = i;
            }
            n2 = n2 + 1;
        } else {
            if n3 == 0 {
                f3 = i;
            }
            n3 = n3 + 1;
        }
        i = i + 1;
    }
    assert(items@.take(items@.len() as int) =~= items@);
    if n1 == 1 && n2 == 0 && n3 == 0 {
        Some(f1)
    } else if n1 == 1 && n2 == 1 && n3 == 0 {
        Some(f2)
    } else if n1 == 1 && n2 == 1 && n3 == 1 {
        Some(f3)
    } else {
        None
    }
}

proof fn lemma_level_positions_prefix(items: Seq<ProjectPadItem>, x: ProjectPadItem, level: int)
    ensures
        level_positions(items.push(x), level) == (if item_level(x) == level {
            level_positions(items, level).push(items.len() as int)
        } else {
            level_positions(items, level)
        }),
        level_positions(items, level).len() > 0 ==> level_positions(items.push(x), level)[0] == level_positions(items, level)[0],
{
    assert(items.push(x).drop_last() =~= items);
}

fn item_url_of(item: &ProjectPadItem) -> (r: Option<String>)
    ensures
        match r {
            Some(u) => item_url(*item) == Some(u@),
            None => item_url(*item) is None,
        },
{
    match item {
        ProjectPadItem::Server(srv) => {
            if srv.access_type == ServerAccessType::SrvAccessWww && !srv.ip.as_str().is_empty() {
                Some(srv.ip.clone())
            } else {
                None
            }
        },
        ProjectPadItem::ServerWebsite(www) => {
            if !www.url.as_str().is_empty() {
                Some(www.url.clone())
            } else {
                None
            }
        },
        _ => None,
    }
}

fn item_password_of(item: &ProjectPadItem) -> (r: Option<String>)
    ensures
        match r {
            Some(p) => item_password(*item) == Some(p@),
            None => item_password(*item) is None,
        },
{
    match item {
        ProjectPadItem::Server(srv) => {
            if !srv.password.as_str().is_empty() {
                Some(srv.password.clone())
            } else {
                None
            }
        },
        ProjectPadItem::ServerWebsite(www) => {
            if !www.password.as_str().is_empty() {
                Some(www.password.clone())
            } else {
                None
            }
        },
        _ => None,
    }
}

/// The one address that the items can open, when exactly one of them has one.
fn single_url(items: &Vec<ProjectPadItem>) -> (r: Option<String>)
    ensures
        match r {
            Some(u) => urls_of(items@).len() == 1 && urls_of(items@)[0] == u@,
            None => urls_of(items@).len() != 1,
        },
{
    let mut count: usize = 0;
    let mut first: Option<String> = None;
    let mut i: usize = 0;
    while i < items.len()
        invariant
            i <= items@.len(),
            count == urls_of(items@.take(i as int)).len(),
            count <= i,
            count > 0 ==> (first matches Some(f) && f@ == urls_of(items@.take(i as int))[0]),
        decreases items@.len() - i,
    {
        let ghost t = items@.take(i + 1);
        assert(t.drop_last() =~= items@.take(i as int));
        assert(t.last() == items@[i as int]);
        match item_url_of(&items[i]) {
            Some(u) => {
                if count == 0 {
                    first = Some(u);
                }
                count = count + 1;
            },
            None => {},
        }
        i = i + 1;
    }
    assert(items@.take(items@.len() as int) =~= items@);
    if count == 1 { first } else { None }
}

/// The one password of the items, when exactly one of them has one.
fn single_password(items: &Vec<ProjectPadItem>) -> (r: Option<String>)
    ensures
        match r {
            Some(p) => passwords_of(items@).len() == 1 && passwords_of(items@)[0] == p@,
            None => passwords_of(items@).len() != 1,
        },
{
    let mut count: usize = 0;
    let mut first: Option<String> = None;
    let mut i: usize = 0;
    while i < items.len()
        invariant
            i <= items@.len(),
            count == passwords_of(items@.take(i as int)).len(),
            count <= i,
            count > 0 ==> (first matches Some(f) && f@ == passwords_of(items@.take(i as int))[0]),
        decreases items@.len() - i,
    {
        let ghost t = items@.take(i + 1);
        assert(t.drop_last() =~= items@.take(i as int));
        assert(t.last() == items@[i as int]);
        match item_password_of(&items[i]) {
            Some(p) => {
                if count == 0 {
                    first = Some(p);
                }
                count = count + 1;
            },
            None => {},
        }
        i = i + 1;
    }
    assert(items@.take(items@.len() as int) =~= items@);
    if count == 1 { first } else { None }
}

/// What the search view does when a key is pressed, given the items it shows
/// and whether it shows the keyboard shortcuts (see `key_action_of`).
pub fn search_key_action(items: &Vec<ProjectPadItem>, key: SearchKey, showing_shortcuts: bool) -> (r: SearchKeyAction)
    ensures
        key_action_view(r) == key_action_of(items@, key, showing_shortcuts),
{
    match key {
        SearchKey::Enter => match enter_target_of(items) {
            Some(i) => SearchKeyAction::OpenItem(i),
            None => SearchKeyAction::Nothing,
        },
        SearchKey::CtrlE => match single_url(items) {
            Some(u) => SearchKeyAction::OpenUri(u),
            None => SearchKeyAction::Nothing,
        },
        SearchKey::CtrlY => match single_password(items) {
            Some(p) => SearchKeyAction::CopyToClipboard(p),
            None => SearchKeyAction::Nothing,
        },
        SearchKey::Modifier => if showing_shortcuts {
            SearchKeyAction::Nothing
        } else {
            SearchKeyAction::SetShowShortcuts(true)
        },
        SearchKey::Other => if showing_shortcuts {
            SearchKeyAction::SetShowShortcuts(false)
        } else {
            SearchKeyAction::Nothing
        },
    }
}

/// The position of the first project with the given id among the items.
pub open spec fn project_position(items: Seq<ProjectPadItem>, pid: i32) -> Option<int>
    decreases items.len(),
{
    if items.len() == 0 {
        None
    } else {
        match project_position(items.drop_last(), pid) {
            Some(i) => Some(i),
            None => if items.last() matches ProjectPadItem::Project(p) && p.id == pid {
                Some(items.len() - 1)
            } else {
                None
            },
        }
    }
}

/// The position of the first server with the given id among the items.
pub open spec fn server_position(items: Seq<ProjectPadItem>, sid: i32) -> Option<int>
    decreases items.len(),
{
    if items.len() == 0 {
        None
    } else {
        match server_position(items.drop_last(), sid) {
            Some(i) => Some(i),
            None => if items.last() matches ProjectPadItem::Server(s) && s.id == sid {
                Some(items.len() - 1)
            } else {
                None
            },
        }
    }
}

/// The server that an item of a server belongs to.
pub open spec fn item_server_id(item: ProjectPadItem) -> Option<i32> {
    match item {
        ProjectPadItem::ServerPoi(p) => Some(p.server_id),
        ProjectPadItem::ServerWebsite(w) => Some(w.server_id),
        ProjectPadItem::ServerDatabase(d) => Some(d.server_id),
        ProjectPadItem::ServerNote(n) => Some(n.server_id),
        ProjectPadItem::ServerExtraUserAccount(u) => Some(u.server_id),
        _ => None,
    }
}

/// The project that an item of a project belongs to.
pub open spec fn item_project_id(item: ProjectPadItem) -> Option<i32> {
    match item {
        ProjectPadItem::Server(s) => Some(s.project_id),
        ProjectPadItem::ProjectNote(n) => Some(n.project_id),
        ProjectPadItem::ProjectPoi(p) => Some(p.project_id),
        ProjectPadItem::ServerLink(l) => Some(l.project_id),
        _ => None,
    }
}

/// Where the item at position `i` leads when it is opened in full: the position
/// of its project, and for an item of a server, the position of the server.
/// Projects and servers are found among the items by their ids (the first one
/// with the id).
pub open spec fn open_path(items: Seq<ProjectPadItem>, i: int) -> Option<(int, Option<int>)> {
    let item = items[i];
    if item is Project {
        Some((i, None))
    } else if item_project_id(item) is Some {
        match project_position(items, item_project_id(item)->0) {
            Some(p) => Some((p, None)),
            None => None,
        }
    } else {
        match server_position(items, item_server_id(item)->0) {
            Some(s) => match item_project_id(items[s]) {
                Some(pid) => match project_position(items, pid) {
                    Some(p) => Some((p, Some(s))),
                    None => None,
                },
                None => None,
            },
            None => None,
        }
    }
}

fn project_position_of(items: &Vec<ProjectPadItem>, pid: i32) -> (r: Option<usize>)
    ensures
        match r {
            Some(i) => i < items@.len() && project_position(items@, pid) == Some(i as int),
            None => project_position(items@, pid) is None,
        },
{
    let mut i: usize = 0;
    while i < items.len()
        invariant
            i <= items@.len(),
            project_position(items@.take(i as int), pid) is None,
        decreases items@.len() - i,
    {
        let ghost t = items@.take(i + 1);
        assert(t.drop_last() =~= items@.take(i as int));
        assert(t.last() == items@[i as int]);
        let found = match &items[i] {
            ProjectPadItem::Project(p) => p.id == pid,
            _ => false,
        };
        if found {
            proof {
                assert(project_position(t, pid) == Some(i as int));
                lemma_positions_prefix(items@, i as int + 1);
            }
            return Some(i);
        }
        i = i + 1;
    }
    assert(items@.take(items@.len() as int) =~= items@);
    None
}

fn server_position_of(items: &Vec<ProjectPadItem>, sid: i32) -> (r: Option<usize>)
    ensures
        match r {
            Some(i) => i < items@.len() && server_position(items@, sid) == Some(i as int)
                && item_project_id(items@[i as int]) is Some && items@[i as int] is Server,
            None => server_position(items@, sid) is None,
        },
{
    let mut i: usize = 0;
    while i < items.len()
        invariant
            i <= items@.len(),
            server_position(items@.take(i as int), sid) is None,
        decreases items@.len() - i,
    {
        let ghost t = items@.take(i + 1);
        assert(t.drop_last() =~= items@.take(i as int));
        assert(t.last() == items@[i as int]);
        let found = match &items[i] {
            ProjectPadItem::Server(s) => s.id == sid,
            _ => false,
        };
        if found {
            proof {
                assert(server_position(t, sid) == Some(i as int));
                lemma_positions_prefix(items@, i as int + 1);
            }
            return Some(i);
        }
        i = i + 1;
    }
    assert(items@.take(items@.len() as int) =~= items@);
    None
}

/// A first position found in a prefix is the first position in the whole list.
proof fn lemma_positions_prefix(items: Seq<ProjectPadItem>, n: int)
    requires
        0 <= n <= items.len(),
    ensures
        forall|pid: i32| #[trigger] project_position(items.take(n), pid) is Some
            ==> project_position(items, pid) == project_position(items.take(n), pid),
        forall|sid: i32| #[trigger] server_position(items.take(n), sid) is Some
            ==> server_position(items, sid) == server_position(items.take(n), sid),
    decreases items.len() - n,
{
    if n < items.len() {
        lemma_positions_prefix(items, n + 1);
        assert(items.take(n + 1).drop_last() =~= items.take(n));
        assert forall|pid: i32| #[trigger] project_position(items.take(n), pid) is Some
            implies project_position(items, pid) == project_position(items.take(n), pid) by {
            assert(project_position(items.take(n + 1), pid) == project_position(items.take(n), pid));
        }
        assert forall|sid: i32| #[trigger] server_position(items.take(n), sid) is Some
            implies server_position(items, sid) == server_position(items.take(n), sid) by {
            assert(server_position(items.take(n + 1), sid) == server_position(items.take(n), sid));
        }
    } else {
        assert(items.take(n) =~= items);
    }
}

/// Where the item at position `item` leads when it is opened in full (see
/// `open_path`): the position of its project, and for an item of a server, the
/// position of the server. The project (and the server) must be among the items,
/// as the search results lay them out.
pub fn open_item_positions(items: &Vec<ProjectPadItem>, item: usize) -> (r: (usize, Option<usize>))
    requires
        item < items@.len(),
        open_path(items@, item as int) is Some,
    ensures
        open_path(items@, item as int) == Some((r.0 as int, match r.1 {
            Some(s) => Some(s as int),
            None => None::<int>,
        })),
{
    match &items[item] {
        ProjectPadItem::Project(_) => (item, None),
        ProjectPadItem::Server(s) => (project_position_of(items, s.project_id).unwrap(), None),
        ProjectPadItem::ProjectNote(n) => (project_position_of(items, n.project_id).unwrap(), None),
        ProjectPadItem::ProjectPoi(p) => (project_position_of(items, p.project_id).unwrap(), None),
        ProjectPadItem::ServerLink(l) => (project_position_of(items, l.project_id).unwrap(), None),
        _ => {
            let sid = match &items[item] {
                ProjectPadItem::ServerPoi(p) => p.server_id,
                ProjectPadItem::ServerWebsite(w) => w.server_id,
                ProjectPadItem::ServerDatabase(d) => d.server_id,
                ProjectPadItem::ServerNote(n) => n.server_id,
                ProjectPadItem::ServerExtraUserAccount(u) => u.server_id,
                _ => 0,
            };
            let s = server_position_of(items, sid).unwrap();
            let pid = match &items[s] {
                ProjectPadItem::Server(srv) => srv.project_id,
                _ => 0,
            };
            assert(item_project_id(items@[s as int]) == Some(pid));
            (project_position_of(items, pid).unwrap(), Some(s))
        },
    }
}

/// An item of the search results drawn in the visible part of the view.
#[derive(PartialEq, Eq, Structural, Debug, Clone, Copy)]
pub struct VisibleItem {
    /// Its position among the results.
    pub index: usize,
    /// The top of its row, from the top of the view.
    pub y: i32,
    /// The position of the server that it is drawn under, if any.
    pub server: Option<usize>,
    /// The digit of its keyboard shortcut: the first ten rows have one.
    pub shortcut: Option<usize>,
}

/// The first row drawn when the view is scrolled down by `y_to_display`: the first
/// whose bottom lies at or below the top of the view.
pub open spec fn first_visible(y_to_display: int) -> int {
    if y_to_display <= 0 { 0 } else { (y_to_display - 1) / 75 }
}

/// The last server at or before position `i` and not before `lo`.
pub open spec fn last_server(items: Seq<ProjectPadItem>, lo: int, i: int) -> Option<int>
    decreases i - lo + 1,
{
    if i < lo || i < 0 {
        None
    } else if items[i] is Server {
        Some(i)
    } else {
        last_server(items, lo, i - 1)
    }
}

/// The rows drawn: from the first visible one, each row of the results whose top
/// lies above the bottom of the view, with the top of its row, the last server
/// before it (from the second row on, when the view is scrolled past the first
/// row), and its shortcut digit.
pub open spec fn visible_rows(items: Seq<ProjectPadItem>, y_to_display: int, area_height: int, r: Seq<VisibleItem>) -> bool {
    let f = first_visible(y_to_display);
    let lo = if f == 0 { 0 } else { 1 };
    &&& forall|k: int| 0 <= k < r.len() ==> {
        let i = f + k;
        &&& (#[trigger] r[k]).index == i
        &&& i * 75 < y_to_display + area_height
        &&& r[k].y == i * 75 - y_to_display
        &&& r[k].server == (match last_server(items, lo, i) {
            Some(j) => Some(j as usize),
            None => None::<usize>,
        })
        &&& r[k].shortcut == (if i < 10 { Some(((i + 1) % 10) as usize) } else { None::<usize> })
    }
    &&& f + r.len() == items.len() || (f + r.len()) * 75 >= y_to_display + area_height
    &&& f + r.len() <= items.len() || r.len() == 0
}

/// The rows of the search results that the view draws when it is scrolled down by
/// `y_to_display` and is `area_height` high (see `visible_rows`).
pub fn visible_search_items(items: &Vec<ProjectPadItem>, y_to_display: i32, area_height: i32) -> (r: Vec<VisibleItem>)
    requires
        first_visible(y_to_display as int) == 0 || first_visible(y_to_display as int) < items@.len(),
        i32::MIN <= y_to_display + area_height,
        y_to_display + area_height + 75 <= i32::MAX,
        y_to_display + 75 <= i32::MAX,
    ensures
        visible_rows(items@, y_to_display as int, area_height as int, r@),
{
    let h: i32 = SEARCH_RESULT_WIDGET_HEIGHT;
    let mut y: i32 = 0;
    let mut item_idx: usize = 0;
    let mut cur_server: Option<usize> = None;
    while y + h < y_to_display
        invariant
            h == 75,
            y == item_idx * 75,
            item_idx == 0 || y < y_to_display,
            y_to_display + 75 <= i32::MAX,
            item_idx <= first_visible(y_to_display as int),
            first_visible(y_to_display as int) == 0 || first_visible(y_to_display as int) < items@.len(),
            y_to_display + area_height + 75 <= i32::MAX,
            cur_server == (match last_server(items@, 1, item_idx as int) {
                Some(j) => Some(j as usize),
                None => None::<usize>,
            }),
        decreases y_to_display - y,
    {
        proof {
            let k = item_idx as int;
            let yd = y_to_display as int;
            assert((k + 1) * 75 < yd);
            assert(k + 1 <= (yd - 1) / 75) by (nonlinear_arith)
                requires
                    (k + 1) * 75 < yd,
            ;
        }
        y = y + h;
        item_idx = item_idx + 1;
        let is_server = match &items[item_idx] {
            ProjectPadItem::Server(_) => true,
            _ => false,
        };
        if is_server {
            cur_server = Some(item_idx);
        }
    }
    proof {
        let k = item_idx as int;
        let yd = y_to_display as int;
        if yd > 0 {
            assert(k == (yd - 1) / 75) by (nonlinear_arith)
                requires
                    k * 75 + 75 >= yd,
                    k == 0 || k * 75 < yd,
                    yd > 0,
            ;
        }
    }
    let ghost f = item_idx as int;
    assert(f == first_visible(y_to_display as int));
    let ghost lo = if f == 0 { 0int } else { 1int };
    let mut r: Vec<VisibleItem> = Vec::new();
    while item_idx < items.len() && y < y_to_display + area_height
        invariant
            h == 75,
            f == first_visible(y_to_display as int),
            lo == (if f == 0 { 0int } else { 1int }),
            y == item_idx * 75,
            item_idx == f + r@.len(),
            f == 0 || f < items@.len(),
            item_idx <= items@.len() || r@.len() == 0,
            y_to_display + area_height + 75 <= i32::MAX,
            i32::MIN <= y_to_display + area_height,
            f * 75 + 75 >= y_to_display,
            r@.len() == 0 ==> cur_server == (match last_server(items@, 1, f) {
                Some(j) => Some(j as usize),
                None => None::<usize>,
            }),
            r@.len() > 0 ==> cur_server == (match last_server(items@, lo, item_idx - 1) {
                Some(j) => Some(j as usize),
                None => None::<usize>,
            }),
            forall|k: int| 0 <= k < r@.len() ==> {
                let i = f + k;
                &&& (#[trigger] r@[k]).index == i
                &&& i * 75 < y_to_display + area_height
                &&& r@[k].y == i * 75 - y_to_display
                &&& r@[k].server == (match last_server(items@, lo, i) {
                    Some(j) => Some(j as usize),
                    None => None::<usize>,
                })
                &&& r@[k].shortcut == (if i < 10 { Some(((i + 1) % 10) as usize) } else { None::<usize> })
            },
        decreases items@.len() - item_idx,
    {
        let is_server = match &items[item_idx] {
            ProjectPadItem::Server(_) => true,
            _ => false,
        };
        proof {
            if r@.len() == 0 && f == 0 {
                assert(last_server(items@, 0, -1) is None);
            }
        }
        if is_server {
            cur_server = Some(item_idx);
        }
        let shortcut = if item_idx < 10 { Some((item_idx + 1) % 10) } else { None };
        r.push(VisibleItem { index: item_idx, y: y - y_to_display, server: cur_server, shortcut });
        y = y + h;
        item_idx = item_idx + 1;
    }
    r
}

/// What a click in the search view is for: opening items and their actions, or
/// picking an item.
#[derive(PartialEq, Eq, Structural, Debug, Clone, Copy)]
pub enum OperationMode {
    ItemActions,
    SelectItem,
}

/// An area whose edges can be computed without overflow.
pub open spec fn area_ok(a: Area) -> bool {
    &&& i32::MIN <= a.x + a.width <= i32::MAX
    &&& i32::MIN <= a.y + a.height <= i32::MAX
}

pub open spec fn area_has(a: Area, x: i32, y: i32) -> bool {
    a.x <= x < a.x + a.width && a.y <= y < a.y + a.height
}

/// The position of the first area of a list that holds the point.
pub open spec fn first_area_with<T>(areas: Seq<(Area, T)>, x: i32, y: i32) -> Option<int>
    decreases areas.len(),
{
    if areas.len() == 0 {
        None
    } else {
        match first_area_with(areas.drop_last(), x, y) {
            Some(i) => Some(i),
            None => if area_has(areas.last().0, x, y) { Some(areas.len() - 1) } else { None },
        }
    }
}

pub open spec fn areas_ok<T>(areas: Seq<(Area, T)>) -> bool {
    forall|i: int| 0 <= i < areas.len() ==> area_ok(#[trigger] areas[i].0)
}

fn first_area_of<T>(areas: &Vec<(Area, T)>, x: i32, y: i32) -> (r: Option<usize>)
    requires
        areas_ok(areas@),
    ensures
        match r {
            Some(i) => i < areas@.len() && first_area_with(areas@, x, y) == Some(i as int),
            None => first_area_with(areas@, x, y) is None,
        },
{
    let mut i: usize = 0;
    while i < areas.len()
        invariant
            i <= areas@.len(),
            areas_ok(areas@),
            first_area_with(areas@.take(i as int), x, y) is None,
        decreases areas@.len() - i,
    {
        let ghost t = areas@.take(i + 1);
        assert(t.drop_last() =~= areas@.take(i as int));
        assert(t.last() == areas@[i as int]);
        assert(area_ok(areas@[i as int].0));
        if areas[i].0.contains(x, y) {
            proof {
                assert(first_area_with(t, x, y) == Some(i as int));
                lemma_first_area_prefix(areas@, i as int + 1, x, y);
            }
            return Some(i);
        }
        i = i + 1;
    }
    assert(areas@.take(areas@.len() as int) =~= areas@);
    None
}

proof fn lemma_first_area_prefix<T>(areas: Seq<(Area, T)>, n: int, x: i32, y: i32)
    requires
        0 <= n <= areas.len(),
        first_area_with(areas.take(n), x, y) is Some,
    ensures
        first_area_with(areas, x, y) == first_area_with(areas.take(n), x, y),
    decreases areas.len() - n,
{
    if n < areas.len() {
        assert(areas.take(n + 1).drop_last() =~= areas.take(n));
        lemma_first_area_prefix(areas, n + 1, x, y);
    } else {
        assert(areas.take(n) =~= areas);
    }
}

/// Whether the pointer is over a link, or over an item that opens on a click:
/// the view then shows a hand.
pub fn is_over_link(links: &Vec<(Area, String)>, item_links: &Vec<(Area, ProjectPadItem)>, x: i32, y: i32) -> (r: bool)
    requires
        areas_ok(links@),
        areas_ok(item_links@),
    ensures
        r == (first_area_with(links@, x, y) is Some || first_area_with(item_links@, x, y) is Some),
{
    first_area_of(links, x, y).is_some() || first_area_of(item_links, x, y).is_some()
}

/// What a click in the search view does, by the positions of the areas clicked.
#[derive(PartialEq, Eq, Structural, Debug, Clone, Copy)]
pub struct ClickOutcome {
    /// Open the address of this link.
    pub open_link: Option<usize>,
    /// Show the actions of the item of this action area.
    pub show_actions: Option<usize>,
    /// Open the item of this item area.
    pub open_item: Option<usize>,
    /// Pick the item of this action area.
    pub select_item: Option<usize>,
}

/// Whether an item can be picked in a search for the given kinds of items.
pub open spec fn can_select(search_item_types: SearchItemsType, item: ProjectPadItem) -> bool {
    match search_item_types {
        SearchItemsType::All => true,
        SearchItemsType::ServersOnly => item is Server,
        SearchItemsType::ServerDbsOnly => item is ServerDatabase,
    }
}

pub open spec fn opt_usize(o: Option<int>) -> Option<usize> {
    match o {
        Some(i) => Some(i as usize),
        None => None,
    }
}

/// What a click does: on a link, it opens the link; otherwise, when the view
/// shows items' actions, a click on an action button shows the item's actions
/// and a click on an item's title opens the item; when the view picks an item, a
/// click on an action button picks the item if the search allows its kind.
pub open spec fn click_outcome(
    links: Seq<(Area, String)>,
    action_areas: Seq<(Area, ProjectPadItem)>,
    item_links: Seq<(Area, ProjectPadItem)>,
    op_mode: OperationMode,
    search_item_types: SearchItemsType,
    x: i32,
    y: i32,
) -> ClickOutcome {
    let none = ClickOutcome { open_link: None, show_actions: None, open_item: None, select_item: None };
    if first_area_with(links, x, y) is Some {
        ClickOutcome { open_link: opt_usize(first_area_with(links, x, y)), ..none }
    } else if op_mode == OperationMode::ItemActions {
        ClickOutcome {
            show_actions: opt_usize(first_area_with(action_areas, x, y)),
            open_item: opt_usize(first_area_with(item_links, x, y)),
            ..none
        }
    } else {
        match first_area_with(action_areas, x, y) {
            Some(i) => if can_select(search_item_types, action_areas[i].1) {
                ClickOutcome { select_item: Some(i as usize), ..none }
            } else {
                none
            },
            None => none,
        }
    }
}

/// What a click at a point of the search view does (see `click_outcome`).
pub fn search_click(
    links: &Vec<(Area, String)>,
    action_areas: &Vec<(Area, ProjectPadItem)>,
    item_links: &Vec<(Area, ProjectPadItem)>,
    op_mode: OperationMode,
    search_item_types: SearchItemsType,
    x: i32,
    y: i32,
) -> (r: ClickOutcome)
    requires
        areas_ok(links@),
        areas_ok(action_areas@),
        areas_ok(item_links@),
    ensures
        r == click_outcome(links@, action_areas@, item_links@, op_mode, search_item_types, x, y),
{
    let none = ClickOutcome { open_link: None, show_actions: None, open_item: None, select_item: None };
    let link = first_area_of(links, x, y);
    if link.is_some() {
        ClickOutcome { open_link: link, ..none }
    } else if op_mode == OperationMode::ItemActions {
        ClickOutcome { show_actions: first_area_of(action_areas, x, y), open_item: first_area_of(item_links, x, y), ..none }
    } else {
        match first_area_of(action_areas, x, y) {
            Some(i) => {
                let allowed = match (search_item_types, &action_areas[i].1) {
                    (SearchItemsType::All, _) => true,
                    (SearchItemsType::ServersOnly, ProjectPadItem::Server(_)) => true,
                    (SearchItemsType::ServerDbsOnly, ProjectPadItem::ServerDatabase(_)) => true,
                    _ => false,
                };
                if allowed {
                    ClickOutcome { select_item: Some(i), ..none }
                } else {
                    none
                }
            },
            None => none,
        }
    }
}

} // verus!

verus! {

/// What releasing a key over the search results does: hide the shortcut hints if
/// they were shown, and, for a digit key `d` held with Ctrl or Alt, open (Ctrl)
/// or edit (Alt) the result at position `d - 1` (`9` for the digit `0`), when
/// there is one.
#[derive(PartialEq, Eq, Structural, Debug, Clone, Copy)]
pub struct KeyReleaseAction {
    pub hide_shortcuts: bool,
    pub open: Option<usize>,
    pub edit: Option<usize>,
}

/// The position of the result that a digit key stands for.
pub open spec fn digit_position(d: u32) -> int {
    if d == 0 { 9 } else { d - 1 }
}

/// What releasing a key does (see `KeyReleaseAction`); `digit` is the key's digit,
/// if it is one.
pub fn release_action(items_len: usize, showing_shortcuts: bool, digit: Option<u32>, ctrl: bool, alt: bool)
    -> (r: KeyReleaseAction)
    ensures
        r.hide_shortcuts == showing_shortcuts,
        r.open == (match digit {
            Some(d) => if ctrl && digit_position(d) < items_len { Some(digit_position(d) as usize) } else { None },
            None => None,
        }),
        r.edit == (match digit {
            Some(d) => if alt && digit_position(d) < items_len { Some(digit_position(d) as usize) } else { None },
            None => None,
        }),
{
    let index: Option<usize> = match digit {
        Some(d) => {
            let i: u32 = if d == 0 { 9 } else { d - 1 };
            if (i as usize) < items_len { Some(i as usize) } else { None }
        },
        None => None,
    };
    let open = if ctrl { index } else { None };
    let edit = if alt { index } else { None };
    KeyReleaseAction { hide_shortcuts: showing_shortcuts, open, edit }
}

} // verus!

verus! {

/// The title of an add or edit dialog: `Edit ` or `Add `, then what it is for.
pub open spec fn dialog_title_of(editing: bool, item_desc: Seq<char>) -> Seq<char> {
    (if editing { "Edit "@ } else { "Add "@ }) + item_desc
}

/// The title of an add or edit dialog (see `dialog_title_of`).
pub fn dialog_title(editing: bool, item_desc: &str) -> (r: String)
    ensures
        r@ == dialog_title_of(editing, item_desc@),
{
    let mut c = if editing { chars_of("Edit ") } else { chars_of("Add ") };
    push_all(&mut c, &chars_of(item_desc));
    string_of_chars(&c)
}

/// Which dialog of the search view an item is edited in: the project dialog, a
/// dialog for an item of a project, or one for an item of a server.
#[derive(PartialEq, Eq, Structural, Debug, Clone, Copy)]
pub enum EditDialogSlot {
    Project,
    ProjectItem,
    ServerItem,
}

/// How the search view edits an item: the dialog's title, the id of the project
/// or server that holds the item (none for a project), and the dialog's kind.
pub struct EditDialogChoice {
    pub title: String,
    pub parent_id: Option<i32>,
    pub slot: EditDialogSlot,
}

/// What the dialog that edits an item of a given kind is for.
pub open spec fn edit_item_desc(item: ProjectPadItem) -> Seq<char> {
    match item {
        ProjectPadItem::Server(_) => "Server"@,
        ProjectPadItem::ProjectPoi(_) => "Project point of interest"@,
        ProjectPadItem::ProjectNote(_) => "Project note"@,
        ProjectPadItem::ServerLink(_) => "Server link"@,
        ProjectPadItem::ServerPoi(_) => "Server POI"@,
        ProjectPadItem::ServerDatabase(_) => "Server Database"@,
        ProjectPadItem::ServerExtraUserAccount(_) => "Server Extra User"@,
        ProjectPadItem::ServerWebsite(_) => "Server Website"@,
        ProjectPadItem::ServerNote(_) => "Server Note"@,
        ProjectPadItem::Project(_) => "Project"@,
    }
}

/// The project or server that holds an item, as the edit dialog gets it.
pub open spec fn edit_parent_id(item: ProjectPadItem) -> Option<i32> {
    match item {
        ProjectPadItem::Server(s) => Some(s.project_id),
        ProjectPadItem::ProjectPoi(p) => Some(p.project_id),
        ProjectPadItem::ProjectNote(n) => Some(n.project_id),
        ProjectPadItem::ServerLink(l) => Some(l.project_id),
        ProjectPadItem::ServerPoi(p) => Some(p.server_id),
        ProjectPadItem::ServerDatabase(d) => Some(d.server_id),
        ProjectPadItem::ServerExtraUserAccount(u) => Some(u.server_id),
        ProjectPadItem::ServerWebsite(w) => Some(w.server_id),
        ProjectPadItem::ServerNote(n) => Some(n.server_id),
        ProjectPadItem::Project(_) => None,
    }
}

pub open spec fn edit_slot(item: ProjectPadItem) -> EditDialogSlot {
    match item {
        ProjectPadItem::Project(_) => EditDialogSlot::Project,
        ProjectPadItem::Server(_) | ProjectPadItem::ProjectPoi(_) | ProjectPadItem::ProjectNote(_)
        | ProjectPadItem::ServerLink(_) => EditDialogSlot::ProjectItem,
        _ => EditDialogSlot::ServerItem,
    }
}

/// How the search view edits an item (see `EditDialogChoice`).
pub fn edit_dialog_choice(item: &ProjectPadItem) -> (r: EditDialogChoice)
    ensures
        r.title@ == dialog_title_of(true, edit_item_desc(*item)),
        r.parent_id == edit_parent_id(*item),
        r.slot == edit_slot(*item),
{
    let (desc, parent_id, slot): (&str, Option<i32>, EditDialogSlot) = match item {
        ProjectPadItem::Server(s) => ("Server", Some(s.project_id), EditDialogSlot::ProjectItem),
        ProjectPadItem::ProjectPoi(p) => ("Project point of interest", Some(p.project_id), EditDialogSlot::ProjectItem),
        ProjectPadItem::ProjectNote(n) => ("Project note", Some(n.project_id), EditDialogSlot::ProjectItem),
        ProjectPadItem::ServerLink(l) => ("Server link", Some(l.project_id), EditDialogSlot::ProjectItem),
        ProjectPadItem::ServerPoi(p) => ("Server POI", Some(p.server_id), EditDialogSlot::ServerItem),
        ProjectPadItem::ServerDatabase(d) => ("Server Database", Some(d.server_id), EditDialogSlot::ServerItem),
        ProjectPadItem::ServerExtraUserAccount(u) => ("Server Extra User", Some(u.server_id), EditDialogSlot::ServerItem),
        ProjectPadItem::ServerWebsite(w) => ("Server Website", Some(w.server_id), EditDialogSlot::ServerItem),
        ProjectPadItem::ServerNote(n) => ("Server Note", Some(n.server_id), EditDialogSlot::ServerItem),
        ProjectPadItem::Project(_) => ("Project", None, EditDialogSlot::Project),
    };
    EditDialogChoice { title: dialog_title(true, desc), parent_id, slot }
}

} // verus!

verus! {

/// An item that Ctrl+Y can copy a password from: a server or a website whose
/// password is set.
pub open spec fn holds_password(item: ProjectPadItem) -> bool {
    ||| item matches ProjectPadItem::Server(s) && s.password@.len() != 0
    ||| item matches ProjectPadItem::ServerWebsite(w) && w.password@.len() != 0
}

proof fn lemma_single_password(items: Seq<ProjectPadItem>, k: int, p: Seq<char>, n: int)
    requires
        0 <= k < items.len(),
        0 <= n <= items.len(),
        (items[k] matches ProjectPadItem::Server(s) && s.password@ == p)
            || (items[k] matches ProjectPadItem::ServerWebsite(w) && w.password@ == p),
        p.len() != 0,
        forall|j: int| 0 <= j < items.len() && j != k ==> !holds_password(#[trigger] items[j]),
    ensures
        passwords_of(items.take(n)) == (if n > k { seq![p] } else { Seq::<Seq<char>>::empty() }),
    decreases n,
{
    if n > 0 {
        lemma_single_password(items, k, p, n - 1);
        let t = items.take(n);
        assert(t.drop_last() =~= items.take(n - 1));
        assert(t.last() == items[n - 1]);
        if n - 1 != k {
            assert(!holds_password(items[n - 1]));
        }
    }
}

/// Ctrl+Y copies the password of the one item that has one: when exactly one of
/// the results, a server or a website alike, has a password set, Ctrl+Y copies
/// that password, whatever else the results hold.
pub proof fn law_ctrl_y_copies_single_password(items: Seq<ProjectPadItem>, k: int, p: Seq<char>, showing_shortcuts: bool)
    requires
        0 <= k < items.len(),
        (items[k] matches ProjectPadItem::Server(s) && s.password@ == p)
            || (items[k] matches ProjectPadItem::ServerWebsite(w) && w.password@ == p),
        p.len() != 0,
        forall|j: int| 0 <= j < items.len() && j != k ==> !holds_password(#[trigger] items[j]),
    ensures
        key_action_of(items, SearchKey::CtrlY, showing_shortcuts) == KeyActionView::CopyToClipboard(p),
{
    lemma_single_password(items, k, p, items.len() as int);
    assert(items.take(items.len() as int) =~= items);
}

/// In a search that picks a server database, a click on the action button of an
/// item (and on no link) picks it when it is a database and does nothing else;
/// in one that picks a server, only servers are picked; otherwise any item is.
pub proof fn law_select_picks_allowed_kind(
    links: Seq<(Area, String)>,
    action_areas: Seq<(Area, ProjectPadItem)>,
    item_links: Seq<(Area, ProjectPadItem)>,
    search_item_types: SearchItemsType,
    x: i32,
    y: i32,
    i: int,
)
    requires
        first_area_with(links, x, y) is None,
        first_area_with(action_areas, x, y) == Some(i),
    ensures
        ({
            let o = click_outcome(links, action_areas, item_links, OperationMode::SelectItem, search_item_types, x, y);
            let allowed = match search_item_types {
                SearchItemsType::ServerDbsOnly => action_areas[i].1 is ServerDatabase,
                SearchItemsType::ServersOnly => action_areas[i].1 is Server,
                SearchItemsType::All => true,
            };
            &&& o.select_item == (if allowed { Some(i as usize) } else { None })
            &&& o.open_link is None
            &&& o.show_actions is None
            &&& o.open_item is None
        }),
{
}

/// An item that Ctrl+E can open: a website server with an address, or a website
/// with an url.
pub open spec fn holds_url(item: ProjectPadItem) -> bool {
    ||| item matches ProjectPadItem::Server(s) && s.access_type == ServerAccessType::SrvAccessWww && s.ip@.len() != 0
    ||| item matches ProjectPadItem::ServerWebsite(w) && w.url@.len() != 0
}

proof fn lemma_single_url(items: Seq<ProjectPadItem>, k: int, u: Seq<char>, n: int)
    requires
        0 <= k < items.len(),
        0 <= n <= items.len(),
        (items[k] matches ProjectPadItem::Server(s) && s.access_type == ServerAccessType::SrvAccessWww && s.ip@ == u)
            || (items[k] matches ProjectPadItem::ServerWebsite(w) && w.url@ == u),
        u.len() != 0,
        forall|j: int| 0 <= j < items.len() && j != k ==> !holds_url(#[trigger] items[j]),
    ensures
        urls_of(items.take(n)) == (if n > k { seq![u] } else { Seq::<Seq<char>>::empty() }),
    decreases n,
{
    if n > 0 {
        lemma_single_url(items, k, u, n - 1);
        let t = items.take(n);
        assert(t.drop_last() =~= items.take(n - 1));
        assert(t.last() == items[n - 1]);
        if n - 1 != k {
            assert(!holds_url(items[n - 1]));
        }
    }
}

/// Ctrl+E opens the address of the one item that has one: when exactly one of the
/// results, a website server or a website, has an address, Ctrl+E opens it.
pub proof fn law_ctrl_e_opens_single_url(items: Seq<ProjectPadItem>, k: int, u: Seq<char>, showing_shortcuts: bool)
    requires
        0 <= k < items.len(),
        (items[k] matches ProjectPadItem::Server(s) && s.access_type == ServerAccessType::SrvAccessWww && s.ip@ == u)
            || (items[k] matches ProjectPadItem::ServerWebsite(w) && w.url@ == u),
        u.len() != 0,
        forall|j: int| 0 <= j < items.len() && j != k ==> !holds_url(#[trigger] items[j]),
    ensures
        key_action_of(items, SearchKey::CtrlE, showing_shortcuts) == KeyActionView::OpenUri(u),
{
    lemma_single_url(items, k, u, items.len() as int);
    assert(items.take(items.len() as int) =~= items);
}

} // verus!
