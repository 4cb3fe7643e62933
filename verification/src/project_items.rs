use vstd::prelude::*;
use crate::chars::{push_all, text_lt, chars_lt, lemma_text_lt_irreflexive, lemma_text_lt_transitive, lemma_text_lt_total};
use crate::import_export_dtos::{name_set, opt_text};
use crate::icons::Icon;
use crate::models::{EnvironmentType, InterestType, ServerType, Project, ProjectNote, ProjectPointOfInterest, Server, ServerAccessType, ServerLink,
    interest_type_desc, interest_type_desc_of, server_poi_get_text_label};
use crate::text::{chars_of, string_of_chars};

verus! {

/// An item that a project holds directly.
#[derive(PartialEq, Eq, Debug, Clone)]
pub enum ProjectItem {
    Server(Server),
    ServerLink(ServerLink),
    ProjectNote(ProjectNote),
    ProjectPointOfInterest(ProjectPointOfInterest),
}

/// The environment that a note is shown under: the last of its environments in
/// the order development, staging, UAT, production, or development when it has
/// none.
pub open spec fn note_env(n: ProjectNote) -> EnvironmentType {
    if n.has_prod {
        EnvironmentType::EnvProd
    } else if n.has_uat {
        EnvironmentType::EnvUat
    } else if n.has_stage {
        EnvironmentType::EnvStage
    } else {
        EnvironmentType::EnvDevelopment
    }
}

pub open spec fn project_env_of(pi: ProjectItem) -> (i32, EnvironmentType) {
    match pi {
        ProjectItem::Server(s) => (s.project_id, s.environment),
        ProjectItem::ServerLink(sl) => (sl.project_id, sl.environment),
        ProjectItem::ProjectNote(n) => (n.project_id, note_env(n)),
        ProjectItem::ProjectPointOfInterest(ppoi) => (ppoi.project_id, EnvironmentType::EnvProd),
    }
}

/// The project of an item, and the environment it is shown under: that of a
/// server or server link, the last environment of a note, and production for a
/// point of interest (which all environments share).
pub fn get_project_env(pi: &ProjectItem) -> (r: (i32, EnvironmentType))
    ensures
        r == project_env_of(*pi),
{
    match pi {
        ProjectItem::Server(s) => (s.project_id, s.environment),
        ProjectItem::ServerLink(sl) => (sl.project_id, sl.environment),
        ProjectItem::ProjectNote(n) => (
            n.project_id,
            if n.has_prod {
                EnvironmentType::EnvProd
            } else if n.has_uat {
                EnvironmentType::EnvUat
            } else if n.has_stage {
                EnvironmentType::EnvStage
            } else {
                EnvironmentType::EnvDevelopment
            },
        ),
        ProjectItem::ProjectPointOfInterest(ppoi) => (ppoi.project_id, EnvironmentType::EnvProd),
    }
}

/// What the confirmation of a deletion names: the kind of item, and the item by
/// its description (its title for a note).
pub fn deletion_prompt(pi: &ProjectItem) -> (r: (&'static str, String))
    ensures
        r.0@ == deletion_kind(*pi),
        r.1@ == deletion_name(*pi),
{
    match pi {
        ProjectItem::Server(srv) => ("server", srv.desc.clone()),
        ProjectItem::ProjectPointOfInterest(poi) => ("project point of interest", poi.desc.clone()),
        ProjectItem::ProjectNote(note) => ("project note", note.title.clone()),
        ProjectItem::ServerLink(srv_link) => ("server link", srv_link.desc.clone()),
    }
}

/// What opening the shown item does.
#[derive(PartialEq, Eq, Debug, Clone)]
pub enum OpenItemAction {
    /// Open this address in the browser.
    OpenUri(String),
    /// Open the server's website, if it has exactly one with an address.
    OpenSingleWebsiteLink,
    /// Edit the note.
    EditProjectNote,
    Nothing,
}

/// What opening an item does: a website server with an address opens it, any
/// other server opens its single website, a note is edited.
pub fn open_item_action(pi: &Option<ProjectItem>) -> (r: OpenItemAction)
    ensures
        match *pi {
            Some(ProjectItem::Server(srv)) => if srv.access_type == ServerAccessType::SrvAccessWww && srv.ip@.len() != 0 {
                r matches OpenItemAction::OpenUri(u) && u@ == srv.ip@
            } else {
                r == OpenItemAction::OpenSingleWebsiteLink
            },
            Some(ProjectItem::ProjectNote(_)) => r == OpenItemAction::EditProjectNote,
            _ => r == OpenItemAction::Nothing,
        },
{
    match pi {
        Some(ProjectItem::Server(srv)) => {
            if srv.access_type == ServerAccessType::SrvAccessWww && !srv.ip.as_str().is_empty() {
                OpenItemAction::OpenUri(srv.ip.clone())
            } else {
                OpenItemAction::OpenSingleWebsiteLink
            }
        },
        Some(ProjectItem::ProjectNote(_)) => OpenItemAction::EditProjectNote,
        _ => OpenItemAction::Nothing,
    }
}

/// The text of a field of the header: plain text, escaped when it is shown, or
/// markup shown as it is.
#[derive(PartialEq, Eq, Debug, Clone)]
pub enum LabelText {
    PlainText(String),
    Markup(String),
}

/// A keyboard shortcut: a key, with or without Ctrl.
#[derive(PartialEq, Eq, Structural, Debug, Clone, Copy)]
pub struct KeyShortcut {
    pub key: char,
    pub ctrl: bool,
}

/// A field of the header of an item: its name, an icon, its text, the value
/// that copying it gives, and a shortcut to copy it.
#[derive(PartialEq, Eq, Debug, Clone)]
pub struct GridItem {
    pub label_name: &'static str,
    pub icon: Option<Icon>,
    pub label: LabelText,
    pub raw_value: String,
    pub shortcut: Option<KeyShortcut>,
}

/// A label's text, as seen in specifications.
pub enum LabelView {
    PlainText(Seq<char>),
    Markup(Seq<char>),
}

/// A header field, as seen in specifications.
pub struct GridItemView {
    pub label_name: Seq<char>,
    pub icon: Option<Seq<char>>,
    pub label: LabelView,
    pub raw_value: Seq<char>,
    pub shortcut: Option<KeyShortcut>,
}

pub open spec fn label_view(l: LabelText) -> LabelView {
    match l {
        LabelText::PlainText(t) => LabelView::PlainText(t@),
        LabelText::Markup(m) => LabelView::Markup(m@),
    }
}

pub open spec fn grid_item_view(g: GridItem) -> GridItemView {
    GridItemView {
        label_name: g.label_name@,
        icon: match g.icon {
            Some(i) => Some(i@),
            None => None,
        },
        label: label_view(g.label),
        raw_value: g.raw_value@,
        shortcut: g.shortcut,
    }
}

pub open spec fn grid_views(v: Seq<GridItem>) -> Seq<GridItemView> {
    Seq::new(v.len(), |i: int| grid_item_view(v[i]))
}

impl GridItem {
    pub fn new(
        label_name: &'static str,
        icon: Option<Icon>,
        label: LabelText,
        raw_value: String,
        shortcut: Option<KeyShortcut>,
    ) -> (r: GridItem)
        ensures
            r == (GridItem { label_name, icon, label, raw_value, shortcut }),
    {
        GridItem { label_name, icon, label, raw_value, shortcut }
    }
}

/// The name of the icon of a server's access type.
pub open spec fn access_icon_name(t: ServerAccessType) -> Seq<char> {
    match t {
        ServerAccessType::SrvAccessSsh => "ssh"@,
        ServerAccessType::SrvAccessSshTunnel => "ssh"@,
        ServerAccessType::SrvAccessRdp => "windows"@,
        ServerAccessType::SrvAccessWww => "http"@,
    }
}

/// The icon of a server's access type.
pub fn server_access_icon(srv: &Server) -> (r: Icon)
    ensures
        r@ == access_icon_name(srv.access_type),
{
    match srv.access_type {
        ServerAccessType::SrvAccessSsh => Icon::SSH(),
        ServerAccessType::SrvAccessSshTunnel => Icon::SSH(),
        ServerAccessType::SrvAccessRdp => Icon::WINDOWS(),
        ServerAccessType::SrvAccessWww => Icon::HTTP(),
    }
}

/// How a server's address is shown: a link for a website server, else plain text.
/// `escaped_ip` is the address escaped for markup.
pub open spec fn ip_display(srv: Server, escaped_ip: Seq<char>) -> LabelView {
    if srv.access_type == ServerAccessType::SrvAccessWww {
        LabelView::Markup("<a href=\""@ + escaped_ip + "\">"@ + escaped_ip + "</a>"@)
    } else {
        LabelView::PlainText(srv.ip@)
    }
}

/// How a server's address is shown (see `ip_display`); `escaped_ip` is the
/// address escaped for markup (as glib's `markup_escape_text` gives it).
pub fn server_ip_display(srv: &Server, escaped_ip: &str) -> (r: LabelText)
    ensures
        label_view(r) == ip_display(*srv, escaped_ip@),
{
    if srv.access_type == ServerAccessType::SrvAccessWww {
        let e = chars_of(escaped_ip);
        let mut m = chars_of("<a href=\"");
        push_all(&mut m, &e);
        let mid = chars_of("\">");
        push_all(&mut m, &mid);
        push_all(&mut m, &e);
        let end = chars_of("</a>");
        push_all(&mut m, &end);
        LabelText::Markup(string_of_chars(&m))
    } else {
        LabelText::PlainText(srv.ip.clone())
    }
}

/// What a password field shows: five dots, or nothing when there is no password.
pub open spec fn masked_password(p: Seq<char>) -> Seq<char> {
    if p.len() == 0 { Seq::empty() } else { "●●●●●"@ }
}

/// The header fields of a server: its address (with the icon of its access
/// type), username, password (masked; copied with Ctrl+Y, except in the search
/// view, which may show several servers) and text.
pub open spec fn server_fields(srv: Server, is_search_view: bool, escaped_ip: Seq<char>) -> Seq<GridItemView> {
    seq![
        GridItemView {
            label_name: "Address"@,
            icon: Some(access_icon_name(srv.access_type)),
            label: ip_display(srv, escaped_ip),
            raw_value: srv.ip@,
            shortcut: None,
        },
        GridItemView {
            label_name: "Username"@,
            icon: None,
            label: LabelView::PlainText(srv.username@),
            raw_value: srv.username@,
            shortcut: None,
        },
        GridItemView {
            label_name: "Password"@,
            icon: None,
            label: LabelView::PlainText(masked_password(srv.password@)),
            raw_value: srv.password@,
            shortcut: if is_search_view { None } else { Some(KeyShortcut { key: 'y', ctrl: true }) },
        },
        GridItemView {
            label_name: "Text"@,
            icon: None,
            label: LabelView::PlainText(srv.text@),
            raw_value: srv.text@,
            shortcut: None,
        },
    ]
}

pub open spec fn poi_text_label(p: ProjectPointOfInterest) -> Seq<char> {
    if p.interest_type == crate::models::InterestType::PoiCommandToRun
        || p.interest_type == crate::models::InterestType::PoiCommandTerminal {
        "Command"@
    } else {
        "Text"@
    }
}

/// The header fields of an item: those of a server; for a server link whose
/// target is known, the target's description and then the target's fields; for a
/// point of interest its kind (copying it gives its path), path and text (named
/// "Command" for the kinds that run one); none otherwise. `escaped_ip` is the
/// address of the server shown (the item, or the link's target), escaped for
/// markup.
pub open spec fn item_fields(
    pi: ProjectItem,
    server_link_target: Option<Server>,
    is_search_view: bool,
    escaped_ip: Seq<char>,
) -> Seq<GridItemView> {
    match pi {
        ProjectItem::Server(srv) => server_fields(srv, is_search_view, escaped_ip),
        ProjectItem::ServerLink(_) => match server_link_target {
            Some(t) => seq![
                GridItemView {
                    label_name: "Links to"@,
                    icon: None,
                    label: LabelView::PlainText(t.desc@),
                    raw_value: t.desc@,
                    shortcut: None,
                },
            ] + server_fields(t, is_search_view, escaped_ip),
            None => Seq::empty(),
        },
        ProjectItem::ProjectPointOfInterest(poi) => seq![
            GridItemView {
                label_name: "Interest Type"@,
                icon: None,
                label: LabelView::PlainText(interest_type_desc_of(poi.interest_type)),
                raw_value: poi.path@,
                shortcut: None,
            },
            GridItemView {
                label_name: "Path"@,
                icon: None,
                label: LabelView::PlainText(poi.path@),
                raw_value: poi.path@,
                shortcut: None,
            },
            GridItemView {
                label_name: poi_text_label(poi),
                icon: None,
                label: LabelView::PlainText(poi.text@),
                raw_value: poi.text@,
                shortcut: None,
            },
        ],
        _ => Seq::empty(),
    }
}

fn string_of(s: &str) -> (r: String)
    ensures
        r@ == s@,
{
    let r = s.to_string();
    proof {
        vstd::string::to_string_from_display_ensures_for_str(s, r);
    }
    r
}

fn push_server_fields(out: &mut Vec<GridItem>, srv: &Server, is_search_view: bool, escaped_ip: &str)
    ensures
        grid_views(final(out)@) == grid_views(old(out)@) + server_fields(*srv, is_search_view, escaped_ip@),
{
    let ghost before = grid_views(out@);
    out.push(GridItem::new("Address", Some(server_access_icon(srv)), server_ip_display(srv, escaped_ip), srv.ip.clone(), None));
    out.push(GridItem::new("Username", None, LabelText::PlainText(srv.username.clone()), srv.username.clone(), None));
    let masked = if srv.password.as_str().is_empty() {
        String::new()
    } else {
        string_of("●●●●●")
    };
    let shortcut = if is_search_view { None } else { Some(KeyShortcut { key: 'y', ctrl: true }) };
    out.push(GridItem::new("Password", None, LabelText::PlainText(masked), srv.password.clone(), shortcut));
    out.push(GridItem::new("Text", None, LabelText::PlainText(srv.text.clone()), srv.text.clone(), None));
    assert(grid_views(out@) =~= before + server_fields(*srv, is_search_view, escaped_ip@));
}

/// The fields of the header of an item (see `item_fields`).
pub fn get_project_item_fields(
    project_item: &ProjectItem,
    server_link_target: &Option<Server>,
    is_search_view: bool,
    escaped_ip: &str,
) -> (r: Vec<GridItem>)
    ensures
        grid_views(r@) == item_fields(*project_item, *server_link_target, is_search_view, escaped_ip@),
{
    let mut out: Vec<GridItem> = Vec::new();
    match project_item {
        ProjectItem::Server(srv) => {
            push_server_fields(&mut out, srv, is_search_view, escaped_ip);
        },
        ProjectItem::ServerLink(_) => {
            match server_link_target {
                Some(t) => {
                    out.push(GridItem::new("Links to", None, LabelText::PlainText(t.desc.clone()), t.desc.clone(), None));
                    push_server_fields(&mut out, t, is_search_view, escaped_ip);
                },
                None => {},
            }
        },
        ProjectItem::ProjectPointOfInterest(poi) => {
            out.push(GridItem::new(
                "Interest Type",
                None,
                LabelText::PlainText(string_of(interest_type_desc(poi.interest_type))),
                poi.path.clone(),
                None,
            ));
            out.push(GridItem::new("Path", None, LabelText::PlainText(poi.path.clone()), poi.path.clone(), None));
            out.push(GridItem::new(
                server_poi_get_text_label(poi.interest_type),
                None,
                LabelText::PlainText(poi.text.clone()),
                poi.text.clone(),
                None,
            ));
        },
        _ => {},
    }
    assert(grid_views(out@) =~= item_fields(*project_item, *server_link_target, is_search_view, escaped_ip@));
    out
}

/// Where an item of a project's list comes from: the list that holds it, and its
/// position there.
#[derive(PartialEq, Eq, Structural, Debug, Clone, Copy)]
pub enum ProjectItemRef {
    Server(usize),
    ServerLink(usize),
    ProjectNote(usize),
    ProjectPointOfInterest(usize),
}

/// The lists of a project's items.
#[derive(PartialEq, Eq, Structural, Debug, Clone, Copy)]
pub enum ItemList {
    Servers,
    ServerLinks,
    ProjectNotes,
    ProjectPois,
}

pub open spec fn item_ref(list: ItemList, i: int) -> ProjectItemRef {
    match list {
        ItemList::Servers => ProjectItemRef::Server(i as usize),
        ItemList::ServerLinks => ProjectItemRef::ServerLink(i as usize),
        ItemList::ProjectNotes => ProjectItemRef::ProjectNote(i as usize),
        ItemList::ProjectPois => ProjectItemRef::ProjectPointOfInterest(i as usize),
    }
}

fn item_ref_exec(list: ItemList, i: usize) -> (r: ProjectItemRef)
    ensures
        r == item_ref(list, i as int),
{
    match list {
        ItemList::Servers => ProjectItemRef::Server(i),
        ItemList::ServerLinks => ProjectItemRef::ServerLink(i),
        ItemList::ProjectNotes => ProjectItemRef::ProjectNote(i),
        ItemList::ProjectPois => ProjectItemRef::ProjectPointOfInterest(i),
    }
}

/// The groups of the items of each list, in order.
pub struct GroupKeys {
    pub servers: Seq<Option<Seq<char>>>,
    pub links: Seq<Option<Seq<char>>>,
    pub notes: Seq<Option<Seq<char>>>,
    pub pois: Seq<Option<Seq<char>>>,
}

pub open spec fn group_keys(
    servers: Seq<Server>,
    links: Seq<ServerLink>,
    notes: Seq<ProjectNote>,
    pois: Seq<ProjectPointOfInterest>,
) -> GroupKeys {
    GroupKeys {
        servers: Seq::new(servers.len(), |i: int| opt_text(servers[i].group_name)),
        links: Seq::new(links.len(), |i: int| opt_text(links[i].group_name)),
        notes: Seq::new(notes.len(), |i: int| opt_text(notes[i].group_name)),
        pois: Seq::new(pois.len(), |i: int| opt_text(pois[i].group_name)),
    }
}

/// The names of the groups that some item belongs to.
pub open spec fn all_group_names(k: GroupKeys) -> Set<Seq<char>> {
    Set::new(|n: Seq<char>| k.servers.contains(Some(n)) || k.links.contains(Some(n)) || k.notes.contains(Some(n))
        || k.pois.contains(Some(n)))
}

/// Texts in strictly increasing order (see `text_lt`).
pub open spec fn strictly_sorted(v: Seq<String>) -> bool {
    forall|i: int, j: int| 0 <= i < j < v.len() ==> text_lt(#[trigger] v[i]@, #[trigger] v[j]@)
}

/// Where the run of items of group `g` that starts at `c` in a list ends.
pub open spec fn run_end(ks: Seq<Option<Seq<char>>>, c: int, g: Option<Seq<char>>) -> int
    decreases ks.len() - c,
{
    if 0 <= c < ks.len() && ks[c] == g { run_end(ks, c + 1, g) } else { c }
}

/// The references to the items `a..b` of a list.
pub open spec fn run_refs(list: ItemList, a: int, b: int) -> Seq<ProjectItemRef> {
    Seq::new((b - a) as nat, |i: int| item_ref(list, a + i))
}

/// How far the grouping has gone in each list.
pub struct Cursors {
    pub servers: int,
    pub links: int,
    pub notes: int,
    pub pois: int,
}

/// The items of group `g` at the cursors: in each list, the run of items of the
/// group from the cursor on.
pub open spec fn step_refs(k: GroupKeys, c: Cursors, g: Option<Seq<char>>) -> Seq<ProjectItemRef> {
    run_refs(ItemList::Servers, c.servers, run_end(k.servers, c.servers, g))
        + run_refs(ItemList::ServerLinks, c.links, run_end(k.links, c.links, g))
        + run_refs(ItemList::ProjectNotes, c.notes, run_end(k.notes, c.notes, g))
        + run_refs(ItemList::ProjectPois, c.pois, run_end(k.pois, c.pois, g))
}

pub open spec fn step_cursors(k: GroupKeys, c: Cursors, g: Option<Seq<char>>) -> Cursors {
    Cursors {
        servers: run_end(k.servers, c.servers, g),
        links: run_end(k.links, c.links, g),
        notes: run_end(k.notes, c.notes, g),
        pois: run_end(k.pois, c.pois, g),
    }
}

/// The items of a project grouped, and where each group starts.
pub struct GroupedItems {
    pub items: Seq<ProjectItemRef>,
    pub starts: Seq<(int, Seq<char>)>,
    pub cursors: Cursors,
}

/// The items without a group, then those of the first `j` of the named groups,
/// each taken from each list as the run of its items that follows the previous
/// group's; each group's start is recorded at the position of its first item (a
/// group with no item gives its start to the next).
pub open spec fn grouped(k: GroupKeys, names: Seq<Seq<char>>, j: int) -> GroupedItems
    decreases j,
{
    if j <= 0 {
        let c0 = Cursors { servers: 0, links: 0, notes: 0, pois: 0 };
        GroupedItems { items: step_refs(k, c0, None), starts: Seq::empty(), cursors: step_cursors(k, c0, None) }
    } else {
        let prev = grouped(k, names, j - 1);
        let g = Some(names[j - 1]);
        let at = prev.items.len() as int;
        GroupedItems {
            items: prev.items + step_refs(k, prev.cursors, g),
            starts: if prev.starts.len() > 0 && prev.starts.last().0 == at {
                prev.starts.drop_last().push((at, names[j - 1]))
            } else {
                prev.starts.push((at, names[j - 1]))
            },
            cursors: step_cursors(k, prev.cursors, g),
        }
    }
}

pub open spec fn starts_view(v: Seq<(usize, String)>) -> Seq<(int, Seq<char>)> {
    Seq::new(v.len(), |i: int| (v[i].0 as int, v[i].1@))
}

pub open spec fn string_views(v: Seq<String>) -> Seq<Seq<char>> {
    Seq::new(v.len(), |i: int| v[i]@)
}

fn opt_clone(o: &Option<String>) -> (r: Option<String>)
    ensures
        opt_text(r) == opt_text(*o),
{
    match o {
        Some(t) => Some(t.clone()),
        None => None,
    }
}

fn opt_text_eq(a: &Option<String>, b: &Option<String>) -> (r: bool)
    ensures
        r == (opt_text(*a) == opt_text(*b)),
{
    match (a, b) {
        (Some(x), Some(y)) => *x == *y,
        (None, None) => true,
        _ => false,
    }
}

pub open spec fn opt_texts(v: Seq<Option<String>>) -> Seq<Option<Seq<char>>> {
    Seq::new(v.len(), |i: int| opt_text(v[i]))
}

fn servers_groups(v: &Vec<Server>) -> (r: Vec<Option<String>>)
    ensures
        opt_texts(r@) == Seq::new(v@.len(), |i: int| opt_text(v@[i].group_name)),
{
    let mut r: Vec<Option<String>> = Vec::new();
    let mut i: usize = 0;
    while i < v.len()
        invariant
            i <= v@.len(),
            r@.len() == i,
            forall|j: int| 0 <= j < i ==> opt_text(#[trigger] r@[j]) == opt_text(v@[j].group_name),
        decreases v@.len() - i,
    {
        let g = opt_clone(&v[i].group_name);
        r.push(g);
        i = i + 1;
    }
    assert(opt_texts(r@) =~= Seq::new(v@.len(), |i: int| opt_text(v@[i].group_name)));
    r
}

fn links_groups(v: &Vec<ServerLink>) -> (r: Vec<Option<String>>)
    ensures
        opt_texts(r@) == Seq::new(v@.len(), |i: int| opt_text(v@[i].group_name)),
{
    let mut r: Vec<Option<String>> = Vec::new();
    let mut i: usize = 0;
    while i < v.len()
        invariant
            i <= v@.len(),
            r@.len() == i,
            forall|j: int| 0 <= j < i ==> opt_text(#[trigger] r@[j]) == opt_text(v@[j].group_name),
        decreases v@.len() - i,
    {
        let g = opt_clone(&v[i].group_name);
        r.push(g);
        i = i + 1;
    }
    assert(opt_texts(r@) =~= Seq::new(v@.len(), |i: int| opt_text(v@[i].group_name)));
    r
}

fn notes_groups(v: &Vec<ProjectNote>) -> (r: Vec<Option<String>>)
    ensures
        opt_texts(r@) == Seq::new(v@.len(), |i: int| opt_text(v@[i].group_name)),
{
    let mut r: Vec<Option<String>> = Vec::new();
    let mut i: usize = 0;
    while i < v.len()
        invariant
            i <= v@.len(),
            r@.len() == i,
            forall|j: int| 0 <= j < i ==> opt_text(#[trigger] r@[j]) == opt_text(v@[j].group_name),
        decreases v@.len() - i,
    {
        let g = opt_clone(&v[i].group_name);
        r.push(g);
        i = i + 1;
    }
    assert(opt_texts(r@) =~= Seq::new(v@.len(), |i: int| opt_text(v@[i].group_name)));
    r
}

fn pois_groups(v: &Vec<ProjectPointOfInterest>) -> (r: Vec<Option<String>>)
    ensures
        opt_texts(r@) == Seq::new(v@.len(), |i: int| opt_text(v@[i].group_name)),
{
    let mut r: Vec<Option<String>> = Vec::new();
    let mut i: usize = 0;
    while i < v.len()
        invariant
            i <= v@.len(),
            r@.len() == i,
            forall|j: int| 0 <= j < i ==> opt_text(#[trigger] r@[j]) == opt_text(v@[j].group_name),
        decreases v@.len() - i,
    {
        let g = opt_clone(&v[i].group_name);
        r.push(g);
        i = i + 1;
    }
    assert(opt_texts(r@) =~= Seq::new(v@.len(), |i: int| opt_text(v@[i].group_name)));
    r
}

fn insert_sorted(names: &mut Vec<String>, n: &String)
    requires
        strictly_sorted(old(names)@),
    ensures
        strictly_sorted(final(names)@),
        name_set(final(names)@) == name_set(old(names)@).insert(n@),
{
    let nc = crate::text::chars_of(n.as_str());
    let mut i: usize = 0;
    let mut stop = false;
    while i < names.len() && !stop
        invariant
            i <= names@.len(),
            nc@ == n@,
            forall|k: int| 0 <= k < i ==> text_lt(#[trigger] names@[k]@, n@),
            stop ==> i < names@.len() && !text_lt(names@[i as int]@, n@),
        decreases names@.len() - i, (if stop { 0int } else { 1int }),
    {
        let c = crate::text::chars_of(names[i].as_str());
        if !chars_lt(&c, &nc) {
            stop = true;
        } else {
            i = i + 1;
        }
    }
    let ghost old_names = names@;
    if i < names.len() && names[i] == *n {
        assert(name_set(names@) =~= name_set(old_names).insert(n@)) by {
            assert(names@[i as int]@ == n@);
        }
    } else {
        proof {
            if i < old_names.len() {
                lemma_text_lt_total(old_names[i as int]@, n@);
                assert(text_lt(n@, old_names[i as int]@));
                assert forall|k: int| i < k < old_names.len() implies text_lt(n@, #[trigger] old_names[k]@) by {
                    lemma_text_lt_transitive(n@, old_names[i as int]@, old_names[k]@);
                }
            }
        }
        names.insert(i, n.clone());
        assert(names@ =~= old_names.insert(i as int, names@[i as int]));
        assert(names@[i as int]@ == n@);
        assert forall|a: int, b: int| 0 <= a < b < names@.len() implies text_lt(#[trigger] names@[a]@, #[trigger] names@[b]@) by {
            if b < i {
                assert(names@[a] == old_names[a] && names@[b] == old_names[b]);
            } else if b == i {
                assert(names@[a] == old_names[a]);
            } else if a == i {
                assert(names@[b] == old_names[b - 1]);
            } else if a < i {
                assert(names@[a] == old_names[a] && names@[b] == old_names[b - 1]);
                assert(text_lt(old_names[a]@, n@));
                assert(text_lt(n@, old_names[b - 1]@));
                lemma_text_lt_transitive(old_names[a]@, n@, old_names[b - 1]@);
            } else {
                assert(names@[a] == old_names[a - 1] && names@[b] == old_names[b - 1]);
            }
        }
        assert forall|x: Seq<char>| name_set(names@).contains(x) <==> name_set(old_names).insert(n@).contains(x) by {
            if name_set(names@).contains(x) {
                let k = choose|k: int| 0 <= k < names@.len() && #[trigger] names@[k]@ == x;
                if k < i {
                    assert(old_names[k]@ == x);
                } else if k > i {
                    assert(old_names[k - 1]@ == x);
                }
            }
            if name_set(old_names).contains(x) {
                let k = choose|k: int| 0 <= k < old_names.len() && #[trigger] old_names[k]@ == x;
                if k < i {
                    assert(names@[k]@ == x);
                } else {
                    assert(names@[k + 1]@ == x);
                }
            }
            if x == n@ {
                assert(names@[i as int]@ == x);
            }
        }
        assert(name_set(names@) =~= name_set(old_names).insert(n@));
    }
}

/// The names of the groups in a list of groups.
pub open spec fn some_names(ks: Seq<Option<Seq<char>>>) -> Set<Seq<char>> {
    Set::new(|n: Seq<char>| ks.contains(Some(n)))
}

fn add_group_names(names: &mut Vec<String>, keys: &Vec<Option<String>>)
    requires
        strictly_sorted(old(names)@),
    ensures
        strictly_sorted(final(names)@),
        name_set(final(names)@) == name_set(old(names)@) + some_names(opt_texts(keys@)),
{
    let ghost ks = opt_texts(keys@);
    let mut i: usize = 0;
    while i < keys.len()
        invariant
            i <= keys@.len(),
            ks == opt_texts(keys@),
            strictly_sorted(names@),
            name_set(names@) == name_set(old(names)@) + some_names(ks.take(i as int)),
        decreases keys@.len() - i,
    {
        let ghost before = name_set(names@);
        match &keys[i] {
            Some(n) => {
                insert_sorted(names, n);
            },
            None => {},
        }
        assert(some_names(ks.take(i + 1)) =~= some_names(ks.take(i as int)) + (match ks[i as int] {
            Some(n) => set![n],
            None => Set::empty(),
        })) by {
            let t1 = ks.take(i + 1);
            let t0 = ks.take(i as int);
            assert forall|n: Seq<char>| #[trigger] t1.contains(Some(n)) implies t0.contains(Some(n)) || ks[i as int] == Some(n) by {
                let k = choose|k: int| 0 <= k < t1.len() && t1[k] == Some(n);
                if k < i {
                    assert(t0[k] == t1[k]);
                }
            }
            assert forall|n: Seq<char>| #[trigger] t0.contains(Some(n)) implies t1.contains(Some(n)) by {
                let k = choose|k: int| 0 <= k < t0.len() && t0[k] == Some(n);
                assert(t1[k] == t0[k]);
            }
            assert(t1[i as int] == ks[i as int]);
        }
        i = i + 1;
    }
    assert(ks.take(keys@.len() as int) =~= ks);
}

fn push_run(items: &mut Vec<ProjectItemRef>, keys: &Vec<Option<String>>, c: usize, g: &Option<String>, list: ItemList) -> (e: usize)
    requires
        c <= keys@.len(),
    ensures
        e == run_end(opt_texts(keys@), c as int, opt_text(*g)),
        c <= e <= keys@.len(),
        final(items)@ == old(items)@ + run_refs(list, c as int, e as int),
{
    let ghost ks = opt_texts(keys@);
    let mut j = c;
    while j < keys.len() && opt_text_eq(&keys[j], g)
        invariant
            c <= j <= keys@.len(),
            ks == opt_texts(keys@),
            run_end(ks, c as int, opt_text(*g)) == run_end(ks, j as int, opt_text(*g)),
            items@ == old(items)@ + run_refs(list, c as int, j as int),
        decreases keys@.len() - j,
    {
        assert(ks[j as int] == opt_text(keys@[j as int]));
        items.push(item_ref_exec(list, j));
        assert(items@ =~= old(items)@ + run_refs(list, c as int, j + 1));
        j = j + 1;
    }
    if j < keys.len() {
        assert(ks[j as int] == opt_text(keys@[j as int]));
    }
    j
}

/// The items of a project grouped as its list shows them: first those in no
/// group, then those of each group, the groups in the order of their names;
/// with the position where each group starts. Each list (servers, server links,
/// notes, points of interest) is read in order, group after group, as a run of
/// the items of the group at hand: it is meant to come sorted by group, those in
/// no group first. The items are given by their list and position.
pub fn group_project_items(
    servers: &Vec<Server>,
    links: &Vec<ServerLink>,
    notes: &Vec<ProjectNote>,
    pois: &Vec<ProjectPointOfInterest>,
) -> (r: (Vec<ProjectItemRef>, Vec<(usize, String)>))
    ensures
        exists|names: Seq<String>| {
            let k = group_keys(servers@, links@, notes@, pois@);
            &&& #[trigger] strictly_sorted(names)
            &&& name_set(names) == all_group_names(k)
            &&& r.0@ == grouped(k, string_views(names), names.len() as int).items
            &&& starts_view(r.1@) == grouped(k, string_views(names), names.len() as int).starts
        },
{
    let ghost k = group_keys(servers@, links@, notes@, pois@);
    let sk = servers_groups(servers);
    let lk = links_groups(links);
    let nk = notes_groups(notes);
    let pk = pois_groups(pois);
    assert(opt_texts(sk@) == k.servers && opt_texts(lk@) == k.links && opt_texts(nk@) == k.notes
        && opt_texts(pk@) == k.pois);
    let mut names: Vec<String> = Vec::new();
    add_group_names(&mut names, &sk);
    add_group_names(&mut names, &lk);
    add_group_names(&mut names, &nk);
    add_group_names(&mut names, &pk);
    assert(name_set(names@) =~= all_group_names(k)) by {
        assert(name_set(Seq::<String>::empty()) =~= Set::<Seq<char>>::empty());
    }
    let ghost nv = string_views(names@);
    let mut items: Vec<ProjectItemRef> = Vec::new();
    let mut starts: Vec<(usize, String)> = Vec::new();
    let none: Option<String> = None;
    let mut cs = push_run(&mut items, &sk, 0, &none, ItemList::Servers);
    let mut cl = push_run(&mut items, &lk, 0, &none, ItemList::ServerLinks);
    let mut cn = push_run(&mut items, &nk, 0, &none, ItemList::ProjectNotes);
    let mut cp = push_run(&mut items, &pk, 0, &none, ItemList::ProjectPois);
    assert(items@ =~= grouped(k, nv, 0).items);
    assert(starts_view(starts@) =~= grouped(k, nv, 0).starts);
    let mut j: usize = 0;
    while j < names.len()
        invariant
            j <= names@.len(),
            nv == string_views(names@),
            opt_texts(sk@) == k.servers && opt_texts(lk@) == k.links && opt_texts(nk@) == k.notes
                && opt_texts(pk@) == k.pois,
            items@ == grouped(k, nv, j as int).items,
            starts_view(starts@) == grouped(k, nv, j as int).starts,
            cs as int == grouped(k, nv, j as int).cursors.servers,
            cl as int == grouped(k, nv, j as int).cursors.links,
            cn as int == grouped(k, nv, j as int).cursors.notes,
            cp as int == grouped(k, nv, j as int).cursors.pois,
            cs <= sk@.len() && cl <= lk@.len() && cn <= nk@.len() && cp <= pk@.len(),
        decreases names@.len() - j,
    {
        let ghost prev = grouped(k, nv, j as int);
        let at = items.len();
        let g = Some(names[j].clone());
        assert(opt_text(g) == Some(nv[j as int]));
        if starts.len() > 0 && starts[starts.len() - 1].0 == at {
            starts.pop();
        }
        starts.push((at, names[j].clone()));
        assert(starts_view(starts@) =~= grouped(k, nv, j + 1).starts);
        cs = push_run(&mut items, &sk, cs, &g, ItemList::Servers);
        cl = push_run(&mut items, &lk, cl, &g, ItemList::ServerLinks);
        cn = push_run(&mut items, &nk, cn, &g, ItemList::ProjectNotes);
        cp = push_run(&mut items, &pk, cp, &g, ItemList::ProjectPois);
        assert(items@ =~= grouped(k, nv, j + 1).items);
        j = j + 1;
    }
    (items, starts)
}

/// What the list of a project's items shows of an item: its icon, its label as
/// markup, and its group.
#[derive(PartialEq, Eq, Debug, Clone)]
pub struct ProjectItemModel {
    pub icon: Icon,
    pub markup: String,
    pub group_name: Option<String>,
}

/// The text that names an item in the list: a description, or a note's title.
pub open spec fn item_label(pi: ProjectItem) -> Seq<char> {
    match pi {
        ProjectItem::Server(s) => s.desc@,
        ProjectItem::ServerLink(l) => l.desc@,
        ProjectItem::ProjectNote(n) => n.title@,
        ProjectItem::ProjectPointOfInterest(p) => p.desc@,
    }
}

/// The text that names an item (see `item_label`).
pub fn project_item_desc(pi: &ProjectItem) -> (r: &str)
    ensures
        r@ == item_label(*pi),
{
    match pi {
        ProjectItem::Server(srv) => srv.desc.as_str(),
        ProjectItem::ServerLink(srv) => srv.desc.as_str(),
        ProjectItem::ProjectNote(note) => note.title.as_str(),
        ProjectItem::ProjectPointOfInterest(poi) => poi.desc.as_str(),
    }
}

pub open spec fn item_group(pi: ProjectItem) -> Option<Seq<char>> {
    match pi {
        ProjectItem::Server(s) => opt_text(s.group_name),
        ProjectItem::ServerLink(l) => opt_text(l.group_name),
        ProjectItem::ProjectNote(n) => opt_text(n.group_name),
        ProjectItem::ProjectPointOfInterest(p) => opt_text(p.group_name),
    }
}

/// The icon of an item in the list: for a server, that of its type (database,
/// reporting, monitoring, HTTP), else Windows for remote desktop access, else a
/// server; a link, a note, or the kind of a point of interest.
pub open spec fn item_icon_name(pi: ProjectItem) -> Seq<char> {
    match pi {
        ProjectItem::Server(srv) => match srv.server_type {
            ServerType::SrvDatabase => "database"@,
            ServerType::SrvReporting => "reporting"@,
            ServerType::SrvMonitoring => "monitoring"@,
            ServerType::SrvHttpOrProxy => "http"@,
            _ => if srv.access_type == ServerAccessType::SrvAccessRdp { "windows"@ } else { "server"@ },
        },
        ProjectItem::ServerLink(_) => "link"@,
        ProjectItem::ProjectNote(_) => "clipboard"@,
        ProjectItem::ProjectPointOfInterest(poi) => match poi.interest_type {
            InterestType::PoiLogFile => "log-file"@,
            InterestType::PoiConfigFile => "config-file"@,
            InterestType::PoiApplication => "cog"@,
            InterestType::PoiCommandToRun => "terminal"@,
            InterestType::PoiCommandTerminal => "terminal"@,
            InterestType::PoiBackupArchive => "archive"@,
        },
    }
}

fn item_icon(pi: &ProjectItem) -> (r: Icon)
    ensures
        r@ == item_icon_name(*pi),
{
    match pi {
        ProjectItem::Server(srv) => match srv.server_type {
            ServerType::SrvDatabase => Icon::DATABASE(),
            ServerType::SrvReporting => Icon::REPORTING(),
            ServerType::SrvMonitoring => Icon::MONITORING(),
            ServerType::SrvHttpOrProxy => Icon::HTTP(),
            _ => if srv.access_type == ServerAccessType::SrvAccessRdp { Icon::WINDOWS() } else { Icon::SERVER() },
        },
        ProjectItem::ServerLink(_) => Icon::SERVER_LINK(),
        ProjectItem::ProjectNote(_) => Icon::NOTE(),
        ProjectItem::ProjectPointOfInterest(poi) => match poi.interest_type {
            InterestType::PoiLogFile => Icon::LOG_FILE(),
            InterestType::PoiConfigFile => Icon::CONFIG_FILE(),
            InterestType::PoiApplication => Icon::COG(),
            InterestType::PoiCommandToRun => Icon::TERMINAL(),
            InterestType::PoiCommandTerminal => Icon::TERMINAL(),
            InterestType::PoiBackupArchive => Icon::ARCHIVE(),
        },
    }
}

/// What the list shows of an item: its icon, its group, and its label (the
/// `escaped_label` given, that is `item_label` escaped for markup) in italics for
/// a retired server.
pub fn get_item_model(project_item: &ProjectItem, escaped_label: &str) -> (r: ProjectItemModel)
    ensures
        r.icon@ == item_icon_name(*project_item),
        opt_text(r.group_name) == item_group(*project_item),
        r.markup@ == (match *project_item {
            ProjectItem::Server(srv) => if srv.is_retired { "<i>"@ + escaped_label@ + "</i>"@ } else { escaped_label@ },
            _ => escaped_label@,
        }),
{
    let group_name = match project_item {
        ProjectItem::Server(srv) => opt_clone(&srv.group_name),
        ProjectItem::ServerLink(link) => opt_clone(&link.group_name),
        ProjectItem::ProjectNote(note) => opt_clone(&note.group_name),
        ProjectItem::ProjectPointOfInterest(poi) => opt_clone(&poi.group_name),
    };
    let retired = match project_item {
        ProjectItem::Server(srv) => srv.is_retired,
        _ => false,
    };
    let e = chars_of(escaped_label);
    let markup = if retired {
        let mut m = chars_of("<i>");
        push_all(&mut m, &e);
        let end = chars_of("</i>");
        push_all(&mut m, &end);
        string_of_chars(&m)
    } else {
        string_of_chars(&e)
    };
    ProjectItemModel { icon: item_icon(project_item), markup, group_name }
}

/// Whether a project has an environment.
pub open spec fn project_has_env(p: Project, env: EnvironmentType) -> bool {
    match env {
        EnvironmentType::EnvDevelopment => p.has_dev,
        EnvironmentType::EnvStage => p.has_stage,
        EnvironmentType::EnvUat => p.has_uat,
        EnvironmentType::EnvProd => p.has_prod,
    }
}

pub open spec fn with_env(p: Project, env: EnvironmentType) -> Project {
    match env {
        EnvironmentType::EnvDevelopment => Project { has_dev: true, ..p },
        EnvironmentType::EnvStage => Project { has_stage: true, ..p },
        EnvironmentType::EnvUat => Project { has_uat: true, ..p },
        EnvironmentType::EnvProd => Project { has_prod: true, ..p },
    }
}

/// Whether moving an item changed its target project (to enable an environment).
#[derive(PartialEq, Eq, Structural, Debug, Clone, Copy)]
pub enum ProjectUpdated {
    Yes,
    No,
}

/// A project with an environment enabled, so that an item can move into it;
/// with whether it had to change (it did not when it had the environment).
pub fn project_enable_env(project: Project, env: EnvironmentType) -> (r: (ProjectUpdated, Project))
    ensures
        r.0 == (if project_has_env(project, env) { ProjectUpdated::No } else { ProjectUpdated::Yes }),
        r.1 == with_env(project, env),
{
    let had = match env {
        EnvironmentType::EnvDevelopment => project.has_dev,
        EnvironmentType::EnvStage => project.has_stage,
        EnvironmentType::EnvUat => project.has_uat,
        EnvironmentType::EnvProd => project.has_prod,
    };
    let updated = if had { ProjectUpdated::No } else { ProjectUpdated::Yes };
    let p = match env {
        EnvironmentType::EnvDevelopment => Project { has_dev: true, ..project },
        EnvironmentType::EnvStage => Project { has_stage: true, ..project },
        EnvironmentType::EnvUat => Project { has_uat: true, ..project },
        EnvironmentType::EnvProd => Project { has_prod: true, ..project },
    };
    (updated, p)
}

/// An item once moved to a project and environment: a server or a server link
/// takes both; a note takes the project and is also present in the environment;
/// a point of interest (which all environments share) takes the project.
pub open spec fn moved_item(pi: ProjectItem, project_id: i32, env: EnvironmentType) -> ProjectItem {
    match pi {
        ProjectItem::Server(s) => ProjectItem::Server(Server { project_id, environment: env, ..s }),
        ProjectItem::ServerLink(l) => ProjectItem::ServerLink(ServerLink { project_id, environment: env, ..l }),
        ProjectItem::ProjectNote(n) => ProjectItem::ProjectNote(match env {
            EnvironmentType::EnvDevelopment => ProjectNote { project_id, has_dev: true, ..n },
            EnvironmentType::EnvStage => ProjectNote { project_id, has_stage: true, ..n },
            EnvironmentType::EnvUat => ProjectNote { project_id, has_uat: true, ..n },
            EnvironmentType::EnvProd => ProjectNote { project_id, has_prod: true, ..n },
        }),
        ProjectItem::ProjectPointOfInterest(p) => ProjectItem::ProjectPointOfInterest(
            ProjectPointOfInterest { project_id, ..p },
        ),
    }
}

/// Moves an item to a project and environment (see `moved_item`).
pub fn move_project_item(pi: ProjectItem, project_id: i32, env: EnvironmentType) -> (r: ProjectItem)
    ensures
        r == moved_item(pi, project_id, env),
{
    match pi {
        ProjectItem::Server(s) => ProjectItem::Server(Server { project_id, environment: env, ..s }),
        ProjectItem::ServerLink(l) => ProjectItem::ServerLink(ServerLink { project_id, environment: env, ..l }),
        ProjectItem::ProjectNote(n) => ProjectItem::ProjectNote(match env {
            EnvironmentType::EnvDevelopment => ProjectNote { project_id, has_dev: true, ..n },
            EnvironmentType::EnvStage => ProjectNote { project_id, has_stage: true, ..n },
            EnvironmentType::EnvUat => ProjectNote { project_id, has_uat: true, ..n },
            EnvironmentType::EnvProd => ProjectNote { project_id, has_prod: true, ..n },
        }),
        ProjectItem::ProjectPointOfInterest(p) => ProjectItem::ProjectPointOfInterest(
            ProjectPointOfInterest { project_id, ..p },
        ),
    }
}

/// A moved item is shown under the project it moved to, and, unless it is a
/// point of interest (shown under production), under the environment it moved to
/// or, for a note, a later one it already had.
pub proof fn law_moved_item_shown_in_target(pi: ProjectItem, project_id: i32, env: EnvironmentType)
    ensures
        project_env_of(moved_item(pi, project_id, env)).0 == project_id,
        pi is Server || pi is ServerLink ==> project_env_of(moved_item(pi, project_id, env)).1 == env,
        pi is ProjectPointOfInterest ==> project_env_of(moved_item(pi, project_id, env)).1 == EnvironmentType::EnvProd,
        pi is ProjectNote ==> crate::export::env_rank(env) <= crate::export::env_rank(
            project_env_of(moved_item(pi, project_id, env)).1),
{
}

/// There is one way only to list a set of names each once in increasing order:
/// so the order in which `group_project_items` takes the groups is fixed by the
/// names alone.
pub proof fn law_sorted_names_unique(a: Seq<String>, b: Seq<String>)
    requires
        strictly_sorted(a),
        strictly_sorted(b),
        name_set(a) == name_set(b),
    ensures
        string_views(a) == string_views(b),
    decreases a.len(),
{
    if a.len() == 0 || b.len() == 0 {
        if a.len() > 0 {
            assert(name_set(a).contains(a[0]@));
        }
        if b.len() > 0 {
            assert(name_set(b).contains(b[0]@));
        }
        assert(string_views(a) =~= string_views(b));
    } else {
        assert(name_set(b).contains(a[0]@));
        let j = choose|j: int| 0 <= j < b.len() && #[trigger] b[j]@ == a[0]@;
        assert(name_set(a).contains(b[0]@));
        let i = choose|i: int| 0 <= i < a.len() && #[trigger] a[i]@ == b[0]@;
        if j > 0 {
            assert(text_lt(b[0]@, b[j]@));
            if i > 0 {
                assert(text_lt(a[0]@, a[i]@));
                lemma_text_lt_transitive(b[0]@, a[0]@, b[0]@);
            }
            lemma_text_lt_irreflexive(b[0]@);
        }
        assert(a[0]@ == b[0]@);
        let ta = a.drop_first();
        let tb = b.drop_first();
        assert forall|x, y| 0 <= x < y < ta.len() implies text_lt(#[trigger] ta[x]@, #[trigger] ta[y]@) by {
            assert(ta[x] == a[x + 1] && ta[y] == a[y + 1]);
        }
        assert forall|x, y| 0 <= x < y < tb.len() implies text_lt(#[trigger] tb[x]@, #[trigger] tb[y]@) by {
            assert(tb[x] == b[x + 1] && tb[y] == b[y + 1]);
        }
        assert forall|n: Seq<char>| name_set(ta).contains(n) <==> name_set(tb).contains(n) by {
            if name_set(ta).contains(n) {
                let k = choose|k: int| 0 <= k < ta.len() && #[trigger] ta[k]@ == n;
                assert(a[k + 1]@ == n);
                assert(name_set(b).contains(n));
                let m = choose|m: int| 0 <= m < b.len() && #[trigger] b[m]@ == n;
                if m == 0 {
                    assert(text_lt(a[0]@, a[k + 1]@));
                    lemma_text_lt_irreflexive(n);
                }
                assert(tb[m - 1]@ == n);
            }
            if name_set(tb).contains(n) {
                let k = choose|k: int| 0 <= k < tb.len() && #[trigger] tb[k]@ == n;
                assert(b[k + 1]@ == n);
                assert(name_set(a).contains(n));
                let m = choose|m: int| 0 <= m < a.len() && #[trigger] a[m]@ == n;
                if m == 0 {
                    assert(text_lt(b[0]@, b[k + 1]@));
                    lemma_text_lt_irreflexive(n);
                }
                assert(ta[m - 1]@ == n);
            }
        }
        assert(name_set(ta) =~= name_set(tb));
        law_sorted_names_unique(ta, tb);
        assert(string_views(a) =~= string_views(b)) by {
            assert(string_views(ta).len() == string_views(tb).len());
            assert(a.len() == b.len());
            assert forall|x: int| 0 <= x < a.len() implies string_views(a)[x] == string_views(b)[x] by {
                if x > 0 {
                    assert(string_views(ta)[x - 1] == string_views(tb)[x - 1]);
                    assert(ta[x - 1] == a[x] && tb[x - 1] == b[x]);
                }
            }
        }
    }
}

/// The group that the dialogs store for an item: none rather than an empty name.
pub fn stored_group_name(group: Option<String>) -> (r: Option<String>)
    ensures
        opt_text(r) == (match opt_text(group) {
            Some(g) => if g.len() == 0 { None } else { Some(g) },
            None => None,
        }),
{
    match group {
        Some(g) => if g.as_str().is_empty() { None } else { Some(g) },
        None => None,
    }
}

/// The actions offered by the header of an item.
#[derive(PartialEq, Eq, Structural, Debug, Clone, Copy)]
pub enum ActionTypes {
    Edit,
    Copy,
    Delete,
    Move,
    AddItem,
    GotoItem,
}

/// What the header does when one of its actions is chosen.
#[derive(PartialEq, Eq, Debug, Clone)]
pub enum HeaderAction {
    CopyToClipboard(String),
    /// Show the server that the shown server link points to.
    GotoLinkedServer(i32),
    /// Show the dialog that edits the item, with this title.
    EditItem(&'static str),
    MoveItem,
    /// Ask whether to delete the item: a title and a question.
    ConfirmDeletion(String, String),
    ShowServerAddItemDialog,
    Nothing,
}

/// The title of the dialog that edits an item.
pub open spec fn edit_dialog_title(pi: ProjectItem) -> Seq<char> {
    match pi {
        ProjectItem::Server(_) => "Server"@,
        ProjectItem::ProjectPointOfInterest(_) => "Project POI"@,
        ProjectItem::ProjectNote(_) => "Project note"@,
        ProjectItem::ServerLink(_) => "Server link"@,
    }
}

/// The kind of an item, as the confirmation of its deletion names it.
pub open spec fn deletion_kind(pi: ProjectItem) -> Seq<char> {
    match pi {
        ProjectItem::Server(_) => "server"@,
        ProjectItem::ProjectPointOfInterest(_) => "project point of interest"@,
        ProjectItem::ProjectNote(_) => "project note"@,
        ProjectItem::ServerLink(_) => "server link"@,
    }
}

/// The item, as the confirmation of its deletion names it: its description, or a
/// note's title.
pub open spec fn deletion_name(pi: ProjectItem) -> Seq<char> {
    match pi {
        ProjectItem::Server(s) => s.desc@,
        ProjectItem::ProjectPointOfInterest(p) => p.desc@,
        ProjectItem::ProjectNote(n) => n.title@,
        ProjectItem::ServerLink(l) => l.desc@,
    }
}

/// What choosing an action of the header does for the item shown (or for none):
/// copy copies the value given; going to the item of a server link shows its
/// server; editing, moving and deleting concern the item shown, deleting after a
/// confirmation that names it; adding opens the dialog that adds an item to a
/// server.
pub fn header_action(action: ActionTypes, value: String, item: &Option<ProjectItem>) -> (r: HeaderAction)
    ensures
        match action {
            ActionTypes::Copy => r matches HeaderAction::CopyToClipboard(v) && v@ == value@,
            ActionTypes::GotoItem => match *item {
                Some(ProjectItem::ServerLink(l)) => r == HeaderAction::GotoLinkedServer(l.linked_server_id),
                _ => r == HeaderAction::Nothing,
            },
            ActionTypes::Edit => match *item {
                Some(pi) => r matches HeaderAction::EditItem(t) && t@ == edit_dialog_title(pi),
                None => r == HeaderAction::Nothing,
            },
            ActionTypes::Move => r == (if item is Some { HeaderAction::MoveItem } else { HeaderAction::Nothing }),
            ActionTypes::Delete => match *item {
                Some(pi) => r matches HeaderAction::ConfirmDeletion(t, q)
                    && (t@, q@) == crate::deletion::deletion_confirmation(deletion_kind(pi), deletion_name(pi)),
                None => r == HeaderAction::Nothing,
            },
            ActionTypes::AddItem => r == HeaderAction::ShowServerAddItemDialog,
        },
{
    match action {
        ActionTypes::Copy => HeaderAction::CopyToClipboard(value),
        ActionTypes::GotoItem => match item {
            Some(ProjectItem::ServerLink(l)) => HeaderAction::GotoLinkedServer(l.linked_server_id),
            _ => HeaderAction::Nothing,
        },
        ActionTypes::Edit => match item {
            Some(ProjectItem::Server(_)) => HeaderAction::EditItem("Server"),
            Some(ProjectItem::ProjectPointOfInterest(_)) => HeaderAction::EditItem("Project POI"),
            Some(ProjectItem::ProjectNote(_)) => HeaderAction::EditItem("Project note"),
            Some(ProjectItem::ServerLink(_)) => HeaderAction::EditItem("Server link"),
            None => HeaderAction::Nothing,
        },
        ActionTypes::Move => if item.is_some() { HeaderAction::MoveItem } else { HeaderAction::Nothing },
        ActionTypes::Delete => match item {
            Some(pi) => {
                let (kind, name) = deletion_prompt(pi);
                let (t, q) = crate::deletion::item_deletion_confirmation(kind, name.as_str());
                HeaderAction::ConfirmDeletion(t, q)
            },
            None => HeaderAction::Nothing,
        },
        ActionTypes::AddItem => HeaderAction::ShowServerAddItemDialog,
    }
}

/// The password that Ctrl+Y copies from the header: that of the server shown,
/// when it has one.
pub fn password_to_copy(item: &Option<ProjectItem>) -> (r: Option<String>)
    ensures
        opt_text(r) == (match *item {
            Some(ProjectItem::Server(s)) => if s.password@.len() == 0 { None } else { Some(s.password@) },
            _ => None,
        }),
{
    match item {
        Some(ProjectItem::Server(srv)) => if srv.password.as_str().is_empty() { None } else { Some(srv.password.clone()) },
        _ => None,
    }
}

/// The environment shown when a project is opened: its last one in the order
/// development, staging, UAT, production; none when it has none.
pub open spec fn opening_environment(p: Project) -> Option<EnvironmentType> {
    if p.has_prod {
        Some(EnvironmentType::EnvProd)
    } else if p.has_uat {
        Some(EnvironmentType::EnvUat)
    } else if p.has_stage {
        Some(EnvironmentType::EnvStage)
    } else if p.has_dev {
        Some(EnvironmentType::EnvDevelopment)
    } else {
        None
    }
}

/// The environment shown when a project is opened (see `opening_environment`).
pub fn default_environment(project: &Project) -> (r: Option<EnvironmentType>)
    ensures
        r == opening_environment(*project),
        r matches Some(e) ==> project_has_env(*project, e),
{
    if project.has_prod {
        Some(EnvironmentType::EnvProd)
    } else if project.has_uat {
        Some(EnvironmentType::EnvUat)
    } else if project.has_stage {
        Some(EnvironmentType::EnvStage)
    } else if project.has_dev {
        Some(EnvironmentType::EnvDevelopment)
    } else {
        None
    }
}

/// Whether activating a project is to be told to the panes around the list.
#[derive(PartialEq, Eq, Structural, Debug, Clone, Copy)]
pub enum UpdateParents {
    Yes,
    No,
}

/// The position of the first project with the given id.
pub open spec fn project_index(projects: Seq<Project>, id: i32) -> Option<int>
    decreases projects.len(),
{
    if projects.len() == 0 {
        None
    } else {
        match project_index(projects.drop_last(), id) {
            Some(i) => Some(i),
            None => if projects.last().id == id { Some(projects.len() - 1) } else { None },
        }
    }
}

/// The project that the list activates once it is loaded: the one that was
/// active, if it is still there (without telling the other panes); else the
/// first one (telling them); none when the list is empty.
pub open spec fn project_to_activate_of(projects: Seq<Project>, active_project_id: Option<i32>) -> Option<(int, UpdateParents)> {
    match active_project_id {
        Some(pid) if project_index(projects, pid) is Some => Some((project_index(projects, pid)->0, UpdateParents::No)),
        _ => if projects.len() > 0 { Some((0, UpdateParents::Yes)) } else { None },
    }
}

fn project_index_of(projects: &Vec<Project>, id: i32) -> (r: Option<usize>)
    ensures
        match r {
            Some(i) => i < projects@.len() && project_index(projects@, id) == Some(i as int),
            None => project_index(projects@, id) is None,
        },
{
    let mut i: usize = 0;
    while i < projects.len()
        invariant
            i <= projects@.len(),
            project_index(projects@.take(i as int), id) is None,
        decreases projects@.len() - i,
    {
        let ghost t = projects@.take(i + 1);
        assert(t.drop_last() =~= projects@.take(i as int));
        assert(t.last() == projects@[i as int]);
        if projects[i].id == id {
            proof {
                assert(project_index(t, id) == Some(i as int));
                lemma_project_index_prefix(projects@, i as int + 1, id);
            }
            return Some(i);
        }
        i = i + 1;
    }
    assert(projects@.take(projects@.len() as int) =~= projects@);
    None
}

proof fn lemma_project_index_prefix(projects: Seq<Project>, n: int, id: i32)
    requires
        0 <= n <= projects.len(),
        project_index(projects.take(n), id) is Some,
    ensures
        project_index(projects, id) == project_index(projects.take(n), id),
    decreases projects.len() - n,
{
    if n < projects.len() {
        assert(projects.take(n + 1).drop_last() =~= projects.take(n));
        lemma_project_index_prefix(projects, n + 1, id);
    } else {
        assert(projects.take(n) =~= projects);
    }
}

/// The project that the list activates once it is loaded (see
/// `project_to_activate_of`), by its position.
pub fn project_to_activate(projects: &Vec<Project>, active_project_id: Option<i32>) -> (r: Option<(usize, UpdateParents)>)
    ensures
        match r {
            Some((i, u)) => project_to_activate_of(projects@, active_project_id) == Some((i as int, u)),
            None => project_to_activate_of(projects@, active_project_id) is None,
        },
{
    match active_project_id {
        Some(pid) => match project_index_of(projects, pid) {
            Some(i) => return Some((i, UpdateParents::No)),
            None => {},
        },
        None => {},
    }
    if projects.len() > 0 {
        Some((0, UpdateParents::Yes))
    } else {
        None
    }
}

/// How the project dialog names a project's picture: `<name picture>` when the
/// project has one, nothing otherwise.
pub fn icon_desc(name: &str, icon: &Option<Vec<u8>>) -> (r: Option<String>)
    ensures
        match r {
            Some(t) => icon is Some && t@ == "<"@ + name@ + " picture>"@,
            None => icon is None,
        },
{
    match icon {
        Some(_) => {
            let mut c = chars_of("<");
            push_all(&mut c, &chars_of(name));
            push_all(&mut c, &chars_of(" picture>"));
            Some(string_of_chars(&c))
        },
        None => None,
    }
}

/// The header fields of a server say what they name: the field named `Username`
/// shows the server's username and copies it; `Text` shows and copies its text;
/// `Address` copies its address; `Password` copies its password and shows at most
/// a row of dots, never the password. Each of these fields is there once.
pub open spec fn server_fields_faithful(f: Seq<GridItemView>, srv: Server) -> bool {
    &&& exists|i: int| 0 <= i < f.len() && (#[trigger] f[i]).label_name == "Username"@
    &&& forall|i: int| 0 <= i < f.len() && (#[trigger] f[i]).label_name == "Username"@
        ==> f[i].label == LabelView::PlainText(srv.username@) && f[i].raw_value == srv.username@
    &&& forall|i: int| 0 <= i < f.len() && (#[trigger] f[i]).label_name == "Text"@
        ==> f[i].label == LabelView::PlainText(srv.text@) && f[i].raw_value == srv.text@
    &&& forall|i: int| 0 <= i < f.len() && (#[trigger] f[i]).label_name == "Address"@
        ==> f[i].raw_value == srv.ip@
    &&& forall|i: int| 0 <= i < f.len() && (#[trigger] f[i]).label_name == "Password"@
        ==> f[i].raw_value == srv.password@ && (f[i].label == LabelView::PlainText(Seq::empty())
            || f[i].label == LabelView::PlainText("●●●●●"@))
}

proof fn lemma_field_names_differ()
    ensures
        "Username"@ != "Address"@,
        "Username"@ != "Password"@,
        "Username"@ != "Text"@,
        "Username"@ != "Links to"@,
        "Text"@ != "Address"@,
        "Text"@ != "Password"@,
        "Text"@ != "Links to"@,
        "Address"@ != "Password"@,
        "Address"@ != "Links to"@,
        "Password"@ != "Links to"@,
{
    reveal_strlit("Username");
    reveal_strlit("Address");
    reveal_strlit("Password");
    reveal_strlit("Text");
    reveal_strlit("Links to");
    assert("Username"@[0] != "Password"@[0]);
    assert("Username"@.len() != "Address"@.len());
    assert("Username"@.len() != "Text"@.len());
    assert("Username"@[0] != "Links to"@[0]);
    assert("Text"@.len() != "Address"@.len());
    assert("Text"@.len() != "Password"@.len());
    assert("Text"@.len() != "Links to"@.len());
    assert("Address"@.len() != "Password"@.len());
    assert("Address"@.len() != "Links to"@.len());
    assert("Password"@[0] != "Links to"@[0]);
}

/// The header of a server, and that of a server link with a known target, show
/// each field of that server faithfully (see `server_fields_faithful`).
pub proof fn law_server_header_fields(srv: Server, link: ServerLink, target: Option<Server>, is_search_view: bool,
    escaped_ip: Seq<char>)
    ensures
        server_fields_faithful(item_fields(ProjectItem::Server(srv), target, is_search_view, escaped_ip), srv),
        target matches Some(t) ==> server_fields_faithful(
            item_fields(ProjectItem::ServerLink(link), target, is_search_view, escaped_ip), t),
{
    lemma_field_names_differ();
    let f = item_fields(ProjectItem::Server(srv), target, is_search_view, escaped_ip);
    assert(f[1].label_name == "Username"@);
    if let Some(t) = target {
        let g = item_fields(ProjectItem::ServerLink(link), target, is_search_view, escaped_ip);
        assert(g[2].label_name == "Username"@);
    }
}

} // verus!
