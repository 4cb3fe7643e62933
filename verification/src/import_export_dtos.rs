use vstd::prelude::*;
use crate::models::{EnvironmentType, InterestType, Server, ServerAccessType, ServerDatabase, ServerExtraUserAccount,
    ServerNote, ServerPointOfInterest, ServerType, interest_type_name, server_access_type_name, server_type_name};
use crate::note_buffer::decimal;
use crate::text::string_eq_str;

verus! {

/// A value written to an exported project.
#[derive(PartialEq, Eq, Debug, Clone)]
pub enum ExportValue {
    Str(String),
    Int(i32),
    Bool(bool),
}

/// What an exported entry holds, as seen in specifications.
pub enum ValueView {
    Str(Seq<char>),
    Int(i32),
    Bool(bool),
}

pub open spec fn value_view(v: ExportValue) -> ValueView {
    match v {
        ExportValue::Str(s) => ValueView::Str(s@),
        ExportValue::Int(i) => ValueView::Int(i),
        ExportValue::Bool(b) => ValueView::Bool(b),
    }
}

/// The entries of an export, as seen in specifications.
pub open spec fn entries_view(e: Seq<(String, ExportValue)>) -> Seq<(Seq<char>, ValueView)> {
    Seq::new(e.len(), |i: int| (e[i].0@, value_view(e[i].1)))
}

/// The entry of a text, only when the text is not empty.
pub open spec fn if_present(key: Seq<char>, value: Seq<char>) -> Seq<(Seq<char>, ValueView)> {
    if value.len() != 0 { seq![(key, ValueView::Str(value))] } else { Seq::empty() }
}

fn push_entry(entries: &mut Vec<(String, ExportValue)>, key: &str, value: ExportValue)
    ensures
        entries_view(final(entries)@) == entries_view(old(entries)@).push((key@, value_view(value))),
{
    let ghost before = entries_view(entries@);
    entries.push((key.to_string(), value));
    proof {
        vstd::string::to_string_from_display_ensures_for_str(key, entries@.last().0);
    }
    assert(entries_view(entries@) =~= before.push((key@, value_view(value))));
}

fn push_if_present(entries: &mut Vec<(String, ExportValue)>, key: &str, value: &String)
    ensures
        entries_view(final(entries)@) == entries_view(old(entries)@) + if_present(key@, value@),
{
    if !value.as_str().is_empty() {
        push_entry(entries, key, ExportValue::Str(value.clone()));
        assert(entries_view(entries@) =~= entries_view(old(entries)@) + if_present(key@, value@));
    } else {
        assert(value@.len() == 0);
        assert(entries_view(entries@) =~= entries_view(old(entries)@) + if_present(key@, value@));
    }
}

fn push_if_some(entries: &mut Vec<(String, ExportValue)>, key: &str, value: &Option<String>)
    ensures
        entries_view(final(entries)@) == entries_view(old(entries)@) + (match value {
            Some(v) => seq![(key@, ValueView::Str(v@))],
            None => Seq::empty(),
        }),
{
    match value {
        Some(v) => {
            push_entry(entries, key, ExportValue::Str(v.clone()));
        },
        None => {
            assert(entries_view(entries@) =~= entries_view(old(entries)@) + Seq::empty());
        },
    }
}

/// A note of a project, as exported. A note shared by several environments is
/// written in full once; the other times only its title is given, as the one it
/// shares.
pub struct ProjectNoteImportExport {
    pub title: String,
    pub contents: String,
    pub shared_with_other_environments: Option<String>,
}

pub open spec fn project_note_entries(n: ProjectNoteImportExport) -> Seq<(Seq<char>, ValueView)> {
    if n.shared_with_other_environments is None {
        if_present("title"@, n.title@) + if_present("contents"@, n.contents@)
    } else {
        seq![("shared_with_other_environments"@, ValueView::Str(n.title@))]
    }
}

impl ProjectNoteImportExport {
    /// The entries that the export writes for the note, in order.
    pub fn export_entries(&self) -> (r: Vec<(String, ExportValue)>)
        ensures
            entries_view(r@) == project_note_entries(*self),
    {
        let mut entries: Vec<(String, ExportValue)> = Vec::new();
        if self.shared_with_other_environments.is_none() {
            push_if_present(&mut entries, "title", &self.title);
            push_if_present(&mut entries, "contents", &self.contents);
            assert(entries_view(entries@) =~= project_note_entries(*self));
        } else {
            push_entry(&mut entries, "shared_with_other_environments", ExportValue::Str(self.title.clone()));
            assert(entries_view(entries@) =~= project_note_entries(*self));
        }
        entries
    }
}

/// A point of interest of a project, as exported. One shared by several
/// environments is written in full once; the other times only its description
/// (or, without one, its text) is given.
pub struct ProjectPoiImportExport {
    pub desc: String,
    pub path: String,
    pub text: String,
    pub interest_type: InterestType,
    pub shared_with_other_environments: Option<String>,
}

pub open spec fn project_poi_entries(p: ProjectPoiImportExport) -> Seq<(Seq<char>, ValueView)> {
    if p.shared_with_other_environments is None {
        if_present("desc"@, p.desc@) + if_present("path"@, p.path@) + if_present("text"@, p.text@) + seq![
            ("interest_type"@, ValueView::Str(interest_type_name(p.interest_type))),
        ]
    } else {
        seq![
            ("shared_with_other_environments"@, ValueView::Str(
                if p.desc@.len() == 0 { p.text@ } else { p.desc@ },
            )),
        ]
    }
}

impl ProjectPoiImportExport {
    /// The entries that the export writes for the point of interest, in order.
    pub fn export_entries(&self) -> (r: Vec<(String, ExportValue)>)
        ensures
            entries_view(r@) == project_poi_entries(*self),
    {
        let mut entries: Vec<(String, ExportValue)> = Vec::new();
        if self.shared_with_other_environments.is_none() {
            push_if_present(&mut entries, "desc", &self.desc);
            push_if_present(&mut entries, "path", &self.path);
            push_if_present(&mut entries, "text", &self.text);
            let itn = self.interest_type.name();
            let it = itn.to_string();
            proof {
                vstd::string::to_string_from_display_ensures_for_str(itn, it);
            }
            push_entry(&mut entries, "interest_type", ExportValue::Str(it));
            assert(entries_view(entries@) =~= project_poi_entries(*self));
        } else {
            let shared = if self.desc.as_str().is_empty() { self.text.clone() } else { self.desc.clone() };
            push_entry(&mut entries, "shared_with_other_environments", ExportValue::Str(shared));
            assert(entries_view(entries@) =~= project_poi_entries(*self));
        }
        entries
    }
}


/// A server, as exported; `data_path` is the folder of its files, if any.
pub struct ServerImportExport {
    pub server: Server,
    pub data_path: Option<String>,
}

pub open spec fn opt_entry(key: Seq<char>, value: Option<String>) -> Seq<(Seq<char>, ValueView)> {
    match value {
        Some(v) => seq![(key, ValueView::Str(v@))],
        None => Seq::empty(),
    }
}

/// The leading entries of an exported server: its id when it has no description
/// (so that links can still name it), else its description; then its address,
/// text, whether it is retired and its credentials, where set.
pub open spec fn server_head_entries(srv: Server) -> Seq<(Seq<char>, ValueView)> {
    (if srv.desc@.len() == 0 { seq![("id"@, ValueView::Int(srv.id))] } else { seq![("desc"@, ValueView::Str(srv.desc@))] })
        + if_present("ip"@, srv.ip@) + if_present("text"@, srv.text@)
        + (if srv.is_retired { seq![("is_retired"@, ValueView::Bool(true))] } else { Seq::empty() })
        + if_present("username"@, srv.username@) + if_present("password"@, srv.password@)
}

/// The trailing entries of an exported server: its files' folder and key file
/// where given, its types, and its tunnel port where given.
pub open spec fn server_tail_entries(s: ServerImportExport) -> Seq<(Seq<char>, ValueView)> {
    let srv = s.server;
    opt_entry("data_folder"@, s.data_path) + opt_entry("auth_key_filename"@, srv.auth_key_filename)
        + seq![
            ("server_type"@, ValueView::Str(server_type_name(srv.server_type))),
            ("access_type"@, ValueView::Str(server_access_type_name(srv.access_type))),
        ]
        + match srv.ssh_tunnel_port {
            Some(p) => seq![("ssh_tunnel_port"@, ValueView::Int(p))],
            None => Seq::empty(),
        }
}

/// The entries of an exported server, in order.
pub open spec fn server_entries(s: ServerImportExport) -> Seq<(Seq<char>, ValueView)> {
    server_head_entries(s.server) + server_tail_entries(s)
}

fn string_of(s: &str) -> (r: String)
    ensures
        r@ == s@,
{
    let r = s.to_string();
    proof {
        vstd::string::to_string_from_display_ensures_for_str(s, r);
    }
    r
}

/// Why an exported server could not be read back.
#[derive(PartialEq, Eq, Structural, Debug, Clone, Copy)]
pub enum ServerImportError {
    MissingOrInvalidServerType,
    MissingOrInvalidAccessType,
}

impl ServerImportError {
    /// The message of the error.
    pub fn message(&self) -> (r: &'static str)
        ensures
            r@ == (match self {
                ServerImportError::MissingOrInvalidServerType => "missing or invalid server_type"@,
                ServerImportError::MissingOrInvalidAccessType => "missing or invalid access_type"@,
            }),
    {
        match self {
            ServerImportError::MissingOrInvalidServerType => "missing or invalid server_type",
            ServerImportError::MissingOrInvalidAccessType => "missing or invalid access_type",
        }
    }
}

/// The text of an optional string.
pub open spec fn opt_text(o: Option<String>) -> Option<Seq<char>> {
    match o {
        Some(t) => Some(t@),
        None => None,
    }
}

/// Key and value texts of entries read back from an export.
pub open spec fn text_entries(e: Seq<(String, String)>) -> Seq<(Seq<char>, Seq<char>)> {
    Seq::new(e.len(), |i: int| (e[i].0@, e[i].1@))
}

/// The value of the last entry with the given key, as a map built from the
/// entries in order keeps it.
pub open spec fn lookup(entries: Seq<(Seq<char>, Seq<char>)>, key: Seq<char>) -> Option<Seq<char>>
    decreases entries.len(),
{
    if entries.len() == 0 {
        None
    } else if entries.last().0 == key {
        Some(entries.last().1)
    } else {
        lookup(entries.drop_last(), key)
    }
}

fn find_entry(entries: &Vec<(String, String)>, key: &str) -> (r: Option<String>)
    ensures
        opt_text(r) == lookup(text_entries(entries@), key@),
{
    let ghost t = text_entries(entries@);
    let mut i = entries.len();
    assert(t.take(i as int) =~= t);
    while i > 0
        invariant
            i <= entries@.len(),
            t == text_entries(entries@),
            lookup(t, key@) == lookup(t.take(i as int), key@),
        decreases i,
    {
        assert(t.take(i as int).drop_last() =~= t.take(i - 1));
        assert(t.take(i as int).last() == t[i - 1]);
        if string_eq_str(&entries[i - 1].0, key) {
            return Some(entries[i - 1].1.clone());
        }
        i = i - 1;
    }
    None
}

pub open spec fn text_or_empty(v: Option<Seq<char>>) -> Seq<char> {
    match v {
        Some(s) => s,
        None => Seq::empty(),
    }
}

pub open spec fn parsed_server_type(v: Option<Seq<char>>) -> Option<ServerType> {
    match v {
        Some(s) => if exists|t: ServerType| server_type_name(t) == s {
            Some(choose|t: ServerType| server_type_name(t) == s)
        } else {
            None
        },
        None => None,
    }
}

pub open spec fn parsed_access_type(v: Option<Seq<char>>) -> Option<ServerAccessType> {
    match v {
        Some(s) => if exists|t: ServerAccessType| server_access_type_name(t) == s {
            Some(choose|t: ServerAccessType| server_access_type_name(t) == s)
        } else {
            None
        },
        None => None,
    }
}

proof fn lemma_server_type_names_distinct(a: ServerType, b: ServerType)
    ensures
        server_type_name(a) == server_type_name(b) ==> a == b,
{
    reveal_strlit("SrvDatabase");
    reveal_strlit("SrvApplication");
    reveal_strlit("SrvHttpOrProxy");
    reveal_strlit("SrvMonitoring");
    reveal_strlit("SrvReporting");
    if server_type_name(a) == server_type_name(b) && a != b {
        assert(server_type_name(a)[3] != server_type_name(b)[3] || server_type_name(a).len() != server_type_name(b).len());
    }
}

proof fn lemma_access_type_names_distinct(a: ServerAccessType, b: ServerAccessType)
    ensures
        server_access_type_name(a) == server_access_type_name(b) ==> a == b,
{
    reveal_strlit("SrvAccessSsh");
    reveal_strlit("SrvAccessRdp");
    reveal_strlit("SrvAccessWww");
    reveal_strlit("SrvAccessSshTunnel");
    if server_access_type_name(a) == server_access_type_name(b) && a != b {
        assert(server_access_type_name(a)[9] != server_access_type_name(b)[9]
            || server_access_type_name(a).len() != server_access_type_name(b).len());
    }
}

fn push_server_head(entries: &mut Vec<(String, ExportValue)>, s: &Server)
    ensures
        entries_view(final(entries)@) == entries_view(old(entries)@) + server_head_entries(*s),
{
    let ghost e0 = entries_view(entries@);
    if s.desc.as_str().is_empty() {
        push_entry(entries, "id", ExportValue::Int(s.id));
    } else {
        push_entry(entries, "desc", ExportValue::Str(s.desc.clone()));
    }
    let ghost e1 = entries_view(entries@);
    push_if_present(entries, "ip", &s.ip);
    push_if_present(entries, "text", &s.text);
    let ghost e2 = entries_view(entries@);
    if s.is_retired {
        push_entry(entries, "is_retired", ExportValue::Bool(s.is_retired));
    }
    let ghost e3 = entries_view(entries@);
    push_if_present(entries, "username", &s.username);
    push_if_present(entries, "password", &s.password);
    assert(entries_view(entries@) =~= e0 + server_head_entries(*s));
}

impl ServerImportExport {
    /// The entries that the export writes for the server, in order.
    pub fn export_entries(&self) -> (r: Vec<(String, ExportValue)>)
        ensures
            entries_view(r@) == server_entries(*self),
    {
        let mut entries: Vec<(String, ExportValue)> = Vec::new();
        push_server_head(&mut entries, &self.server);
        self.push_tail(&mut entries);
        assert(entries_view(entries@) =~= server_entries(*self));
        entries
    }

    fn push_tail(&self, entries: &mut Vec<(String, ExportValue)>)
        ensures
            entries_view(final(entries)@) == entries_view(old(entries)@) + server_tail_entries(*self),
    {
        let s = &self.server;
        let ghost e0 = entries_view(entries@);
        push_if_some(entries, "data_folder", &self.data_path);
        push_if_some(entries, "auth_key_filename", &s.auth_key_filename);
        let ghost e1 = entries_view(entries@);
        push_entry(entries, "server_type", ExportValue::Str(string_of(s.server_type.name())));
        push_entry(entries, "access_type", ExportValue::Str(string_of(s.access_type.name())));
        let ghost e2 = entries_view(entries@);
        match s.ssh_tunnel_port {
            Some(p) => push_entry(entries, "ssh_tunnel_port", ExportValue::Int(p)),
            None => {},
        }
        assert(entries_view(entries@) =~= e0 + server_tail_entries(*self));
    }

    /// Reads back an exported server from its entries (a later entry overrides an
    /// earlier one with the same key). Its server type and access type must be
    /// given and valid; every other field is optional.
    pub fn from_entries(entries: &Vec<(String, String)>) -> (r: Result<ServerImportExport, ServerImportError>)
        ensures
            r matches Ok(s) ==> {
                let t = text_entries(entries@);
                &&& s.server.id == 0
                &&& s.server.desc@ == text_or_empty(lookup(t, "desc"@))
                &&& s.server.ip@ == text_or_empty(lookup(t, "ip"@))
                &&& s.server.text@ == text_or_empty(lookup(t, "text"@))
                &&& s.server.is_retired == (lookup(t, "is_retired"@) == Some("true"@))
                &&& s.server.username@ == text_or_empty(lookup(t, "username"@))
                &&& s.server.password@ == text_or_empty(lookup(t, "password"@))
                &&& opt_text(s.server.auth_key_filename) == lookup(t, "auth_key_filename"@)
                &&& Some(s.server.server_type) == parsed_server_type(lookup(t, "server_type"@))
                &&& Some(s.server.access_type) == parsed_access_type(lookup(t, "access_type"@))
                &&& s.server.ssh_tunnel_port is None
                &&& s.server.ssh_tunnel_through_server_id is None
                &&& s.server.environment == EnvironmentType::EnvDevelopment
                &&& s.server.group_name is None
                &&& s.server.project_id == 0
                &&& opt_text(s.data_path) == lookup(t, "data_folder"@)
            },
            r == Err::<ServerImportExport, ServerImportError>(ServerImportError::MissingOrInvalidServerType)
                <==> parsed_server_type(lookup(text_entries(entries@), "server_type"@)) is None,
            r == Err::<ServerImportExport, ServerImportError>(ServerImportError::MissingOrInvalidAccessType)
                <==> (parsed_server_type(lookup(text_entries(entries@), "server_type"@)) is Some
                    && parsed_access_type(lookup(text_entries(entries@), "access_type"@)) is None),
    {
        let server_type = match find_entry(entries, "server_type") {
            Some(v) => match ServerType::parse(&v) {
                Some(t) => {
                    proof {
                        assert forall|u: ServerType| server_type_name(u) == v@ implies u == t by {
                            lemma_server_type_names_distinct(u, t);
                        }
                    }
                    t
                },
                None => return Err(ServerImportError::MissingOrInvalidServerType),
            },
            None => return Err(ServerImportError::MissingOrInvalidServerType),
        };
        let access_type = match find_entry(entries, "access_type") {
            Some(v) => match ServerAccessType::parse(&v) {
                Some(t) => {
                    proof {
                        assert forall|u: ServerAccessType| server_access_type_name(u) == v@ implies u == t by {
                            lemma_access_type_names_distinct(u, t);
                        }
                    }
                    t
                },
                None => return Err(ServerImportError::MissingOrInvalidAccessType),
            },
            None => return Err(ServerImportError::MissingOrInvalidAccessType),
        };
        let desc = match find_entry(entries, "desc") { Some(v) => v, None => String::new() };
        let ip = match find_entry(entries, "ip") { Some(v) => v, None => String::new() };
        let text = match find_entry(entries, "text") { Some(v) => v, None => String::new() };
        let is_retired = match find_entry(entries, "is_retired") {
            Some(v) => string_eq_str(&v, "true"),
            None => false,
        };
        let username = match find_entry(entries, "username") { Some(v) => v, None => String::new() };
        let password = match find_entry(entries, "password") { Some(v) => v, None => String::new() };
        let auth_key_filename = find_entry(entries, "auth_key_filename");
        let data_path = find_entry(entries, "data_folder");
        Ok(ServerImportExport {
            server: Server {
                id: 0,
                desc,
                is_retired,
                ip,
                text,
                group_name: None,
                username,
                password,
                auth_key_filename,
                server_type,
                access_type,
                ssh_tunnel_port: None,
                ssh_tunnel_through_server_id: None,
                environment: EnvironmentType::EnvDevelopment,
                project_id: 0,
            },
            data_path,
        })
    }
}

/// The text of a number, as an export writes it.
pub open spec fn int_text(i: int) -> Seq<char> {
    if i < 0 { "-"@ + decimal((-i) as nat) } else { decimal(i as nat) }
}

/// The text of an exported value, as it is read back.
pub open spec fn value_text(v: ValueView) -> Seq<char> {
    match v {
        ValueView::Str(s) => s,
        ValueView::Int(i) => int_text(i as int),
        ValueView::Bool(b) => if b { "true"@ } else { "false"@ },
    }
}

/// Exported entries with their values as texts, as they are read back.
pub open spec fn as_text(e: Seq<(Seq<char>, ValueView)>) -> Seq<(Seq<char>, Seq<char>)> {
    Seq::new(e.len(), |i: int| (e[i].0, value_text(e[i].1)))
}

proof fn lemma_lookup_concat(a: Seq<(Seq<char>, Seq<char>)>, b: Seq<(Seq<char>, Seq<char>)>, k: Seq<char>)
    ensures
        lookup(a + b, k) == (match lookup(b, k) {
            Some(v) => Some(v),
            None => lookup(a, k),
        }),
    decreases b.len(),
{
    if b.len() == 0 {
        assert(a + b =~= a);
    } else {
        assert((a + b).drop_last() =~= a + b.drop_last());
        assert((a + b).last() == b.last());
        lemma_lookup_concat(a, b.drop_last(), k);
    }
}

proof fn lemma_lookup_text_concat(a: Seq<(Seq<char>, ValueView)>, b: Seq<(Seq<char>, ValueView)>)
    ensures
        forall|k: Seq<char>| #[trigger] lookup(as_text(a + b), k) == (match lookup(as_text(b), k) {
            Some(v) => Some(v),
            None => lookup(as_text(a), k),
        }),
{
    assert(as_text(a + b) =~= as_text(a) + as_text(b));
    assert forall|k: Seq<char>| #[trigger] lookup(as_text(a + b), k) == (match lookup(as_text(b), k) {
        Some(v) => Some(v),
        None => lookup(as_text(a), k),
    }) by {
        lemma_lookup_concat(as_text(a), as_text(b), k);
    }
}

proof fn lemma_lookup_small(key: Seq<char>, v: ValueView)
    ensures
        forall|k: Seq<char>| #[trigger] lookup(as_text(seq![(key, v)]), k) == (if k == key { Some(value_text(v)) } else { None }),
        forall|k: Seq<char>| #[trigger] lookup(as_text(Seq::<(Seq<char>, ValueView)>::empty()), k) is None,
{
    assert forall|k: Seq<char>| #[trigger] lookup(as_text(seq![(key, v)]), k) == (if k == key { Some(value_text(v)) } else { None }) by {
        let t = as_text(seq![(key, v)]);
        assert(t.len() == 1);
        assert(t.last() == (key, value_text(v)));
        assert(lookup(t.drop_last(), k) is None);
    }
}

proof fn lemma_lookup_if_present(key: Seq<char>, value: Seq<char>)
    ensures
        forall|k: Seq<char>| #[trigger] lookup(as_text(if_present(key, value)), k)
            == (if k == key && value.len() != 0 { Some(value) } else { None }),
{
    lemma_lookup_small(key, ValueView::Str(value));
}

proof fn lemma_lookup_opt_entry(key: Seq<char>, value: Option<String>)
    ensures
        forall|k: Seq<char>| #[trigger] lookup(as_text(opt_entry(key, value)), k)
            == (if k == key { opt_text(value) } else { None }),
{
    match value {
        Some(v) => lemma_lookup_small(key, ValueView::Str(v@)),
        None => lemma_lookup_small(key, ValueView::Str(Seq::empty())),
    }
}

/// An exported server reads back as itself: each field that reading back takes
/// from the export (description, address, text, whether it is retired,
/// credentials, key file, files' folder, server type and access type) is found
/// there with the value that the server had.
pub proof fn law_server_export_read_back(s: ServerImportExport)
    ensures
        ({
            let t = as_text(server_entries(s));
            &&& text_or_empty(lookup(t, "desc"@)) == s.server.desc@
            &&& text_or_empty(lookup(t, "ip"@)) == s.server.ip@
            &&& text_or_empty(lookup(t, "text"@)) == s.server.text@
            &&& (lookup(t, "is_retired"@) == Some("true"@)) == s.server.is_retired
            &&& text_or_empty(lookup(t, "username"@)) == s.server.username@
            &&& text_or_empty(lookup(t, "password"@)) == s.server.password@
            &&& lookup(t, "auth_key_filename"@) == opt_text(s.server.auth_key_filename)
            &&& lookup(t, "data_folder"@) == opt_text(s.data_path)
            &&& parsed_server_type(lookup(t, "server_type"@)) == Some(s.server.server_type)
            &&& parsed_access_type(lookup(t, "access_type"@)) == Some(s.server.access_type)
        }),
{
    reveal_strlit("id");
    reveal_strlit("desc");
    reveal_strlit("ip");
    reveal_strlit("text");
    reveal_strlit("is_retired");
    reveal_strlit("true");
    reveal_strlit("username");
    reveal_strlit("password");
    reveal_strlit("data_folder");
    reveal_strlit("auth_key_filename");
    reveal_strlit("server_type");
    reveal_strlit("access_type");
    reveal_strlit("ssh_tunnel_port");
    assert("id"@.len() == 2);
    assert("desc"@.len() == 4);
    assert("ip"@.len() == 2);
    assert("text"@.len() == 4);
    assert("is_retired"@.len() == 10);
    assert("username"@.len() == 8);
    assert("password"@.len() == 8);
    assert("data_folder"@.len() == 11);
    assert("auth_key_filename"@.len() == 17);
    assert("server_type"@.len() == 11);
    assert("access_type"@.len() == 11);
    assert("ssh_tunnel_port"@.len() == 15);
    assert("ip"@[1] != "id"@[1]);
    assert("desc"@[0] != "text"@[0]);
    assert("username"@[0] != "password"@[0]);
    assert("data_folder"@[0] != "server_type"@[0]);
    assert("data_folder"@[0] != "access_type"@[0]);
    assert("server_type"@[0] != "access_type"@[0]);
    let srv = s.server;
    let h1 = if srv.desc@.len() == 0 { seq![("id"@, ValueView::Int(srv.id))] } else { seq![("desc"@, ValueView::Str(srv.desc@))] };
    let h2 = if_present("ip"@, srv.ip@);
    let h3 = if_present("text"@, srv.text@);
    let h4: Seq<(Seq<char>, ValueView)> = if srv.is_retired { seq![("is_retired"@, ValueView::Bool(true))] } else { Seq::empty() };
    let h5 = if_present("username"@, srv.username@);
    let h6 = if_present("password"@, srv.password@);
    let t1 = opt_entry("data_folder"@, s.data_path);
    let t2 = opt_entry("auth_key_filename"@, srv.auth_key_filename);
    let t3 = seq![
        ("server_type"@, ValueView::Str(server_type_name(srv.server_type))),
        ("access_type"@, ValueView::Str(server_access_type_name(srv.access_type))),
    ];
    let t4: Seq<(Seq<char>, ValueView)> = match srv.ssh_tunnel_port {
        Some(p) => seq![("ssh_tunnel_port"@, ValueView::Int(p))],
        None => Seq::empty(),
    };
    lemma_lookup_text_concat(h1 + h2 + h3 + h4 + h5, h6);
    lemma_lookup_text_concat(h1 + h2 + h3 + h4, h5);
    lemma_lookup_text_concat(h1 + h2 + h3, h4);
    lemma_lookup_text_concat(h1 + h2, h3);
    lemma_lookup_text_concat(h1, h2);
    lemma_lookup_text_concat(t1 + t2 + t3, t4);
    lemma_lookup_text_concat(t1 + t2, t3);
    lemma_lookup_text_concat(t1, t2);
    lemma_lookup_text_concat(server_head_entries(srv), server_tail_entries(s));
    lemma_lookup_text_concat(seq![("server_type"@, ValueView::Str(server_type_name(srv.server_type)))],
        seq![("access_type"@, ValueView::Str(server_access_type_name(srv.access_type)))]);
    assert(t3 =~= seq![("server_type"@, ValueView::Str(server_type_name(srv.server_type)))]
        + seq![("access_type"@, ValueView::Str(server_access_type_name(srv.access_type)))]);
    lemma_lookup_small("id"@, ValueView::Int(srv.id));
    lemma_lookup_small("desc"@, ValueView::Str(srv.desc@));
    lemma_lookup_small("is_retired"@, ValueView::Bool(true));
    lemma_lookup_small("server_type"@, ValueView::Str(server_type_name(srv.server_type)));
    lemma_lookup_small("access_type"@, ValueView::Str(server_access_type_name(srv.access_type)));
    lemma_lookup_if_present("ip"@, srv.ip@);
    lemma_lookup_if_present("text"@, srv.text@);
    lemma_lookup_if_present("username"@, srv.username@);
    lemma_lookup_if_present("password"@, srv.password@);
    lemma_lookup_opt_entry("data_folder"@, s.data_path);
    lemma_lookup_opt_entry("auth_key_filename"@, srv.auth_key_filename);
    match srv.ssh_tunnel_port {
        Some(p) => {
            lemma_lookup_small("ssh_tunnel_port"@, ValueView::Int(p));
            assert(t4 == seq![("ssh_tunnel_port"@, ValueView::Int(p))]);
        },
        None => {
            assert(t4 == Seq::<(Seq<char>, ValueView)>::empty());
        },
    }
    assert(server_head_entries(srv) == h1 + h2 + h3 + h4 + h5 + h6);
    assert(server_tail_entries(s) == t1 + t2 + t3 + t4);
    if srv.desc@.len() == 0 {
        assert(h1 == seq![("id"@, ValueView::Int(srv.id))]);
    } else {
        assert(h1 == seq![("desc"@, ValueView::Str(srv.desc@))]);
    }
    if srv.is_retired {
        assert(h4 == seq![("is_retired"@, ValueView::Bool(true))]);
    } else {
        assert(h4 == Seq::<(Seq<char>, ValueView)>::empty());
    }
    if srv.desc@.len() == 0 {
        assert(srv.desc@ =~= Seq::<char>::empty());
    }
    assert forall|u: ServerType| #[trigger] server_type_name(u) == server_type_name(srv.server_type) implies u == srv.server_type by {
        lemma_server_type_names_distinct(u, srv.server_type);
    }
    assert forall|u: ServerAccessType| #[trigger] server_access_type_name(u) == server_access_type_name(srv.access_type)
        implies u == srv.access_type by {
        lemma_access_type_names_distinct(u, srv.access_type);
    }
}

/// A database, as exported.
pub struct ServerDatabaseImportExport(pub ServerDatabase);

/// The entries of an exported database: its id when it has no description (so that
/// websites can still name it), else its description; then the texts that are set.
pub open spec fn server_database_entries(d: ServerDatabase) -> Seq<(Seq<char>, ValueView)> {
    (if d.desc@.len() == 0 { seq![("id"@, ValueView::Int(d.id))] } else { seq![("desc"@, ValueView::Str(d.desc@))] })
        + if_present("name"@, d.name@) + if_present("text"@, d.text@) + if_present("username"@, d.username@)
        + if_present("password"@, d.password@)
}

impl ServerDatabaseImportExport {
    /// The entries that the export writes for the database, in order.
    pub fn export_entries(&self) -> (r: Vec<(String, ExportValue)>)
        ensures
            entries_view(r@) == server_database_entries(self.0),
    {
        let s = &self.0;
        let mut entries: Vec<(String, ExportValue)> = Vec::new();
        if s.desc.as_str().is_empty() {
            push_entry(&mut entries, "id", ExportValue::Int(s.id));
        } else {
            push_entry(&mut entries, "desc", ExportValue::Str(s.desc.clone()));
        }
        push_if_present(&mut entries, "name", &s.name);
        push_if_present(&mut entries, "text", &s.text);
        push_if_present(&mut entries, "username", &s.username);
        push_if_present(&mut entries, "password", &s.password);
        assert(entries_view(entries@) =~= server_database_entries(self.0));
        entries
    }
}

/// Where a database that a website uses is found: its project and environment,
/// its server by id (when the server has no description) or by description, and
/// the database likewise.
pub struct ServerDatabasePath {
    pub project_name: String,
    pub environment: EnvironmentType,
    pub server_id: Option<i32>,
    pub server_desc: Option<String>,
    pub database_id: Option<i32>,
    pub database_desc: Option<String>,
}

/// A website of a server, as exported.
pub struct ServerWebsiteImportExport {
    pub desc: String,
    pub url: String,
    pub text: String,
    pub username: String,
    pub password: String,
    pub server_database: Option<ServerDatabasePath>,
}

/// A link to a server of another project, as exported.
pub struct ServerLinkImportExport {
    pub desc: String,
    pub server: ServerPath,
}

/// Where a server is found: its project and environment, and the server by id
/// (when it has no description) or by description.
pub struct ServerPath {
    pub project_name: String,
    pub environment: EnvironmentType,
    pub server_id: Option<i32>,
    pub server_desc: Option<String>,
}

/// A project, as exported: its name and each of its environments that it has.
pub struct ProjectImportExport {
    pub project_name: String,
    pub development_environment: Option<ProjectEnvImportExport>,
    pub staging_environment: Option<ProjectEnvImportExport>,
    pub uat_environment: Option<ProjectEnvImportExport>,
    pub prod_environment: Option<ProjectEnvImportExport>,
}

/// An environment of a project, as exported: the items outside any group, and
/// those of each named group. The groups are keyed by their names, which are
/// distinct (see `group_names_distinct`).
pub struct ProjectEnvImportExport {
    pub items: ProjectEnvGroupImportExport,
    pub items_in_groups: Vec<(String, ProjectEnvGroupImportExport)>,
}

/// The items of a project environment, in or out of a group.
pub struct ProjectEnvGroupImportExport {
    pub servers: Vec<ServerWithItemsImportExport>,
    pub server_links: Vec<ServerLinkImportExport>,
    pub project_pois: Vec<ProjectPoiImportExport>,
    pub project_notes: Vec<ProjectNoteImportExport>,
}

/// A server with its items: those outside any group, and those of each named group
/// (keyed by their names, which are distinct: see `group_names_distinct`).
pub struct ServerWithItemsImportExport {
    pub server: ServerImportExport,
    pub items: ServerGroupImportExport,
    pub items_in_groups: Vec<(String, ServerGroupImportExport)>,
}

/// The items of a server, in or out of a group.
pub struct ServerGroupImportExport {
    pub server_pois: Vec<ServerPointOfInterest>,
    pub server_websites: Vec<ServerWebsiteImportExport>,
    pub server_databases: Vec<ServerDatabaseImportExport>,
    pub server_notes: Vec<ServerNote>,
    pub server_extra_users: Vec<ServerExtraUserAccount>,
}

/// No two groups of a list have the same name: the list stands for a map from
/// group names to their items.
pub open spec fn group_names_distinct<G>(gs: Seq<(String, G)>) -> bool {
    forall|i: int, j: int| 0 <= i < j < gs.len() ==> (#[trigger] gs[i]).0@ != (#[trigger] gs[j]).0@
}

/// The groups of every environment and of every server of an exported project
/// have distinct names.
pub open spec fn project_groups_distinct(p: ProjectImportExport) -> bool {
    &&& opt_env_groups_distinct(p.development_environment)
    &&& opt_env_groups_distinct(p.staging_environment)
    &&& opt_env_groups_distinct(p.uat_environment)
    &&& opt_env_groups_distinct(p.prod_environment)
}

pub open spec fn opt_env_groups_distinct(e: Option<ProjectEnvImportExport>) -> bool {
    match e {
        Some(env) => env_groups_distinct(env),
        None => true,
    }
}

pub open spec fn env_groups_distinct(e: ProjectEnvImportExport) -> bool {
    &&& group_names_distinct(e.items_in_groups@)
    &&& env_group_servers_distinct(e.items)
    &&& forall|i: int| 0 <= i < e.items_in_groups@.len() ==> env_group_servers_distinct((#[trigger] e.items_in_groups@[i]).1)
}

pub open spec fn env_group_servers_distinct(g: ProjectEnvGroupImportExport) -> bool {
    forall|i: int| 0 <= i < g.servers@.len() ==> group_names_distinct((#[trigger] g.servers@[i]).items_in_groups@)
}

/// Whether no two groups of a list have the same name.
pub fn distinct_group_names<G>(gs: &Vec<(String, G)>) -> (r: bool)
    ensures
        r == group_names_distinct(gs@),
{
    let mut i: usize = 0;
    while i < gs.len()
        invariant
            i <= gs@.len(),
            forall|a: int, b: int| 0 <= a < b < gs@.len() && a < i ==> (#[trigger] gs@[a]).0@ != (#[trigger] gs@[b]).0@,
        decreases gs@.len() - i,
    {
        let mut j: usize = i + 1;
        while j < gs.len()
            invariant
                i < gs@.len(),
                i + 1 <= j <= gs@.len(),
                forall|a: int, b: int| 0 <= a < b < gs@.len() && a < i ==> (#[trigger] gs@[a]).0@ != (#[trigger] gs@[b]).0@,
                forall|b: int| i < b < j ==> gs@[i as int].0@ != (#[trigger] gs@[b]).0@,
            decreases gs@.len() - j,
        {
            if gs[i].0 == gs[j].0 {
                assert(gs@[i as int].0@ == gs@[j as int].0@);
                return false;
            }
            j = j + 1;
        }
        i = i + 1;
    }
    true
}

/// The texts that a list of strings holds.
pub open spec fn name_set(v: Seq<String>) -> Set<Seq<char>> {
    Set::new(|n: Seq<char>| exists|i: int| 0 <= i < v.len() && #[trigger] v[i]@ == n)
}

/// No text occurs twice in a list of strings.
pub open spec fn names_distinct(v: Seq<String>) -> bool {
    forall|i: int, j: int| 0 <= i < j < v.len() ==> v[i]@ != v[j]@
}

/// The project of the database that a website uses, if it uses one.
pub open spec fn website_db_project(w: ServerWebsiteImportExport) -> Option<Seq<char>> {
    match w.server_database {
        Some(db) => Some(db.project_name@),
        None => None,
    }
}

/// The projects whose databases the websites of a server group use.
pub open spec fn server_group_deps(g: ServerGroupImportExport) -> Set<Seq<char>> {
    Set::new(|n: Seq<char>| exists|i: int| 0 <= i < g.server_websites@.len()
        && website_db_project(#[trigger] g.server_websites@[i]) == Some(n))
}

/// The projects that the named groups of a server depend on.
pub open spec fn server_groups_deps(gs: Seq<(String, ServerGroupImportExport)>) -> Set<Seq<char>>
    decreases gs.len(),
{
    if gs.len() == 0 {
        Set::empty()
    } else {
        server_groups_deps(gs.drop_last()) + server_group_deps(gs.last().1)
    }
}

/// The projects that a server with its items depends on.
pub open spec fn server_with_items_deps(s: ServerWithItemsImportExport) -> Set<Seq<char>> {
    server_group_deps(s.items) + server_groups_deps(s.items_in_groups@)
}

/// The projects that a list of servers depends on.
pub open spec fn servers_deps(ss: Seq<ServerWithItemsImportExport>) -> Set<Seq<char>>
    decreases ss.len(),
{
    if ss.len() == 0 {
        Set::empty()
    } else {
        servers_deps(ss.drop_last()) + server_with_items_deps(ss.last())
    }
}

/// The projects of the servers that a list of server links points to.
pub open spec fn links_deps(ls: Seq<ServerLinkImportExport>) -> Set<Seq<char>> {
    Set::new(|n: Seq<char>| exists|i: int| 0 <= i < ls.len() && (#[trigger] ls[i]).server.project_name@ == n)
}

/// The projects that the items of a project environment depend on: those of its
/// servers' websites' databases and those of its server links.
pub open spec fn env_group_deps(g: ProjectEnvGroupImportExport) -> Set<Seq<char>> {
    servers_deps(g.servers@) + links_deps(g.server_links@)
}

/// The projects that the named groups of a project environment depend on.
pub open spec fn env_groups_deps(gs: Seq<(String, ProjectEnvGroupImportExport)>) -> Set<Seq<char>>
    decreases gs.len(),
{
    if gs.len() == 0 {
        Set::empty()
    } else {
        env_groups_deps(gs.drop_last()) + env_group_deps(gs.last().1)
    }
}

/// The projects that a project environment depends on.
pub open spec fn env_deps(e: ProjectEnvImportExport) -> Set<Seq<char>> {
    env_group_deps(e.items) + env_groups_deps(e.items_in_groups@)
}

pub open spec fn opt_env_deps(e: Option<ProjectEnvImportExport>) -> Set<Seq<char>> {
    match e {
        Some(env) => env_deps(env),
        None => Set::empty(),
    }
}

/// The projects that an exported project depends on, over all its environments.
pub open spec fn project_deps(p: ProjectImportExport) -> Set<Seq<char>> {
    opt_env_deps(p.development_environment) + opt_env_deps(p.staging_environment)
        + opt_env_deps(p.uat_environment) + opt_env_deps(p.prod_environment)
}

fn contains_name(names: &Vec<String>, n: &String) -> (r: bool)
    ensures
        r == name_set(names@).contains(n@),
{
    let mut i: usize = 0;
    while i < names.len()
        invariant
            i <= names@.len(),
            forall|j: int| 0 <= j < i ==> names@[j]@ != n@,
        decreases names@.len() - i,
    {
        if names[i] == *n {
            assert(names@[i as int]@ == n@);
            return true;
        }
        i = i + 1;
    }
    false
}

fn insert_name(names: &mut Vec<String>, n: &String)
    requires
        names_distinct(old(names)@),
    ensures
        names_distinct(final(names)@),
        name_set(final(names)@) == name_set(old(names)@).insert(n@),
{
    if !contains_name(names, n) {
        names.push(n.clone());
        assert(names@.last()@ == n@);
        assert forall|x: Seq<char>| name_set(names@).contains(x) <==> name_set(old(names)@).insert(n@).contains(x) by {
            if name_set(old(names)@).contains(x) {
                let i = choose|i: int| 0 <= i < old(names)@.len() && old(names)@[i]@ == x;
                assert(names@[i]@ == x);
            }
            if x == n@ {
                assert(names@[names@.len() - 1]@ == x);
            }
        }
    }
    assert(name_set(final(names)@) =~= name_set(old(names)@).insert(n@));
}

proof fn lemma_name_set_push(v: Seq<String>, x: String)
    ensures
        name_set(v.push(x)) == name_set(v).insert(x@),
{
    assert forall|n: Seq<char>| name_set(v.push(x)).contains(n) <==> name_set(v).insert(x@).contains(n) by {
        if name_set(v).contains(n) {
            let i = choose|i: int| 0 <= i < v.len() && #[trigger] v[i]@ == n;
            assert(v.push(x)[i]@ == n);
        }
        if n == x@ {
            assert(v.push(x)[v.len() as int]@ == n);
        }
        if name_set(v.push(x)).contains(n) {
            let i = choose|i: int| 0 <= i < v.len() + 1 && #[trigger] v.push(x)[i]@ == n;
            if i < v.len() {
                assert(v[i]@ == n);
            }
        }
    }
    assert(name_set(v.push(x)) =~= name_set(v).insert(x@));
}

fn extend_names(names: &mut Vec<String>, other: &Vec<String>)
    requires
        names_distinct(old(names)@),
    ensures
        names_distinct(final(names)@),
        name_set(final(names)@) == name_set(old(names)@) + name_set(other@),
{
    let mut i: usize = 0;
    while i < other.len()
        invariant
            i <= other@.len(),
            names_distinct(names@),
            name_set(names@) == name_set(old(names)@) + name_set(other@.take(i as int)),
        decreases other@.len() - i,
    {
        insert_name(names, &other[i]);
        proof {
            assert(other@.take(i + 1) =~= other@.take(i as int).push(other@[i as int]));
            lemma_name_set_push(other@.take(i as int), other@[i as int]);
        }
        i = i + 1;
    }
    assert(other@.take(other@.len() as int) =~= other@);
    assert(name_set(names@) =~= name_set(old(names)@) + name_set(other@));
}

impl ServerGroupImportExport {
    /// The projects whose databases the websites of the group use, each once.
    fn dependencies_project_names(&self) -> (r: Vec<String>)
        ensures
            names_distinct(r@),
            name_set(r@) == server_group_deps(*self),
    {
        let mut deps: Vec<String> = Vec::new();
        let mut i: usize = 0;
        while i < self.server_websites.len()
            invariant
                i <= self.server_websites@.len(),
                names_distinct(deps@),
                name_set(deps@) == Set::new(|n: Seq<char>| exists|k: int| 0 <= k < i
                    && website_db_project(#[trigger] self.server_websites@[k]) == Some(n)),
            decreases self.server_websites@.len() - i,
        {
            let ghost before = name_set(deps@);
            match &self.server_websites[i].server_database {
                Some(db) => {
                    insert_name(&mut deps, &db.project_name);
                },
                None => {},
            }
            assert(name_set(deps@) =~= Set::new(|n: Seq<char>| exists|k: int| 0 <= k < i + 1
                && website_db_project(#[trigger] self.server_websites@[k]) == Some(n)));
            i = i + 1;
        }
        assert(name_set(deps@) =~= server_group_deps(*self));
        deps
    }
}

impl ServerWithItemsImportExport {
    /// The projects that the server's items, grouped or not, depend on, each once.
    fn dependencies_project_names(&self) -> (r: Vec<String>)
        ensures
            names_distinct(r@),
            name_set(r@) == server_with_items_deps(*self),
    {
        let mut result = self.items.dependencies_project_names();
        let mut i: usize = 0;
        while i < self.items_in_groups.len()
            invariant
                i <= self.items_in_groups@.len(),
                names_distinct(result@),
                name_set(result@) == server_group_deps(self.items) + server_groups_deps(self.items_in_groups@.take(i as int)),
            decreases self.items_in_groups@.len() - i,
        {
            let group_deps = self.items_in_groups[i].1.dependencies_project_names();
            extend_names(&mut result, &group_deps);
            assert(self.items_in_groups@.take(i + 1).drop_last() =~= self.items_in_groups@.take(i as int));
            i = i + 1;
        }
        assert(self.items_in_groups@.take(i as int) =~= self.items_in_groups@);
        result
    }
}

impl ProjectEnvGroupImportExport {
    /// The projects that the environment's items depend on: through the databases
    /// that their servers' websites use and through their server links, each once.
    fn dependencies_project_names(&self) -> (r: Vec<String>)
        ensures
            names_distinct(r@),
            name_set(r@) == env_group_deps(*self),
    {
        let mut linked_projects: Vec<String> = Vec::new();
        let mut i: usize = 0;
        while i < self.servers.len()
            invariant
                i <= self.servers@.len(),
                names_distinct(linked_projects@),
                name_set(linked_projects@) == servers_deps(self.servers@.take(i as int)),
            decreases self.servers@.len() - i,
        {
            let server_deps = self.servers[i].dependencies_project_names();
            extend_names(&mut linked_projects, &server_deps);
            assert(self.servers@.take(i + 1).drop_last() =~= self.servers@.take(i as int));
            i = i + 1;
        }
        assert(self.servers@.take(i as int) =~= self.servers@);
        let ghost from_servers = name_set(linked_projects@);
        let mut j: usize = 0;
        while j < self.server_links.len()
            invariant
                j <= self.server_links@.len(),
                names_distinct(linked_projects@),
                name_set(linked_projects@) == from_servers + links_deps(self.server_links@.take(j as int)),
            decreases self.server_links@.len() - j,
        {
            insert_name(&mut linked_projects, &self.server_links[j].server.project_name);
            assert(links_deps(self.server_links@.take(j + 1)) =~= links_deps(self.server_links@.take(j as int)).insert(
                self.server_links@[j as int].server.project_name@)) by {
                let t1 = self.server_links@.take(j + 1);
                let t0 = self.server_links@.take(j as int);
                assert forall|n: Seq<char>| links_deps(t1).contains(n) implies links_deps(t0).insert(
                    self.server_links@[j as int].server.project_name@).contains(n) by {
                    let k = choose|k: int| 0 <= k < t1.len() && (#[trigger] t1[k]).server.project_name@ == n;
                    if k < j {
                        assert(t0[k] == t1[k]);
                    }
                }
                assert forall|n: Seq<char>| links_deps(t0).contains(n) implies links_deps(t1).contains(n) by {
                    let k = choose|k: int| 0 <= k < t0.len() && (#[trigger] t0[k]).server.project_name@ == n;
                    assert(t1[k] == t0[k]);
                }
                assert(t1[j as int] == self.server_links@[j as int]);
            }
            j = j + 1;
        }
        assert(self.server_links@.take(j as int) =~= self.server_links@);
        assert(name_set(linked_projects@) =~= env_group_deps(*self));
        linked_projects
    }
}

impl ProjectEnvImportExport {
    /// The projects that the environment depends on, grouped items or not, each once.
    fn dependencies_project_names(&self) -> (r: Vec<String>)
        ensures
            names_distinct(r@),
            name_set(r@) == env_deps(*self),
    {
        let mut result = self.items.dependencies_project_names();
        let mut i: usize = 0;
        while i < self.items_in_groups.len()
            invariant
                i <= self.items_in_groups@.len(),
                names_distinct(result@),
                name_set(result@) == env_group_deps(self.items) + env_groups_deps(self.items_in_groups@.take(i as int)),
            decreases self.items_in_groups@.len() - i,
        {
            let group_deps = self.items_in_groups[i].1.dependencies_project_names();
            extend_names(&mut result, &group_deps);
            assert(self.items_in_groups@.take(i + 1).drop_last() =~= self.items_in_groups@.take(i as int));
            i = i + 1;
        }
        assert(self.items_in_groups@.take(i as int) =~= self.items_in_groups@);
        result
    }
}

fn extend_with_env(deps: &mut Vec<String>, env: &Option<ProjectEnvImportExport>)
    requires
        names_distinct(old(deps)@),
    ensures
        names_distinct(final(deps)@),
        name_set(final(deps)@) == name_set(old(deps)@) + opt_env_deps(*env),
{
    match env {
        Some(e) => {
            let env_deps = e.dependencies_project_names();
            extend_names(deps, &env_deps);
        },
        None => {
            assert(name_set(deps@) =~= name_set(deps@) + Set::<Seq<char>>::empty());
        },
    }
}

impl ProjectImportExport {
    /// The names of the other projects that this one depends on, each once: the
    /// projects of the databases that its websites use and of the servers that its
    /// server links point to, over all its environments and groups. Their order is
    /// not part of the result's meaning.
    pub fn dependencies_project_names(&self) -> (r: Vec<String>)
        ensures
            names_distinct(r@),
            name_set(r@) == project_deps(*self),
    {
        let mut deps: Vec<String> = Vec::new();
        assert(name_set(deps@) =~= Set::<Seq<char>>::empty());
        extend_with_env(&mut deps, &self.development_environment);
        extend_with_env(&mut deps, &self.staging_environment);
        extend_with_env(&mut deps, &self.uat_environment);
        extend_with_env(&mut deps, &self.prod_environment);
        assert(name_set(deps@) =~= project_deps(*self));
        deps
    }
}

} // verus!
