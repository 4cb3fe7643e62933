use vstd::prelude::*;
use crate::text::string_eq_str;

verus! {

/// The environments of a project.
#[derive(PartialEq, Eq, Structural, Debug, Clone, Copy)]
pub enum EnvironmentType {
    EnvDevelopment,
    EnvStage,
    EnvUat,
    EnvProd,
}

/// The kinds of point of interest.
#[derive(PartialEq, Eq, Structural, Debug, Clone, Copy)]
pub enum InterestType {
    PoiApplication,
    PoiLogFile,
    PoiConfigFile,
    PoiCommandToRun,
    PoiBackupArchive,
    PoiCommandTerminal,
}

/// How a server is reached.
#[derive(PartialEq, Eq, Structural, Debug, Clone, Copy)]
pub enum ServerAccessType {
    SrvAccessSsh,
    SrvAccessRdp,
    SrvAccessWww,
    SrvAccessSshTunnel,
}

/// What a server is for.
#[derive(PartialEq, Eq, Structural, Debug, Clone, Copy)]
pub enum ServerType {
    SrvDatabase,
    SrvApplication,
    SrvHttpOrProxy,
    SrvMonitoring,
    SrvReporting,
}

/// Where a command of a point of interest runs.
#[derive(PartialEq, Eq, Structural, Debug, Clone, Copy)]
pub enum RunOn {
    RunOnClient,
    RunOnServer,
}

pub open spec fn interest_type_name(t: InterestType) -> Seq<char> {
    match t {
        InterestType::PoiApplication => "PoiApplication"@,
        InterestType::PoiLogFile => "PoiLogFile"@,
        InterestType::PoiConfigFile => "PoiConfigFile"@,
        InterestType::PoiCommandToRun => "PoiCommandToRun"@,
        InterestType::PoiBackupArchive => "PoiBackupArchive"@,
        InterestType::PoiCommandTerminal => "PoiCommandTerminal"@,
    }
}

pub open spec fn server_access_type_name(t: ServerAccessType) -> Seq<char> {
    match t {
        ServerAccessType::SrvAccessSsh => "SrvAccessSsh"@,
        ServerAccessType::SrvAccessRdp => "SrvAccessRdp"@,
        ServerAccessType::SrvAccessWww => "SrvAccessWww"@,
        ServerAccessType::SrvAccessSshTunnel => "SrvAccessSshTunnel"@,
    }
}

pub open spec fn server_type_name(t: ServerType) -> Seq<char> {
    match t {
        ServerType::SrvDatabase => "SrvDatabase"@,
        ServerType::SrvApplication => "SrvApplication"@,
        ServerType::SrvHttpOrProxy => "SrvHttpOrProxy"@,
        ServerType::SrvMonitoring => "SrvMonitoring"@,
        ServerType::SrvReporting => "SrvReporting"@,
    }
}

impl InterestType {
    /// The name under which the value is stored and exported.
    pub fn name(&self) -> (r: &'static str)
        ensures
            r@ == interest_type_name(*self),
    {
        match self {
            InterestType::PoiApplication => "PoiApplication",
            InterestType::PoiLogFile => "PoiLogFile",
            InterestType::PoiConfigFile => "PoiConfigFile",
            InterestType::PoiCommandToRun => "PoiCommandToRun",
            InterestType::PoiBackupArchive => "PoiBackupArchive",
            InterestType::PoiCommandTerminal => "PoiCommandTerminal",
        }
    }
}

impl ServerAccessType {
    /// The name under which the value is stored and exported.
    pub fn name(&self) -> (r: &'static str)
        ensures
            r@ == server_access_type_name(*self),
    {
        match self {
            ServerAccessType::SrvAccessSsh => "SrvAccessSsh",
            ServerAccessType::SrvAccessRdp => "SrvAccessRdp",
            ServerAccessType::SrvAccessWww => "SrvAccessWww",
            ServerAccessType::SrvAccessSshTunnel => "SrvAccessSshTunnel",
        }
    }

    /// The access type of a name, if it names one.
    pub fn parse(s: &String) -> (r: Option<ServerAccessType>)
        ensures
            r matches Some(t) ==> server_access_type_name(t) == s@,
            r is None ==> forall|t: ServerAccessType| server_access_type_name(t) != s@,
    {
        if string_eq_str(s, "SrvAccessSsh") {
            Some(ServerAccessType::SrvAccessSsh)
        } else if string_eq_str(s, "SrvAccessRdp") {
            Some(ServerAccessType::SrvAccessRdp)
        } else if string_eq_str(s, "SrvAccessWww") {
            Some(ServerAccessType::SrvAccessWww)
        } else if string_eq_str(s, "SrvAccessSshTunnel") {
            Some(ServerAccessType::SrvAccessSshTunnel)
        } else {
            None
        }
    }
}

impl ServerType {
    /// The name under which the value is stored and exported.
    pub fn name(&self) -> (r: &'static str)
        ensures
            r@ == server_type_name(*self),
    {
        match self {
            ServerType::SrvDatabase => "SrvDatabase",
            ServerType::SrvApplication => "SrvApplication",
            ServerType::SrvHttpOrProxy => "SrvHttpOrProxy",
            ServerType::SrvMonitoring => "SrvMonitoring",
            ServerType::SrvReporting => "SrvReporting",
        }
    }

    /// The server type of a name, if it names one.
    pub fn parse(s: &String) -> (r: Option<ServerType>)
        ensures
            r matches Some(t) ==> server_type_name(t) == s@,
            r is None ==> forall|t: ServerType| server_type_name(t) != s@,
    {
        if string_eq_str(s, "SrvDatabase") {
            Some(ServerType::SrvDatabase)
        } else if string_eq_str(s, "SrvApplication") {
            Some(ServerType::SrvApplication)
        } else if string_eq_str(s, "SrvHttpOrProxy") {
            Some(ServerType::SrvHttpOrProxy)
        } else if string_eq_str(s, "SrvMonitoring") {
            Some(ServerType::SrvMonitoring)
        } else if string_eq_str(s, "SrvReporting") {
            Some(ServerType::SrvReporting)
        } else {
            None
        }
    }
}

/// A server of a project.
#[derive(PartialEq, Eq, Debug, Clone)]
pub struct Server {
    pub id: i32,
    pub desc: String,
    pub is_retired: bool,
    pub ip: String,
    pub text: String,
    pub group_name: Option<String>,
    pub username: String,
    pub password: String,
    pub auth_key_filename: Option<String>,
    pub server_type: ServerType,
    pub access_type: ServerAccessType,
    pub ssh_tunnel_port: Option<i32>,
    pub ssh_tunnel_through_server_id: Option<i32>,
    pub environment: EnvironmentType,
    pub project_id: i32,
}

/// A database on a server.
#[derive(PartialEq, Eq, Debug, Clone)]
pub struct ServerDatabase {
    pub id: i32,
    pub desc: String,
    pub name: String,
    pub group_name: Option<String>,
    pub text: String,
    pub username: String,
    pub password: String,
    pub server_id: i32,
}

/// A point of interest on a server.
#[derive(PartialEq, Eq, Debug, Clone)]
pub struct ServerPointOfInterest {
    pub id: i32,
    pub desc: String,
    pub path: String,
    pub text: String,
    pub group_name: Option<String>,
    pub interest_type: InterestType,
    pub run_on: RunOn,
    pub server_id: i32,
}

/// A note on a server.
#[derive(PartialEq, Eq, Debug, Clone)]
pub struct ServerNote {
    pub id: i32,
    pub title: String,
    pub group_name: Option<String>,
    pub contents: String,
    pub server_id: i32,
}

/// An extra user account on a server.
#[derive(PartialEq, Eq, Debug, Clone)]
pub struct ServerExtraUserAccount {
    pub id: i32,
    pub username: String,
    pub password: String,
    pub desc: String,
    pub group_name: Option<String>,
    pub auth_key_filename: Option<String>,
    pub server_id: i32,
}

/// The label of the text of a point of interest: a command for the kinds that run one.
pub fn server_poi_get_text_label(interest_type: InterestType) -> (r: &'static str)
    ensures
        r@ == (if interest_type == InterestType::PoiCommandToRun || interest_type == InterestType::PoiCommandTerminal {
            "Command"@
        } else {
            "Text"@
        }),
{
    match interest_type {
        InterestType::PoiCommandToRun | InterestType::PoiCommandTerminal => "Command",
        _ => "Text",
    }
}

pub open spec fn interest_type_desc_of(t: InterestType) -> Seq<char> {
    match t {
        InterestType::PoiLogFile => "Log file"@,
        InterestType::PoiConfigFile => "Config file"@,
        InterestType::PoiApplication => "Application"@,
        InterestType::PoiCommandToRun => "Command to run"@,
        InterestType::PoiBackupArchive => "Backup/archive"@,
        InterestType::PoiCommandTerminal => "Command to run (terminal)"@,
    }
}

/// The description of a kind of point of interest, as the dialogs show it.
pub fn interest_type_desc(interest_type: InterestType) -> (r: &'static str)
    ensures
        r@ == interest_type_desc_of(interest_type),
{
    match interest_type {
        InterestType::PoiLogFile => "Log file",
        InterestType::PoiConfigFile => "Config file",
        InterestType::PoiApplication => "Application",
        InterestType::PoiCommandToRun => "Command to run",
        InterestType::PoiBackupArchive => "Backup/archive",
        InterestType::PoiCommandTerminal => "Command to run (terminal)",
    }
}

/// The description of where a command runs, as the dialogs show it.
pub fn run_on_desc(run_on: RunOn) -> (r: &'static str)
    ensures
        r@ == (if run_on == RunOn::RunOnClient { "Client"@ } else { "Server"@ }),
{
    match run_on {
        RunOn::RunOnClient => "Client",
        RunOn::RunOnServer => "Server",
    }
}

/// Whether the dialog offers to choose where the command runs: only for commands.
pub fn is_run_on_visible(interest_type: InterestType) -> (r: bool)
    ensures
        r == (interest_type == InterestType::PoiCommandToRun || interest_type == InterestType::PoiCommandTerminal),
{
    interest_type == InterestType::PoiCommandToRun || interest_type == InterestType::PoiCommandTerminal
}

/// A project.
#[derive(PartialEq, Eq, Debug, Clone)]
pub struct Project {
    pub id: i32,
    pub name: String,
    pub has_dev: bool,
    pub has_uat: bool,
    pub has_stage: bool,
    pub has_prod: bool,
}

/// A note of a project, present in some of its environments.
#[derive(PartialEq, Eq, Debug, Clone)]
pub struct ProjectNote {
    pub id: i32,
    pub project_id: i32,
    pub title: String,
    pub contents: String,
    pub has_dev: bool,
    pub has_uat: bool,
    pub has_stage: bool,
    pub has_prod: bool,
    pub group_name: Option<String>,
}

/// A point of interest of a project.
#[derive(PartialEq, Eq, Debug, Clone)]
pub struct ProjectPointOfInterest {
    pub id: i32,
    pub project_id: i32,
    pub desc: String,
    pub path: String,
    pub text: String,
    pub group_name: Option<String>,
    pub interest_type: InterestType,
}

/// A link, in a project environment, to a server of another project.
#[derive(PartialEq, Eq, Debug, Clone)]
pub struct ServerLink {
    pub id: i32,
    pub project_id: i32,
    pub desc: String,
    pub linked_server_id: i32,
    pub linked_group_name: Option<String>,
    pub environment: EnvironmentType,
    pub group_name: Option<String>,
}

/// A website on a server, possibly using one of the databases.
#[derive(PartialEq, Eq, Debug, Clone)]
pub struct ServerWebsite {
    pub id: i32,
    pub desc: String,
    pub url: String,
    pub text: String,
    pub username: String,
    pub password: String,
    pub server_database_id: Option<i32>,
    pub group_name: Option<String>,
    pub server_id: i32,
}

pub open spec fn server_type_desc_of(t: ServerType) -> Seq<char> {
    match t {
        ServerType::SrvApplication => "Application"@,
        ServerType::SrvDatabase => "Database"@,
        ServerType::SrvHttpOrProxy => "HTTP server or proxy"@,
        ServerType::SrvMonitoring => "Monitoring"@,
        ServerType::SrvReporting => "Reporting"@,
    }
}

/// The description of a server type, as the server dialog shows it.
pub fn server_type_desc(server_type: ServerType) -> (r: &'static str)
    ensures
        r@ == server_type_desc_of(server_type),
{
    match server_type {
        ServerType::SrvApplication => "Application",
        ServerType::SrvDatabase => "Database",
        ServerType::SrvHttpOrProxy => "HTTP server or proxy",
        ServerType::SrvMonitoring => "Monitoring",
        ServerType::SrvReporting => "Reporting",
    }
}

pub open spec fn server_access_type_desc_of(t: ServerAccessType) -> Seq<char> {
    match t {
        ServerAccessType::SrvAccessSsh => "SSH"@,
        ServerAccessType::SrvAccessWww => "Website"@,
        ServerAccessType::SrvAccessRdp => "Remote Desktop (RDP)"@,
        ServerAccessType::SrvAccessSshTunnel => "SSH tunnel"@,
    }
}

/// The description of an access type, as the server dialog shows it.
pub fn server_access_type_desc(access_type: ServerAccessType) -> (r: &'static str)
    ensures
        r@ == server_access_type_desc_of(access_type),
{
    match access_type {
        ServerAccessType::SrvAccessSsh => "SSH",
        ServerAccessType::SrvAccessWww => "Website",
        ServerAccessType::SrvAccessRdp => "Remote Desktop (RDP)",
        ServerAccessType::SrvAccessSshTunnel => "SSH tunnel",
    }
}

} // verus!
