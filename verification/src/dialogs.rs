use vstd::prelude::*;
use crate::chars::{join_with, join_lines, line_views, push_all};
use crate::text::{chars_of, string_of_chars};

verus! {

/// What happens in the dialog that changes the database password.
#[derive(PartialEq, Eq, Debug)]
pub enum PasswordChangeEvent {
    /// The user confirmed the dialog.
    OkPressed,
    /// The error shown is to be hidden.
    HideInfobar,
    /// The current password typed changed.
    CurrentPasswordChange(String),
    /// Whether the current password typed is the database's.
    CurrentPasswordValid(bool),
    /// The current password, once confirmed.
    GotCurrentPassword(String),
    /// Whether the confirmed current password is the database's.
    CheckedOldPassword(bool),
    GotNewPassword(String),
    GotConfirmNewPassword(String),
    /// How changing the password went.
    ChangedPass(Result<(), String>),
}

/// What the dialog that changes the database password does.
#[derive(PartialEq, Eq, Debug, Clone)]
pub enum PasswordChangeAction {
    RequestCurrentPassword,
    ClearError,
    /// Check, in the background, whether this is the database's password, to
    /// allow applying the change.
    CheckCurrentPassword(String),
    SetApplySensitive(bool),
    /// Check whether this is the database's password, to go on with the change.
    VerifyCurrentPassword(String),
    /// Show this error for a moment.
    ShowError(&'static str),
    RequestNewPassword,
    RequestConfirmNewPassword,
    /// Set this password on the database.
    ChangePassword(String),
    /// Tell the user that something failed.
    DisplayError(&'static str, String),
    SuccessfullyChangedPass,
}

/// An action of the dialog, as seen in specifications.
pub enum PasswordActionView {
    RequestCurrentPassword,
    ClearError,
    CheckCurrentPassword(Seq<char>),
    SetApplySensitive(bool),
    VerifyCurrentPassword(Seq<char>),
    ShowError(Seq<char>),
    RequestNewPassword,
    RequestConfirmNewPassword,
    ChangePassword(Seq<char>),
    DisplayError(Seq<char>, Seq<char>),
    SuccessfullyChangedPass,
}

pub open spec fn password_action_view(a: PasswordChangeAction) -> PasswordActionView {
    match a {
        PasswordChangeAction::RequestCurrentPassword => PasswordActionView::RequestCurrentPassword,
        PasswordChangeAction::ClearError => PasswordActionView::ClearError,
        PasswordChangeAction::CheckCurrentPassword(p) => PasswordActionView::CheckCurrentPassword(p@),
        PasswordChangeAction::SetApplySensitive(b) => PasswordActionView::SetApplySensitive(b),
        PasswordChangeAction::VerifyCurrentPassword(p) => PasswordActionView::VerifyCurrentPassword(p@),
        PasswordChangeAction::ShowError(m) => PasswordActionView::ShowError(m@),
        PasswordChangeAction::RequestNewPassword => PasswordActionView::RequestNewPassword,
        PasswordChangeAction::RequestConfirmNewPassword => PasswordActionView::RequestConfirmNewPassword,
        PasswordChangeAction::ChangePassword(p) => PasswordActionView::ChangePassword(p@),
        PasswordChangeAction::DisplayError(t, m) => PasswordActionView::DisplayError(t@, m@),
        PasswordChangeAction::SuccessfullyChangedPass => PasswordActionView::SuccessfullyChangedPass,
    }
}

pub open spec fn password_actions_view(v: Seq<PasswordChangeAction>) -> Seq<PasswordActionView> {
    Seq::new(v.len(), |i: int| password_action_view(v[i]))
}

/// The state of the dialog that changes the database password: the new password,
/// once typed, waiting for its confirmation.
pub struct ChangeDbPasswordState {
    pub new_password: Option<String>,
}

pub open spec fn opt_view(o: Option<String>) -> Option<Seq<char>> {
    match o {
        Some(s) => Some(s@),
        None => None,
    }
}

/// How the dialog answers an event: the new password it holds after it, and the
/// actions it takes. The current password is checked first; then the new one,
/// which must not be empty, is asked for and must be confirmed by typing it again.
pub open spec fn password_step(new_password: Option<Seq<char>>, e: PasswordChangeEvent) -> (Option<Seq<char>>, Seq<PasswordActionView>) {
    match e {
        PasswordChangeEvent::OkPressed => (new_password, seq![PasswordActionView::RequestCurrentPassword]),
        PasswordChangeEvent::HideInfobar => (new_password, seq![PasswordActionView::ClearError]),
        PasswordChangeEvent::CurrentPasswordChange(p) => (new_password, seq![PasswordActionView::CheckCurrentPassword(p@)]),
        PasswordChangeEvent::CurrentPasswordValid(v) => (new_password, seq![PasswordActionView::SetApplySensitive(v)]),
        PasswordChangeEvent::GotCurrentPassword(p) => (new_password, seq![PasswordActionView::VerifyCurrentPassword(p@)]),
        PasswordChangeEvent::CheckedOldPassword(ok) => if ok {
            (new_password, seq![PasswordActionView::ClearError, PasswordActionView::RequestNewPassword])
        } else {
            (new_password, seq![PasswordActionView::ShowError("Wrong current database password"@)])
        },
        PasswordChangeEvent::GotNewPassword(p) => if p@.len() == 0 {
            (new_password, seq![PasswordActionView::ShowError("New password must not be empty"@)])
        } else {
            (Some(p@), seq![PasswordActionView::RequestConfirmNewPassword])
        },
        PasswordChangeEvent::GotConfirmNewPassword(p) => if new_password != Some(p@) {
            (new_password, seq![PasswordActionView::ShowError("New and confirm new passwords don't match"@)])
        } else {
            (new_password, seq![
                PasswordActionView::SetApplySensitive(false),
                PasswordActionView::ClearError,
                PasswordActionView::ChangePassword(p@),
            ])
        },
        PasswordChangeEvent::ChangedPass(r) => match r {
            Ok(_) => (new_password, seq![PasswordActionView::SuccessfullyChangedPass]),
            Err(msg) => (new_password, seq![
                PasswordActionView::SetApplySensitive(true),
                PasswordActionView::DisplayError("Error changing the database password"@, msg@),
            ]),
        },
    }
}

impl ChangeDbPasswordState {
    pub fn new() -> (r: ChangeDbPasswordState)
        ensures
            r.new_password is None,
    {
        ChangeDbPasswordState { new_password: None }
    }

    /// Answers an event of the dialog (see `password_step`).
    pub fn step(&mut self, event: PasswordChangeEvent) -> (r: Vec<PasswordChangeAction>)
        ensures
            (opt_view(final(self).new_password), password_actions_view(r@))
                == password_step(opt_view(old(self).new_password), event),
    {
        let r = match event {
            PasswordChangeEvent::OkPressed => vec![PasswordChangeAction::RequestCurrentPassword],
            PasswordChangeEvent::HideInfobar => vec![PasswordChangeAction::ClearError],
            PasswordChangeEvent::CurrentPasswordChange(p) => vec![PasswordChangeAction::CheckCurrentPassword(p)],
            PasswordChangeEvent::CurrentPasswordValid(v) => vec![PasswordChangeAction::SetApplySensitive(v)],
            PasswordChangeEvent::GotCurrentPassword(p) => vec![PasswordChangeAction::VerifyCurrentPassword(p)],
            PasswordChangeEvent::CheckedOldPassword(ok) => if ok {
                vec![PasswordChangeAction::ClearError, PasswordChangeAction::RequestNewPassword]
            } else {
                vec![PasswordChangeAction::ShowError("Wrong current database password")]
            },
            PasswordChangeEvent::GotNewPassword(p) => if p.as_str().is_empty() {
                vec![PasswordChangeAction::ShowError("New password must not be empty")]
            } else {
                self.new_password = Some(p);
                vec![PasswordChangeAction::RequestConfirmNewPassword]
            },
            PasswordChangeEvent::GotConfirmNewPassword(p) => {
                let same = match &self.new_password {
                    Some(n) => *n == p,
                    None => false,
                };
                if !same {
                    vec![PasswordChangeAction::ShowError("New and confirm new passwords don't match")]
                } else {
                    vec![
                        PasswordChangeAction::SetApplySensitive(false),
                        PasswordChangeAction::ClearError,
                        PasswordChangeAction::ChangePassword(p),
                    ]
                }
            },
            PasswordChangeEvent::ChangedPass(res) => match res {
                Ok(_) => vec![PasswordChangeAction::SuccessfullyChangedPass],
                Err(msg) => vec![
                    PasswordChangeAction::SetApplySensitive(true),
                    PasswordChangeAction::DisplayError("Error changing the database password", msg),
                ],
            },
        };
        assert(password_actions_view(r@) =~= password_step(opt_view(old(self).new_password), event).1);
        r
    }
}

/// A password confirmed by typing it again gets set on the database; one that
/// differs, or a new password never given, is refused and nothing is set.
pub proof fn law_password_changed_only_when_confirmed(np: Option<Seq<char>>, p: String)
    ensures
        np == Some(p@) ==> password_step(np, PasswordChangeEvent::GotConfirmNewPassword(p)).1.contains(
            PasswordActionView::ChangePassword(p@)),
        np != Some(p@) ==> forall|i: int| 0 <= i < password_step(np, PasswordChangeEvent::GotConfirmNewPassword(p)).1.len()
            ==> !(#[trigger] password_step(np, PasswordChangeEvent::GotConfirmNewPassword(p)).1[i] is ChangePassword),
{
    if np == Some(p@) {
        assert(password_step(np, PasswordChangeEvent::GotConfirmNewPassword(p)).1[2] == PasswordActionView::ChangePassword(p@));
    }
}

/// What happens in the background once the new database password is confirmed.
pub enum RekeyEvent {
    /// How setting the new password on the database went.
    Rekeyed(Result<(), String>),
    /// Whether the OS keyring holds a database password.
    KeyringChecked(bool),
    /// How storing the new password in the keyring went.
    KeyringSet(Result<(), String>),
}

/// What the background job does next.
pub enum RekeyAction {
    /// Ask the keyring whether it holds a database password.
    CheckKeyring,
    /// Store this password in the keyring in place of the old one.
    SetKeyring(String),
    /// The change is over: report how it went to the dialog.
    Report(Result<(), String>),
}

/// The keyring is touched only after the database took the new password, and only
/// when it already held the old one, which it then gets replaced by the new one;
/// the outcome reported is the database's, or the keyring's when it was updated.
pub open spec fn rekey_next(new_password: Seq<char>, e: RekeyEvent, r: RekeyAction) -> bool {
    match e {
        RekeyEvent::Rekeyed(res) => match res {
            Ok(_) => r is CheckKeyring,
            Err(m) => r == RekeyAction::Report(Err(m)),
        },
        RekeyEvent::KeyringChecked(held) => if held {
            r matches RekeyAction::SetKeyring(p) && p@ == new_password
        } else {
            r == RekeyAction::Report(Ok(()))
        },
        RekeyEvent::KeyringSet(res) => r == RekeyAction::Report(res),
    }
}

/// Answers an event of the background job that sets the new password (see
/// `rekey_next`).
pub fn rekey_step(new_password: &String, event: RekeyEvent) -> (r: RekeyAction)
    ensures
        rekey_next(new_password@, event, r),
{
    match event {
        RekeyEvent::Rekeyed(res) => match res {
            Ok(_) => RekeyAction::CheckKeyring,
            Err(m) => RekeyAction::Report(Err(m)),
        },
        RekeyEvent::KeyringChecked(held) => if held {
            RekeyAction::SetKeyring(new_password.clone())
        } else {
            RekeyAction::Report(Ok(()))
        },
        RekeyEvent::KeyringSet(res) => RekeyAction::Report(res),
    }
}

/// The keyring is written only when it was found to hold a password, and it is
/// consulted only after the database took the new password.
pub proof fn law_keyring_follows_rekey(p: Seq<char>, e: RekeyEvent, r: RekeyAction)
    requires
        rekey_next(p, e, r),
    ensures
        r is SetKeyring ==> e == RekeyEvent::KeyringChecked(true),
        r is CheckKeyring ==> e matches RekeyEvent::Rekeyed(Ok(_)),
{
}

/// The kinds of item that the dialog adding an item to a server offers.
#[derive(PartialEq, Eq, Structural, Debug, Clone, Copy)]
pub enum ServerItemKind {
    PointOfInterest,
    Database,
    ExtraUser,
    Website,
    Note,
}

/// The title that the dialog adding an item to a server takes for a kind of item.
pub open spec fn server_add_item_title_of(kind: ServerItemKind) -> Seq<char> {
    match kind {
        ServerItemKind::PointOfInterest => "Add Server Point of Interest"@,
        ServerItemKind::Database => "Add server database"@,
        ServerItemKind::ExtraUser => "Add server extra user"@,
        ServerItemKind::Website => "Add server website"@,
        ServerItemKind::Note => "Add server note"@,
    }
}

/// What the dialog adding an item to a server shows once a kind is picked: its
/// new title, the sub-dialog for that kind, and the server that the new item goes
/// to (the one the dialog was opened for).
pub struct ServerAddItemChoice {
    pub title: &'static str,
    pub dialog: ServerItemKind,
    pub server_id: i32,
}

/// What the dialog adding an item to a server shows for a picked kind (see
/// `ServerAddItemChoice`).
pub fn server_add_item_choice(kind: ServerItemKind, server_id: i32) -> (r: ServerAddItemChoice)
    ensures
        r.title@ == server_add_item_title_of(kind),
        r.dialog == kind,
        r.server_id == server_id,
{
    let title = match kind {
        ServerItemKind::PointOfInterest => "Add Server Point of Interest",
        ServerItemKind::Database => "Add server database",
        ServerItemKind::ExtraUser => "Add server extra user",
        ServerItemKind::Website => "Add server website",
        ServerItemKind::Note => "Add server note",
    };
    ServerAddItemChoice { title, dialog: kind, server_id }
}

/// The steps of the import and export wizard.
#[derive(PartialEq, Eq, Structural, Debug, Clone, Copy)]
pub enum WizardState {
    Start,
    ImportPickFile,
    ExportPickFile,
}

/// What happens in the import and export wizard.
#[derive(PartialEq, Eq, Debug)]
pub enum ImportExportEvent {
    EscapePressed,
    Close,
    /// Next was clicked; on the first page, with import or export chosen.
    NextClicked { import_chosen: bool },
    GotPassword(String),
    GotPasswordConfirm(String),
    FilePicked,
    ImportResult(Result<(), String>),
    /// How the export went: the names of the projects it depends on that were
    /// not exported with it.
    ExportResult(Result<Vec<String>, String>),
    ImportApplied,
    /// The names of the projects that can be exported, or why they are not known.
    GotProjectList(Result<Vec<String>, String>),
}

/// What the import and export wizard does.
#[derive(PartialEq, Eq, Debug, Clone)]
pub enum ImportExportAction {
    CloseWindow,
    EnableNext(bool),
    ShowImportPage,
    ShowExportPage,
    FetchProjectList,
    RequestImportPassword,
    RequestExportPassword,
    RequestExportPasswordConfirm,
    /// Import the file picked, protected by this password.
    DoImport(String),
    /// Ask where to export to, with this password.
    OpenExportSaveDialog(String),
    ShowImportError(String),
    ShowExportError(String),
    ImportApplied,
    /// Warn the user about something that went wrong.
    DisplayWarning(&'static str, String),
    PopulateProjectList(Vec<String>),
}

pub enum WizardActionView {
    CloseWindow,
    EnableNext(bool),
    ShowImportPage,
    ShowExportPage,
    FetchProjectList,
    RequestImportPassword,
    RequestExportPassword,
    RequestExportPasswordConfirm,
    DoImport(Seq<char>),
    OpenExportSaveDialog(Seq<char>),
    ShowImportError(Seq<char>),
    ShowExportError(Seq<char>),
    ImportApplied,
    DisplayWarning(Seq<char>, Seq<char>),
    PopulateProjectList(Seq<Seq<char>>),
}

pub open spec fn string_views(v: Seq<String>) -> Seq<Seq<char>> {
    Seq::new(v.len(), |i: int| v[i]@)
}

pub open spec fn wizard_action_view(a: ImportExportAction) -> WizardActionView {
    match a {
        ImportExportAction::CloseWindow => WizardActionView::CloseWindow,
        ImportExportAction::EnableNext(b) => WizardActionView::EnableNext(b),
        ImportExportAction::ShowImportPage => WizardActionView::ShowImportPage,
        ImportExportAction::ShowExportPage => WizardActionView::ShowExportPage,
        ImportExportAction::FetchProjectList => WizardActionView::FetchProjectList,
        ImportExportAction::RequestImportPassword => WizardActionView::RequestImportPassword,
        ImportExportAction::RequestExportPassword => WizardActionView::RequestExportPassword,
        ImportExportAction::RequestExportPasswordConfirm => WizardActionView::RequestExportPasswordConfirm,
        ImportExportAction::DoImport(p) => WizardActionView::DoImport(p@),
        ImportExportAction::OpenExportSaveDialog(p) => WizardActionView::OpenExportSaveDialog(p@),
        ImportExportAction::ShowImportError(m) => WizardActionView::ShowImportError(m@),
        ImportExportAction::ShowExportError(m) => WizardActionView::ShowExportError(m@),
        ImportExportAction::ImportApplied => WizardActionView::ImportApplied,
        ImportExportAction::DisplayWarning(t, m) => WizardActionView::DisplayWarning(t@, m@),
        ImportExportAction::PopulateProjectList(v) => WizardActionView::PopulateProjectList(string_views(v@)),
    }
}

pub open spec fn wizard_actions_view(v: Seq<ImportExportAction>) -> Seq<WizardActionView> {
    Seq::new(v.len(), |i: int| wizard_action_view(v[i]))
}

/// The state of the import and export wizard: its step, and the export password
/// once typed, waiting for its confirmation.
pub struct ImportExportWizard {
    pub state: WizardState,
    pub export_pass: Option<String>,
}

/// The events that the wizard can take in a state: a password only once a file
/// is to be picked, and its confirmation only when exporting.
pub open spec fn wizard_accepts(state: WizardState, e: ImportExportEvent) -> bool {
    match e {
        ImportExportEvent::GotPassword(_) => state != WizardState::Start,
        _ => true,
    }
}

/// How the wizard answers an event: its step and export password after it, and
/// the actions it takes.
pub open spec fn wizard_step(state: WizardState, export_pass: Option<Seq<char>>, e: ImportExportEvent)
    -> (WizardState, Option<Seq<char>>, Seq<WizardActionView>) {
    match e {
        ImportExportEvent::EscapePressed => (state, export_pass, seq![WizardActionView::CloseWindow]),
        ImportExportEvent::Close => (state, export_pass, seq![WizardActionView::CloseWindow]),
        ImportExportEvent::NextClicked { import_chosen } => match state {
            WizardState::Start => if import_chosen {
                (WizardState::ImportPickFile, export_pass, seq![WizardActionView::EnableNext(false), WizardActionView::ShowImportPage])
            } else {
                (WizardState::ExportPickFile, export_pass, seq![WizardActionView::FetchProjectList, WizardActionView::ShowExportPage])
            },
            WizardState::ImportPickFile => (state, export_pass, seq![WizardActionView::RequestImportPassword]),
            WizardState::ExportPickFile => (state, export_pass, seq![WizardActionView::RequestExportPassword]),
        },
        ImportExportEvent::FilePicked => (state, export_pass, seq![WizardActionView::EnableNext(true)]),
        ImportExportEvent::GotPassword(p) => if state == WizardState::ImportPickFile {
            (state, export_pass, seq![WizardActionView::DoImport(p@)])
        } else {
            (state, Some(p@), seq![WizardActionView::RequestExportPasswordConfirm])
        },
        ImportExportEvent::GotPasswordConfirm(p) => if export_pass != Some(p@) {
            (state, export_pass, seq![WizardActionView::ShowExportError("New and confirm passwords don't match"@)])
        } else {
            (state, export_pass, seq![WizardActionView::OpenExportSaveDialog(p@)])
        },
        ImportExportEvent::ImportResult(r) => match r {
            Ok(_) => (state, export_pass, seq![WizardActionView::CloseWindow, WizardActionView::ImportApplied]),
            Err(e) => (state, export_pass, seq![
                WizardActionView::ShowImportError("Import failed: "@ + e@),
                WizardActionView::EnableNext(true),
            ]),
        },
        ImportExportEvent::ExportResult(r) => match r {
            Ok(missing) => if missing@.len() == 0 {
                (state, export_pass, seq![WizardActionView::CloseWindow])
            } else {
                (state, export_pass, seq![
                    WizardActionView::EnableNext(true),
                    WizardActionView::DisplayWarning(
                        "Warning: some dependent projects were not exported"@,
                        "Projects: "@ + join_with(string_views(missing@), ", "@),
                    ),
                ])
            },
            Err(e) => (state, export_pass, seq![
                WizardActionView::ShowExportError("Export failed: "@ + e@),
                WizardActionView::EnableNext(true),
            ]),
        },
        ImportExportEvent::ImportApplied => (state, export_pass, Seq::empty()),
        ImportExportEvent::GotProjectList(r) => match r {
            Ok(names) => (state, export_pass, seq![WizardActionView::PopulateProjectList(string_views(names@))]),
            Err(e) => (state, export_pass, seq![WizardActionView::ShowExportError(e@)]),
        },
    }
}

fn owned(s: &str) -> (r: String)
    ensures
        r@ == s@,
{
    let r = s.to_string();
    proof {
        vstd::string::to_string_from_display_ensures_for_str(s, r);
    }
    r
}

fn prefixed(prefix: &str, s: &String) -> (r: String)
    ensures
        r@ == prefix@ + s@,
{
    let mut v = chars_of(prefix);
    let sv = chars_of(s.as_str());
    push_all(&mut v, &sv);
    string_of_chars(&v)
}

fn joined_names(names: &Vec<String>) -> (r: String)
    ensures
        r@ == "Projects: "@ + join_with(string_views(names@), ", "@),
{
    let mut lines: Vec<Vec<char>> = Vec::new();
    let mut i: usize = 0;
    while i < names.len()
        invariant
            i <= names@.len(),
            lines@.len() == i,
            forall|j: int| 0 <= j < i ==> #[trigger] lines@[j]@ == names@[j]@,
        decreases names@.len() - i,
    {
        lines.push(chars_of(names[i].as_str()));
        i = i + 1;
    }
    assert(line_views(lines@) =~= string_views(names@));
    let sep = chars_of(", ");
    let j = join_lines(&lines, &sep);
    let mut v = chars_of("Projects: ");
    push_all(&mut v, &j);
    string_of_chars(&v)
}

impl ImportExportWizard {
    pub fn new() -> (r: ImportExportWizard)
        ensures
            r.state == WizardState::Start,
            r.export_pass is None,
    {
        ImportExportWizard { state: WizardState::Start, export_pass: None }
    }

    /// Answers an event of the wizard (see `wizard_step`); a password comes only
    /// once a file is to be picked, and its confirmation only when exporting.
    pub fn step(&mut self, event: ImportExportEvent) -> (r: Vec<ImportExportAction>)
        requires
            wizard_accepts(old(self).state, event),
            event is GotPasswordConfirm && opt_view(old(self).export_pass) == Some(event->GotPasswordConfirm_0@)
                ==> old(self).state == WizardState::ExportPickFile,
        ensures
            (final(self).state, opt_view(final(self).export_pass), wizard_actions_view(r@))
                == wizard_step(old(self).state, opt_view(old(self).export_pass), event),
    {
        let r = match event {
            ImportExportEvent::EscapePressed => vec![ImportExportAction::CloseWindow],
            ImportExportEvent::Close => vec![ImportExportAction::CloseWindow],
            ImportExportEvent::NextClicked { import_chosen } => match self.state {
                WizardState::Start => if import_chosen {
                    self.state = WizardState::ImportPickFile;
                    vec![ImportExportAction::EnableNext(false), ImportExportAction::ShowImportPage]
                } else {
                    self.state = WizardState::ExportPickFile;
                    vec![ImportExportAction::FetchProjectList, ImportExportAction::ShowExportPage]
                },
                WizardState::ImportPickFile => vec![ImportExportAction::RequestImportPassword],
                WizardState::ExportPickFile => vec![ImportExportAction::RequestExportPassword],
            },
            ImportExportEvent::FilePicked => vec![ImportExportAction::EnableNext(true)],
            ImportExportEvent::GotPassword(p) => if self.state == WizardState::ImportPickFile {
                vec![ImportExportAction::DoImport(p)]
            } else {
                self.export_pass = Some(p);
                vec![ImportExportAction::RequestExportPasswordConfirm]
            },
            ImportExportEvent::GotPasswordConfirm(p) => {
                let same = match &self.export_pass {
                    Some(e) => *e == p,
                    None => false,
                };
                if !same {
                    vec![ImportExportAction::ShowExportError(owned("New and confirm passwords don't match"))]
                } else {
                    vec![ImportExportAction::OpenExportSaveDialog(p)]
                }
            },
            ImportExportEvent::ImportResult(res) => match res {
                Ok(_) => vec![ImportExportAction::CloseWindow, ImportExportAction::ImportApplied],
                Err(e) => vec![ImportExportAction::ShowImportError(prefixed("Import failed: ", &e)), ImportExportAction::EnableNext(true)],
            },
            ImportExportEvent::ExportResult(res) => match res {
                Ok(missing) => if missing.len() == 0 {
                    vec![ImportExportAction::CloseWindow]
                } else {
                    vec![
                        ImportExportAction::EnableNext(true),
                        ImportExportAction::DisplayWarning("Warning: some dependent projects were not exported", joined_names(&missing)),
                    ]
                },
                Err(e) => vec![ImportExportAction::ShowExportError(prefixed("Export failed: ", &e)), ImportExportAction::EnableNext(true)],
            },
            ImportExportEvent::ImportApplied => Vec::new(),
            ImportExportEvent::GotProjectList(res) => match res {
                Ok(names) => vec![ImportExportAction::PopulateProjectList(names)],
                Err(e) => vec![ImportExportAction::ShowExportError(e)],
            },
        };
        assert(wizard_actions_view(r@) =~= wizard_step(old(self).state, opt_view(old(self).export_pass), event).2);
        r
    }
}

/// The wizard asks where to export only for a password typed twice the same:
/// a confirmation that differs from the password, or that comes with no password,
/// shows an error and exports nothing.
pub proof fn law_export_needs_confirmed_password(state: WizardState, export_pass: Option<Seq<char>>, p: String)
    ensures
        export_pass == Some(p@) ==> wizard_step(state, export_pass, ImportExportEvent::GotPasswordConfirm(p)).2
            == seq![WizardActionView::OpenExportSaveDialog(p@)],
        export_pass != Some(p@) ==> forall|i: int| 0 <= i < wizard_step(state, export_pass, ImportExportEvent::GotPasswordConfirm(p)).2.len()
            ==> !(#[trigger] wizard_step(state, export_pass, ImportExportEvent::GotPasswordConfirm(p)).2[i] is OpenExportSaveDialog),
{
}

/// What happens in the dialog that unlocks (or, for a new database, sets the
/// password of) the database.
#[derive(PartialEq, Eq, Debug)]
pub enum UnlockEvent {
    OkPressed,
    GotPassword(String),
    /// The password typed again, and whether to save it to the keyring.
    GotConfirmPassword { pass: String, save_to_keyring: bool },
    /// Whether the database opened with the password.
    CheckedPassword(Result<(), String>),
}

/// What the unlocking dialog does.
#[derive(PartialEq, Eq, Debug, Clone)]
pub enum UnlockAction {
    RequestPassword,
    RequestPasswordConfirm,
    ShowError(&'static str),
    /// Open the database with this password, and save it to the keyring if asked
    /// and the database opened.
    UnlockDb { password: String, save_to_keyring: bool },
    DisplayError(&'static str, String),
}

pub enum UnlockActionView {
    RequestPassword,
    RequestPasswordConfirm,
    ShowError(Seq<char>),
    UnlockDb { password: Seq<char>, save_to_keyring: bool },
    DisplayError(Seq<char>, Seq<char>),
}

pub open spec fn unlock_action_view(a: UnlockAction) -> UnlockActionView {
    match a {
        UnlockAction::RequestPassword => UnlockActionView::RequestPassword,
        UnlockAction::RequestPasswordConfirm => UnlockActionView::RequestPasswordConfirm,
        UnlockAction::ShowError(m) => UnlockActionView::ShowError(m@),
        UnlockAction::UnlockDb { password, save_to_keyring } => UnlockActionView::UnlockDb { password: password@, save_to_keyring },
        UnlockAction::DisplayError(t, m) => UnlockActionView::DisplayError(t@, m@),
    }
}

pub open spec fn unlock_actions_view(v: Seq<UnlockAction>) -> Seq<UnlockActionView> {
    Seq::new(v.len(), |i: int| unlock_action_view(v[i]))
}

/// The state of the unlocking dialog: whether the database is new (its password
/// is then being chosen, and must be typed twice the same), and the password typed.
pub struct UnlockDbState {
    pub is_new_db: bool,
    pub password: Option<String>,
}

/// The events that the unlocking dialog can take: the confirmation needs a
/// password typed before it, unless it is refused for a new database.
pub open spec fn unlock_accepts(is_new_db: bool, password: Option<Seq<char>>, e: UnlockEvent) -> bool {
    match e {
        UnlockEvent::GotConfirmPassword { pass, save_to_keyring } => password is Some
            || (is_new_db && password != Some(pass@)),
        _ => true,
    }
}

/// How the unlocking dialog answers an event: the password it holds after it, and
/// the actions it takes. An empty password is refused (moving between a plain and
/// an encrypted database is not supported); for a new database the password must
/// be typed twice the same.
pub open spec fn unlock_step(is_new_db: bool, password: Option<Seq<char>>, e: UnlockEvent)
    -> (Option<Seq<char>>, Seq<UnlockActionView>) {
    match e {
        UnlockEvent::OkPressed => (password, seq![UnlockActionView::RequestPassword]),
        UnlockEvent::GotPassword(p) => if p@.len() == 0 {
            (password, seq![UnlockActionView::ShowError("The password must not be empty"@)])
        } else {
            (Some(p@), seq![UnlockActionView::RequestPasswordConfirm])
        },
        UnlockEvent::GotConfirmPassword { pass, save_to_keyring } => if is_new_db && password != Some(pass@) {
            (password, seq![UnlockActionView::ShowError("Passwords don't match"@)])
        } else {
            (password, seq![UnlockActionView::UnlockDb { password: password->0, save_to_keyring }])
        },
        UnlockEvent::CheckedPassword(r) => match r {
            Ok(_) => (password, Seq::empty()),
            Err(msg) => (password, seq![UnlockActionView::DisplayError("Error checking the password"@, msg@)]),
        },
    }
}

impl UnlockDbState {
    pub fn new(is_new_db: bool) -> (r: UnlockDbState)
        ensures
            r.is_new_db == is_new_db,
            r.password is None,
    {
        UnlockDbState { is_new_db, password: None }
    }

    /// Answers an event of the unlocking dialog (see `unlock_step`).
    pub fn step(&mut self, event: UnlockEvent) -> (r: Vec<UnlockAction>)
        requires
            unlock_accepts(old(self).is_new_db, opt_view(old(self).password), event),
        ensures
            final(self).is_new_db == old(self).is_new_db,
            (opt_view(final(self).password), unlock_actions_view(r@))
                == unlock_step(old(self).is_new_db, opt_view(old(self).password), event),
    {
        let r = match event {
            UnlockEvent::OkPressed => vec![UnlockAction::RequestPassword],
            UnlockEvent::GotPassword(p) => if p.as_str().is_empty() {
                vec![UnlockAction::ShowError("The password must not be empty")]
            } else {
                self.password = Some(p);
                vec![UnlockAction::RequestPasswordConfirm]
            },
            UnlockEvent::GotConfirmPassword { pass, save_to_keyring } => {
                let same = match &self.password {
                    Some(p) => *p == pass,
                    None => false,
                };
                if self.is_new_db && !same {
                    vec![UnlockAction::ShowError("Passwords don't match")]
                } else {
                    let p = match &self.password {
                        Some(p) => p.clone(),
                        None => String::new(),
                    };
                    vec![UnlockAction::UnlockDb { password: p, save_to_keyring }]
                }
            },
            UnlockEvent::CheckedPassword(res) => match res {
                Ok(_) => Vec::new(),
                Err(msg) => vec![UnlockAction::DisplayError("Error checking the password", msg)],
            },
        };
        assert(unlock_actions_view(r@) =~= unlock_step(old(self).is_new_db, opt_view(old(self).password), event).1);
        r
    }
}

} // verus!
