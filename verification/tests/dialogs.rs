use projectpad::dialogs::{
    ChangeDbPasswordState, ImportExportAction, ImportExportEvent, ImportExportWizard, PasswordChangeAction,
    PasswordChangeEvent, WizardState,
};

fn s(t: &str) -> String {
    t.to_string()
}

#[test]
fn password_change_flow() {
    let mut d = ChangeDbPasswordState::new();
    assert_eq!(vec![PasswordChangeAction::RequestCurrentPassword], d.step(PasswordChangeEvent::OkPressed));
    assert_eq!(
        vec![PasswordChangeAction::ShowError("Wrong current database password")],
        d.step(PasswordChangeEvent::CheckedOldPassword(false))
    );
    assert_eq!(
        vec![PasswordChangeAction::ClearError, PasswordChangeAction::RequestNewPassword],
        d.step(PasswordChangeEvent::CheckedOldPassword(true))
    );
    assert_eq!(
        vec![PasswordChangeAction::ShowError("New password must not be empty")],
        d.step(PasswordChangeEvent::GotNewPassword(s("")))
    );
    assert_eq!(vec![PasswordChangeAction::RequestConfirmNewPassword], d.step(PasswordChangeEvent::GotNewPassword(s("new"))));
    assert_eq!(
        vec![PasswordChangeAction::ShowError("New and confirm new passwords don't match")],
        d.step(PasswordChangeEvent::GotConfirmNewPassword(s("neW")))
    );
    assert_eq!(
        vec![
            PasswordChangeAction::SetApplySensitive(false),
            PasswordChangeAction::ClearError,
            PasswordChangeAction::ChangePassword(s("new")),
        ],
        d.step(PasswordChangeEvent::GotConfirmNewPassword(s("new")))
    );
    assert_eq!(
        vec![
            PasswordChangeAction::SetApplySensitive(true),
            PasswordChangeAction::DisplayError("Error changing the database password", s("locked")),
        ],
        d.step(PasswordChangeEvent::ChangedPass(Err(s("locked"))))
    );
    assert_eq!(vec![PasswordChangeAction::SuccessfullyChangedPass], d.step(PasswordChangeEvent::ChangedPass(Ok(()))));
}

#[test]
fn confirmation_without_new_password_is_refused() {
    let mut d = ChangeDbPasswordState::new();
    assert_eq!(
        vec![PasswordChangeAction::ShowError("New and confirm new passwords don't match")],
        d.step(PasswordChangeEvent::GotConfirmNewPassword(s("")))
    );
}

#[test]
fn export_wizard_flow() {
    let mut w = ImportExportWizard::new();
    assert_eq!(
        vec![ImportExportAction::FetchProjectList, ImportExportAction::ShowExportPage],
        w.step(ImportExportEvent::NextClicked { import_chosen: false })
    );
    assert_eq!(WizardState::ExportPickFile, w.state);
    assert_eq!(
        vec![ImportExportAction::PopulateProjectList(vec![s("A"), s("B")])],
        w.step(ImportExportEvent::GotProjectList(Ok(vec![s("A"), s("B")])))
    );
    assert_eq!(vec![ImportExportAction::RequestExportPassword], w.step(ImportExportEvent::NextClicked { import_chosen: false }));
    assert_eq!(vec![ImportExportAction::RequestExportPasswordConfirm], w.step(ImportExportEvent::GotPassword(s("pw"))));
    assert_eq!(
        vec![ImportExportAction::ShowExportError(s("New and confirm passwords don't match"))],
        w.step(ImportExportEvent::GotPasswordConfirm(s("px")))
    );
    assert_eq!(vec![ImportExportAction::OpenExportSaveDialog(s("pw"))], w.step(ImportExportEvent::GotPasswordConfirm(s("pw"))));
    assert_eq!(
        vec![
            ImportExportAction::EnableNext(true),
            ImportExportAction::DisplayWarning("Warning: some dependent projects were not exported", s("Projects: Auth, Mail")),
        ],
        w.step(ImportExportEvent::ExportResult(Ok(vec![s("Auth"), s("Mail")])))
    );
    assert_eq!(vec![ImportExportAction::CloseWindow], w.step(ImportExportEvent::ExportResult(Ok(vec![]))));
    assert_eq!(
        vec![ImportExportAction::ShowExportError(s("Export failed: disk full")), ImportExportAction::EnableNext(true)],
        w.step(ImportExportEvent::ExportResult(Err(s("disk full"))))
    );
}

#[test]
fn import_wizard_flow() {
    let mut w = ImportExportWizard::new();
    assert_eq!(
        vec![ImportExportAction::EnableNext(false), ImportExportAction::ShowImportPage],
        w.step(ImportExportEvent::NextClicked { import_chosen: true })
    );
    assert_eq!(vec![ImportExportAction::EnableNext(true)], w.step(ImportExportEvent::FilePicked));
    assert_eq!(vec![ImportExportAction::RequestImportPassword], w.step(ImportExportEvent::NextClicked { import_chosen: true }));
    assert_eq!(vec![ImportExportAction::DoImport(s("pw"))], w.step(ImportExportEvent::GotPassword(s("pw"))));
    assert_eq!(
        vec![ImportExportAction::ShowImportError(s("Import failed: bad file")), ImportExportAction::EnableNext(true)],
        w.step(ImportExportEvent::ImportResult(Err(s("bad file"))))
    );
    assert_eq!(
        vec![ImportExportAction::CloseWindow, ImportExportAction::ImportApplied],
        w.step(ImportExportEvent::ImportResult(Ok(())))
    );
    assert!(w.step(ImportExportEvent::ImportApplied).is_empty());
    assert_eq!(vec![ImportExportAction::CloseWindow], w.step(ImportExportEvent::EscapePressed));
}

use projectpad::dialogs::{UnlockAction, UnlockDbState, UnlockEvent};

#[test]
fn new_database_password_must_be_typed_twice() {
    let mut d = UnlockDbState::new(true);
    assert_eq!(vec![UnlockAction::RequestPassword], d.step(UnlockEvent::OkPressed));
    assert_eq!(vec![UnlockAction::ShowError("The password must not be empty")], d.step(UnlockEvent::GotPassword(s(""))));
    assert_eq!(vec![UnlockAction::RequestPasswordConfirm], d.step(UnlockEvent::GotPassword(s("pw"))));
    assert_eq!(
        vec![UnlockAction::ShowError("Passwords don't match")],
        d.step(UnlockEvent::GotConfirmPassword { pass: s("px"), save_to_keyring: true })
    );
    assert_eq!(
        vec![UnlockAction::UnlockDb { password: s("pw"), save_to_keyring: true }],
        d.step(UnlockEvent::GotConfirmPassword { pass: s("pw"), save_to_keyring: true })
    );
}

#[test]
fn existing_database_unlocks_with_the_first_password() {
    let mut d = UnlockDbState::new(false);
    d.step(UnlockEvent::GotPassword(s("pw")));
    assert_eq!(
        vec![UnlockAction::UnlockDb { password: s("pw"), save_to_keyring: false }],
        d.step(UnlockEvent::GotConfirmPassword { pass: s("other"), save_to_keyring: false })
    );
    assert_eq!(
        vec![UnlockAction::DisplayError("Error checking the password", s("wrong key"))],
        d.step(UnlockEvent::CheckedPassword(Err(s("wrong key"))))
    );
    assert!(d.step(UnlockEvent::CheckedPassword(Ok(()))).is_empty());
}

use projectpad::dialogs::{rekey_step, RekeyAction, RekeyEvent};

#[test]
fn keyring_follows_a_successful_rekey() {
    let p = s("new");
    assert!(matches!(rekey_step(&p, RekeyEvent::Rekeyed(Ok(()))), RekeyAction::CheckKeyring));
    assert!(matches!(rekey_step(&p, RekeyEvent::Rekeyed(Err(s("bad")))), RekeyAction::Report(Err(ref m)) if m == "bad"));
    assert!(matches!(rekey_step(&p, RekeyEvent::KeyringChecked(true)), RekeyAction::SetKeyring(ref k) if k == "new"));
    assert!(matches!(rekey_step(&p, RekeyEvent::KeyringChecked(false)), RekeyAction::Report(Ok(()))));
    assert!(matches!(rekey_step(&p, RekeyEvent::KeyringSet(Err(s("locked")))), RekeyAction::Report(Err(ref m)) if m == "locked"));
}

use projectpad::dialogs::{server_add_item_choice, ServerItemKind};

#[test]
fn server_add_item_titles() {
    let cases = [
        (ServerItemKind::PointOfInterest, "Add Server Point of Interest"),
        (ServerItemKind::Database, "Add server database"),
        (ServerItemKind::ExtraUser, "Add server extra user"),
        (ServerItemKind::Website, "Add server website"),
        (ServerItemKind::Note, "Add server note"),
    ];
    for (kind, title) in cases.iter() {
        let c = server_add_item_choice(*kind, 12);
        assert_eq!(*title, c.title);
        assert_eq!(*kind, c.dialog);
        assert_eq!(12, c.server_id);
    }
}
