use projectpad::icons::Icon;

#[test]
fn icon_names() {
    assert_eq!("http", Icon::HTTP().name());
    assert_eq!("clipboard", Icon::NOTE().name());
    assert_eq!("cube", Icon::POINT_OF_INTEREST().name());
    assert_eq!("terminal", Icon::TERMINAL().name());
}

#[test]
fn all_icon_names() {
    let icons = [
        (Icon::REPORTING(), "reporting"),
        (Icon::HTTP(), "http"),
        (Icon::WINDOWS(), "windows"),
        (Icon::SERVER(), "server"),
        (Icon::DATABASE(), "database"),
        (Icon::MONITORING(), "monitoring"),
        (Icon::NOTE(), "clipboard"),
        (Icon::POINT_OF_INTEREST(), "cube"),
        (Icon::SERVER_LINK(), "link"),
        (Icon::USER(), "user"),
        (Icon::LOG_FILE(), "log-file"),
        (Icon::CONFIG_FILE(), "config-file"),
        (Icon::COG(), "cog"),
        (Icon::FOLDER_PLUS(), "folder-plus"),
        (Icon::ARCHIVE(), "archive"),
        (Icon::SSH(), "ssh"),
        (Icon::TERMINAL(), "terminal"),
    ];
    for (icon, name) in icons.iter() {
        assert_eq!(*name, icon.name());
    }
}
