use discordinator::mode::InputMode;

#[test]
fn default_mode_is_normal() {
    assert_eq!(InputMode::default(), InputMode::Normal);
}

#[test]
fn display_names() {
    assert_eq!(InputMode::Normal.display_name(), "NORMAL");
    assert_eq!(InputMode::Insert.display_name(), "INSERT");
    assert_eq!(InputMode::Command.display_name(), "COMMAND");
    assert_eq!(InputMode::PanePrefix.display_name(), "PANE");
}

#[test]
fn modes_are_copy() {
    let mode = InputMode::Normal;
    let copy = mode;
    assert_eq!(mode, copy);
}

#[test]
fn all_variants_are_distinct() {
    let modes = [
        InputMode::Normal,
        InputMode::Insert,
        InputMode::Command,
        InputMode::PanePrefix,
    ];
    for i in 0..modes.len() {
        for j in (i + 1)..modes.len() {
            assert_ne!(modes[i], modes[j]);
        }
    }
}
