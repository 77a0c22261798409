use auto_nvm::codec::{check_already_configured, extract_block_span, generate_integration_script};
use auto_nvm::install::{
    append_to_config_file, backup_file_path, install_integration, remove_integration_from_config,
};
use auto_nvm::shell::ShellType;
use auto_nvm::AutoNvmError;

#[test]
fn test_generated_script_shape() {
    let shells = vec![
        ShellType::Bash,
        ShellType::Zsh,
        ShellType::Fish,
        ShellType::PowerShell,
    ];
    for shell in shells {
        let script = generate_integration_script(shell);
        assert!(script.starts_with("# >>> auto-nvm >>>\n"));
        assert!(script.ends_with("# <<< auto-nvm <<<\n"));
        assert!(check_already_configured(&script));
    }
}

#[test]
fn test_check_already_configured() {
    assert!(!check_already_configured("export FOO=1\n"));
    assert!(check_already_configured(
        "x\n# >>> auto-nvm >>>\nstuff\n# <<< auto-nvm <<<\n"
    ));
}

#[test]
fn test_extract_block_span() {
    let script = generate_integration_script(ShellType::Bash);
    // The Bash block has nine lines, at indices 0 through 8.
    assert_eq!(extract_block_span(&script), Some((0, 8)));

    // The Zsh block has one extra hook-registration line.
    let script = generate_integration_script(ShellType::Zsh);
    assert_eq!(extract_block_span(&script), Some((0, 9)));

    assert_eq!(extract_block_span("plain content\n"), None);
    // A begin marker without an end marker is unbalanced.
    assert_eq!(extract_block_span("# >>> auto-nvm >>>\nstuff\n"), None);
}

#[test]
fn test_append_separator_rules() {
    assert_eq!(append_to_config_file("", "S"), "S");
    assert_eq!(append_to_config_file("abc\n", "S"), "abc\n\nS");
    assert_eq!(append_to_config_file("abc", "S"), "abc\n\nS");
}

// Installing twice changes nothing after the first time.
#[test]
fn test_install_idempotent() {
    let original = "export FOO=1\n".to_string();
    let first = install_integration(&Some(original), ShellType::Zsh);
    assert!(!first.already_configured);

    let second = install_integration(&Some(first.new_content.clone()), ShellType::Zsh);
    assert!(second.already_configured);
    assert_eq!(second.new_content, first.new_content);
    assert_eq!(second.backup, None);
}

// Removing directly after installing restores the content byte for byte.
#[test]
fn test_install_remove_round_trip() {
    let original = "export FOO=1\nalias ll='ls -la'\n".to_string();
    let plan = install_integration(&Some(original.clone()), ShellType::Bash);
    let (restored, removed) = remove_integration_from_config(&plan.new_content).unwrap();
    assert!(removed);
    assert_eq!(restored, original);

    // Installing into a missing file and removing yields empty content.
    let plan = install_integration(&None, ShellType::Fish);
    let (restored, removed) = remove_integration_from_config(&plan.new_content).unwrap();
    assert!(removed);
    assert_eq!(restored, "");
}

// A mutated pre-existing file is always backed up, and the backup equals
// the pre-install content exactly.
#[test]
fn test_backup_before_write() {
    let original = "export FOO=1\n".to_string();
    let plan = install_integration(&Some(original.clone()), ShellType::Bash);
    assert!(!plan.already_configured);
    assert_eq!(plan.backup, Some(original));

    // A file that does not exist yet is not backed up.
    let plan = install_integration(&None, ShellType::Bash);
    assert_eq!(plan.backup, None);

    // An untouched file is not backed up either.
    let configured = generate_integration_script(ShellType::Bash);
    let plan = install_integration(&Some(configured), ShellType::Bash);
    assert!(plan.already_configured);
    assert_eq!(plan.backup, None);
}

#[test]
fn test_backup_file_path() {
    assert_eq!(backup_file_path("/home/u/.bashrc"), "/home/u/.bashrc.backup");
}

#[test]
fn test_remove_when_absent_or_corrupt() {
    // No marker at all: nothing to remove.
    let (content, removed) = remove_integration_from_config("plain\n").unwrap();
    assert!(!removed);
    assert_eq!(content, "plain\n");

    // Begin marker present but not as its own line: corrupt.
    assert_eq!(
        remove_integration_from_config("x # >>> auto-nvm >>>\n"),
        Err(AutoNvmError::CorruptMarkers)
    );

    // Begin marker line without an end marker line: corrupt.
    assert_eq!(
        remove_integration_from_config("# >>> auto-nvm >>>\nstuff\n"),
        Err(AutoNvmError::CorruptMarkers)
    );
}

#[test]
fn test_remove_strips_separator_line() {
    let plan = install_integration(&Some("line1\n".to_string()), ShellType::Zsh);
    // The installed content holds a blank separator line before the block.
    assert!(plan.new_content.contains("line1\n\n# >>> auto-nvm >>>"));
    let (restored, removed) = remove_integration_from_config(&plan.new_content).unwrap();
    assert!(removed);
    assert_eq!(restored, "line1\n");
}
