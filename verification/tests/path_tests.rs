use auto_nvm::path_scan::{
    find_path_entries, find_path_entries_in_file, get_possible_install_dirs,
    get_shell_config_files, is_path_export_line, remove_path_entries,
    remove_path_entries_from_file, ConfigFileData, PathEntry,
};

#[test]
fn test_is_path_export_line() {
    assert!(is_path_export_line("export PATH=\"$HOME/.local/bin:$PATH\""));
    assert!(is_path_export_line("PATH=\"$HOME/.local/bin:$PATH\""));
    assert!(is_path_export_line("set -gx PATH $HOME/.local/bin $PATH"));
    assert!(is_path_export_line("set PATH $HOME/.local/bin $PATH"));

    assert!(!is_path_export_line("# export PATH=\"$HOME/.local/bin:$PATH\""));
    assert!(!is_path_export_line("echo $PATH"));
    assert!(!is_path_export_line(""));
}

#[test]
fn test_find_path_entries_in_file() {
    let content = r#"# My shell config
export PATH="$HOME/.local/bin:$PATH"
alias ll='ls -la'
PATH="$HOME/bin:$PATH"
# Another comment
export PATH="$HOME/.local/bin:$PATH"
"#;
    let install_dirs = vec!["$HOME/.local/bin".to_string()];
    let entries = find_path_entries_in_file("testfile", content, &install_dirs);

    assert_eq!(entries.len(), 2);
    assert_eq!(entries[0].line_number, 2);
    assert_eq!(entries[1].line_number, 6);
}

#[test]
fn test_remove_path_entries_from_file() {
    let content = r#"# My shell config
export PATH="$HOME/.local/bin:$PATH"
alias ll='ls -la'
PATH="$HOME/bin:$PATH"
# Another comment
"#;
    let entries = vec![PathEntry {
        file_path: "testfile".to_string(),
        line_number: 2,
        line_content: "export PATH=\"$HOME/.local/bin:$PATH\"".to_string(),
        install_dir: "$HOME/.local/bin".to_string(),
    }];

    let new_content = remove_path_entries_from_file(content, &entries);

    assert!(!new_content.contains("export PATH=\"$HOME/.local/bin:$PATH\""));
    assert!(new_content.contains("alias ll='ls -la'"));
    assert!(new_content.contains("PATH=\"$HOME/bin:$PATH\""));
}

// A commented-out PATH export yields no entry; the active form of the same
// line yields exactly one entry referencing the install directory.
#[test]
fn test_path_scan_precision() {
    let dirs = vec!["$HOME/.local/bin".to_string()];
    let comment = "# export PATH=\"$HOME/.local/bin:$PATH\"\n";
    let active = "export PATH=\"$HOME/.local/bin:$PATH\"\n";

    let none = find_path_entries_in_file("rc", comment, &dirs);
    assert_eq!(none.len(), 0);

    let one = find_path_entries_in_file("rc", active, &dirs);
    assert_eq!(one.len(), 1);
    assert_eq!(one[0].line_number, 1);
    assert_eq!(one[0].install_dir, "$HOME/.local/bin");
}

// An entry records the raw line text, indentation included; trimming is
// only part of the qualification test.
#[test]
fn test_entry_keeps_raw_line_text() {
    let dirs = vec!["$HOME/.local/bin".to_string()];
    let content = "  export PATH=\"$HOME/.local/bin:$PATH\"\n";
    let entries = find_path_entries_in_file("rc", content, &dirs);
    assert_eq!(entries.len(), 1);
    assert_eq!(
        entries[0].line_content,
        "  export PATH=\"$HOME/.local/bin:$PATH\""
    );
}

// Removing the entries found at lines 2 and 6 leaves exactly the other
// lines, in their original relative order.
#[test]
fn test_deletion_correctness() {
    let content = "# My shell config\nexport PATH=\"$HOME/.local/bin:$PATH\"\nalias ll='ls -la'\nPATH=\"$HOME/bin:$PATH\"\n# Another comment\nexport PATH=\"$HOME/.local/bin:$PATH\"\n";
    let dirs = vec!["$HOME/.local/bin".to_string()];
    let entries = find_path_entries_in_file("rc", content, &dirs);
    assert_eq!(entries.len(), 2);
    assert_eq!(entries[0].line_number, 2);
    assert_eq!(entries[1].line_number, 6);

    let new_content = remove_path_entries_from_file(content, &entries);
    let expected = "# My shell config\nalias ll='ls -la'\nPATH=\"$HOME/bin:$PATH\"\n# Another comment\n";
    assert_eq!(new_content, expected);
}

#[test]
fn test_find_and_remove_across_files() {
    let files = vec![
        ConfigFileData {
            path: "/home/u/.bashrc".to_string(),
            content: "export PATH=\"$HOME/.local/bin:$PATH\"\nalias x='1'\n".to_string(),
        },
        ConfigFileData {
            path: "/home/u/.zshrc".to_string(),
            content: "# nothing active here\n".to_string(),
        },
    ];
    let dirs = vec!["$HOME/.local/bin".to_string()];

    let entries = find_path_entries(&files, &dirs);
    assert_eq!(entries.len(), 1);
    assert_eq!(entries[0].file_path, "/home/u/.bashrc");
    assert_eq!(entries[0].line_number, 1);

    let rewritten = remove_path_entries(&files, &entries);
    assert_eq!(rewritten.len(), 1);
    assert_eq!(rewritten[0].path, "/home/u/.bashrc");
    assert_eq!(rewritten[0].content, "alias x='1'\n");
}

#[test]
fn test_install_dirs_and_config_files() {
    let dirs = get_possible_install_dirs("/home/u", &None);
    assert_eq!(
        dirs,
        vec![
            "/home/u/.local/bin".to_string(),
            "/home/u/bin".to_string(),
            "/home/u/.bin".to_string(),
        ]
    );

    let with_override = get_possible_install_dirs("/home/u", &Some("/opt/tools".to_string()));
    assert_eq!(with_override[1], "/opt/tools");
    assert_eq!(with_override.len(), 4);

    let files = get_shell_config_files("/home/u");
    assert_eq!(files.len(), 6);
    assert_eq!(files[0], "/home/u/.bashrc");
    assert_eq!(files[5], "/home/u/.config/fish/config.fish");
}
