use auto_nvm::shell::{config_path_for, detect_shell, get_config_file_path, ShellType};

#[test]
fn test_detect_shell() {
    // Without a signal the detector must still yield a valid dialect.
    let shell = detect_shell(&None);
    assert!(matches!(
        shell,
        ShellType::Bash | ShellType::Zsh | ShellType::Fish | ShellType::PowerShell
    ));
}

#[test]
fn test_shell_detection_zsh() {
    assert_eq!(detect_shell(&Some("/bin/zsh".to_string())), ShellType::Zsh);
}

#[test]
fn test_shell_detection_bash() {
    assert_eq!(detect_shell(&Some("/bin/bash".to_string())), ShellType::Bash);
}

#[test]
fn test_shell_detection_fish() {
    assert_eq!(
        detect_shell(&Some("/usr/local/bin/fish".to_string())),
        ShellType::Fish
    );
}

#[test]
fn test_shell_detection_fallback() {
    assert_eq!(detect_shell(&None), ShellType::Bash);
    assert_eq!(detect_shell(&Some("/bin/dash".to_string())), ShellType::Bash);
}

#[test]
fn test_config_path_for() {
    assert_eq!(config_path_for(ShellType::Bash, "/home/u"), "/home/u/.bashrc");
    assert_eq!(config_path_for(ShellType::Zsh, "/home/u"), "/home/u/.zshrc");
    assert_eq!(
        config_path_for(ShellType::Fish, "/home/u"),
        "/home/u/.config/fish/config.fish"
    );
    assert_eq!(
        config_path_for(ShellType::PowerShell, "/home/u"),
        "/home/u/.config/powershell/Microsoft.PowerShell_profile.ps1"
    );
}

#[test]
fn test_get_config_file_path_uses_home() {
    // The resolved path must be the detected home directory plus the
    // dialect's file name.
    let home = dirs::home_dir().expect("home directory in test environment");
    let home_s = home.to_string_lossy().into_owned();
    let p = get_config_file_path(ShellType::Bash).unwrap();
    assert_eq!(p, format!("{}/.bashrc", home_s));
}
