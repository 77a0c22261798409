use auto_nvm::binary::{binary_file_name, get_possible_binary_locations, is_auto_nvm_binary_name};
use auto_nvm::config::Config;
use auto_nvm::nvm::{build_nvm_command, switch_failure_message, version_listed, versions_match};
use auto_nvm::shell::ShellType;
use auto_nvm::uninstall::{confirm_response_accepts, UninstallManager, UninstallResult};

// A failed binary removal beside two successful steps reports 2 of 3 and
// stays a reported partial outcome, not a fatal error.
#[test]
fn test_uninstall_partial_failure() {
    let result = UninstallResult::new(true, false, true);
    assert_eq!(result.success_count(), 2);
    assert_eq!(result.total_count(), 3);
    assert!(result.is_partial());
    assert!(!result.is_complete());
}

#[test]
fn test_uninstall_complete() {
    let result = UninstallResult::new(true, true, true);
    assert_eq!(result.success_count(), 3);
    assert!(result.is_complete());
    assert!(!result.is_partial());
}

#[test]
fn test_confirmation_gate() {
    assert!(confirm_response_accepts("y"));
    assert!(confirm_response_accepts("Y"));
    assert!(confirm_response_accepts("yes"));
    assert!(confirm_response_accepts("YES"));
    assert!(confirm_response_accepts("  yes \n"));
    assert!(!confirm_response_accepts("n"));
    assert!(!confirm_response_accepts("no"));
    assert!(!confirm_response_accepts(""));
    assert!(!confirm_response_accepts("ys"));
    assert!(!confirm_response_accepts("yess"));
}

#[test]
fn test_needs_confirmation() {
    let quiet = UninstallManager::new(Config::from_cli(true));
    assert!(!quiet.needs_confirmation());
    let loud = UninstallManager::new(Config::from_cli(false));
    assert!(loud.needs_confirmation());
}

#[test]
fn test_is_auto_nvm_binary() {
    assert!(is_auto_nvm_binary_name("auto-nvm"));
    assert!(is_auto_nvm_binary_name("auto-nvm.exe"));
    assert!(!is_auto_nvm_binary_name("not-auto-nvm"));
    assert_eq!(binary_file_name(false), "auto-nvm");
    assert_eq!(binary_file_name(true), "auto-nvm.exe");
}

#[test]
fn test_get_possible_binary_locations() {
    let home = dirs::home_dir().expect("home directory in test environment");
    let home_s = home.to_string_lossy().into_owned();
    let locations = get_possible_binary_locations(&home_s, &None);
    assert!(!locations.is_empty());

    // The default install location is among the candidates.
    let default_location = format!("{}/.local/bin", home_s);
    assert!(locations.contains(&default_location));
}

#[test]
fn test_build_nvm_command() {
    let zsh = build_nvm_command(ShellType::Zsh, "use 18.17.0");
    assert_eq!(zsh.program, "zsh");
    assert_eq!(zsh.flag, "-c");
    assert_eq!(zsh.command, "source ~/.nvm/nvm.sh && nvm use 18.17.0");

    let bash = build_nvm_command(ShellType::Bash, "--version");
    assert_eq!(bash.program, "bash");
    assert_eq!(bash.command, "source ~/.nvm/nvm.sh && nvm --version");

    let fish = build_nvm_command(ShellType::Fish, "use lts");
    assert_eq!(fish.program, "fish");
    assert_eq!(fish.flag, "-c");
    assert_eq!(fish.command, "nvm use lts");

    let ps = build_nvm_command(ShellType::PowerShell, "current");
    assert_eq!(ps.program, "powershell");
    assert_eq!(ps.flag, "-Command");
    assert_eq!(ps.command, "nvm current");
}

#[test]
fn test_version_decisions() {
    assert!(version_listed("->     v18.17.0\n       v20.0.0\n", "18.17.0"));
    assert!(!version_listed("->     v18.17.0\n", "16.14.0"));

    assert!(versions_match("v18.17.0", "18.17.0"));
    assert!(versions_match("18.17.0", "v18.17.0"));
    assert!(versions_match("v20.1.0", "lts"));
    assert!(versions_match("v20.1.0", "stable"));
    assert!(versions_match("v20.1.0", "latest"));
    assert!(!versions_match("v20.1.0", "18.17.0"));

    assert_eq!(switch_failure_message(" boom \n", "ignored"), "boom");
    assert_eq!(switch_failure_message("", " fallback "), "fallback");
}
