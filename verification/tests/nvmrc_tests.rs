use auto_nvm::nvmrc::{parse_nvmrc, validate_version};
use auto_nvm::AutoNvmError;

#[test]
fn test_validate_version() {
    // Valid versions
    assert!(validate_version("18.17.0").is_ok());
    assert!(validate_version("v18.17.0").is_ok());
    assert!(validate_version("18").is_ok());
    assert!(validate_version("v18").is_ok());
    assert!(validate_version("lts").is_ok());
    assert!(validate_version("node").is_ok());
    assert!(validate_version("stable").is_ok());
    assert!(validate_version("latest").is_ok());

    // Invalid versions
    assert!(validate_version("").is_err());
    assert!(validate_version("invalid").is_err());
    assert!(validate_version("18.17.0.1").is_err());
    assert!(validate_version("18.").is_err());
    assert!(validate_version(".17").is_err());
}

#[test]
fn test_validate_version_error_variants() {
    assert_eq!(validate_version(""), Err(AutoNvmError::EmptyVersion));
    assert_eq!(validate_version("invalid"), Err(AutoNvmError::InvalidVersion));
    assert_eq!(validate_version("18..0"), Err(AutoNvmError::InvalidVersion));
}

#[test]
fn test_parse_nvmrc() {
    // Normal version
    let version = parse_nvmrc("18.17.0\n").unwrap();
    assert_eq!(version, "18.17.0");

    // Version with whitespace
    let version = parse_nvmrc("  v18  \n").unwrap();
    assert_eq!(version, "v18");

    // Empty content
    assert!(parse_nvmrc("").is_err());
}

#[test]
fn test_parse_nvmrc_crlf() {
    let version = parse_nvmrc("18.17.0\r\n").unwrap();
    assert_eq!(version, "18.17.0");
}

#[test]
fn test_parse_nvmrc_first_line_only() {
    let version = parse_nvmrc("18.17.0\nsomething else\n").unwrap();
    assert_eq!(version, "18.17.0");
    assert_eq!(parse_nvmrc("   \n18\n"), Err(AutoNvmError::EmptyVersion));
}
