use git_ai::clone_target::{
    derive_directory_from_url, extract_clone_target_directory, is_option_with_value,
    post_clone_fetch_target,
};

#[test]
fn test_derive_directory_from_url() {
    assert_eq!(
        derive_directory_from_url("https://github.com/user/repo.git"),
        Some("repo".to_string())
    );
    assert_eq!(
        derive_directory_from_url("https://github.com/user/repo"),
        Some("repo".to_string())
    );
    assert_eq!(
        derive_directory_from_url("git@github.com:user/repo.git"),
        Some("repo".to_string())
    );
    assert_eq!(
        derive_directory_from_url("user@host:path/to/repo.git"),
        Some("repo".to_string())
    );
    assert_eq!(
        derive_directory_from_url("/local/path/repo.git"),
        Some("repo".to_string())
    );
}

#[test]
fn test_extract_clone_target_directory() {
    // Explicit directory specified
    let args = vec![
        "https://github.com/user/repo.git".to_string(),
        "my-dir".to_string(),
    ];
    assert_eq!(
        extract_clone_target_directory(&args),
        Some("my-dir".to_string())
    );

    // Directory derived from URL
    let args = vec!["https://github.com/user/repo.git".to_string()];
    assert_eq!(
        extract_clone_target_directory(&args),
        Some("repo".to_string())
    );

    // With options
    let args = vec![
        "-b".to_string(),
        "main".to_string(),
        "https://github.com/user/repo.git".to_string(),
    ];
    assert_eq!(
        extract_clone_target_directory(&args),
        Some("repo".to_string())
    );

    // With options and explicit directory
    let args = vec![
        "-b".to_string(),
        "main".to_string(),
        "https://github.com/user/repo.git".to_string(),
        "my-dir".to_string(),
    ];
    assert_eq!(
        extract_clone_target_directory(&args),
        Some("my-dir".to_string())
    );

    // With --option=value syntax
    let args = vec![
        "--branch=main".to_string(),
        "https://github.com/user/repo.git".to_string(),
        "my-dir".to_string(),
    ];
    assert_eq!(
        extract_clone_target_directory(&args),
        Some("my-dir".to_string())
    );
}

#[test]
fn test_derive_directory_edge_cases() {
    assert_eq!(derive_directory_from_url(""), None);
    assert_eq!(derive_directory_from_url("////"), None);
    assert_eq!(derive_directory_from_url("a/.git"), None);
    assert_eq!(derive_directory_from_url("repo"), Some("repo".to_string()));
    assert_eq!(
        derive_directory_from_url("https://host/repo///"),
        Some("repo".to_string())
    );
}

#[test]
fn test_is_option_with_value() {
    assert!(is_option_with_value("--branch"));
    assert!(is_option_with_value("-b"));
    assert!(is_option_with_value("--depth"));
    assert!(!is_option_with_value("--branch=main"));
    assert!(!is_option_with_value("--bare"));
    assert!(!is_option_with_value("-q"));
    assert!(!is_option_with_value("url"));
}

#[test]
fn test_extract_clone_target_no_positionals() {
    let args = vec!["--bare".to_string()];
    assert_eq!(extract_clone_target_directory(&args), None);
    let args: Vec<String> = Vec::new();
    assert_eq!(extract_clone_target_directory(&args), None);
}

#[test]
fn test_extract_clone_target_double_dash() {
    // After --, even option-looking arguments are positional.
    let args = vec![
        "--".to_string(),
        "-b".to_string(),
        "my-dir".to_string(),
    ];
    assert_eq!(
        extract_clone_target_directory(&args),
        Some("my-dir".to_string())
    );
}

#[test]
fn test_post_clone_fetch_target() {
    let args = vec!["https://github.com/user/repo.git".to_string()];
    assert_eq!(post_clone_fetch_target(false, &args), None);
    assert_eq!(
        post_clone_fetch_target(true, &args),
        Some("repo".to_string())
    );
}
