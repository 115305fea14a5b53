use lars::{generate_service_name, sanitize_for_shell, validate_not_empty, validate_service_name, ValidationError};

#[test]
fn test_validate_service_name_valid() {
    assert!(validate_service_name("valid_name").is_ok());
    assert!(validate_service_name("valid-name-123").is_ok());
    assert!(validate_service_name("a").is_ok());
    assert!(validate_service_name("ABC123").is_ok());
    assert!(validate_service_name("my-service").is_ok());
    assert!(validate_service_name("my_service").is_ok());
}

#[test]
fn test_validate_service_name_empty() {
    let err = validate_service_name("").unwrap_err();
    assert!(matches!(err, ValidationError::InvalidNameLength(0)));
}

#[test]
fn test_validate_service_name_too_long() {
    let long_name = "a".repeat(65);
    let err = validate_service_name(&long_name).unwrap_err();
    assert!(matches!(err, ValidationError::InvalidNameLength(65)));
}

#[test]
fn test_validate_service_name_invalid_characters() {
    assert!(validate_service_name("name; rm -rf /").is_err());
    assert!(validate_service_name("name$(whoami)").is_err());
    assert!(validate_service_name("name`id`").is_err());
    assert!(validate_service_name("name|cat").is_err());
    assert!(validate_service_name("name&bg").is_err());
    assert!(validate_service_name("name>file").is_err());
    assert!(validate_service_name("name<file").is_err());
    assert!(validate_service_name("name'quoted'").is_err());
    assert!(validate_service_name("name\"quoted\"").is_err());
    assert!(validate_service_name("name with spaces").is_err());
    assert!(validate_service_name("name\ttab").is_err());
    assert!(validate_service_name("name\nnewline").is_err());
}

#[test]
fn test_sanitize_for_shell_valid() {
    assert!(sanitize_for_shell("hello world").is_ok());
    assert!(sanitize_for_shell("echo 'hello'").is_ok());
}

#[test]
fn test_sanitize_for_shell_null_byte() {
    let err = sanitize_for_shell("hello\0world").unwrap_err();
    assert!(matches!(err, ValidationError::NullByteInInput));
}

#[test]
fn test_validate_not_empty() {
    assert!(validate_not_empty("hello").is_ok());
    assert!(validate_not_empty("").is_err());
    assert!(validate_not_empty("   ").is_err());
    assert!(validate_not_empty("\t\n").is_err());
}

#[test]
fn test_generate_service_name() {
    assert_eq!(generate_service_name("echo hello"), "echo");
    assert_eq!(generate_service_name("/usr/bin/python script.py"), "python");
    assert_eq!(generate_service_name("npm start"), "npm");
    assert_eq!(generate_service_name(""), "service");
    assert_eq!(generate_service_name("   "), "service");

    let name = generate_service_name("test;evil");
    assert!(validate_service_name(&name).is_ok());
}

#[test]
fn test_generate_service_name_skips_env_vars() {
    assert_eq!(generate_service_name("PORT=3000 npm start"), "npm");
    assert_eq!(generate_service_name("NODE_ENV=production node app.js"), "node");
    assert_eq!(
        generate_service_name("FOO=bar BAZ=qux python app.py"),
        "python"
    );
    assert_eq!(
        generate_service_name("PATH=/usr/bin /usr/local/bin/ruby script.rb"),
        "ruby"
    );
    assert_eq!(generate_service_name("KEY=value"), "service");
    assert_eq!(
        generate_service_name("./configure --prefix=/usr"),
        "configure"
    );
}

#[test]
fn test_generate_service_name_npx_commands() {
    assert_eq!(
        generate_service_name("npx vibe-kanban@latest"),
        "vibe-kanban"
    );
    assert_eq!(generate_service_name("npx create-react-app my-app"), "create-react-app");
    assert_eq!(generate_service_name("npx -y cowsay hello"), "cowsay");
    assert_eq!(
        generate_service_name("PORT=50505 npx vibe-kanban@latest"),
        "vibe-kanban"
    );
    assert_eq!(generate_service_name("bunx my-tool"), "my-tool");
    assert_eq!(generate_service_name("pnpx some-package@1.0.0"), "some-package");
    assert_eq!(generate_service_name("npx"), "npx");
    assert_eq!(generate_service_name("npx -y"), "npx");
}

#[test]
fn name_validation_accepts_and_rejects() {
    assert_eq!(validate_service_name("ok-name_1"), Ok(()));
    assert_eq!(validate_service_name("bad;name"), Err(ValidationError::InvalidNameCharacters));
    assert_eq!(validate_service_name("bad name"), Err(ValidationError::InvalidNameCharacters));
    assert_eq!(validate_service_name(""), Err(ValidationError::InvalidNameLength(0)));
    let long_name = "x".repeat(65);
    assert_eq!(validate_service_name(&long_name), Err(ValidationError::InvalidNameLength(65)));
    let limit = "x".repeat(64);
    assert_eq!(validate_service_name(&limit), Ok(()));
}

#[test]
fn name_length_counts_characters() {
    // 33 two-byte characters: 33 characters, 66 bytes.
    let wide = "é".repeat(33);
    assert_eq!(validate_service_name(&wide), Ok(()));
    let too_wide = "é".repeat(65);
    assert_eq!(validate_service_name(&too_wide), Err(ValidationError::InvalidNameLength(65)));
    assert_eq!(validate_service_name("café"), Ok(()));
}

#[test]
fn name_generation_from_assignment_and_package_runner() {
    assert_eq!(generate_service_name("PORT=3000 npx vibe-kanban@latest"), "vibe-kanban");
}

#[test]
fn name_generation_scoped_package() {
    assert_eq!(generate_service_name("npx @org/tool@2.0.0"), "tool");
    assert_eq!(generate_service_name("bunx -y --quiet"), "bunx");
}

#[test]
fn name_generation_drops_invalid_characters_and_caps_length() {
    assert_eq!(generate_service_name("test;evil"), "testevil");
    let long = "a".repeat(80);
    assert_eq!(generate_service_name(&long), "a".repeat(64));
    assert_eq!(generate_service_name("=== x"), "service");
    assert_eq!(generate_service_name("1A=b run"), "1Ab");
}

#[test]
fn name_generation_unicode_whitespace_separates_words() {
    assert_eq!(generate_service_name("\u{3000}node\u{A0}app.js"), "node");
}

#[test]
fn shell_quoting_forms() {
    assert_eq!(sanitize_for_shell("plain/path-1.log").unwrap(), "plain/path-1.log");
    assert_eq!(sanitize_for_shell("hello world").unwrap(), "'hello world'");
    assert_eq!(sanitize_for_shell("it's").unwrap(), "'it'\\''s'");
    assert_eq!(sanitize_for_shell("wow!").unwrap(), "'wow'\\!''");
    assert_eq!(sanitize_for_shell("").unwrap(), "''");
}

#[test]
fn validate_not_empty_error_kind() {
    assert_eq!(validate_not_empty(" \u{2003} "), Err(ValidationError::EmptyInput));
    assert_eq!(validate_not_empty("  x "), Ok(()));
}
