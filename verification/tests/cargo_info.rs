use rust_workspace_map::cargo_info::parse_cargo_toml;
use rust_workspace_map::schema::Error;

fn manifest(text: &str) -> Result<String, String> {
    Ok(text.to_string())
}

#[test]
fn parse_cargo_toml_parses_minimal() {
    let doc = manifest(
        r#"
[package]
name = "test-pkg"
version = "1.0.0"
edition = "2021"
"#,
    );
    let (pkg, _deps) = parse_cargo_toml("Cargo.toml", &doc).unwrap();
    assert_eq!(pkg.name, "test-pkg");
    assert_eq!(pkg.version, "1.0.0");
    assert_eq!(pkg.edition, "2021");
}

#[test]
fn parse_cargo_toml_uses_defaults_for_missing_package() {
    let doc = manifest("");
    let (pkg, _deps) = parse_cargo_toml("Cargo.toml", &doc).unwrap();
    assert_eq!(pkg.name, "unknown");
    assert_eq!(pkg.edition, "2021");
}

#[test]
fn parse_cargo_toml_distinguishes_deps() {
    let doc = manifest(
        r#"
[package]
name = "test-pkg"
version = "0.1.0"
edition = "2021"

[dependencies]
foo = "1"
bar = { workspace = true }

[dev-dependencies]
baz = "2"
qux = { workspace = true }
"#,
    );
    let (_, deps) = parse_cargo_toml("Cargo.toml", &doc).unwrap();
    assert_eq!(deps.normal, vec!["foo"]);
    assert_eq!(deps.dev, vec!["baz"]);
    assert!(deps.workspace_members.contains(&"bar".to_string()));
    assert!(deps.workspace_members.contains(&"qux".to_string()));
}

#[test]
fn parse_cargo_toml_defaults_for_non_string_fields() {
    let doc = manifest("[package]\nname = 7\nversion = true\n");
    let (pkg, deps) = parse_cargo_toml("Cargo.toml", &doc).unwrap();
    assert_eq!(pkg.name, "unknown");
    assert_eq!(pkg.version, "0.0.0");
    assert_eq!(pkg.edition, "2021");
    assert!(deps.normal.is_empty() && deps.dev.is_empty() && deps.workspace_members.is_empty());
}

#[test]
fn parse_cargo_toml_sorts_and_dedups_workspace_members() {
    let doc = manifest(
        r#"
[dependencies]
zed = { workspace = true }
alpha = { workspace = true }
plain = { workspace = false }
other = { path = "../other" }

[dev-dependencies]
alpha = { workspace = true }
beta = { workspace = true }
"#,
    );
    let (_, deps) = parse_cargo_toml("Cargo.toml", &doc).unwrap();
    assert_eq!(deps.normal, vec!["other", "plain"]);
    assert!(deps.dev.is_empty());
    assert_eq!(deps.workspace_members, vec!["alpha", "beta", "zed"]);
}

#[test]
fn parse_cargo_toml_reports_parse_error() {
    let text = "[package\nname = ";
    let doc = manifest(text);
    let msg = toml::from_str::<toml::Value>(text).unwrap_err().to_string();
    match parse_cargo_toml("ws/a/Cargo.toml", &doc) {
        Err(Error::TomlParse { path, message }) => {
            assert_eq!(path, "ws/a/Cargo.toml");
            assert_eq!(message, msg);
        }
        other => panic!("expected TomlParse, got {other:?}"),
    }
}

#[test]
fn parse_cargo_toml_reports_read_error() {
    let doc: Result<String, String> = Err("No such file or directory (os error 2)".to_string());
    let err = parse_cargo_toml("ws/a/Cargo.toml", &doc).unwrap_err();
    assert_eq!(
        err.message(),
        "failed to read file ws/a/Cargo.toml: No such file or directory (os error 2)"
    );
    match err {
        Error::FileRead { path, .. } => assert_eq!(path, "ws/a/Cargo.toml"),
        other => panic!("expected FileRead, got {other:?}"),
    }
}
