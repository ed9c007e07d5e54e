use rustr::helpers::get_binary_name;

#[test]
fn binary_name_prefers_package_name_over_first_explicit_bin() {
    let manifest = r#"
[package]
name = "app"
version = "0.1.0"

[[bin]]
name = "helper"
path = "src/bin/helper.rs"

[[bin]]
name = "app"
path = "src/main.rs"
"#;

    let binary = get_binary_name(manifest, false).unwrap();
    assert_eq!(binary, "app");
}

#[test]
fn binary_name_uses_default_run_when_present() {
    let manifest = r#"
[package]
name = "app"
version = "0.1.0"
default-run = "worker"

[[bin]]
name = "helper"
path = "src/bin/helper.rs"

[[bin]]
name = "worker"
path = "src/bin/worker.rs"
"#;

    let binary = get_binary_name(manifest, false).unwrap();
    assert_eq!(binary, "worker");
}

#[test]
fn binary_name_uses_package_name_when_src_main_exists() {
    let manifest = r#"
[package]
name = "app"
version = "0.1.0"

[[bin]]
name = "helper-a"
path = "src/bin/helper-a.rs"

[[bin]]
name = "helper-b"
path = "src/bin/helper-b.rs"
"#;
    let binary = get_binary_name(manifest, true).unwrap();
    assert_eq!(binary, "app");
}

#[test]
fn binary_name_uses_single_explicit_bin_when_no_package_bin_exists() {
    let manifest = r#"
[package]
name = "app"
version = "0.1.0"
autobins = false

[[bin]]
name = "worker"
path = "src/bin/worker.rs"
"#;

    let binary = get_binary_name(manifest, false).unwrap();
    assert_eq!(binary, "worker");
}

#[test]
fn binary_name_errors_on_ambiguous_explicit_bins() {
    let manifest = r#"
[package]
name = "app"
version = "0.1.0"
autobins = false

[[bin]]
name = "worker-a"
path = "src/bin/worker-a.rs"

[[bin]]
name = "worker-b"
path = "src/bin/worker-b.rs"
"#;

    let error = get_binary_name(manifest, false).unwrap_err().message();
    assert!(error.contains("Multiple binary targets"));
}
