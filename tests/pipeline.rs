use modbuild::artifact::{choose_best, expected_dir, resolve_artifact, TargetError};
use modbuild::catalog::{all_targets, select_named, select_targets, BuildTarget};
use modbuild::events::{collect_line, decode_event, event_candidates};
use modbuild::project::{ensure_cdylib, get_crate_name, ProjectError};
use modbuild::publish::{add_suffix, file_name, published_name};
use modbuild::run::Orchestrator;
use modbuild::toolchain::{
    build_args, decide_toolchain, has_mac_compiler, has_zigbuild, is_host_triple,
    names_mac_compiler, HostFacts, SkipReason, Toolchain,
};

fn bare_host() -> HostFacts {
    HostFacts {
        cc: None,
        host_triple: "x86_64-unknown-linux-gnu".to_string(),
        host_is_macos: false,
        zigbuild: false,
        zig: false,
        o64_clang: false,
        oa64_clang: false,
    }
}

fn target(name: &str) -> BuildTarget {
    all_targets().into_iter().find(|t| t.name == name).unwrap()
}

fn names(ts: &[BuildTarget]) -> Vec<&'static str> {
    ts.iter().map(|t| t.name).collect()
}

fn strings(v: &[&str]) -> Vec<String> {
    v.iter().map(|s| s.to_string()).collect()
}

#[test]
fn catalog_in_declared_order() {
    assert_eq!(
        names(&all_targets()),
        vec!["linux", "windows-gnu", "windows-msvc", "mac-intel", "mac-arm64"]
    );
    let mac = target("mac-arm64");
    assert_eq!(mac.triple, "aarch64-apple-darwin");
    assert_eq!(mac.ext, "dylib");
    assert!(mac.needs_mac);
}

#[test]
fn select_without_filter_is_whole_catalog() {
    assert_eq!(names(&select_targets(None)), names(&all_targets()));
}

#[test]
fn select_keeps_catalog_order() {
    let a = select_targets(Some("mac-arm64,linux".to_string()));
    let b = select_targets(Some("linux,mac-arm64".to_string()));
    assert_eq!(names(&a), vec!["linux", "mac-arm64"]);
    assert_eq!(names(&b), vec!["linux", "mac-arm64"]);
}

#[test]
fn select_drops_unknown_and_trims() {
    let r = select_targets(Some(" windows-gnu , bogus,,linux,linux".to_string()));
    assert_eq!(names(&r), vec!["linux", "windows-gnu"]);
    assert!(select_targets(Some("bogus".to_string())).is_empty());
    assert!(select_targets(Some(String::new())).is_empty());
}

#[test]
fn mac_compiler_from_cc_is_case_insensitive() {
    let mut f = bare_host();
    f.cc = Some("/opt/osxcross/bin/O64-CLANG".to_string());
    assert!(has_mac_compiler(&f));
    f.cc = Some("gcc".to_string());
    f.zig = true;
    assert!(!has_mac_compiler(&f));
    f.cc = None;
    assert!(has_mac_compiler(&f));
    assert!(names_mac_compiler("zig cc -target aarch64-macos"));
    assert!(!names_mac_compiler("clang"));
}

#[test]
fn host_triple_and_zigbuild_facts() {
    let mut f = bare_host();
    assert!(is_host_triple(&f, "x86_64-unknown-linux-gnu"));
    assert!(!is_host_triple(&f, "x86_64-pc-windows-gnu"));
    assert!(!has_zigbuild(&f));
    f.zigbuild = true;
    assert!(has_zigbuild(&f));
}

#[test]
fn cross_target_without_compiler_is_skipped() {
    let f = bare_host();
    assert_eq!(
        decide_toolchain(&target("mac-intel"), &f),
        Err(SkipReason::NoMacCompiler)
    );
}

#[test]
fn msvc_is_skipped_on_macos() {
    let mut f = bare_host();
    f.host_is_macos = true;
    f.zigbuild = true;
    assert_eq!(
        decide_toolchain(&target("windows-msvc"), &f),
        Err(SkipReason::MsvcFromMac)
    );
    assert_eq!(decide_toolchain(&target("windows-gnu"), &f), Ok(Toolchain::Zigbuild));
}

#[test]
fn zigbuild_only_for_foreign_or_mac_targets() {
    let mut f = bare_host();
    assert_eq!(decide_toolchain(&target("windows-gnu"), &f), Ok(Toolchain::Native));
    f.zigbuild = true;
    assert_eq!(decide_toolchain(&target("linux"), &f), Ok(Toolchain::Native));
    assert_eq!(decide_toolchain(&target("windows-gnu"), &f), Ok(Toolchain::Zigbuild));
    f.zig = true;
    assert_eq!(decide_toolchain(&target("mac-arm64"), &f), Ok(Toolchain::Zigbuild));
}

#[test]
fn build_arguments() {
    assert_eq!(
        build_args(&target("linux"), Toolchain::Native),
        strings(&["build", "--release", "--target", "x86_64-unknown-linux-gnu", "--message-format=json"])
    );
    assert_eq!(
        build_args(&target("mac-intel"), Toolchain::Zigbuild)[0],
        "zigbuild".to_string()
    );
}

const ARTIFACT_LINE: &str = r#"{"reason":"compiler-artifact","target":{"kind":["cdylib","rlib"],"name":"foo"},"filenames":["/p/target/x86_64-apple-darwin/release/libfoo.dylib","/p/target/x86_64-apple-darwin/release/libfoo.rlib"]}"#;

#[test]
fn decodes_artifact_event() {
    let e = decode_event(ARTIFACT_LINE).unwrap();
    assert_eq!(e.reason.as_deref(), Some("compiler-artifact"));
    assert_eq!(e.kinds, strings(&["cdylib", "rlib"]));
    assert_eq!(
        event_candidates(&e, "dylib"),
        strings(&["/p/target/x86_64-apple-darwin/release/libfoo.dylib"])
    );
    assert!(event_candidates(&e, "so").is_empty());
}

#[test]
fn ignores_other_events_and_bad_lines() {
    let mut found = Vec::new();
    collect_line(&mut found, "", "so");
    collect_line(&mut found, "not json at all", "so");
    collect_line(&mut found, r#"{"reason":"build-finished","success":true}"#, "so");
    collect_line(
        &mut found,
        r#"{"reason":"compiler-artifact","target":{"kind":["lib"]},"filenames":["/p/target/release/libfoo.so"]}"#,
        "so",
    );
    assert!(found.is_empty());
    collect_line(
        &mut found,
        r#"{"reason":"compiler-artifact","target":{"kind":["cdylib"]},"filenames":["/p/target/release/libfoo.so", 7]}"#,
        "so",
    );
    assert_eq!(found, strings(&["/p/target/release/libfoo.so"]));
    assert!(decode_event("").is_none());
}

#[test]
fn prefers_candidate_in_triple_directory() {
    let t = target("mac-arm64");
    let files = strings(&[
        "/p/target/x86_64-apple-darwin/release/libfoo.dylib",
        "/p/target/aarch64-apple-darwin/release/libfoo.dylib",
    ]);
    assert_eq!(
        choose_best(&files, &t),
        Some("/p/target/aarch64-apple-darwin/release/libfoo.dylib".to_string())
    );
}

#[test]
fn falls_back_to_first_with_extension() {
    let t = target("mac-arm64");
    let files = strings(&["/p/out/libfoo.so", "/p/out/libfoo.dylib", "/p/other/libbar.dylib"]);
    assert_eq!(choose_best(&files, &t), Some("/p/out/libfoo.dylib".to_string()));
    assert_eq!(choose_best(&strings(&["/p/libfoo.so"]), &t), None);
}

#[test]
fn successful_build_without_candidates_is_not_found() {
    let t = target("linux");
    match resolve_artifact(true, &Vec::new(), &t, "/home/me/mod") {
        Err(TargetError::ArtifactNotFound { expected_dir }) => {
            assert_eq!(expected_dir, "/home/me/mod/target/x86_64-unknown-linux-gnu/release")
        }
        _ => panic!("expected ArtifactNotFound"),
    }
    assert!(matches!(
        resolve_artifact(true, &strings(&["/x/libfoo.dll"]), &t, "/m"),
        Err(TargetError::ArtifactNotFound { .. })
    ));
    assert_eq!(expected_dir("/m/", &t), "/m/target/x86_64-unknown-linux-gnu/release");
}

#[test]
fn failed_build_is_build_failed() {
    let t = target("linux");
    let files = strings(&["/p/target/x86_64-unknown-linux-gnu/release/libfoo.so"]);
    assert!(matches!(resolve_artifact(false, &files, &t, "/p"), Err(TargetError::BuildFailed)));
    assert!(matches!(resolve_artifact(true, &files, &t, "/p"), Ok(ref f) if f == &files[0]));
}

#[test]
fn suffix_goes_before_extension() {
    assert_eq!(add_suffix("libfoo.so", "-linux"), "libfoo-linux.so");
    assert_eq!(add_suffix("name", "-suffix"), "name-suffix");
    assert_eq!(add_suffix("lib.foo.dll", "-windows-gnu"), "lib.foo-windows-gnu.dll");
    assert_eq!(file_name("/a/b/libfoo.so"), "libfoo.so");
    assert_eq!(file_name("libfoo.so"), "libfoo.so");
    assert_eq!(
        published_name("/p/target/x86_64-apple-darwin/release/libfoo.dylib", &target("mac-intel")),
        "libfoo-mac-intel.dylib"
    );
}

#[test]
fn skipped_target_does_not_stop_the_run() {
    let mut run = Orchestrator::new(vec![target("mac-intel"), target("linux")]);
    let f = bare_host();
    assert!(run.begin(&f).is_none());
    assert!(matches!(run.outcomes()[0], Err(TargetError::Skipped(SkipReason::NoMacCompiler))));
    assert_eq!(run.current().unwrap().name, "linux");
    let args = run.begin(&f).unwrap();
    assert_eq!(args[0], "build");
}

#[test]
fn failed_target_then_published_target() {
    let mut run = Orchestrator::new(vec![target("windows-gnu"), target("linux")]);
    let f = bare_host();
    assert!(run.begin(&f).is_some());
    assert!(run.finish_build(Ok(false), &Vec::new(), "/p").is_none());
    assert!(!run.is_done());
    assert!(run.begin(&f).is_some());
    let mut found = Vec::new();
    collect_line(
        &mut found,
        r#"{"reason":"compiler-artifact","target":{"kind":["cdylib"]},"filenames":["/p/target/x86_64-unknown-linux-gnu/release/libfoo.so"]}"#,
        "so",
    );
    let job = run.finish_build(Ok(true), &found, "/p").unwrap();
    assert_eq!(job.source, "/p/target/x86_64-unknown-linux-gnu/release/libfoo.so");
    assert_eq!(job.file_name, "libfoo-linux.so");
    run.finish_publish(Ok(()));
    assert!(run.is_done());
    let out = run.outcomes();
    assert_eq!(out.len(), 2);
    let subprocess_errors = out
        .iter()
        .filter(|o| matches!(o, Err(TargetError::BuildFailed) | Err(TargetError::SpawnFailed(_))))
        .count();
    assert_eq!(subprocess_errors, 1);
    assert!(matches!(out[1], Ok(ref n) if n == "libfoo-linux.so"));
}

#[test]
fn spawn_and_copy_failures_are_recorded() {
    let mut run = Orchestrator::new(vec![target("linux"), target("linux")]);
    let f = bare_host();
    run.begin(&f);
    assert!(run.finish_build(Err("no cargo".to_string()), &Vec::new(), "/p").is_none());
    run.begin(&f);
    let found = strings(&["/p/target/x86_64-unknown-linux-gnu/release/libfoo.so"]);
    assert!(run.finish_build(Ok(true), &found, "/p").is_some());
    run.finish_publish(Err("disk full".to_string()));
    assert!(run.is_done());
    assert!(matches!(run.outcomes()[0], Err(TargetError::SpawnFailed(ref m)) if m == "no cargo"));
    assert!(matches!(run.outcomes()[1], Err(TargetError::PublishFailed(ref m)) if m == "disk full"));
}

#[test]
fn crate_name_from_metadata() {
    let meta = r#"{"packages":[{"name":"other","manifest_path":"/w/other/Cargo.toml"},{"name":"mymod","manifest_path":"/w/mymod/Cargo.toml"}]}"#;
    assert_eq!(get_crate_name(meta, "/w/mymod/Cargo.toml"), Ok("mymod".to_string()));
    assert_eq!(get_crate_name(meta, "/elsewhere/Cargo.toml"), Ok("other".to_string()));
    assert_eq!(get_crate_name(r#"{"packages":[]}"#, "/x"), Err(ProjectError::NoPackage));
    assert_eq!(get_crate_name("{}", "/x"), Err(ProjectError::NoPackages));
    assert_eq!(get_crate_name(r#"{"packages":{"a":1}}"#, "/x"), Err(ProjectError::NoPackages));
    assert_eq!(get_crate_name("nope", "/x"), Err(ProjectError::NotJson));
    assert_eq!(get_crate_name(r#"{"packages":[{"version":"1"}]}"#, "/x"), Err(ProjectError::NoName));
}

#[test]
fn cdylib_manifest_check() {
    assert_eq!(
        ensure_cdylib(r#"{"targets":[{"kind":["bin"]},{"kind":["rlib","cdylib"]}]}"#),
        Ok(())
    );
    assert_eq!(ensure_cdylib(r#"{"targets":[{"kind":["lib"]}]}"#), Err(ProjectError::NotCdylib));
    assert_eq!(ensure_cdylib(r#"{"name":"x"}"#), Err(ProjectError::NoTargets));
    assert_eq!(ensure_cdylib(""), Err(ProjectError::NotJson));
    assert_eq!(ensure_cdylib("targets: cdylib"), Err(ProjectError::NotJson));
    assert_eq!(ensure_cdylib(r#"{"targets":{"kind":["cdylib"]}}"#), Err(ProjectError::NoTargets));
    assert_eq!(
        ensure_cdylib(r#"{"targets":[{"kind":["cdylib","rlib"]},{"kind":["bin"]}]}"#),
        ensure_cdylib(r#"{"targets":[{"kind":["weird"]},{"kind":["rlib","cdylib"]}]}"#)
    );
}

#[test]
fn select_named_uses_exact_names() {
    let r = select_named(&strings(&["mac-intel", "linux", "Linux"]));
    assert_eq!(names(&r), vec!["linux", "mac-intel"]);
}

#[test]
fn filter_trims_unicode_white_space() {
    let r = select_targets(Some("\tlinux\u{a0},\u{3000}mac-arm64 \n".to_string()));
    assert_eq!(names(&r), vec!["linux", "mac-arm64"]);
}

#[test]
fn collect_line_returns_the_event() {
    let mut found = strings(&["/earlier.dylib"]);
    let e = collect_line(&mut found, ARTIFACT_LINE, "dylib").unwrap();
    assert_eq!(e.filenames.len(), 2);
    assert_eq!(
        found,
        strings(&["/earlier.dylib", "/p/target/x86_64-apple-darwin/release/libfoo.dylib"])
    );
    assert!(collect_line(&mut found, "{not json", "dylib").is_none());
    assert_eq!(found.len(), 2);
}
