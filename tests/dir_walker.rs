use doc_panic_checker::analysis::{analyse_package, get_analysis, is_analysed, Color, SourceFile};
use doc_panic_checker::dir_walker::{
    is_cargo_home, is_coverable_file_path, is_hidden, is_part_of_project, is_source_file,
    is_target_folder, is_walked_source_file, target_folder, FsPath,
};

fn path(s: &str) -> FsPath {
    FsPath {
        absolute: s.starts_with('/'),
        parts: s.split('/').filter(|p| !p.is_empty()).map(|p| p.to_string()).collect(),
    }
}

#[test]
fn source_files_have_the_rs_extension() {
    assert!(is_source_file(&path("/p/src/main.rs")));
    assert!(is_source_file(&path("lib.rs")));
    assert!(!is_source_file(&path("/p/src/main.txt")));
    assert!(!is_source_file(&path("/p/.rs")));
    assert!(!is_source_file(&path("/p/rs")));
    assert!(!is_source_file(&path("/")));
}

#[test]
fn target_folder_is_under_root() {
    let root = path("/p");
    let target = target_folder(&root);
    assert_eq!(target.parts, vec!["p".to_string(), "target".to_string()]);
    assert!(target.absolute);
    assert!(is_target_folder(&path("/p/target/debug/build.rs"), &target));
    assert!(is_target_folder(&path("/p/target"), &target));
    assert!(!is_target_folder(&path("/p/targets/a.rs"), &target));
    assert!(!is_target_folder(&path("/p/src/target/a.rs"), &target));
}

#[test]
fn hidden_paths_are_found_after_the_root() {
    let root = path("/home/.me/p");
    assert!(!is_hidden(&path("/home/.me/p/src/a.rs"), &root));
    assert!(is_hidden(&path("/home/.me/p/.git/a.rs"), &root));
    assert!(is_hidden(&path("/other/.cache/a.rs"), &root));
    assert!(!is_hidden(&path("/other/a.rs"), &root));
}

#[test]
fn cargo_home_is_pruned_when_set() {
    let root = path("/p");
    let home = path("/home/me/.cargo");
    assert!(is_cargo_home(&path("/home/me/.cargo/registry/a.rs"), &root, Some(&home)));
    assert!(!is_cargo_home(&path("/p/src/a.rs"), &root, Some(&home)));
    let relative = path("vendor");
    assert!(is_cargo_home(&path("/p/vendor/x/a.rs"), &root, Some(&relative)));
    assert!(!is_cargo_home(&path("/p/src/a.rs"), &root, Some(&relative)));
    assert!(!is_cargo_home(&path("/home/me/.cargo/a.rs"), &root, None));
}

#[test]
fn project_membership() {
    assert!(is_part_of_project(&path("/p/src/a.rs"), &path("/p"), false));
    assert!(!is_part_of_project(&path("/q/src/a.rs"), &path("/p"), true));
    assert!(is_part_of_project(&path("src/a.rs"), &path("/p"), true));
    assert!(!is_part_of_project(&path("src/a.rs"), &path("/p"), false));
    assert!(is_part_of_project(&path("src/a.rs"), &path("p"), false));
}

#[test]
fn coverable_paths() {
    let root = path("/p");
    let target = target_folder(&root);
    assert!(is_coverable_file_path(&path("/p/src/a.rs"), &root, &target, None, false));
    assert!(is_coverable_file_path(&path("/p/src"), &root, &target, None, false));
    assert!(!is_coverable_file_path(&path("/p/target/a.rs"), &root, &target, None, false));
    assert!(!is_coverable_file_path(&path("/p/.hidden/a.rs"), &root, &target, None, false));
    assert!(!is_coverable_file_path(&path("/q/a.rs"), &root, &target, None, false));
}

#[test]
fn walked_source_files() {
    let root = path("/p");
    assert!(is_walked_source_file(&path("/p/src/a.rs"), &root, None, false, true));
    assert!(!is_walked_source_file(&path("/p/src/a.md"), &root, None, false, true));
    assert!(!is_walked_source_file(&path("/p/target/a.rs"), &root, None, false, true));
    assert!(!is_walked_source_file(&path("/p/target/debug/deep/a.rs"), &root, None, false, true));
    assert!(!is_walked_source_file(&path("/p/src/.a.rs"), &root, None, false, true));
    assert!(!is_walked_source_file(&path("/p/.git/a.rs"), &root, None, false, true));
    assert!(is_walked_source_file(&path("/p/src/target/a.rs"), &root, None, false, true));
    assert!(!is_walked_source_file(&path("/p/src/dir.rs"), &root, None, false, false));
}

#[test]
fn tests_and_examples_are_not_analysed() {
    let root = path("/p");
    assert!(is_analysed(&path("/p/src/a.rs"), &root));
    assert!(!is_analysed(&path("/p/tests/a.rs"), &root));
    assert!(!is_analysed(&path("/p/examples/a.rs"), &root));
    assert!(is_analysed(&path("/p/src/tests/a.rs"), &root));
}

#[test]
fn packages_are_analysed_in_order() {
    let root = path("/p");
    let code = "pub fn risky() {\n    x.unwrap();\n}\n".to_string();
    assert_eq!(analyse_package(&path("/p/src/a.rs"), &root, &code).len(), 1);
    assert!(analyse_package(&path("/p/tests/a.rs"), &root, &code).is_empty());
    let files = vec![
        SourceFile { path: path("/p/src/a.rs"), source_code: code.clone() },
        SourceFile { path: path("/p/examples/b.rs"), source_code: code.clone() },
        SourceFile {
            path: path("/p/src/c.rs"),
            source_code: "pub mod c {\n    pub fn f() {\n        panic!();\n    }\n}\n".to_string(),
        },
    ];
    let found: Vec<String> = get_analysis(&root, &files).into_iter().map(|p| p.ident).collect();
    assert_eq!(found, vec!["risky".to_string(), "c::f".to_string()]);
}

#[test]
fn colours_off_only_when_never() {
    assert!(Color::Auto.uses_ansi());
    assert!(Color::Always.uses_ansi());
    assert!(!Color::Never.uses_ansi());
}
