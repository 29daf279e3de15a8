use doc_panic_checker::ast_walker::{contains_panicky_words, warns_about_panics, AstWalker, PanicLocation};

fn findings(code: &str) -> Vec<PanicLocation> {
    AstWalker::new_with_source(String::from("bad_code.rs"), code.to_string()).process()
}

fn names(code: &str) -> Vec<String> {
    findings(code).into_iter().map(|p| p.ident).collect()
}

#[test]
fn undocumented_panics() {
    let naughty_code = r#"
                /// Nothing to see here 
                pub fn foobar() {
                    panic!("mwhahahahaha");
                }
            "#
    .to_string();

    let ast_walker = AstWalker::new_with_source(String::from("bad_code.rs"), naughty_code);

    let panik = ast_walker.process();
    assert_eq!(panik.len(), 1);
    assert_eq!(panik[0].ident, "foobar");
}

#[test]
fn finding_lines_and_rendering() {
    let code = "\n/// Nothing to see here\npub fn foobar() {\n    panic!(\"no\");\n}\n";
    let found = findings(code);
    assert_eq!(found.len(), 1);
    assert_eq!(found[0].start_line, 2);
    assert_eq!(found[0].end_line, 5);
    assert_eq!(found[0].render(), "foobar 2:5");
}

#[test]
fn documented_panic_is_not_reported() {
    let code = "/// May panic if input invalid\npub fn foobar() {\n    risky_call_containing_panic();\n}\n";
    assert!(findings(code).is_empty());
}

#[test]
fn documentation_is_case_folded() {
    let code = "/// PANICS when the input is empty\npub fn first(v: &[u8]) -> u8 {\n    v.first().copied().unwrap()\n}\n";
    assert!(findings(code).is_empty());
}

#[test]
fn undocumented_function_is_reported() {
    let code = "pub fn risky() {\n    x.unwrap();\n}\n";
    assert_eq!(names(code), vec!["risky".to_string()]);
}

#[test]
fn documentation_without_panic_word_is_reported() {
    let code = "/// Reads the value.\n/// Returns it.\npub fn risky() {\n    x.expect(\"set\");\n}\n";
    assert_eq!(names(code), vec!["risky".to_string()]);
}

#[test]
fn private_function_is_not_reported() {
    let code = "fn hidden() {\n    todo!()\n}\n";
    assert!(findings(code).is_empty());
}

#[test]
fn public_module_qualifies_names() {
    let code = "pub mod inner {\n    pub fn f() {\n        panic!();\n    }\n}\n";
    assert_eq!(names(code), vec!["inner::f".to_string()]);
}

#[test]
fn nested_modules_qualify_names() {
    let code = "pub mod a {\n    pub mod b {\n        pub fn g() {\n            unimplemented!()\n        }\n    }\n}\n";
    assert_eq!(names(code), vec!["a::b::g".to_string()]);
}

#[test]
fn private_module_is_not_entered() {
    let code = "mod inner {\n    pub fn f() {\n        panic!();\n    }\n}\n";
    assert!(findings(code).is_empty());
}

#[test]
fn impl_methods_are_reported_whatever_the_visibility() {
    let code = "struct Foo;\nimpl Foo {\n    fn bar(&self) {\n        self.x.unwrap();\n    }\n}\n";
    assert_eq!(names(code), vec!["Foo::bar".to_string()]);
}

#[test]
fn generic_impl_type_is_printed_as_tokens() {
    let code = "pub mod m {\n    impl<T> Foo<T> {\n        pub fn g(&self) {\n            self.x.expect(\"x\");\n        }\n    }\n}\n";
    assert_eq!(names(code), vec!["m::Foo < T >::g".to_string()]);
}

#[test]
fn trait_default_methods_are_reported() {
    let code = "pub trait Shape {\n    fn area(&self) -> u32;\n    fn side(&self) -> u32 {\n        todo!()\n    }\n}\n";
    assert_eq!(names(code), vec!["Shape::side".to_string()]);
}

#[test]
fn private_trait_is_not_reported() {
    let code = "trait Shape {\n    fn side(&self) -> u32 {\n        todo!()\n    }\n}\n";
    assert!(findings(code).is_empty());
}

#[test]
fn macro_definitions_are_ignored() {
    let code = "#[macro_export]\nmacro_rules! boom {\n    () => {\n        panic!()\n    };\n}\n";
    assert!(findings(code).is_empty());
}

#[test]
fn unparsable_file_yields_nothing() {
    let code = "pub fn broken( {\n    panic!();\n}\n";
    assert!(findings(code).is_empty());
}

#[test]
fn file_without_risk_words_yields_nothing() {
    let code = "pub fn fine() {\n    let x = 1;\n}\n";
    assert!(findings(code).is_empty());
}

#[test]
fn findings_keep_source_order() {
    let code = "pub fn one() {\n    panic!();\n}\npub mod m {\n    pub fn two() {\n        panic!();\n    }\n}\npub fn three() {\n    panic!();\n}\n";
    assert_eq!(
        names(code),
        vec!["one".to_string(), "m::two".to_string(), "three".to_string()]
    );
}

#[test]
fn one_line_function_is_reported() {
    let code = "/// Nothing to see here\npub fn foobar() { risky_call_containing_panic(); }\n";
    assert_eq!(names(code), vec!["foobar".to_string()]);
}

#[test]
fn one_line_function_with_warning_is_not_reported() {
    let code = "/// May panic if input invalid\npub fn foobar() { risky_call_containing_panic(); }\n";
    assert!(findings(code).is_empty());
}

#[test]
fn one_line_module_function_is_reported() {
    let code = "pub mod inner { pub fn f(){ panic!(); } }\n";
    assert_eq!(names(code), vec!["inner::f".to_string()]);
}

#[test]
fn restricted_visibility_is_not_public() {
    let code = "pub(crate) fn a() {\n    panic!();\n}\npub(super) fn b() {\n    panic!();\n}\n";
    assert!(findings(code).is_empty());
}

#[test]
fn c_string_literals_do_not_stop_the_analysis() {
    let code = "pub fn f() {\n    let s = c\"x\";\n    s.unwrap();\n}\n";
    assert_eq!(names(code), vec!["f".to_string()]);
}

#[test]
fn undocumented_trait_default_and_impl_methods() {
    let code = "pub trait T {\n    fn req(&self);\n    fn d(&self) {\n        panic!();\n    }\n}\nimpl Foo {\n    fn m(&self) {\n        self.x.unwrap();\n    }\n}\n";
    assert_eq!(names(code), vec!["T::d".to_string(), "Foo::m".to_string()]);
}

#[test]
fn risk_words_are_found_on_any_line() {
    assert!(contains_panicky_words("fn a() {}\n    x.unwrap()\n"));
    assert!(contains_panicky_words("// todo later"));
    assert!(contains_panicky_words("unimplemented"));
    assert!(contains_panicky_words("a.expect(1)\r\n"));
    assert!(!contains_panicky_words("fn a() {}\nfn b() {}\n"));
    assert!(!contains_panicky_words(""));
    assert!(!contains_panicky_words("pan\nic"));
}

#[test]
fn warning_needs_the_panic_word() {
    assert!(warns_about_panics("/// may panic"));
    assert!(!warns_about_panics(""));
    assert!(!warns_about_panics("/// may fail"));
    assert!(!warns_about_panics("/// may PANIC"));
}

#[test]
fn rendering_prints_multi_digit_lines() {
    let code = "\n\n\n\n\n\n\n\n\npub fn late() {\n    panic!();\n}\n";
    let found = findings(code);
    assert_eq!(found.len(), 1);
    assert_eq!(found[0].render(), "late 10:12");
}
