use docscan::resolve::{mod_candidates, resolve_modules, scan_source, ModuleProbe};

fn probe(dir_entry: bool, sibling: bool) -> ModuleProbe {
    ModuleProbe { dir_entry_is_file: dir_entry, sibling_is_file: sibling }
}

#[test]
fn obtain_modules() {
    let names = scan_source("mod simple;\nmod enumerate;\n").unwrap();
    assert_eq!(names, vec!["simple".to_owned(), "enumerate".to_owned()]);
    let probes = vec![probe(false, true), probe(false, true)];
    let resolved = resolve_modules("src/tests/fragments.rs", &names, &probes).unwrap();
    assert_eq!(
        resolved,
        vec!["src/tests/simple.rs".to_owned(), "src/tests/enumerate.rs".to_owned()]
    );
}

#[test]
fn two_sibling_modules_resolve_in_order() {
    let names = vec!["alpha".to_owned(), "beta".to_owned()];
    let probes = vec![probe(false, true), probe(false, true)];
    let resolved = resolve_modules("proj/src/lib.rs", &names, &probes).unwrap();
    assert_eq!(
        resolved,
        vec!["proj/src/alpha.rs".to_owned(), "proj/src/beta.rs".to_owned()]
    );
}

#[test]
fn directory_entry_resolves() {
    let names = vec!["sub".to_owned()];
    let probes = vec![probe(true, false)];
    let resolved = resolve_modules("proj/src/lib.rs", &names, &probes).unwrap();
    assert_eq!(resolved, vec!["proj/src/sub/mod.rs".to_owned()]);
}

#[test]
fn both_candidates_are_ambiguous() {
    let names = vec!["dual".to_owned()];
    let probes = vec![probe(true, true)];
    let err = resolve_modules("proj/src/lib.rs", &names, &probes).unwrap_err();
    assert_eq!(err.declaring, "proj/src/lib.rs".to_owned());
    assert_eq!(err.dir_entry, "proj/src/dual/mod.rs".to_owned());
    assert_eq!(err.sibling, "proj/src/dual.rs".to_owned());
    assert_eq!(
        err.message(),
        "Detected both module entry files: proj/src/dual/mod.rs and proj/src/dual.rs".to_owned()
    );
}

#[test]
fn neither_candidate_is_a_silent_skip() {
    let names = vec!["ghostly".to_owned(), "real".to_owned()];
    let probes = vec![probe(false, false), probe(false, true)];
    let resolved = resolve_modules("proj/src/lib.rs", &names, &probes).unwrap();
    assert_eq!(resolved, vec!["proj/src/real.rs".to_owned()]);
}

#[test]
fn first_ambiguity_wins() {
    let names = vec!["ok".to_owned(), "bad1".to_owned(), "bad2".to_owned()];
    let probes = vec![probe(false, true), probe(true, true), probe(true, true)];
    let err = resolve_modules("x/lib.rs", &names, &probes).unwrap_err();
    assert_eq!(err.dir_entry, "x/bad1/mod.rs".to_owned());
}

#[test]
fn candidates_are_relative_to_declaring_dir() {
    let (dir_entry, sibling) = mod_candidates("a/b", "m");
    assert_eq!(dir_entry, "a/b/m/mod.rs".to_owned());
    assert_eq!(sibling, "a/b/m.rs".to_owned());
}

#[test]
fn inline_block_is_not_a_file_reference() {
    let names = scan_source("mod inline_one { fn f() {} }\nmod filemod;\n").unwrap();
    assert_eq!(names, vec!["filemod".to_owned()]);
}

#[test]
fn glued_terminator_does_not_complete() {
    let names = scan_source("mod a;;").unwrap();
    assert_eq!(names, Vec::<String>::new());
}

#[test]
fn noise_tokens_reset_the_recognizer() {
    let text = "#[cfg(test)]\nfn not_a_mod() {}\nmod child;\nstruct S;\n";
    let names = scan_source(text).unwrap();
    assert_eq!(names, vec!["child".to_owned()]);
}

#[test]
fn unlexable_text_is_a_syntax_error() {
    assert!(scan_source("fn broken( {").is_err());
}

#[test]
fn repeated_declaration_resolves_twice() {
    let names = scan_source("mod twin;\nmod twin;\n").unwrap();
    assert_eq!(names, vec!["twin".to_owned(), "twin".to_owned()]);
    let probes = vec![probe(false, true), probe(false, true)];
    let resolved = resolve_modules("src/lib.rs", &names, &probes).unwrap();
    assert_eq!(resolved, vec!["src/twin.rs".to_owned(), "src/twin.rs".to_owned()]);
}
