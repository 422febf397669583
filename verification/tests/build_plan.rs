use cplex::environment::create;
use cplex::generate::generate_decls;
use cplex::generate::render_module_text;
use cplex::generate::DeclKind;
use cplex::link::plan_build;
use cplex::link::plan_link;
use cplex::link::LinkError;
use cplex::sdk::select_install;
use cplex::sdk::SdkInstall;
use cplex::sdk::SelectError;
use cplex::whitelist::default_whitelist;
use cplex::whitelist::Whitelist;

fn install(root: &str, version: &str, lib_dir: Option<&str>) -> SdkInstall {
    SdkInstall {
        root: root.to_string(),
        version: version.to_string(),
        lib_dir: lib_dir.map(|s| s.to_string()),
    }
}

#[test]
fn default_whitelist_generates_exactly_the_two_symbols() {
    let wl = default_whitelist();
    let decls = generate_decls(&wl).expect("the fixed whitelist is well formed");
    assert_eq!(decls.len(), 2);
    assert_eq!(decls[0].kind, DeclKind::OpaqueType);
    assert_eq!(decls[0].name, "CPXENVptr");
    assert_eq!(decls[1].kind, DeclKind::Function);
    assert_eq!(decls[1].name, "CPXopenCPLEX");
    let text = render_module_text(&decls);
    assert_eq!(text, "type CPXENVptr;\nfn CPXopenCPLEX();\n");
}

#[test]
fn malformed_whitelist_name_is_a_fatal_codegen_error() {
    let wl = Whitelist {
        types: vec!["CPXENVptr".to_string()],
        functions: vec!["not a name".to_string()],
    };
    let e = generate_decls(&wl).expect_err("a malformed name must abort generation");
    assert_eq!(e.name, "not a name");
}

#[test]
fn zero_installations_codegen_completes_link_fails() {
    let installs: Vec<SdkInstall> = Vec::new();
    let wl = default_whitelist();
    let outcome = plan_build(&installs, &wl).expect("codegen needs no installation");
    assert_eq!(outcome.module_text, "type CPXENVptr;\nfn CPXopenCPLEX();\n");
    assert_eq!(outcome.link.unwrap_err(), LinkError::NoInstallation);
}

#[test]
fn selection_picks_the_highest_version() {
    let installs = vec![
        install("/opt/ibm/ILOG/CPLEX_Studio128/cplex", "CPLEX_Studio128", Some("/l/128")),
        install("/opt/ibm/ILOG/CPLEX_Studio1210/cplex", "CPLEX_Studio1210", Some("/l/1210")),
    ];
    let i = select_install(&installs).expect("distinct versions select uniquely");
    assert_eq!(installs[i].version, "CPLEX_Studio128");
}

#[test]
fn selection_of_nothing_fails() {
    let installs: Vec<SdkInstall> = Vec::new();
    assert_eq!(select_install(&installs).unwrap_err(), SelectError::NoInstallation);
}

#[test]
fn equal_highest_versions_are_ambiguous() {
    let installs = vec![
        install("/a", "CPLEX_Studio128", Some("/l/a")),
        install("/b", "CPLEX_Studio128", Some("/l/b")),
    ];
    assert_eq!(select_install(&installs).unwrap_err(), SelectError::Ambiguous);
}

#[test]
fn missing_library_directory_fails_the_link_step() {
    let installs = vec![install("/opt/ibm/ILOG/CPLEX_Studio1210/cplex", "CPLEX_Studio1210", None)];
    assert_eq!(plan_link(&installs).unwrap_err(), LinkError::MissingLibraryDir);
}

#[test]
fn repeated_builds_are_byte_identical_whatever_the_enumeration_order() {
    let a = install("/opt/ibm/ILOG/CPLEX_Studio128/cplex", "CPLEX_Studio128", Some("/l/128"));
    let b = install("/opt/ibm/ILOG/CPLEX_Studio1210/cplex", "CPLEX_Studio1210", Some("/l/1210"));
    let one = vec![
        install("/opt/ibm/ILOG/CPLEX_Studio128/cplex", "CPLEX_Studio128", Some("/l/128")),
        install("/opt/ibm/ILOG/CPLEX_Studio1210/cplex", "CPLEX_Studio1210", Some("/l/1210")),
    ];
    let other = vec![b, a];
    let wl = default_whitelist();
    let p1 = plan_build(&one, &wl).unwrap();
    let p2 = plan_build(&other, &wl).unwrap();
    assert_eq!(p1.module_text, p2.module_text);
    let l1 = p1.link.unwrap();
    let l2 = p2.link.unwrap();
    assert_eq!(l1.include_arg, l2.include_arg);
    assert_eq!(l1.search_arg, l2.search_arg);
    assert_eq!(l1.lib_arg, l2.lib_arg);
}

#[test]
fn empty_whitelist_generates_an_empty_module() {
    let wl = Whitelist { types: Vec::new(), functions: Vec::new() };
    let decls = generate_decls(&wl).expect("an empty whitelist is well formed");
    assert_eq!(decls.len(), 0);
    assert_eq!(render_module_text(&decls), "");
}

#[test]
fn ambiguous_highest_version_fails_the_link_step() {
    let installs = vec![
        install("/a", "CPLEX_Studio128", Some("/l/a")),
        install("/b", "CPLEX_Studio128", Some("/l/b")),
    ];
    assert_eq!(plan_link(&installs).unwrap_err(), LinkError::AmbiguousInstallation);
}

#[test]
fn end_to_end_one_installation() {
    let installs = vec![install(
        "/opt/ibm/ILOG/CPLEX_Studio1210/cplex",
        "CPLEX_Studio1210",
        Some("/opt/ibm/ILOG/CPLEX_Studio1210/cplex/lib/x86-64_linux/static_pic"),
    )];
    let wl = default_whitelist();
    let outcome = plan_build(&installs, &wl).expect("build must succeed");
    assert_eq!(outcome.module_text, "type CPXENVptr;\nfn CPXopenCPLEX();\n");
    let link = outcome.link.expect("one matching installation links");
    assert_eq!(link.include_arg, "-I/opt/ibm/ILOG/CPLEX_Studio1210/cplex/include/ilcplex");
    assert_eq!(
        link.search_arg,
        "cargo:rustc-link-search=native=/opt/ibm/ILOG/CPLEX_Studio1210/cplex/lib/x86-64_linux/static_pic"
    );
    assert_eq!(link.lib_arg, "cargo:rustc-link-lib=static=cplex");

    let ok = create(0xbeef, Some(0)).expect("status 0 yields a wrapper");
    assert_eq!(ok.raw_handle(), 0xbeef);
    let err = create(0xbeef, Some(42)).expect_err("status 42 yields an error");
    assert!(err.message.contains("42"));
}
