use csalt::flags::{
    installation_search_commands, package_flags_source, parse_flags_linear, PackageFlagsSource,
};

fn strings(v: &[&str]) -> Vec<String> {
    v.iter().map(|s| s.to_string()).collect()
}

#[test]
fn parse_flags_linear_doc_example() {
    let raw_stdout = "Compilation flags: -I/usr/include -L/usr/lib -l";
    let mut true_compiler_flags = Vec::new();
    let mut true_linker_flags = Vec::new();
    parse_flags_linear(raw_stdout, &mut true_compiler_flags, &mut true_linker_flags);
    assert_eq!(true_compiler_flags, vec!["-I/usr/include"]);
    assert_eq!(true_linker_flags, vec!["-L/usr/lib", "-l"]);
}

#[test]
fn parse_flags_linear_pkg_config_output() {
    let raw = "-I/usr/include/glib-2.0 -I/usr/lib/glib-2.0/include -lglib-2.0 \n";
    let mut c = strings(&["-Iexisting"]);
    let mut l = Vec::new();
    parse_flags_linear(raw, &mut c, &mut l);
    assert_eq!(c, strings(&["-Iexisting", "-I/usr/include/glib-2.0", "-I/usr/lib/glib-2.0/include"]));
    assert_eq!(l, strings(&["-lglib-2.0"]));
}

#[test]
fn parse_flags_linear_dash_inside_word_is_not_a_boundary() {
    let raw = "-L/opt/x-lib -lfoo\t-Dkeep -Iinc";
    let mut c = Vec::new();
    let mut l = Vec::new();
    parse_flags_linear(raw, &mut c, &mut l);
    assert_eq!(l, strings(&["-L/opt/x-lib", "-lfoo\t-Dkeep"]));
    assert_eq!(c, strings(&["-Iinc"]));
}

#[test]
fn parse_flags_linear_empty_and_unrelated_text() {
    let mut c = Vec::new();
    let mut l = Vec::new();
    parse_flags_linear("", &mut c, &mut l);
    parse_flags_linear("   nothing here  ", &mut c, &mut l);
    assert!(c.is_empty());
    assert!(l.is_empty());
}

#[test]
fn installation_search_commands_lists_every_manager() {
    let cmds = installation_search_commands("zlib");
    let names: Vec<&str> = cmds.iter().map(|(n, _)| n.as_str()).collect();
    assert_eq!(names, vec!["apt", "dnf", "pacman", "brew", "nix", "winget", "vcpkg", "scoop"]);
    assert_eq!(cmds[0].1, "apt search zlib | grep dev");
    assert_eq!(cmds[4].1, "nix-env -qaP '.*zlib.*'");
    assert_eq!(cmds[7].1, "scoop search zlib");
}

#[test]
fn package_flags_come_from_cache_then_pkg_config() {
    assert_eq!(package_flags_source(true, false), PackageFlagsSource::Cached);
    assert_eq!(package_flags_source(true, true), PackageFlagsSource::Cached);
    assert_eq!(package_flags_source(false, true), PackageFlagsSource::PkgConfig);
    assert_eq!(package_flags_source(false, false), PackageFlagsSource::Unavailable);
}
