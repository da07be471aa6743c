use nodejs_resolver::description::{DescriptionFileInfo, ExportsField, ExportsValue};
use nodejs_resolver::filesystem::FileSystem;
use nodejs_resolver::kind::{get_target_kind, PathKind};
use nodejs_resolver::normalize::{normalize_path, normalize_alias};
use nodejs_resolver::options::{AliasRule, ResolverOptions};
use nodejs_resolver::parse::{parse, Request};
use nodejs_resolver::{Resolver, ResolverError, Stats};

fn s(x: &str) -> String {
    String::from(x)
}

fn manifest(
    dir: &str,
    name: &str,
    fields: Vec<(&str, &str)>,
    exports: Option<ExportsField>,
) -> DescriptionFileInfo {
    let mut fs_fields: Vec<(String, String)> = Vec::new();
    for (k, v) in fields {
        fs_fields.push((s(k), s(v)));
    }
    DescriptionFileInfo { abs_dir_path: s(dir), name: s(name), fields: fs_fields, exports }
}

#[test]
fn scenario_relative_file() {
    let mut fs = FileSystem::new();
    fs.add_dir("/app/src");
    fs.add_file("/app/src/foo.js", None);
    let mut r = Resolver::new(ResolverOptions::default(), fs).with_base_dir("/app/src");
    assert_eq!(r.resolve("./foo"), Ok(Some(s("/app/src/foo.js"))));
}

#[test]
fn scenario_module_index_file() {
    let mut fs = FileSystem::new();
    fs.add_dir("/app/node_modules/bar");
    fs.add_file("/app/node_modules/bar/index.js", None);
    let mut r = Resolver::new(ResolverOptions::default(), fs).with_base_dir("/app");
    assert_eq!(r.resolve("bar"), Ok(Some(s("/app/node_modules/bar/index.js"))));
}

#[test]
fn scenario_module_manifest_main() {
    let mut fs = FileSystem::new();
    fs.add_dir("/app/node_modules/baz");
    fs.add_file("/app/node_modules/baz/lib/entry.js", None);
    fs.add_manifest(manifest("/app/node_modules/baz", "baz", vec![("main", "lib/entry.js")], None));
    let mut r = Resolver::new(ResolverOptions::default(), fs).with_base_dir("/app");
    assert_eq!(r.resolve("baz"), Ok(Some(s("/app/node_modules/baz/lib/entry.js"))));
}

#[test]
fn extension_ordering_prefers_first_configured() {
    let mut fs = FileSystem::new();
    fs.add_dir("/app/src");
    fs.add_file("/app/src/foo.ts", None);
    fs.add_file("/app/src/foo.js", None);
    let mut opts = ResolverOptions::default();
    opts.extensions = vec![s(".ts"), s(".js")];
    let mut r = Resolver::new(opts, fs).with_base_dir("/app/src");
    assert_eq!(r.resolve("./foo"), Ok(Some(s("/app/src/foo.ts"))));
}

#[test]
fn idempotence_of_resolved_path() {
    let mut fs = FileSystem::new();
    fs.add_dir("/app/src");
    fs.add_file("/app/src/foo.js", None);
    let mut r = Resolver::new(ResolverOptions::default(), fs).with_base_dir("/app/src");
    let p = r.resolve("./foo").unwrap().unwrap();
    assert_eq!(r.resolve(&p), Ok(Some(p)));
}

#[test]
fn alias_precedence_first_rule_wins() {
    let mut fs = FileSystem::new();
    fs.add_file("/one/b.js", None);
    fs.add_file("/two/b.js", None);
    let mut opts = ResolverOptions::default();
    opts.alias = vec![
        AliasRule { pattern: s("a"), target: Some(s("/one")) },
        AliasRule { pattern: s("a/b"), target: Some(s("/two/b")) },
    ];
    let mut r = Resolver::new(opts, fs).with_base_dir("/app");
    assert_eq!(r.resolve("a/b"), Ok(Some(s("/one/b.js"))));
}

#[test]
fn alias_block_marker_yields_ok_none() {
    let fs = FileSystem::new();
    let mut opts = ResolverOptions::default();
    opts.alias = vec![AliasRule { pattern: s("stubbed"), target: None }];
    let mut r = Resolver::new(opts, fs).with_base_dir("/app");
    assert_eq!(r.resolve("stubbed"), Ok(None));
    assert_eq!(r.resolve("stubbed/inner"), Ok(None));
}

#[test]
fn upward_walk_fails_with_original_specifier() {
    let mut fs = FileSystem::new();
    fs.add_dir("/deep/down/here");
    let mut r = Resolver::new(ResolverOptions::default(), fs).with_base_dir("/deep/down/here");
    assert_eq!(
        r.resolve("missing-pkg"),
        Err(ResolverError::NotFound { specifier: s("missing-pkg"), dir: s("/deep/down/here") })
    );
}

#[test]
fn exports_condition_priority_is_configured_order() {
    let mut fs = FileSystem::new();
    fs.add_dir("/app/node_modules/pkg");
    fs.add_file("/app/node_modules/pkg/i.js", None);
    fs.add_file("/app/node_modules/pkg/r.js", None);
    let exports = ExportsField {
        entries: vec![(
            s("."),
            ExportsValue::Conditional(vec![
                (s("require"), ExportsValue::Target(s("./r.js"))),
                (s("import"), ExportsValue::Target(s("./i.js"))),
            ]),
        )],
    };
    let mut opts = ResolverOptions::default();
    opts.condition_names = vec![s("import"), s("require")];
    fs.add_manifest(manifest("/app/node_modules/pkg", "pkg", vec![], Some(exports)));
    let mut r = Resolver::new(opts, fs).with_base_dir("/app");
    assert_eq!(r.resolve("pkg"), Ok(Some(s("/app/node_modules/pkg/i.js"))));
}

#[test]
fn exports_wildcard_substitution() {
    let mut fs = FileSystem::new();
    fs.add_dir("/app/node_modules/pkg");
    fs.add_file("/app/node_modules/pkg/dist/util.js", None);
    let exports = ExportsField {
        entries: vec![(s("./lib/*"), ExportsValue::Target(s("./dist/*.js")))],
    };
    fs.add_manifest(manifest("/app/node_modules/pkg", "pkg", vec![], Some(exports)));
    let mut r = Resolver::new(ResolverOptions::default(), fs).with_base_dir("/app");
    assert_eq!(r.resolve("pkg/lib/util"), Ok(Some(s("/app/node_modules/pkg/dist/util.js"))));
}

#[test]
fn exports_not_exported_is_distinct_error() {
    let mut fs = FileSystem::new();
    fs.add_dir("/app/node_modules/pkg");
    fs.add_file("/app/node_modules/pkg/index.js", None);
    let exports = ExportsField { entries: vec![(s("./private"), ExportsValue::NotExported)] };
    fs.add_manifest(manifest("/app/node_modules/pkg", "pkg", vec![], Some(exports)));
    let mut r = Resolver::new(ResolverOptions::default(), fs).with_base_dir("/app");
    assert_eq!(
        r.resolve("pkg/private"),
        Err(ResolverError::NotExported { specifier: s("pkg/private") })
    );
}

#[test]
fn query_and_fragment_are_preserved() {
    let mut fs = FileSystem::new();
    fs.add_dir("/app/src");
    fs.add_file("/app/src/foo.js", None);
    let mut r = Resolver::new(ResolverOptions::default(), fs).with_base_dir("/app/src");
    let got = r.resolve("./foo?x=1#frag").unwrap().unwrap();
    assert_eq!(got, s("/app/src/foo.js?x=1#frag"));
    assert!(got.ends_with("?x=1#frag"));
}

#[test]
fn empty_specifier_is_an_input_error() {
    let fs = FileSystem::new();
    let mut r = Resolver::new(ResolverOptions::default(), fs).with_base_dir("/app");
    assert_eq!(r.resolve(""), Err(ResolverError::EmptySpecifier { dir: s("/app") }));
}

#[test]
fn built_in_name_returns_verbatim() {
    let fs = FileSystem::new();
    let mut opts = ResolverOptions::default();
    opts.built_ins = vec![s("events"), s("path")];
    let mut r = Resolver::new(opts, fs).with_base_dir("/app");
    assert_eq!(r.resolve("events"), Ok(Some(s("events"))));
}

#[test]
fn symlink_resolves_to_real_path_when_enabled() {
    let mut fs = FileSystem::new();
    fs.add_dir("/app/src");
    fs.add_file("/app/src/ln.js", Some(s("/app/real/target.js")));
    fs.add_file("/app/real/target.js", None);
    let mut opts = ResolverOptions::default();
    opts.symlinks = true;
    let mut r = Resolver::new(opts, fs).with_base_dir("/app/src");
    assert_eq!(r.resolve("./ln.js"), Ok(Some(s("/app/real/target.js"))));
}

#[test]
fn symlink_kept_as_is_when_disabled() {
    let mut fs = FileSystem::new();
    fs.add_dir("/app/src");
    fs.add_file("/app/src/ln.js", Some(s("/app/real/target.js")));
    fs.add_file("/app/real/target.js", None);
    let mut r = Resolver::new(ResolverOptions::default(), fs).with_base_dir("/app/src");
    assert_eq!(r.resolve("./ln.js"), Ok(Some(s("/app/src/ln.js"))));
}

#[test]
fn scoped_package_subpath() {
    let mut fs = FileSystem::new();
    fs.add_dir("/app/node_modules/@scope/pkg");
    fs.add_file("/app/node_modules/@scope/pkg/sub/mod.js", None);
    let mut r = Resolver::new(ResolverOptions::default(), fs).with_base_dir("/app");
    assert_eq!(
        r.resolve("@scope/pkg/sub/mod"),
        Ok(Some(s("/app/node_modules/@scope/pkg/sub/mod.js")))
    );
}

#[test]
fn module_walk_climbs_to_parent_directories() {
    let mut fs = FileSystem::new();
    fs.add_dir("/app/a/b/c");
    fs.add_dir("/app/node_modules/up");
    fs.add_file("/app/node_modules/up/index.js", None);
    let mut r = Resolver::new(ResolverOptions::default(), fs).with_base_dir("/app/a/b/c");
    assert_eq!(r.resolve("up"), Ok(Some(s("/app/node_modules/up/index.js"))));
}

#[test]
fn absolute_specifier_resolves_from_root() {
    let mut fs = FileSystem::new();
    fs.add_file("/lib/x.js", None);
    let mut r = Resolver::new(ResolverOptions::default(), fs).with_base_dir("/app");
    assert_eq!(r.resolve("/lib/x"), Ok(Some(s("/lib/x.js"))));
}

#[test]
fn parse_splits_query_and_fragment() {
    let req: Request = parse("./a?q=1#frag");
    assert_eq!(req.target, s("./a"));
    assert_eq!(req.query, s("?q=1"));
    assert_eq!(req.fragment, s("#frag"));
}

#[test]
fn parse_escaped_delimiters_stay_literal() {
    let req = parse("./a\u{0}?b?q#f");
    assert_eq!(req.target, s("./a?b"));
    assert_eq!(req.query, s("?q"));
    assert_eq!(req.fragment, s("#f"));
}

#[test]
fn parse_without_delimiters() {
    let req = parse("plain/specifier");
    assert_eq!(req.target, s("plain/specifier"));
    assert_eq!(req.query, s(""));
    assert_eq!(req.fragment, s(""));
}

#[test]
fn normalize_path_examples() {
    assert_eq!(normalize_path("/a/./b//c"), s("/a/b/c"));
    assert_eq!(normalize_path("a/b/../c"), s("a/c"));
    assert_eq!(normalize_path("/a/../../x"), s("/x"));
    assert_eq!(normalize_path("C:\\x\\y"), s("C:/x/y"));
    assert_eq!(normalize_path("./a/"), s("a"));
    assert_eq!(normalize_path("/"), s("/"));
    assert_eq!(normalize_path("."), s("."));
    assert_eq!(normalize_path("../x"), s("../x"));
}

#[test]
fn classifier_kinds() {
    let none: Vec<String> = Vec::new();
    assert!(matches!(get_target_kind("", &none), PathKind::Empty));
    assert!(matches!(get_target_kind("/x", &none), PathKind::AbsolutePosix));
    assert!(matches!(get_target_kind("C:/x", &none), PathKind::AbsoluteWin));
    assert!(matches!(get_target_kind("./x", &none), PathKind::Relative));
    assert!(matches!(get_target_kind("../x", &none), PathKind::Relative));
    assert!(matches!(get_target_kind(".", &none), PathKind::Relative));
    assert!(matches!(get_target_kind("lodash", &none), PathKind::Normal));
    assert!(matches!(get_target_kind("@s/p", &none), PathKind::Normal));
    let builtins = vec![s("path")];
    assert!(matches!(get_target_kind("path", &builtins), PathKind::BuildInModule));
}

#[test]
fn alias_rewrites_at_segment_boundary_only() {
    let rules = vec![AliasRule { pattern: s("lib"), target: Some(s("/srv/lib")) }];
    assert_eq!(normalize_alias(&rules, "lib"), Some(s("/srv/lib")));
    assert_eq!(normalize_alias(&rules, "lib/x"), Some(s("/srv/lib/x")));
    assert_eq!(normalize_alias(&rules, "library"), Some(s("library")));
}

#[test]
fn stats_functional_updates() {
    let st = Stats::from(
        s("/base"),
        Request { target: s("./t"), query: s("?q"), fragment: s("#f") },
    );
    assert_eq!(st.get_path(), s("/base/./t"));
    let st2 = st.with_target(s(""));
    assert_eq!(st2.get_path(), s("/base"));
    let st3 = st2.with_dir(s("/other"));
    assert_eq!(st3.dir, s("/other"));
    assert_eq!(st3.request.query, s("?q"));
}

#[test]
fn directory_request_uses_manifest_main() {
    let mut fs = FileSystem::new();
    fs.add_dir("/app/widgets");
    fs.add_file("/app/widgets/lib/main.js", None);
    fs.add_manifest(manifest("/app/widgets", "widgets", vec![("main", "lib/main.js")], None));
    let mut r = Resolver::new(ResolverOptions::default(), fs).with_base_dir("/app");
    assert_eq!(r.resolve("./widgets"), Ok(Some(s("/app/widgets/lib/main.js"))));
}

#[test]
fn browser_field_overrides_main() {
    let mut fs = FileSystem::new();
    fs.add_dir("/app/node_modules/dual");
    fs.add_file("/app/node_modules/dual/web.js", None);
    fs.add_file("/app/node_modules/dual/node.js", None);
    fs.add_manifest(manifest(
        "/app/node_modules/dual",
        "dual",
        vec![("main", "node.js"), ("browser", "web.js")],
        None,
    ));
    let mut r = Resolver::new(ResolverOptions::default(), fs).with_base_dir("/app");
    assert_eq!(r.resolve("dual"), Ok(Some(s("/app/node_modules/dual/web.js"))));
}

#[test]
fn manifest_association_is_memoized() {
    let mut fs = FileSystem::new();
    fs.add_dir("/app/src");
    fs.add_file("/app/src/foo.js", None);
    fs.add_manifest(manifest("/app", "app", vec![], None));
    let mut r = Resolver::new(ResolverOptions::default(), fs).with_base_dir("/app/src");
    let first = r.resolve("./foo");
    assert!(r.cache_dir_info.iter().any(|e| e.0 == "/app/src"));
    assert!(r.cache_dir_info.iter().any(|e| e.0 == "/app"));
    assert_eq!(r.resolve("./foo"), first);
}
