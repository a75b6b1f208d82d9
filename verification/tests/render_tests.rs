use spawnpoint::conditions::evaluate_condition;
use spawnpoint::config::{
    CaseTransformation, Condition, PlaceholderFilenames, ScaffoldManifest, VariableDefinition,
    VariableType,
};
use spawnpoint::render::{
    condition_variables, excluded, included, is_binary, plan_entry, plan_render, EntryKind,
    OutputAction, TemplateEntry,
};
use spawnpoint::varmap::VarMap;

fn s(x: &str) -> String {
    x.to_string()
}

fn map_of(pairs: &[(&str, &str)]) -> VarMap {
    let mut m = VarMap::new();
    for (k, v) in pairs {
        m.set(&s(k), s(v));
    }
    m
}

fn segs(path: &str) -> Vec<String> {
    path.split('/').map(|p| p.to_string()).collect()
}

fn entry(path: &str, kind: EntryKind) -> TemplateEntry {
    TemplateEntry { segments: segs(path), kind }
}

fn manifest() -> ScaffoldManifest {
    ScaffoldManifest {
        name: s("demo"),
        description: s("a demo template"),
        language: s("rust"),
        variables: vec![VariableDefinition {
            name: s("appName"),
            prompt: Some(s("value")),
            placeholder_value: s("--app-name--"),
            var_type: VariableType::Text,
            sensitive: false,
            default: None,
            transformations: vec![(CaseTransformation::PascalCase, s("__PASCAL__"))],
            validation_regex: None,
        }],
        placeholder_filenames: Some(PlaceholderFilenames { prefix: s("__VAR_"), suffix: s("__") }),
        binary_extensions: vec![s("png"), s(".ico")],
        binary_files: vec![s("assets/logo.dat")],
        conditional_paths: vec![
            (s("docs"), Condition { variable: s("withDocs"), value: s("true") }),
            (s("ci.yml"), Condition { variable: s("withCi"), value: s("true") }),
        ],
        exclude: vec![s("node_modules"), s(".git")],
        pre_generate: vec![],
        post_generate: vec![],
        validation: None,
    }
}

fn dest_of(a: &OutputAction) -> Vec<String> {
    match a {
        OutputAction::MakeDir { dest } => dest.clone(),
        OutputAction::CopyBinary { dest, .. } => dest.clone(),
        OutputAction::RenderText { dest, .. } => dest.clone(),
    }
}

#[test]
fn condition_is_case_insensitive() {
    let vars = map_of(&[("withDocs", "TRUE")]);
    let c = Condition { variable: s("withDocs"), value: s("true") };
    assert!(evaluate_condition(&c, &vars));
}

#[test]
fn condition_with_wrong_value_fails() {
    let vars = map_of(&[("withDocs", "false")]);
    let c = Condition { variable: s("withDocs"), value: s("true") };
    assert!(!evaluate_condition(&c, &vars));
}

#[test]
fn condition_with_absent_variable_fails_closed() {
    let vars = map_of(&[]);
    for expected in ["true", "false", "anything"] {
        let c = Condition { variable: s("withDocs"), value: s(expected) };
        assert!(!evaluate_condition(&c, &vars));
    }
}

#[test]
fn conditional_path_with_absent_variable_is_excluded() {
    let m = manifest();
    let vars = map_of(&[]);
    let base = map_of(&[]);
    let subs = map_of(&[]);
    let e = entry("docs", EntryKind::Directory);
    assert!(plan_entry(&e, &m, &vars, &base, &subs).is_none());
    let child = entry("docs/readme.md", EntryKind::File);
    assert!(plan_entry(&child, &m, &vars, &base, &subs).is_none());
}

#[test]
fn conditional_path_with_satisfied_condition_is_included() {
    let m = manifest();
    let vars = map_of(&[("withDocs", "true")]);
    let base = map_of(&[]);
    let subs = map_of(&[]);
    let e = entry("docs/readme.md", EntryKind::File);
    let a = plan_entry(&e, &m, &vars, &base, &subs).expect("entry should be planned");
    assert_eq!(dest_of(&a), segs("docs/readme.md"));
}

#[test]
fn excluded_directory_and_descendants_produce_no_output() {
    let m = manifest();
    let vars = map_of(&[("withDocs", "true"), ("withCi", "true")]);
    let base = map_of(&[("appName", "My App")]);
    let subs = map_of(&[("__PASCAL__", "MyApp")]);
    let entries = vec![
        entry("node_modules", EntryKind::Directory),
        entry("node_modules/pkg", EntryKind::Directory),
        entry("node_modules/pkg/index.js", EntryKind::File),
        entry("src", EntryKind::Directory),
        entry("src/main.rs", EntryKind::File),
    ];
    let actions = plan_render(&entries, &m, &vars, &base, &subs);
    assert_eq!(actions.len(), 2);
    assert_eq!(dest_of(&actions[0]), segs("src"));
    assert_eq!(dest_of(&actions[1]), segs("src/main.rs"));
}

#[test]
fn manifest_file_is_never_rendered() {
    let m = manifest();
    let vars = map_of(&[]);
    let base = map_of(&[]);
    let subs = map_of(&[]);
    let e = entry("scaffold.yaml", EntryKind::File);
    assert!(plan_entry(&e, &m, &vars, &base, &subs).is_none());
}

#[test]
fn binary_file_by_path_and_extension() {
    let m = manifest();
    assert!(is_binary(&segs("assets/logo.dat"), &m));
    assert!(is_binary(&segs("img/pic.png"), &m));
    assert!(is_binary(&segs("fav.ico"), &m));
    assert!(!is_binary(&segs("src/main.rs"), &m));
    assert!(!is_binary(&segs(".gitignore"), &m));
}

#[test]
fn binary_file_is_copied_text_file_is_rendered() {
    let m = manifest();
    let vars = map_of(&[]);
    let base = map_of(&[]);
    let subs = map_of(&[]);
    let b = plan_entry(&entry("img/pic.png", EntryKind::File), &m, &vars, &base, &subs).unwrap();
    assert!(matches!(b, OutputAction::CopyBinary { .. }));
    let t = plan_entry(&entry("src/main.rs", EntryKind::File), &m, &vars, &base, &subs).unwrap();
    assert!(matches!(t, OutputAction::RenderText { .. }));
    let d = plan_entry(&entry("src", EntryKind::Directory), &m, &vars, &base, &subs).unwrap();
    assert!(matches!(d, OutputAction::MakeDir { .. }));
}

#[test]
fn planned_destination_substitutes_each_segment() {
    let m = manifest();
    let vars = map_of(&[]);
    let base = map_of(&[("appName", "myapp")]);
    let subs = map_of(&[("__PASCAL__", "MyApp")]);
    let e = entry("src/__VAR_appName__/__PASCAL__.rs", EntryKind::File);
    let a = plan_entry(&e, &m, &vars, &base, &subs).unwrap();
    assert_eq!(dest_of(&a), segs("src/myapp/MyApp.rs"));
}

#[test]
fn included_and_excluded_queries() {
    let m = manifest();
    let vars = map_of(&[("withDocs", "true")]);
    assert!(excluded(&segs("a/node_modules/b"), &m.exclude));
    assert!(!excluded(&segs("a/b"), &m.exclude));
    assert!(included(&segs("docs/guide.md"), &m, &vars));
    assert!(!included(&segs("node_modules/docs"), &m, &vars));
    let no_vars = map_of(&[]);
    assert!(!included(&segs("docs/guide.md"), &m, &no_vars));
}

#[test]
fn condition_variables_are_keyed_by_name() {
    let m = manifest();
    let subs = map_of(&[("--app-name--", "My App")]);
    let vars = condition_variables(&m.variables, &subs);
    assert_eq!(vars.get(&s("appName")).cloned(), Some(s("My App")));
    assert_eq!(vars.get(&s("missing")).cloned(), None);
}
