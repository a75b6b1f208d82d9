use spawnpoint::config::{CaseTransformation, VariableDefinition, VariableType};
use spawnpoint::resolver::compute_transformed_variables;
use spawnpoint::varmap::VarMap;

fn s(x: &str) -> String {
    x.to_string()
}

fn vdef(name: &str, placeholder: &str, transforms: Vec<(CaseTransformation, String)>) -> VariableDefinition {
    VariableDefinition {
        name: s(name),
        prompt: Some(s("enter a value")),
        placeholder_value: s(placeholder),
        var_type: VariableType::Text,
        sensitive: false,
        default: None,
        transformations: transforms,
        validation_regex: None,
    }
}

fn base_of(pairs: &[(&str, &str)]) -> VarMap {
    let mut m = VarMap::new();
    for (k, v) in pairs {
        m.set(&s(k), s(v));
    }
    m
}

fn get(m: &VarMap, k: &str) -> Option<String> {
    m.get(&s(k)).cloned()
}

#[test]
fn pascal_transform_of_my_app() {
    let defs = vec![vdef(
        "appName",
        "--app-name--",
        vec![(CaseTransformation::PascalCase, s("__PASCAL__"))],
    )];
    let base = base_of(&[("appName", "my app")]);
    let subs = compute_transformed_variables(&base, &defs);
    assert_eq!(get(&subs, "__PASCAL__"), Some(s("MyApp")));
    assert_eq!(get(&subs, "--app-name--"), Some(s("my app")));
}

#[test]
fn kebab_transform_of_my_app() {
    let defs = vec![vdef(
        "appName",
        "--app-name--",
        vec![(CaseTransformation::KebabCase, s("__KEBAB__"))],
    )];
    let base = base_of(&[("appName", "my app")]);
    let subs = compute_transformed_variables(&base, &defs);
    assert_eq!(get(&subs, "__KEBAB__"), Some(s("my-app")));
}

#[test]
fn shouty_snake_transform_of_my_app() {
    let defs = vec![vdef(
        "appName",
        "--app-name--",
        vec![(CaseTransformation::ShoutySnakeCase, s("__SHOUTY__"))],
    )];
    let base = base_of(&[("appName", "my app")]);
    let subs = compute_transformed_variables(&base, &defs);
    assert_eq!(get(&subs, "__SHOUTY__"), Some(s("MY_APP")));
}

#[test]
fn camel_and_snake_transforms() {
    let defs = vec![vdef(
        "appName",
        "--app-name--",
        vec![
            (CaseTransformation::CamelCase, s("__CAMEL__")),
            (CaseTransformation::SnakeCase, s("__SNAKE__")),
        ],
    )];
    let base = base_of(&[("appName", "my app")]);
    let subs = compute_transformed_variables(&base, &defs);
    assert_eq!(get(&subs, "__CAMEL__"), Some(s("myApp")));
    assert_eq!(get(&subs, "__SNAKE__"), Some(s("my_app")));
}

#[test]
fn package_name_transform_strips_and_lowers() {
    let defs = vec![vdef(
        "appName",
        "--app-name--",
        vec![(CaseTransformation::PackageName, s("__PKG__"))],
    )];
    let base = base_of(&[("appName", "My App-2!")]);
    let subs = compute_transformed_variables(&base, &defs);
    assert_eq!(get(&subs, "__PKG__"), Some(s("myapp2")));
}

#[test]
fn unprompted_variable_keeps_placeholder_out() {
    let mut def = vdef("appName", "--app-name--", vec![]);
    def.prompt = None;
    let base = base_of(&[("appName", "my app")]);
    let subs = compute_transformed_variables(&base, &vec![def]);
    assert_eq!(get(&subs, "--app-name--"), None);
}

#[test]
fn variable_without_base_value_contributes_nothing() {
    let defs = vec![vdef(
        "appName",
        "--app-name--",
        vec![(CaseTransformation::PascalCase, s("__PASCAL__"))],
    )];
    let base = base_of(&[]);
    let subs = compute_transformed_variables(&base, &defs);
    assert_eq!(get(&subs, "--app-name--"), None);
    assert_eq!(get(&subs, "__PASCAL__"), None);
}

#[test]
fn derived_scoped_package_name() {
    let defs = vec![
        vdef(
            "projectName",
            "--project-name--",
            vec![(CaseTransformation::KebabCase, s("__KEBAB__"))],
        ),
        vdef("fullPackageName", "--full-package--", vec![]),
    ];
    let base = base_of(&[
        ("useOrgScope", "true"),
        ("orgScope", "acme"),
        ("projectName", "My App"),
    ]);
    let subs = compute_transformed_variables(&base, &defs);
    assert_eq!(get(&subs, "--full-package--"), Some(s("acme/my-app")));
}

#[test]
fn derived_package_name_without_scope() {
    let defs = vec![
        vdef(
            "projectName",
            "--project-name--",
            vec![(CaseTransformation::KebabCase, s("__KEBAB__"))],
        ),
        vdef("fullPackageName", "--full-package--", vec![]),
    ];
    let base = base_of(&[
        ("useOrgScope", "false"),
        ("orgScope", "acme"),
        ("projectName", "My App"),
    ]);
    let subs = compute_transformed_variables(&base, &defs);
    assert_eq!(get(&subs, "--full-package--"), Some(s("my-app")));
}

#[test]
fn derived_package_name_without_kebab_transform_falls_back() {
    let defs = vec![
        vdef("projectName", "--project-name--", vec![]),
        vdef("fullPackageName", "--full-package--", vec![]),
    ];
    let base = base_of(&[
        ("useOrgScope", "true"),
        ("orgScope", "acme"),
        ("projectName", "My App"),
    ]);
    let subs = compute_transformed_variables(&base, &defs);
    assert_eq!(get(&subs, "--full-package--"), Some(s("acme/my-app")));
}

#[test]
fn default_values() {
    assert_eq!(spawnpoint::config::default_condition_value(), s("true"));
    assert_eq!(spawnpoint::config::default_var_prefix(), s("__VAR_"));
    assert_eq!(spawnpoint::config::default_var_suffix(), s("__"));
    assert_eq!(spawnpoint::config::VariableType::default(), VariableType::Text);
}
