//! The template descriptor: variable definitions, conditional paths,
//! exclusions, binary-file declarations, and lifecycle step lists.
use crate::varmap::VarMap;
use vstd::prelude::*;
use vstd::string::StringExecFns;

verus! {

/// The case transforms a variable definition may declare, each with its own
/// placeholder token.
#[derive(Clone, Copy, PartialEq, Eq, Structural, Debug)]
pub enum CaseTransformation {
    PascalCase,
    CamelCase,
    SnakeCase,
    KebabCase,
    ShoutySnakeCase,
    PackageName,
}

#[derive(Clone, Copy, PartialEq, Eq, Structural, Debug)]
pub enum VariableType {
    Text,
    Boolean,
}

impl Default for VariableType {
    /// An undeclared variable type is a plain text variable.
    fn default() -> (r: Self)
        ensures
            r == VariableType::Text,
    {
        VariableType::Text
    }
}

/// A named variable with its raw-value placeholder token and the
/// transform placeholders derived from it.
pub struct VariableDefinition {
    pub name: String,
    pub prompt: Option<String>,
    pub placeholder_value: String,
    pub var_type: VariableType,
    pub sensitive: bool,
    pub default: Option<String>,
    pub transformations: Vec<(CaseTransformation, String)>,
    pub validation_regex: Option<String>,
}

/// A conditional-inclusion test: the named variable's resolved value must
/// equal `value`, ignoring ASCII case.
pub struct Condition {
    pub variable: String,
    pub value: String,
}

/// Affixes that frame a variable name inside a file or directory name.
pub struct PlaceholderFilenames {
    pub prefix: String,
    pub suffix: String,
}

/// One external command of a lifecycle phase.
pub struct ValidationStep {
    pub name: String,
    pub command: String,
    pub working_dir: Option<String>,
    pub env: Vec<(String, String)>,
    pub timeout_secs: Option<u64>,
    pub ignore_errors: bool,
    pub always_run: bool,
    pub check_stderr: bool,
}

/// The validation block: test variables and the three phases.
pub struct ValidationConfig {
    pub test_variables: VarMap,
    pub setup: Vec<ValidationStep>,
    pub steps: Vec<ValidationStep>,
    pub teardown: Vec<ValidationStep>,
}

/// The whole template descriptor, assumed already parsed and consistent.
pub struct ScaffoldManifest {
    pub name: String,
    pub description: String,
    pub language: String,
    pub variables: Vec<VariableDefinition>,
    pub placeholder_filenames: Option<PlaceholderFilenames>,
    pub binary_extensions: Vec<String>,
    pub binary_files: Vec<String>,
    pub conditional_paths: Vec<(String, Condition)>,
    pub exclude: Vec<String>,
    pub pre_generate: Vec<ValidationStep>,
    pub post_generate: Vec<ValidationStep>,
    pub validation: Option<ValidationConfig>,
}

/// A condition without an explicit expected value tests for `"true"`.
pub fn default_condition_value() -> (r: String)
    ensures
        r@ == "true"@,
{
    String::from_str("true")
}

/// Default prefix of a filename variable marker.
pub fn default_var_prefix() -> (r: String)
    ensures
        r@ == "__VAR_"@,
{
    String::from_str("__VAR_")
}

/// Default suffix of a filename variable marker.
pub fn default_var_suffix() -> (r: String)
    ensures
        r@ == "__"@,
{
    String::from_str("__")
}

} // verus!
