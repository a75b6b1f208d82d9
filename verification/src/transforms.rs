//! Case transforms of variable values.  The five heck conversions are named
//! by uninterpreted functions of the input characters; the package-name
//! transform is defined and verified here.
use crate::config::CaseTransformation;
use crate::text::{ascii_alnum, ascii_lower, chars_to_string, is_alnum_char, lower_char, str_chars};
use heck::{ToKebabCase, ToLowerCamelCase, ToPascalCase, ToShoutySnakeCase, ToSnakeCase};
use vstd::prelude::*;

verus! {

pub uninterp spec fn pascal_of(s: Seq<char>) -> Seq<char>;

pub uninterp spec fn camel_of(s: Seq<char>) -> Seq<char>;

pub uninterp spec fn snake_of(s: Seq<char>) -> Seq<char>;

pub uninterp spec fn kebab_of(s: Seq<char>) -> Seq<char>;

pub uninterp spec fn shouty_snake_of(s: Seq<char>) -> Seq<char>;

/// Relies on heck's `ToPascalCase` for `str`: the result is a function of the
/// input characters alone.
#[verifier::external_body]
pub fn to_pascal(s: &String) -> (r: String)
    ensures
        r@ == pascal_of(s@),
{
    s.as_str().to_pascal_case()
}

/// Relies on heck's `ToLowerCamelCase` for `str`: the result is a function of
/// the input characters alone.
#[verifier::external_body]
pub fn to_camel(s: &String) -> (r: String)
    ensures
        r@ == camel_of(s@),
{
    s.as_str().to_lower_camel_case()
}

/// Relies on heck's `ToSnakeCase` for `str`: the result is a function of the
/// input characters alone.
#[verifier::external_body]
pub fn to_snake(s: &String) -> (r: String)
    ensures
        r@ == snake_of(s@),
{
    s.as_str().to_snake_case()
}

/// Relies on heck's `ToKebabCase` for `str`: the result is a function of the
/// input characters alone.
#[verifier::external_body]
pub fn to_kebab(s: &String) -> (r: String)
    ensures
        r@ == kebab_of(s@),
{
    s.as_str().to_kebab_case()
}

/// Relies on heck's `ToShoutySnakeCase` for `str`: the result is a function
/// of the input characters alone.
#[verifier::external_body]
pub fn to_shouty_snake(s: &String) -> (r: String)
    ensures
        r@ == shouty_snake_of(s@),
{
    s.as_str().to_shouty_snake_case()
}

/// The package-name transform keeps the ASCII letters and digits, each
/// lower-cased, and drops every other character.
pub open spec fn package_name_of(s: Seq<char>) -> Seq<char>
    decreases s.len(),
{
    if s.len() == 0 {
        Seq::<char>::empty()
    } else {
        package_name_of(s.drop_last()) + if is_alnum_char(s.last()) {
            seq![lower_char(s.last())]
        } else {
            Seq::<char>::empty()
        }
    }
}

pub fn to_package_name(s: &String) -> (r: String)
    ensures
        r@ == package_name_of(s@),
{
    let cs = str_chars(s.as_str());
    let n = cs.len();
    let mut out: Vec<char> = Vec::new();
    let mut i: usize = 0;
    proof {
        assert(s@.subrange(0, 0) =~= Seq::<char>::empty());
    }
    while i < n
        invariant
            n == cs@.len(),
            cs@ == s@,
            i <= n,
            out@ == package_name_of(s@.subrange(0, i as int)),
        decreases n - i,
    {
        proof {
            assert(s@.subrange(0, i + 1 as int).drop_last() =~= s@.subrange(0, i as int));
            assert(s@.subrange(0, i + 1 as int).last() == s@[i as int]);
        }
        if ascii_alnum(cs[i]) {
            out.push(ascii_lower(cs[i]));
            proof {
                assert(out@ =~= package_name_of(s@.subrange(0, i as int)) + seq![
                    lower_char(s@[i as int]),
                ]);
            }
        } else {
            proof {
                assert(out@ =~= package_name_of(s@.subrange(0, i as int))
                    + Seq::<char>::empty());
            }
        }
        i = i + 1;
    }
    proof {
        assert(s@.subrange(0, n as int) =~= s@);
    }
    chars_to_string(&out)
}

/// The value a transform kind produces from a raw variable value.
pub open spec fn transform_of(kind: CaseTransformation, s: Seq<char>) -> Seq<char> {
    match kind {
        CaseTransformation::PascalCase => pascal_of(s),
        CaseTransformation::CamelCase => camel_of(s),
        CaseTransformation::SnakeCase => snake_of(s),
        CaseTransformation::KebabCase => kebab_of(s),
        CaseTransformation::ShoutySnakeCase => shouty_snake_of(s),
        CaseTransformation::PackageName => package_name_of(s),
    }
}

pub fn apply_transform(kind: &CaseTransformation, value: &String) -> (r: String)
    ensures
        r@ == transform_of(*kind, value@),
{
    match kind {
        CaseTransformation::PascalCase => to_pascal(value),
        CaseTransformation::CamelCase => to_camel(value),
        CaseTransformation::SnakeCase => to_snake(value),
        CaseTransformation::KebabCase => to_kebab(value),
        CaseTransformation::ShoutySnakeCase => to_shouty_snake(value),
        CaseTransformation::PackageName => to_package_name(value),
    }
}

} // verus!
