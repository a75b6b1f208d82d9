//! Variable resolution: from base variable values and the manifest's
//! variable definitions to the complete placeholder-to-value substitution
//! map, including case transforms and the derived scoped package name.
use crate::config::VariableDefinition;
use crate::transforms::{apply_transform, kebab_of, to_kebab, transform_of};
use crate::varmap::{lookup, set_key, VarMap};
use vstd::prelude::*;
use vstd::string::StringExecFns;

verus! {

/// Substitution entries contributed by the declared transforms of one
/// definition, applied to raw value `val`, in declaration order.
pub open spec fn transform_entries(
    acc: Seq<(Seq<char>, Seq<char>)>,
    val: Seq<char>,
    ts: Seq<(crate::config::CaseTransformation, String)>,
) -> Seq<(Seq<char>, Seq<char>)>
    decreases ts.len(),
{
    if ts.len() == 0 {
        acc
    } else {
        set_key(
            transform_entries(acc, val, ts.drop_last()),
            ts.last().1@,
            transform_of(ts.last().0, val),
        )
    }
}

/// Substitution entries contributed by one definition: the raw value under
/// its own placeholder when the variable was prompted for, then every
/// declared transform.  A definition whose variable has no base value
/// contributes nothing.
pub open spec fn resolve_def(
    acc: Seq<(Seq<char>, Seq<char>)>,
    base: Seq<(Seq<char>, Seq<char>)>,
    d: VariableDefinition,
) -> Seq<(Seq<char>, Seq<char>)> {
    match lookup(base, d.name@) {
        None => acc,
        Some(val) => {
            let acc1 = if d.prompt is Some {
                set_key(acc, d.placeholder_value@, val)
            } else {
                acc
            };
            transform_entries(acc1, val, d.transformations@)
        },
    }
}

/// First pass over the definitions, in order.
pub open spec fn resolve_pass1(
    base: Seq<(Seq<char>, Seq<char>)>,
    defs: Seq<VariableDefinition>,
) -> Seq<(Seq<char>, Seq<char>)>
    decreases defs.len(),
{
    if defs.len() == 0 {
        Seq::<(Seq<char>, Seq<char>)>::empty()
    } else {
        resolve_def(resolve_pass1(base, defs.drop_last()), base, defs.last())
    }
}

/// First definition with the given name, if any.
pub open spec fn find_def(defs: Seq<VariableDefinition>, name: Seq<char>) -> Option<
    VariableDefinition,
>
    decreases defs.len(),
{
    if defs.len() == 0 {
        None
    } else if defs[0].name@ == name {
        Some(defs[0])
    } else {
        find_def(defs.drop_first(), name)
    }
}

/// The derived scoped package name: the kebab-case project name, prefixed
/// with `orgScope` and a slash when `useOrgScope` is `"true"` and neither
/// part is empty.
pub open spec fn derived_package_name(base: Seq<(Seq<char>, Seq<char>)>) -> Seq<char> {
    let kebab = match lookup(base, "projectName"@) {
        Some(v) => kebab_of(v),
        None => Seq::<char>::empty(),
    };
    let scope = match lookup(base, "orgScope"@) {
        Some(v) => v,
        None => Seq::<char>::empty(),
    };
    let use_scope = lookup(base, "useOrgScope"@) == Some("true"@);
    if use_scope && scope.len() > 0 && kebab.len() > 0 {
        scope + seq!['/'] + kebab
    } else {
        kebab
    }
}

/// The complete substitution map: pass one, then the derived package name
/// under the placeholder of the definition named `fullPackageName`, if that
/// definition exists.
pub open spec fn resolve_subs(
    base: Seq<(Seq<char>, Seq<char>)>,
    defs: Seq<VariableDefinition>,
) -> Seq<(Seq<char>, Seq<char>)> {
    let acc = resolve_pass1(base, defs);
    match find_def(defs, "fullPackageName"@) {
        Some(d) => set_key(acc, d.placeholder_value@, derived_package_name(base)),
        None => acc,
    }
}

/// The resolved value bound to the `fullPackageName` placeholder is always
/// the derived scoped package name.
pub proof fn lemma_resolved_derived_name(
    base: Seq<(Seq<char>, Seq<char>)>,
    defs: Seq<VariableDefinition>,
    d: VariableDefinition,
)
    requires
        find_def(defs, "fullPackageName"@) == Some(d),
    ensures
        lookup(resolve_subs(base, defs), d.placeholder_value@) == Some(
            derived_package_name(base),
        ),
{
    crate::varmap::lemma_lookup_set_key(
        resolve_pass1(base, defs),
        d.placeholder_value@,
        derived_package_name(base),
        d.placeholder_value@,
    );
}

/// Setting one key keeps every key that was already bound.
proof fn lemma_set_key_keeps(
    s: Seq<(Seq<char>, Seq<char>)>,
    k: Seq<char>,
    v: Seq<char>,
    k2: Seq<char>,
)
    requires
        crate::varmap::has_key(s, k2) || k2 == k,
    ensures
        crate::varmap::has_key(set_key(s, k, v), k2),
{
    crate::varmap::lemma_lookup_set_key(s, k, v, k2);
}

/// The transform pass keeps every key that was already bound, and binds
/// the placeholder of every declared transform.
proof fn lemma_transform_entries_keys(
    acc: Seq<(Seq<char>, Seq<char>)>,
    val: Seq<char>,
    ts: Seq<(crate::config::CaseTransformation, String)>,
    k: Seq<char>,
)
    requires
        crate::varmap::has_key(acc, k) || exists|j: int| 0 <= j < ts.len() && ts[j].1@ == k,
    ensures
        crate::varmap::has_key(transform_entries(acc, val, ts), k),
    decreases ts.len(),
{
    if ts.len() == 0 {
    } else if ts.last().1@ == k {
        lemma_set_key_keeps(transform_entries(acc, val, ts.drop_last()), k, transform_of(ts.last().0, val), k);
    } else {
        assert(crate::varmap::has_key(acc, k) || exists|j: int|
            0 <= j < ts.drop_last().len() && ts.drop_last()[j].1@ == k) by {
            if !crate::varmap::has_key(acc, k) {
                let j = choose|j: int| 0 <= j < ts.len() && ts[j].1@ == k;
                assert(ts.drop_last()[j] == ts[j]);
            }
        }
        lemma_transform_entries_keys(acc, val, ts.drop_last(), k);
        lemma_set_key_keeps(
            transform_entries(acc, val, ts.drop_last()),
            ts.last().1@,
            transform_of(ts.last().0, val),
            k,
        );
    }
}

/// One definition's pass keeps every key that was already bound.
proof fn lemma_resolve_def_keeps(
    acc: Seq<(Seq<char>, Seq<char>)>,
    base: Seq<(Seq<char>, Seq<char>)>,
    d: VariableDefinition,
    k: Seq<char>,
)
    requires
        crate::varmap::has_key(acc, k),
    ensures
        crate::varmap::has_key(resolve_def(acc, base, d), k),
{
    match lookup(base, d.name@) {
        None => {},
        Some(val) => {
            if d.prompt is Some {
                lemma_set_key_keeps(acc, d.placeholder_value@, val, k);
                lemma_transform_entries_keys(
                    set_key(acc, d.placeholder_value@, val),
                    val,
                    d.transformations@,
                    k,
                );
            } else {
                lemma_transform_entries_keys(acc, val, d.transformations@, k);
            }
        },
    }
}

/// Totality of resolution: for every definition whose variable has a base
/// value, the raw-value placeholder (when the variable was prompted for)
/// and the placeholder of each declared transform are bound in the
/// resolved substitution map.  Resolution never drops a reachable
/// placeholder.
pub proof fn lemma_resolution_total(
    base: Seq<(Seq<char>, Seq<char>)>,
    defs: Seq<VariableDefinition>,
    i: int,
)
    requires
        0 <= i < defs.len(),
        lookup(base, defs[i].name@) is Some,
    ensures
        defs[i].prompt is Some ==> crate::varmap::has_key(
            resolve_subs(base, defs),
            defs[i].placeholder_value@,
        ),
        forall|j: int|
            0 <= j < defs[i].transformations@.len() ==> crate::varmap::has_key(
                resolve_subs(base, defs),
                #[trigger] defs[i].transformations@[j].1@,
            ),
{
    lemma_pass1_total(base, defs, i);
    match find_def(defs, "fullPackageName"@) {
        Some(d) => {
            if defs[i].prompt is Some {
                lemma_set_key_keeps(
                    resolve_pass1(base, defs),
                    d.placeholder_value@,
                    derived_package_name(base),
                    defs[i].placeholder_value@,
                );
            }
            assert forall|j: int| 0 <= j < defs[i].transformations@.len() implies
                crate::varmap::has_key(
                    resolve_subs(base, defs),
                    #[trigger] defs[i].transformations@[j].1@,
                ) by {
                lemma_set_key_keeps(
                    resolve_pass1(base, defs),
                    d.placeholder_value@,
                    derived_package_name(base),
                    defs[i].transformations@[j].1@,
                );
            }
        },
        None => {},
    }
}

/// Totality after the first pass alone.
proof fn lemma_pass1_total(
    base: Seq<(Seq<char>, Seq<char>)>,
    defs: Seq<VariableDefinition>,
    i: int,
)
    requires
        0 <= i < defs.len(),
        lookup(base, defs[i].name@) is Some,
    ensures
        defs[i].prompt is Some ==> crate::varmap::has_key(
            resolve_pass1(base, defs),
            defs[i].placeholder_value@,
        ),
        forall|j: int|
            0 <= j < defs[i].transformations@.len() ==> crate::varmap::has_key(
                resolve_pass1(base, defs),
                #[trigger] defs[i].transformations@[j].1@,
            ),
    decreases defs.len(),
{
    let d = defs[i];
    let val = lookup(base, d.name@)->0;
    if i == defs.len() - 1 {
        assert(defs.last() == d);
        let acc = resolve_pass1(base, defs.drop_last());
        if d.prompt is Some {
            lemma_set_key_keeps(acc, d.placeholder_value@, val, d.placeholder_value@);
            lemma_transform_entries_keys(
                set_key(acc, d.placeholder_value@, val),
                val,
                d.transformations@,
                d.placeholder_value@,
            );
            assert forall|j: int| 0 <= j < d.transformations@.len() implies
                crate::varmap::has_key(
                    resolve_pass1(base, defs),
                    #[trigger] d.transformations@[j].1@,
                ) by {
                lemma_transform_entries_keys(
                    set_key(acc, d.placeholder_value@, val),
                    val,
                    d.transformations@,
                    d.transformations@[j].1@,
                );
            }
        } else {
            assert forall|j: int| 0 <= j < d.transformations@.len() implies
                crate::varmap::has_key(
                    resolve_pass1(base, defs),
                    #[trigger] d.transformations@[j].1@,
                ) by {
                lemma_transform_entries_keys(acc, val, d.transformations@, d.transformations@[j].1@);
            }
        }
    } else {
        assert(defs.drop_last()[i] == defs[i]);
        lemma_pass1_total(base, defs.drop_last(), i);
        if d.prompt is Some {
            lemma_resolve_def_keeps(
                resolve_pass1(base, defs.drop_last()),
                base,
                defs.last(),
                d.placeholder_value@,
            );
        }
        assert forall|j: int| 0 <= j < d.transformations@.len() implies
            crate::varmap::has_key(
                resolve_pass1(base, defs),
                #[trigger] d.transformations@[j].1@,
            ) by {
            lemma_resolve_def_keeps(
                resolve_pass1(base, defs.drop_last()),
                base,
                defs.last(),
                d.transformations@[j].1@,
            );
        }
    }
}

/// Whether one definition's pass writes the key `k`.
pub open spec fn def_sets(
    d: VariableDefinition,
    base: Seq<(Seq<char>, Seq<char>)>,
    k: Seq<char>,
) -> bool {
    lookup(base, d.name@) is Some && ((d.prompt is Some && d.placeholder_value@ == k) || exists|
        j: int,
    | 0 <= j < d.transformations@.len() && d.transformations@[j].1@ == k)
}

/// The transform pass leaves a key alone when no transform declares it.
proof fn lemma_transform_entries_other_key(
    acc: Seq<(Seq<char>, Seq<char>)>,
    val: Seq<char>,
    ts: Seq<(crate::config::CaseTransformation, String)>,
    k: Seq<char>,
)
    requires
        forall|j: int| 0 <= j < ts.len() ==> (#[trigger] ts[j].1)@ != k,
    ensures
        lookup(transform_entries(acc, val, ts), k) == lookup(acc, k),
    decreases ts.len(),
{
    if ts.len() > 0 {
        assert(forall|j: int| 0 <= j < ts.drop_last().len() ==> (#[trigger] ts.drop_last()[j].1)@
            != k);
        lemma_transform_entries_other_key(acc, val, ts.drop_last(), k);
        crate::varmap::lemma_lookup_set_key(
            transform_entries(acc, val, ts.drop_last()),
            ts.last().1@,
            transform_of(ts.last().0, val),
            k,
        );
    }
}

/// One definition's pass leaves a key alone when it does not write it.
proof fn lemma_resolve_def_other_key(
    acc: Seq<(Seq<char>, Seq<char>)>,
    base: Seq<(Seq<char>, Seq<char>)>,
    d: VariableDefinition,
    k: Seq<char>,
)
    requires
        !def_sets(d, base, k),
    ensures
        lookup(resolve_def(acc, base, d), k) == lookup(acc, k),
{
    match lookup(base, d.name@) {
        None => {},
        Some(val) => {
            assert(forall|j: int| 0 <= j < d.transformations@.len() ==> (#[trigger] d
                .transformations@[j].1)@ != k);
            if d.prompt is Some {
                crate::varmap::lemma_lookup_set_key(acc, d.placeholder_value@, val, k);
                lemma_transform_entries_other_key(
                    set_key(acc, d.placeholder_value@, val),
                    val,
                    d.transformations@,
                    k,
                );
            } else {
                lemma_transform_entries_other_key(acc, val, d.transformations@, k);
            }
        },
    }
}

/// The transform pass binds a declared placeholder to the declared
/// transform of the raw value, provided no later transform entry reuses
/// the same placeholder.
proof fn lemma_transform_entries_binds_value(
    acc: Seq<(Seq<char>, Seq<char>)>,
    val: Seq<char>,
    ts: Seq<(crate::config::CaseTransformation, String)>,
    j: int,
)
    requires
        0 <= j < ts.len(),
        forall|j2: int| j < j2 < ts.len() ==> (#[trigger] ts[j2].1)@ != ts[j].1@,
    ensures
        lookup(transform_entries(acc, val, ts), ts[j].1@) == Some(transform_of(ts[j].0, val)),
    decreases ts.len(),
{
    if j == ts.len() - 1 {
        crate::varmap::lemma_lookup_set_key(
            transform_entries(acc, val, ts.drop_last()),
            ts.last().1@,
            transform_of(ts.last().0, val),
            ts.last().1@,
        );
    } else {
        assert(ts.drop_last()[j] == ts[j]);
        assert(forall|j2: int| j < j2 < ts.drop_last().len() ==> (#[trigger] ts.drop_last()[j2].1)@
            != ts[j].1@);
        lemma_transform_entries_binds_value(acc, val, ts.drop_last(), j);
        crate::varmap::lemma_lookup_set_key(
            transform_entries(acc, val, ts.drop_last()),
            ts.last().1@,
            transform_of(ts.last().0, val),
            ts[j].1@,
        );
    }
}

/// After the first pass, a transform placeholder is bound to the declared
/// transform of the raw value, provided nothing later writes the same
/// token.
proof fn lemma_pass1_transform_value(
    base: Seq<(Seq<char>, Seq<char>)>,
    defs: Seq<VariableDefinition>,
    i: int,
    j: int,
)
    requires
        0 <= i < defs.len(),
        lookup(base, defs[i].name@) is Some,
        0 <= j < defs[i].transformations@.len(),
        forall|j2: int|
            j < j2 < defs[i].transformations@.len() ==> (#[trigger] defs[i].transformations@[j2].1)@
                != defs[i].transformations@[j].1@,
        forall|i2: int|
            i < i2 < defs.len() ==> !def_sets(#[trigger] defs[i2], base, defs[i].transformations@[j].1@),
    ensures
        lookup(resolve_pass1(base, defs), defs[i].transformations@[j].1@) == Some(
            transform_of(defs[i].transformations@[j].0, lookup(base, defs[i].name@)->0),
        ),
    decreases defs.len(),
{
    let val = lookup(base, defs[i].name@)->0;
    if i == defs.len() - 1 {
        let acc = resolve_pass1(base, defs.drop_last());
        if defs[i].prompt is Some {
            lemma_transform_entries_binds_value(
                set_key(acc, defs[i].placeholder_value@, val),
                val,
                defs[i].transformations@,
                j,
            );
        } else {
            lemma_transform_entries_binds_value(acc, val, defs[i].transformations@, j);
        }
    } else {
        assert(defs.drop_last()[i] == defs[i]);
        assert(forall|i2: int| i < i2 < defs.drop_last().len() ==> !def_sets(
            #[trigger] defs.drop_last()[i2],
            base,
            defs[i].transformations@[j].1@,
        ));
        lemma_pass1_transform_value(base, defs.drop_last(), i, j);
        lemma_resolve_def_other_key(
            resolve_pass1(base, defs.drop_last()),
            base,
            defs.last(),
            defs[i].transformations@[j].1@,
        );
    }
}

/// What resolution binds a transform placeholder to: the declared
/// transform applied to the variable's raw base value.  Holds whenever no
/// later declaration reuses the same placeholder token and the token is
/// not the derived package name's.
pub proof fn lemma_transform_placeholder_value(
    base: Seq<(Seq<char>, Seq<char>)>,
    defs: Seq<VariableDefinition>,
    i: int,
    j: int,
)
    requires
        0 <= i < defs.len(),
        lookup(base, defs[i].name@) is Some,
        0 <= j < defs[i].transformations@.len(),
        forall|j2: int|
            j < j2 < defs[i].transformations@.len() ==> (#[trigger] defs[i].transformations@[j2].1)@
                != defs[i].transformations@[j].1@,
        forall|i2: int|
            i < i2 < defs.len() ==> !def_sets(#[trigger] defs[i2], base, defs[i].transformations@[j].1@),
        match find_def(defs, "fullPackageName"@) {
            Some(dd) => dd.placeholder_value@ != defs[i].transformations@[j].1@,
            None => true,
        },
    ensures
        lookup(resolve_subs(base, defs), defs[i].transformations@[j].1@) == Some(
            transform_of(defs[i].transformations@[j].0, lookup(base, defs[i].name@)->0),
        ),
{
    lemma_pass1_transform_value(base, defs, i, j);
    match find_def(defs, "fullPackageName"@) {
        Some(dd) => {
            crate::varmap::lemma_lookup_set_key(
                resolve_pass1(base, defs),
                dd.placeholder_value@,
                derived_package_name(base),
                defs[i].transformations@[j].1@,
            );
        },
        None => {},
    }
}

/// What resolution binds a prompted variable's own placeholder to: the raw
/// base value itself.  Holds whenever no transform of the same definition
/// and no later definition reuses the token, and the token is not the
/// derived package name's.
pub proof fn lemma_raw_placeholder_value(
    base: Seq<(Seq<char>, Seq<char>)>,
    defs: Seq<VariableDefinition>,
    i: int,
)
    requires
        0 <= i < defs.len(),
        defs[i].prompt is Some,
        lookup(base, defs[i].name@) is Some,
        forall|j: int|
            0 <= j < defs[i].transformations@.len() ==> (#[trigger] defs[i].transformations@[j].1)@
                != defs[i].placeholder_value@,
        forall|i2: int|
            i < i2 < defs.len() ==> !def_sets(#[trigger] defs[i2], base, defs[i].placeholder_value@),
        match find_def(defs, "fullPackageName"@) {
            Some(dd) => dd.placeholder_value@ != defs[i].placeholder_value@,
            None => true,
        },
    ensures
        lookup(resolve_subs(base, defs), defs[i].placeholder_value@) == Some(
            lookup(base, defs[i].name@)->0,
        ),
{
    lemma_pass1_raw_value(base, defs, i);
    match find_def(defs, "fullPackageName"@) {
        Some(dd) => {
            crate::varmap::lemma_lookup_set_key(
                resolve_pass1(base, defs),
                dd.placeholder_value@,
                derived_package_name(base),
                defs[i].placeholder_value@,
            );
        },
        None => {},
    }
}

/// After the first pass, a prompted variable's placeholder is bound to the
/// raw base value.
proof fn lemma_pass1_raw_value(
    base: Seq<(Seq<char>, Seq<char>)>,
    defs: Seq<VariableDefinition>,
    i: int,
)
    requires
        0 <= i < defs.len(),
        defs[i].prompt is Some,
        lookup(base, defs[i].name@) is Some,
        forall|j: int|
            0 <= j < defs[i].transformations@.len() ==> (#[trigger] defs[i].transformations@[j].1)@
                != defs[i].placeholder_value@,
        forall|i2: int|
            i < i2 < defs.len() ==> !def_sets(#[trigger] defs[i2], base, defs[i].placeholder_value@),
    ensures
        lookup(resolve_pass1(base, defs), defs[i].placeholder_value@) == Some(
            lookup(base, defs[i].name@)->0,
        ),
    decreases defs.len(),
{
    let val = lookup(base, defs[i].name@)->0;
    if i == defs.len() - 1 {
        let acc = resolve_pass1(base, defs.drop_last());
        crate::varmap::lemma_lookup_set_key(
            acc,
            defs[i].placeholder_value@,
            val,
            defs[i].placeholder_value@,
        );
        lemma_transform_entries_other_key(
            set_key(acc, defs[i].placeholder_value@, val),
            val,
            defs[i].transformations@,
            defs[i].placeholder_value@,
        );
    } else {
        assert(defs.drop_last()[i] == defs[i]);
        assert(forall|i2: int| i < i2 < defs.drop_last().len() ==> !def_sets(
            #[trigger] defs.drop_last()[i2],
            base,
            defs[i].placeholder_value@,
        ));
        lemma_pass1_raw_value(base, defs.drop_last(), i);
        lemma_resolve_def_other_key(
            resolve_pass1(base, defs.drop_last()),
            base,
            defs.last(),
            defs[i].placeholder_value@,
        );
    }
}

/// Find the first definition with the given name.
fn find_def_exec<'a>(defs: &'a Vec<VariableDefinition>, name: &String) -> (r: Option<
    &'a VariableDefinition,
>)
    ensures
        match r {
            Some(d) => find_def(defs@, name@) == Some(*d),
            None => find_def(defs@, name@) is None,
        },
{
    let n = defs.len();
    proof {
        assert(defs@.skip(0) =~= defs@);
    }
    let mut i: usize = 0;
    while i < n
        invariant
            n == defs@.len(),
            i <= n,
            find_def(defs@, name@) == find_def(defs@.skip(i as int), name@),
        decreases n - i,
    {
        proof {
            assert(defs@.skip(i as int).drop_first() =~= defs@.skip(i + 1));
            assert(defs@.skip(i as int)[0] == defs@[i as int]);
        }
        if defs[i].name == *name {
            return Some(&defs[i]);
        }
        i = i + 1;
    }
    proof {
        assert(defs@.skip(n as int) =~= Seq::<VariableDefinition>::empty());
    }
    None
}

/// Compute the derived scoped package name from the base variables.
fn derived_name_exec(base_variables: &VarMap) -> (r: String)
    ensures
        r@ == derived_package_name(base_variables@),
{
    let kebab = match base_variables.get(&String::from_str("projectName")) {
        Some(v) => to_kebab(v),
        None => String::new(),
    };
    let scope = match base_variables.get(&String::from_str("orgScope")) {
        Some(v) => v.clone(),
        None => String::new(),
    };
    let use_scope = match base_variables.get(&String::from_str("useOrgScope")) {
        Some(v) => *v == String::from_str("true"),
        None => false,
    };
    if use_scope && !scope.as_str().is_empty() && !kebab.as_str().is_empty() {
        let mut out = scope;
        out.append("/");
        out.append(kebab.as_str());
        proof {
            reveal_strlit("/");
            assert("/"@ =~= seq!['/']);
        }
        out
    } else {
        kebab
    }
}

/// Build the full placeholder-to-value substitution map from the base
/// variables and the manifest's variable definitions.
pub fn compute_transformed_variables(
    base_variables: &VarMap,
    variable_definitions: &Vec<VariableDefinition>,
) -> (r: VarMap)
    ensures
        r@ == resolve_subs(base_variables@, variable_definitions@),
{
    let mut subs = VarMap::new();
    let n = variable_definitions.len();
    proof {
        assert(variable_definitions@.subrange(0, 0) =~= Seq::<VariableDefinition>::empty());
    }
    let mut i: usize = 0;
    while i < n
        invariant
            n == variable_definitions@.len(),
            i <= n,
            subs@ == resolve_pass1(base_variables@, variable_definitions@.subrange(0, i as int)),
        decreases n - i,
    {
        proof {
            assert(variable_definitions@.subrange(0, i + 1 as int).drop_last()
                =~= variable_definitions@.subrange(0, i as int));
            assert(variable_definitions@.subrange(0, i + 1 as int).last()
                == variable_definitions@[i as int]);
        }
        let d = &variable_definitions[i];
        match base_variables.get(&d.name) {
            Some(val) => {
                let ghost acc0 = subs@;
                if d.prompt.is_some() {
                    let v = val.clone();
                    subs.set(&d.placeholder_value, v);
                }
                let ghost acc1 = subs@;
                let m = d.transformations.len();
                proof {
                    assert(d.transformations@.subrange(0, 0) =~= Seq::<
                        (crate::config::CaseTransformation, String),
                    >::empty());
                }
                let mut j: usize = 0;
                while j < m
                    invariant
                        m == d.transformations@.len(),
                        j <= m,
                        subs@ == transform_entries(
                            acc1,
                            val@,
                            d.transformations@.subrange(0, j as int),
                        ),
                    decreases m - j,
                {
                    proof {
                        assert(d.transformations@.subrange(0, j + 1 as int).drop_last()
                            =~= d.transformations@.subrange(0, j as int));
                        assert(d.transformations@.subrange(0, j + 1 as int).last()
                            == d.transformations@[j as int]);
                    }
                    let t = apply_transform(&d.transformations[j].0, val);
                    subs.set(&d.transformations[j].1, t);
                    j = j + 1;
                }
                proof {
                    assert(d.transformations@.subrange(0, m as int) =~= d.transformations@);
                }
            },
            None => {},
        }
        i = i + 1;
    }
    proof {
        assert(variable_definitions@.subrange(0, n as int) =~= variable_definitions@);
    }
    match find_def_exec(variable_definitions, &String::from_str("fullPackageName")) {
        Some(d) => {
            let name = derived_name_exec(base_variables);
            subs.set(&d.placeholder_value, name);
        },
        None => {},
    }
    subs
}

} // verus!
