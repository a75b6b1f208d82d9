//! Placeholder substitution in file content, in path segments, and in
//! command strings.
use crate::config::{PlaceholderFilenames, VariableDefinition};
use crate::text::{chars_to_string, occurs, replace_chars, replaced, str_chars};
use crate::varmap::{lookup, VarMap};
use vstd::prelude::*;

verus! {

/// Apply every substitution pair to `s`, in map order: each step replaces
/// all occurrences of the pair's token by its value.
pub open spec fn apply_substs(s: Seq<char>, subs: Seq<(Seq<char>, Seq<char>)>) -> Seq<char>
    decreases subs.len(),
{
    if subs.len() == 0 {
        s
    } else {
        replaced(apply_substs(s, subs.drop_last()), subs.last().0, subs.last().1)
    }
}

/// A string in which no substitution token occurs passes through unchanged.
pub proof fn lemma_apply_substs_no_occurrence(s: Seq<char>, subs: Seq<(Seq<char>, Seq<char>)>)
    requires
        forall|i: int| 0 <= i < subs.len() ==> !occurs(s, #[trigger] subs[i].0),
    ensures
        apply_substs(s, subs) == s,
    decreases subs.len(),
{
    if subs.len() > 0 {
        assert(forall|i: int|
            0 <= i < subs.drop_last().len() ==> !occurs(s, #[trigger] subs.drop_last()[i].0));
        lemma_apply_substs_no_occurrence(s, subs.drop_last());
        assert(subs.last() == subs[subs.len() - 1]);
        crate::text::lemma_replaced_no_occurrence(s, subs.last().0, subs.last().1);
    }
}

/// Round-trip single-token identity: when the whole input is one
/// substitution token, and no other token occurs in that token or in its
/// value, the result is exactly the token's value.
pub proof fn lemma_single_token_substitution(subs: Seq<(Seq<char>, Seq<char>)>, j: int)
    requires
        0 <= j < subs.len(),
        subs[j].0.len() > 0,
        forall|i: int| 0 <= i < j ==> !occurs(subs[j].0, #[trigger] subs[i].0),
        forall|i: int| j < i < subs.len() ==> !occurs(subs[j].1, #[trigger] subs[i].0),
    ensures
        apply_substs(subs[j].0, subs) == subs[j].1,
    decreases subs.len(),
{
    let tok = subs[j].0;
    let rep = subs[j].1;
    if j == subs.len() - 1 {
        assert(forall|i: int|
            0 <= i < subs.drop_last().len() ==> !occurs(tok, #[trigger] subs.drop_last()[i].0));
        lemma_apply_substs_no_occurrence(tok, subs.drop_last());
        assert(subs.last() == subs[j]);
        crate::text::lemma_replaced_whole(tok, rep);
    } else {
        assert(subs.drop_last()[j] == subs[j]);
        assert(forall|i: int| 0 <= i < j ==> subs.drop_last()[i] == subs[i]);
        assert(forall|i: int|
            j < i < subs.drop_last().len() ==> #[trigger] subs.drop_last()[i] == subs[i]);
        lemma_single_token_substitution(subs.drop_last(), j);
        assert(subs.last() == subs[subs.len() - 1]);
        assert(!occurs(rep, subs.last().0));
        crate::text::lemma_replaced_no_occurrence(rep, subs.last().0, subs.last().1);
    }
}

/// Replace every substitution token in `content` by its resolved value,
/// in map order.
pub fn substitute_content(content: &String, substitutions: &VarMap) -> (r: String)
    ensures
        r@ == apply_substs(content@, substitutions@),
{
    let mut cs = str_chars(content.as_str());
    let n = substitutions.len();
    proof {
        assert(substitutions@.subrange(0, 0) =~= Seq::<(Seq<char>, Seq<char>)>::empty());
    }
    let mut i: usize = 0;
    while i < n
        invariant
            n == substitutions@.len(),
            i <= n,
            cs@ == apply_substs(content@, substitutions@.subrange(0, i as int)),
        decreases n - i,
    {
        proof {
            assert(substitutions@.subrange(0, i + 1 as int).drop_last() =~= substitutions@
                .subrange(0, i as int));
            assert(substitutions@.subrange(0, i + 1 as int).last() == substitutions@[i as int]);
        }
        let pat = str_chars(substitutions.key_at(i).as_str());
        let rep = str_chars(substitutions.value_at(i).as_str());
        cs = replace_chars(&cs, &pat, &rep);
        i = i + 1;
    }
    proof {
        assert(substitutions@.subrange(0, n as int) =~= substitutions@);
    }
    chars_to_string(&cs)
}

/// The `{{name}}` token that names a variable inside a command string.
pub open spec fn command_marker(name: Seq<char>) -> Seq<char> {
    seq!['{', '{'] + name + seq!['}', '}']
}

/// Replace each base variable's `{{name}}` token in a command string by the
/// variable's raw value, in map order.  Unmatched tokens stay verbatim.
pub open spec fn apply_command_substs(s: Seq<char>, vars: Seq<(Seq<char>, Seq<char>)>) -> Seq<
    char,
>
    decreases vars.len(),
{
    if vars.len() == 0 {
        s
    } else {
        replaced(
            apply_command_substs(s, vars.drop_last()),
            command_marker(vars.last().0),
            vars.last().1,
        )
    }
}

/// Substitute `{{name}}` tokens in a step's command string from the base
/// variables.
pub fn substitute_command_for_validation(command_template: &String, base_variables: &VarMap) -> (r:
    String)
    ensures
        r@ == apply_command_substs(command_template@, base_variables@),
{
    let mut cs = str_chars(command_template.as_str());
    let n = base_variables.len();
    proof {
        assert(base_variables@.subrange(0, 0) =~= Seq::<(Seq<char>, Seq<char>)>::empty());
    }
    let mut i: usize = 0;
    while i < n
        invariant
            n == base_variables@.len(),
            i <= n,
            cs@ == apply_command_substs(command_template@, base_variables@.subrange(0, i as int)),
        decreases n - i,
    {
        proof {
            assert(base_variables@.subrange(0, i + 1 as int).drop_last() =~= base_variables@
                .subrange(0, i as int));
            assert(base_variables@.subrange(0, i + 1 as int).last() == base_variables@[i as int]);
        }
        let key = str_chars(base_variables.key_at(i).as_str());
        let mut pat: Vec<char> = Vec::new();
        pat.push('{');
        pat.push('{');
        let mut k: usize = 0;
        while k < key.len()
            invariant
                k <= key@.len(),
                pat@ == seq!['{', '{'] + key@.subrange(0, k as int),
            decreases key@.len() - k,
        {
            pat.push(key[k]);
            proof {
                assert(pat@ =~= seq!['{', '{'] + key@.subrange(0, k + 1 as int));
            }
            k = k + 1;
        }
        pat.push('}');
        pat.push('}');
        proof {
            assert(key@.subrange(0, key@.len() as int) =~= key@);
            assert(pat@ =~= command_marker(base_variables@[i as int].0));
        }
        let rep = str_chars(base_variables.value_at(i).as_str());
        cs = replace_chars(&cs, &pat, &rep);
        i = i + 1;
    }
    proof {
        assert(base_variables@.subrange(0, n as int) =~= base_variables@);
    }
    chars_to_string(&cs)
}

/// The filename marker of one variable: prefix, variable name, suffix.
pub open spec fn marker_of(prefix: Seq<char>, name: Seq<char>, suffix: Seq<char>) -> Seq<char> {
    prefix + name + suffix
}

/// First filename pass: each definition's marker is replaced by the
/// variable's raw base value; a marker whose variable has no base value is
/// left alone.
pub open spec fn apply_marker_pass(
    s: Seq<char>,
    base: Seq<(Seq<char>, Seq<char>)>,
    defs: Seq<VariableDefinition>,
    prefix: Seq<char>,
    suffix: Seq<char>,
) -> Seq<char>
    decreases defs.len(),
{
    if defs.len() == 0 {
        s
    } else {
        let prev = apply_marker_pass(s, base, defs.drop_last(), prefix, suffix);
        match lookup(base, defs.last().name@) {
            Some(val) => replaced(prev, marker_of(prefix, defs.last().name@, suffix), val),
            None => prev,
        }
    }
}

/// A path segment after both filename passes: raw-value markers first, then
/// the full substitution map.  Without an affix configuration the segment
/// passes through unchanged.
pub open spec fn substituted_segment(
    seg: Seq<char>,
    base: Seq<(Seq<char>, Seq<char>)>,
    subs: Seq<(Seq<char>, Seq<char>)>,
    defs: Seq<VariableDefinition>,
    affix: Option<PlaceholderFilenames>,
) -> Seq<char> {
    match affix {
        None => seg,
        Some(c) => apply_substs(apply_marker_pass(seg, base, defs, c.prefix@, c.suffix@), subs),
    }
}

/// Substitute one path segment: variable markers from the raw base values,
/// then every placeholder of the substitution map.
pub fn substitute_path_segment(
    segment: &String,
    base_variables: &VarMap,
    all_substitutions: &VarMap,
    placeholder_config: &Option<PlaceholderFilenames>,
    variable_definitions: &Vec<VariableDefinition>,
) -> (r: String)
    ensures
        r@ == substituted_segment(
            segment@,
            base_variables@,
            all_substitutions@,
            variable_definitions@,
            *placeholder_config,
        ),
{
    let affix = match placeholder_config {
        None => {
            return segment.clone();
        },
        Some(c) => c,
    };
    let prefix = str_chars(affix.prefix.as_str());
    let suffix = str_chars(affix.suffix.as_str());
    let mut cs = str_chars(segment.as_str());
    let n = variable_definitions.len();
    proof {
        assert(variable_definitions@.subrange(0, 0) =~= Seq::<VariableDefinition>::empty());
    }
    let mut i: usize = 0;
    while i < n
        invariant
            n == variable_definitions@.len(),
            prefix@ == affix.prefix@,
            suffix@ == affix.suffix@,
            i <= n,
            cs@ == apply_marker_pass(
                segment@,
                base_variables@,
                variable_definitions@.subrange(0, i as int),
                affix.prefix@,
                affix.suffix@,
            ),
        decreases n - i,
    {
        proof {
            assert(variable_definitions@.subrange(0, i + 1 as int).drop_last()
                =~= variable_definitions@.subrange(0, i as int));
            assert(variable_definitions@.subrange(0, i + 1 as int).last()
                == variable_definitions@[i as int]);
        }
        let d = &variable_definitions[i];
        match base_variables.get(&d.name) {
            Some(base_value) => {
                let name = str_chars(d.name.as_str());
                let mut pat: Vec<char> = Vec::new();
                let mut k: usize = 0;
                while k < prefix.len()
                    invariant
                        k <= prefix@.len(),
                        pat@ == prefix@.subrange(0, k as int),
                    decreases prefix@.len() - k,
                {
                    pat.push(prefix[k]);
                    proof {
                        assert(pat@ =~= prefix@.subrange(0, k + 1 as int));
                    }
                    k = k + 1;
                }
                proof {
                    assert(prefix@.subrange(0, prefix@.len() as int) =~= prefix@);
                }
                let mut k: usize = 0;
                while k < name.len()
                    invariant
                        k <= name@.len(),
                        pat@ == prefix@ + name@.subrange(0, k as int),
                    decreases name@.len() - k,
                {
                    pat.push(name[k]);
                    proof {
                        assert(pat@ =~= prefix@ + name@.subrange(0, k + 1 as int));
                    }
                    k = k + 1;
                }
                proof {
                    assert(name@.subrange(0, name@.len() as int) =~= name@);
                }
                let mut k: usize = 0;
                while k < suffix.len()
                    invariant
                        k <= suffix@.len(),
                        pat@ == prefix@ + name@ + suffix@.subrange(0, k as int),
                    decreases suffix@.len() - k,
                {
                    pat.push(suffix[k]);
                    proof {
                        assert(pat@ =~= prefix@ + name@ + suffix@.subrange(0, k + 1 as int));
                    }
                    k = k + 1;
                }
                proof {
                    assert(suffix@.subrange(0, suffix@.len() as int) =~= suffix@);
                    assert(pat@ =~= marker_of(affix.prefix@, d.name@, affix.suffix@));
                }
                let rep = str_chars(base_value.as_str());
                cs = replace_chars(&cs, &pat, &rep);
            },
            None => {},
        }
        i = i + 1;
    }
    proof {
        assert(variable_definitions@.subrange(0, n as int) =~= variable_definitions@);
    }
    let m = all_substitutions.len();
    let ghost pass1 = cs@;
    proof {
        assert(all_substitutions@.subrange(0, 0) =~= Seq::<(Seq<char>, Seq<char>)>::empty());
    }
    let mut i: usize = 0;
    while i < m
        invariant
            m == all_substitutions@.len(),
            i <= m,
            cs@ == apply_substs(pass1, all_substitutions@.subrange(0, i as int)),
        decreases m - i,
    {
        proof {
            assert(all_substitutions@.subrange(0, i + 1 as int).drop_last() =~= all_substitutions@
                .subrange(0, i as int));
            assert(all_substitutions@.subrange(0, i + 1 as int).last()
                == all_substitutions@[i as int]);
        }
        let pat = str_chars(all_substitutions.key_at(i).as_str());
        let rep = str_chars(all_substitutions.value_at(i).as_str());
        cs = replace_chars(&cs, &pat, &rep);
        i = i + 1;
    }
    proof {
        assert(all_substitutions@.subrange(0, m as int) =~= all_substitutions@);
    }
    chars_to_string(&cs)
}

} // verus!
