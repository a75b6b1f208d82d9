//! Rendering plans: which template entries survive exclusion and
//! conditions, where each one goes after filename substitution, and whether
//! a file is copied byte-for-byte or rendered as text.  Walking the
//! directory tree and touching the disk is the caller's part; the plan is
//! computed and verified here.
use crate::conditions::{condition_holds, evaluate_condition};
use crate::config::{Condition, ScaffoldManifest, VariableDefinition};
use crate::subst::{substitute_path_segment, substituted_segment};
use crate::varmap::{lookup, set_key, VarMap};
use vstd::prelude::*;
use vstd::string::StringExecFns;

verus! {

/// Kind of one entry of the template tree.
#[derive(Clone, Copy, PartialEq, Eq, Structural, Debug)]
pub enum EntryKind {
    Directory,
    File,
}

/// One entry of the template tree, as the path segments relative to the
/// template root.  The root itself is not an entry.
pub struct TemplateEntry {
    pub segments: Vec<String>,
    pub kind: EntryKind,
}

/// What the renderer does for one surviving entry.  `source` is the path
/// relative to the template root, `dest` relative to the output root.
pub enum OutputAction {
    MakeDir { dest: Vec<String> },
    CopyBinary { source: Vec<String>, dest: Vec<String> },
    RenderText { source: Vec<String>, dest: Vec<String> },
}

/// Spec-level image of an `OutputAction`.
pub enum ActionView {
    MakeDir { dest: Seq<Seq<char>> },
    CopyBinary { source: Seq<Seq<char>>, dest: Seq<Seq<char>> },
    RenderText { source: Seq<Seq<char>>, dest: Seq<Seq<char>> },
}

/// The character sequences of a list of path segments.
pub open spec fn seg_views(segs: Seq<String>) -> Seq<Seq<char>> {
    segs.map_values(|s: String| s@)
}

impl View for OutputAction {
    type V = ActionView;

    open spec fn view(&self) -> ActionView {
        match self {
            OutputAction::MakeDir { dest } => ActionView::MakeDir { dest: seg_views(dest@) },
            OutputAction::CopyBinary { source, dest } => ActionView::CopyBinary {
                source: seg_views(source@),
                dest: seg_views(dest@),
            },
            OutputAction::RenderText { source, dest } => ActionView::RenderText {
                source: seg_views(source@),
                dest: seg_views(dest@),
            },
        }
    }
}

/// Path segments joined with the platform-neutral separator.
pub open spec fn joined(segs: Seq<Seq<char>>) -> Seq<char>
    decreases segs.len(),
{
    if segs.len() == 0 {
        Seq::<char>::empty()
    } else if segs.len() == 1 {
        segs[0]
    } else {
        joined(segs.drop_last()) + seq!['/'] + segs.last()
    }
}

/// An entry is excluded when any of its segment names stands in the
/// exclude list.
pub open spec fn entry_excluded(segs: Seq<Seq<char>>, exclude: Seq<String>) -> bool {
    exists|i: int, j: int|
        0 <= i < segs.len() && 0 <= j < exclude.len() && segs[i] == exclude[j]@
}

/// First condition bound to the given relative path, if any.
pub open spec fn lookup_cond(s: Seq<(String, Condition)>, k: Seq<char>) -> Option<Condition>
    decreases s.len(),
{
    if s.len() == 0 {
        None
    } else if s[0].0@ == k {
        Some(s[0].1)
    } else {
        lookup_cond(s.drop_first(), k)
    }
}

/// Every prefix of the entry's path that carries a condition must satisfy
/// it; a failing condition on a directory therefore takes its whole subtree.
pub open spec fn prefix_conditions_hold(
    segs: Seq<Seq<char>>,
    cond_paths: Seq<(String, Condition)>,
    vars: Seq<(Seq<char>, Seq<char>)>,
) -> bool {
    forall|l: int|
        1 <= l <= segs.len() ==> match #[trigger] lookup_cond(cond_paths, joined(segs.take(l))) {
            Some(c) => condition_holds(c, vars),
            None => true,
        }
}

/// The manifest file itself is never rendered.
pub open spec fn is_manifest_file(segs: Seq<Seq<char>>, kind: EntryKind) -> bool {
    kind == EntryKind::File && segs.len() > 0 && segs.last() == "scaffold.yaml"@
}

/// Index of the last dot of a file name, or -1 if there is none.
pub open spec fn last_dot_index(name: Seq<char>) -> int
    decreases name.len(),
{
    if name.len() == 0 {
        -1
    } else if name.last() == '.' {
        name.len() - 1
    } else {
        last_dot_index(name.drop_last())
    }
}

/// The extension of a file name: what follows the last dot, provided that
/// dot is neither absent nor the leading character.
pub open spec fn extension_of(name: Seq<char>) -> Option<Seq<char>> {
    let d = last_dot_index(name);
    if d <= 0 {
        None
    } else {
        Some(name.skip(d + 1))
    }
}

/// A file is binary when its relative path is declared so, or when its
/// extension matches a declared binary extension, written with or without
/// the leading dot.
pub open spec fn spec_is_binary(
    segs: Seq<Seq<char>>,
    binary_files: Seq<String>,
    binary_extensions: Seq<String>,
) -> bool {
    (exists|i: int| 0 <= i < binary_files.len() && binary_files[i]@ == joined(segs)) || (segs.len()
        > 0 && match extension_of(segs.last()) {
        Some(ext) => exists|i: int|
            0 <= i < binary_extensions.len() && (binary_extensions[i]@ == seq!['.'] + ext
                || binary_extensions[i]@ == ext),
        None => false,
    })
}

/// The variables a condition is decided against: each definition's name
/// bound to the resolved value of its raw-value placeholder, when present.
pub open spec fn spec_condition_variables(
    defs: Seq<VariableDefinition>,
    subs: Seq<(Seq<char>, Seq<char>)>,
) -> Seq<(Seq<char>, Seq<char>)>
    decreases defs.len(),
{
    if defs.len() == 0 {
        Seq::<(Seq<char>, Seq<char>)>::empty()
    } else {
        let prev = spec_condition_variables(defs.drop_last(), subs);
        match lookup(subs, defs.last().placeholder_value@) {
            Some(v) => set_key(prev, defs.last().name@, v),
            None => prev,
        }
    }
}

/// The output path of a surviving entry: every segment substituted
/// independently.
pub open spec fn dest_segments(
    segs: Seq<String>,
    base: Seq<(Seq<char>, Seq<char>)>,
    subs: Seq<(Seq<char>, Seq<char>)>,
    defs: Seq<VariableDefinition>,
    affix: Option<crate::config::PlaceholderFilenames>,
) -> Seq<Seq<char>> {
    segs.map_values(|s: String| substituted_segment(s@, base, subs, defs, affix))
}

/// The action planned for one template entry, or nothing when the entry is
/// excluded, fails a condition on any prefix of its path, or is the
/// manifest file.
pub open spec fn spec_plan_entry(
    entry: TemplateEntry,
    m: ScaffoldManifest,
    vars: Seq<(Seq<char>, Seq<char>)>,
    base: Seq<(Seq<char>, Seq<char>)>,
    subs: Seq<(Seq<char>, Seq<char>)>,
) -> Option<ActionView> {
    let segs = seg_views(entry.segments@);
    if entry.segments@.len() == 0 {
        None
    } else if entry_excluded(segs, m.exclude@) {
        None
    } else if !prefix_conditions_hold(segs, m.conditional_paths@, vars) {
        None
    } else if is_manifest_file(segs, entry.kind) {
        None
    } else {
        let dest = dest_segments(entry.segments@, base, subs, m.variables@, m.placeholder_filenames);
        match entry.kind {
            EntryKind::Directory => Some(ActionView::MakeDir { dest }),
            EntryKind::File => if spec_is_binary(segs, m.binary_files@, m.binary_extensions@) {
                Some(ActionView::CopyBinary { source: segs, dest })
            } else {
                Some(ActionView::RenderText { source: segs, dest })
            },
        }
    }
}

/// The plan for a whole list of entries, in order, dropping the entries
/// that are not rendered.
pub open spec fn spec_plan_list(
    entries: Seq<TemplateEntry>,
    m: ScaffoldManifest,
    vars: Seq<(Seq<char>, Seq<char>)>,
    base: Seq<(Seq<char>, Seq<char>)>,
    subs: Seq<(Seq<char>, Seq<char>)>,
) -> Seq<ActionView>
    decreases entries.len(),
{
    if entries.len() == 0 {
        Seq::<ActionView>::empty()
    } else {
        spec_plan_list(entries.drop_last(), m, vars, base, subs) + match spec_plan_entry(
            entries.last(),
            m,
            vars,
            base,
            subs,
        ) {
            Some(a) => seq![a],
            None => Seq::<ActionView>::empty(),
        }
    }
}

/// An entry with an excluded segment name is never planned, whatever the
/// conditions on it or on its ancestors say; so an excluded directory
/// yields no output for itself nor for any descendant.
pub proof fn lemma_excluded_entry_not_planned(
    entry: TemplateEntry,
    m: ScaffoldManifest,
    vars: Seq<(Seq<char>, Seq<char>)>,
    base: Seq<(Seq<char>, Seq<char>)>,
    subs: Seq<(Seq<char>, Seq<char>)>,
)
    requires
        entry_excluded(seg_views(entry.segments@), m.exclude@),
    ensures
        spec_plan_entry(entry, m, vars, base, subs) is None,
{
}

/// A path that carries a condition naming an absent variable is excluded,
/// for any expected value: fail closed.
pub proof fn lemma_absent_condition_variable_excludes(
    entry: TemplateEntry,
    m: ScaffoldManifest,
    vars: Seq<(Seq<char>, Seq<char>)>,
    base: Seq<(Seq<char>, Seq<char>)>,
    subs: Seq<(Seq<char>, Seq<char>)>,
    l: int,
    c: Condition,
)
    requires
        1 <= l <= entry.segments@.len(),
        lookup_cond(m.conditional_paths@, joined(seg_views(entry.segments@).take(l))) == Some(c),
        !crate::varmap::has_key(vars, c.variable@),
    ensures
        spec_plan_entry(entry, m, vars, base, subs) is None,
{
    crate::conditions::lemma_absent_variable_fails_condition(c, vars);
    assert(!prefix_conditions_hold(seg_views(entry.segments@), m.conditional_paths@, vars));
}

/// The first `l` path segments joined with `/`.
fn join_prefix(segments: &Vec<String>, l: usize) -> (r: String)
    requires
        l <= segments@.len(),
    ensures
        r@ == joined(seg_views(segments@).take(l as int)),
{
    let mut out = String::new();
    proof {
        assert(seg_views(segments@).take(0) =~= Seq::<Seq<char>>::empty());
    }
    let mut i: usize = 0;
    while i < l
        invariant
            l <= segments@.len(),
            i <= l,
            out@ == joined(seg_views(segments@).take(i as int)),
        decreases l - i,
    {
        proof {
            assert(seg_views(segments@).take(i + 1 as int).drop_last() =~= seg_views(
                segments@,
            ).take(i as int));
            assert(seg_views(segments@).take(i + 1 as int).last() == segments@[i as int]@);
        }
        if i > 0 {
            out.append("/");
            proof {
                reveal_strlit("/");
                assert("/"@ =~= seq!['/']);
            }
        }
        out.append(segments[i].as_str());
        i = i + 1;
    }
    out
}

/// Whether any segment name stands in the exclude list.
pub fn excluded(segments: &Vec<String>, exclude: &Vec<String>) -> (r: bool)
    ensures
        r == entry_excluded(seg_views(segments@), exclude@),
{
    let n = segments.len();
    let mut i: usize = 0;
    while i < n
        invariant
            n == segments@.len(),
            i <= n,
            forall|a: int, b: int|
                0 <= a < i && 0 <= b < exclude@.len() ==> seg_views(segments@)[a] != exclude@[b]@,
        decreases n - i,
    {
        let m = exclude.len();
        let mut j: usize = 0;
        while j < m
            invariant
                n == segments@.len(),
                m == exclude@.len(),
                i < n,
                j <= m,
                forall|a: int, b: int|
                    0 <= a < i && 0 <= b < m ==> seg_views(segments@)[a] != exclude@[b]@,
                forall|b: int| 0 <= b < j ==> seg_views(segments@)[i as int] != exclude@[b]@,
            decreases m - j,
        {
            if segments[i] == exclude[j] {
                proof {
                    assert(seg_views(segments@)[i as int] == exclude@[j as int]@);
                }
                return true;
            }
            j = j + 1;
        }
        i = i + 1;
    }
    false
}

/// Find the condition declared for a relative path.
fn lookup_cond_exec<'a>(cond_paths: &'a Vec<(String, Condition)>, key: &String) -> (r: Option<
    &'a Condition,
>)
    ensures
        match r {
            Some(c) => lookup_cond(cond_paths@, key@) == Some(*c),
            None => lookup_cond(cond_paths@, key@) is None,
        },
{
    let n = cond_paths.len();
    proof {
        assert(cond_paths@.skip(0) =~= cond_paths@);
    }
    let mut i: usize = 0;
    while i < n
        invariant
            n == cond_paths@.len(),
            i <= n,
            lookup_cond(cond_paths@, key@) == lookup_cond(cond_paths@.skip(i as int), key@),
        decreases n - i,
    {
        proof {
            assert(cond_paths@.skip(i as int).drop_first() =~= cond_paths@.skip(i + 1));
            assert(cond_paths@.skip(i as int)[0] == cond_paths@[i as int]);
        }
        if cond_paths[i].0 == *key {
            return Some(&cond_paths[i].1);
        }
        i = i + 1;
    }
    proof {
        assert(cond_paths@.skip(n as int) =~= Seq::<(String, Condition)>::empty());
    }
    None
}

/// The extension of a file name, as its characters.
fn extension_exec(name: &Vec<char>) -> (r: Option<Vec<char>>)
    ensures
        match r {
            Some(e) => extension_of(name@) == Some(e@),
            None => extension_of(name@) is None,
        },
{
    let n = name.len();
    proof {
        assert(name@.take(n as int) =~= name@);
    }
    let mut d: usize = n;
    while d > 0
        invariant
            n == name@.len(),
            d <= n,
            last_dot_index(name@) == last_dot_index(name@.take(d as int)),
        decreases d,
    {
        proof {
            assert(name@.take(d as int).drop_last() =~= name@.take(d - 1));
            assert(name@.take(d as int).last() == name@[d - 1]);
        }
        if name[d - 1] == '.' {
            proof {
                assert(last_dot_index(name@) == d - 1);
            }
            if d == 1 {
                return None;
            }
            let mut e: Vec<char> = Vec::new();
            let mut k: usize = d;
            proof {
                assert(name@.subrange(d as int, d as int) =~= Seq::<char>::empty());
            }
            while k < n
                invariant
                    n == name@.len(),
                    d <= k <= n,
                    e@ == name@.subrange(d as int, k as int),
                decreases n - k,
            {
                e.push(name[k]);
                proof {
                    assert(e@ =~= name@.subrange(d as int, k + 1 as int));
                }
                k = k + 1;
            }
            proof {
                assert(name@.subrange(d as int, n as int) =~= name@.skip(d as int));
            }
            return Some(e);
        }
        d = d - 1;
    }
    proof {
        assert(name@.take(0) =~= Seq::<char>::empty());
    }
    None
}

/// Whether a relative path names a binary file.
pub fn is_binary(segments: &Vec<String>, manifest: &ScaffoldManifest) -> (r: bool)
    ensures
        r == spec_is_binary(
            seg_views(segments@),
            manifest.binary_files@,
            manifest.binary_extensions@,
        ),
{
    let full = join_prefix(segments, segments.len());
    proof {
        assert(seg_views(segments@).take(segments@.len() as int) =~= seg_views(segments@));
    }
    let nf = manifest.binary_files.len();
    let mut i: usize = 0;
    while i < nf
        invariant
            nf == manifest.binary_files@.len(),
            i <= nf,
            full@ == joined(seg_views(segments@)),
            forall|b: int|
                0 <= b < i ==> manifest.binary_files@[b]@ != joined(seg_views(segments@)),
        decreases nf - i,
    {
        if manifest.binary_files[i] == full {
            proof {
                assert(manifest.binary_files@[i as int]@ == joined(seg_views(segments@)));
            }
            return true;
        }
        i = i + 1;
    }
    if segments.len() == 0 {
        return false;
    }
    let name = crate::text::str_chars(segments[segments.len() - 1].as_str());
    proof {
        assert(seg_views(segments@).last() == segments@.last()@);
    }
    let ext = match extension_exec(&name) {
        Some(e) => e,
        None => {
            return false;
        },
    };
    let ghost extv = ext@;
    let mut with_dot: Vec<char> = Vec::new();
    with_dot.push('.');
    let elen = ext.len();
    let mut k: usize = 0;
    while k < elen
        invariant
            elen == extv.len(),
            extv == ext@,
            k <= elen,
            with_dot@ == seq!['.'] + extv.subrange(0, k as int),
        decreases elen - k,
    {
        with_dot.push(ext[k]);
        proof {
            assert(with_dot@ =~= seq!['.'] + extv.subrange(0, k + 1 as int));
        }
        k = k + 1;
    }
    proof {
        assert(extv.subrange(0, elen as int) =~= extv);
    }
    let ne = manifest.binary_extensions.len();
    let mut i: usize = 0;
    while i < ne
        invariant
            ne == manifest.binary_extensions@.len(),
            i <= ne,
            segments@.len() > 0,
            extv == ext@,
            with_dot@ == seq!['.'] + extv,
            extension_of(seg_views(segments@).last()) == Some(extv),
            forall|b: int|
                0 <= b < i ==> manifest.binary_extensions@[b]@ != seq!['.'] + extv
                    && manifest.binary_extensions@[b]@ != extv,
        decreases ne - i,
    {
        let bin = crate::text::str_chars(manifest.binary_extensions[i].as_str());
        if crate::text::chars_eq(&bin, &with_dot) || crate::text::chars_eq(&bin, &ext) {
            proof {
                assert(manifest.binary_extensions@[i as int]@ == seq!['.'] + extv
                    || manifest.binary_extensions@[i as int]@ == extv);
            }
            return true;
        }
        i = i + 1;
    }
    false
}

/// Build the condition variables from the definitions and the resolved
/// substitution map.
pub fn condition_variables(
    variable_definitions: &Vec<VariableDefinition>,
    substitutions: &VarMap,
) -> (r: VarMap)
    ensures
        r@ == spec_condition_variables(variable_definitions@, substitutions@),
{
    let mut vars = VarMap::new();
    let n = variable_definitions.len();
    proof {
        assert(variable_definitions@.subrange(0, 0) =~= Seq::<VariableDefinition>::empty());
    }
    let mut i: usize = 0;
    while i < n
        invariant
            n == variable_definitions@.len(),
            i <= n,
            vars@ == spec_condition_variables(
                variable_definitions@.subrange(0, i as int),
                substitutions@,
            ),
        decreases n - i,
    {
        proof {
            assert(variable_definitions@.subrange(0, i + 1 as int).drop_last()
                =~= variable_definitions@.subrange(0, i as int));
            assert(variable_definitions@.subrange(0, i + 1 as int).last()
                == variable_definitions@[i as int]);
        }
        let d = &variable_definitions[i];
        match substitutions.get(&d.placeholder_value) {
            Some(v) => {
                let val = v.clone();
                vars.set(&d.name, val);
            },
            None => {},
        }
        i = i + 1;
    }
    proof {
        assert(variable_definitions@.subrange(0, n as int) =~= variable_definitions@);
    }
    vars
}

/// A path is included when none of its segment names is excluded and
/// every condition declared on it or on an ancestor holds.
pub open spec fn spec_path_included(
    segs: Seq<Seq<char>>,
    m: ScaffoldManifest,
    vars: Seq<(Seq<char>, Seq<char>)>,
) -> bool {
    !entry_excluded(segs, m.exclude@) && prefix_conditions_hold(segs, m.conditional_paths@, vars)
}

/// Decide whether a relative template path is included, given the
/// descriptor and the resolved condition variables.
pub fn included(segments: &Vec<String>, manifest: &ScaffoldManifest, condition_vars: &VarMap) -> (r:
    bool)
    ensures
        r == spec_path_included(seg_views(segments@), *manifest, condition_vars@),
{
    if excluded(segments, &manifest.exclude) {
        return false;
    }
    let n = segments.len();
    let mut t: usize = 0;
    while t < n
        invariant
            n == segments@.len(),
            t <= n,
            !entry_excluded(seg_views(segments@), manifest.exclude@),
            forall|u: int|
                1 <= u <= t ==> match #[trigger] lookup_cond(
                    manifest.conditional_paths@,
                    joined(seg_views(segments@).take(u)),
                ) {
                    Some(c) => condition_holds(c, condition_vars@),
                    None => true,
                },
        decreases n - t,
    {
        let prefix = join_prefix(segments, t + 1);
        match lookup_cond_exec(&manifest.conditional_paths, &prefix) {
            Some(c) => {
                if !evaluate_condition(c, condition_vars) {
                    proof {
                        assert(!prefix_conditions_hold(
                            seg_views(segments@),
                            manifest.conditional_paths@,
                            condition_vars@,
                        ));
                    }
                    return false;
                }
            },
            None => {},
        }
        t = t + 1;
    }
    proof {
        assert(prefix_conditions_hold(
            seg_views(segments@),
            manifest.conditional_paths@,
            condition_vars@,
        ));
    }
    true
}

/// Plan one template entry.
pub fn plan_entry(
    entry: &TemplateEntry,
    manifest: &ScaffoldManifest,
    condition_vars: &VarMap,
    base_variables: &VarMap,
    substitutions: &VarMap,
) -> (r: Option<OutputAction>)
    ensures
        match r {
            Some(a) => spec_plan_entry(
                *entry,
                *manifest,
                condition_vars@,
                base_variables@,
                substitutions@,
            ) == Some(a@),
            None => spec_plan_entry(
                *entry,
                *manifest,
                condition_vars@,
                base_variables@,
                substitutions@,
            ) is None,
        },
{
    let n = entry.segments.len();
    if n == 0 {
        return None;
    }
    if !included(&entry.segments, manifest, condition_vars) {
        return None;
    }
    let is_file = match entry.kind {
        EntryKind::File => true,
        EntryKind::Directory => false,
    };
    if is_file && entry.segments[n - 1] == String::from_str("scaffold.yaml") {
        proof {
            assert(seg_views(entry.segments@).last() == entry.segments@.last()@);
            assert(is_manifest_file(seg_views(entry.segments@), entry.kind));
        }
        return None;
    }
    proof {
        assert(seg_views(entry.segments@).last() == entry.segments@.last()@);
        assert(!is_manifest_file(seg_views(entry.segments@), entry.kind));
    }
    let mut dest: Vec<String> = Vec::new();
    let mut i: usize = 0;
    while i < n
        invariant
            n == entry.segments@.len(),
            i <= n,
            dest@.len() == i,
            forall|u: int|
                0 <= u < i ==> dest@[u]@ == substituted_segment(
                    entry.segments@[u]@,
                    base_variables@,
                    substitutions@,
                    manifest.variables@,
                    manifest.placeholder_filenames,
                ),
        decreases n - i,
    {
        let s = substitute_path_segment(
            &entry.segments[i],
            base_variables,
            substitutions,
            &manifest.placeholder_filenames,
            &manifest.variables,
        );
        dest.push(s);
        i = i + 1;
    }
    proof {
        assert(seg_views(dest@) =~= dest_segments(
            entry.segments@,
            base_variables@,
            substitutions@,
            manifest.variables@,
            manifest.placeholder_filenames,
        ));
    }
    match entry.kind {
        EntryKind::Directory => Some(OutputAction::MakeDir { dest }),
        EntryKind::File => {
            if is_binary(&entry.segments, manifest) {
                let mut source: Vec<String> = Vec::new();
                let mut i: usize = 0;
                while i < n
                    invariant
                        n == entry.segments@.len(),
                        i <= n,
                        source@.len() == i,
                        forall|t: int| 0 <= t < i ==> source@[t]@ == entry.segments@[t]@,
                    decreases n - i,
                {
                    source.push(entry.segments[i].clone());
                    i = i + 1;
                }
                proof {
                    assert(seg_views(source@) =~= seg_views(entry.segments@));
                }
                Some(OutputAction::CopyBinary { source, dest })
            } else {
                let mut source: Vec<String> = Vec::new();
                let mut i: usize = 0;
                while i < n
                    invariant
                        n == entry.segments@.len(),
                        i <= n,
                        source@.len() == i,
                        forall|t: int| 0 <= t < i ==> source@[t]@ == entry.segments@[t]@,
                    decreases n - i,
                {
                    source.push(entry.segments[i].clone());
                    i = i + 1;
                }
                proof {
                    assert(seg_views(source@) =~= seg_views(entry.segments@));
                }
                Some(OutputAction::RenderText { source, dest })
            }
        },
    }
}

/// Plan a whole template tree, in walk order.
pub fn plan_render(
    entries: &Vec<TemplateEntry>,
    manifest: &ScaffoldManifest,
    condition_vars: &VarMap,
    base_variables: &VarMap,
    substitutions: &VarMap,
) -> (r: Vec<OutputAction>)
    ensures
        r@.map_values(|a: OutputAction| a@) == spec_plan_list(
            entries@,
            *manifest,
            condition_vars@,
            base_variables@,
            substitutions@,
        ),
{
    let mut out: Vec<OutputAction> = Vec::new();
    let n = entries.len();
    proof {
        assert(out@.map_values(|a: OutputAction| a@) =~= spec_plan_list(
            entries@.subrange(0, 0),
            *manifest,
            condition_vars@,
            base_variables@,
            substitutions@,
        ));
    }
    let mut i: usize = 0;
    while i < n
        invariant
            n == entries@.len(),
            i <= n,
            out@.map_values(|a: OutputAction| a@) == spec_plan_list(
                entries@.subrange(0, i as int),
                *manifest,
                condition_vars@,
                base_variables@,
                substitutions@,
            ),
        decreases n - i,
    {
        proof {
            assert(entries@.subrange(0, i + 1 as int).drop_last() =~= entries@.subrange(
                0,
                i as int,
            ));
            assert(entries@.subrange(0, i + 1 as int).last() == entries@[i as int]);
        }
        match plan_entry(&entries[i], manifest, condition_vars, base_variables, substitutions) {
            Some(a) => {
                out.push(a);
                proof {
                    assert(out@.map_values(|a: OutputAction| a@) =~= spec_plan_list(
                        entries@.subrange(0, i + 1 as int),
                        *manifest,
                        condition_vars@,
                        base_variables@,
                        substitutions@,
                    ));
                }
            },
            None => {
                proof {
                    assert(out@.map_values(|a: OutputAction| a@) =~= spec_plan_list(
                        entries@.subrange(0, i + 1 as int),
                        *manifest,
                        condition_vars@,
                        base_variables@,
                        substitutions@,
                    ));
                }
            },
        }
        i = i + 1;
    }
    proof {
        assert(entries@.subrange(0, n as int) =~= entries@);
    }
    out
}

} // verus!
