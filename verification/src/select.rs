//! Template selection: which template a request for a language and/or a
//! template name picks, and when the request fails as not found or as
//! ambiguous.  Interactive choice among several candidates is the
//! caller's part; it is asked for only when this decision says so.
use vstd::prelude::*;

verus! {

/// Name and language of one available template, as its manifest declares
/// them.
pub struct TemplateInfo {
    pub name: String,
    pub language: String,
}

/// What a selection request decides: a single template, a failure, or the
/// need to ask the user to pick among several candidates.
#[derive(Clone, Copy, PartialEq, Eq, Structural, Debug)]
pub enum SelectionOutcome {
    Chosen(usize),
    NotFound,
    Ambiguous,
    NeedsPrompt,
}

/// Whether one template matches the requested language and name; an
/// absent request part matches everything.
pub open spec fn sel_matches(
    t: TemplateInfo,
    language: Option<String>,
    template: Option<String>,
) -> bool {
    (match language {
        Some(l) => t.language@ == l@,
        None => true,
    }) && (match template {
        Some(n) => t.name@ == n@,
        None => true,
    })
}

/// How many templates match the request.
pub open spec fn sel_count(
    ts: Seq<TemplateInfo>,
    language: Option<String>,
    template: Option<String>,
) -> int
    decreases ts.len(),
{
    if ts.len() == 0 {
        0
    } else {
        sel_count(ts.drop_last(), language, template) + if sel_matches(
            ts.last(),
            language,
            template,
        ) {
            1int
        } else {
            0int
        }
    }
}

/// The first matching template, if any.
pub open spec fn sel_first(
    ts: Seq<TemplateInfo>,
    language: Option<String>,
    template: Option<String>,
) -> Option<int>
    decreases ts.len(),
{
    if ts.len() == 0 {
        None
    } else if sel_matches(ts[0], language, template) {
        Some(0int)
    } else {
        match sel_first(ts.drop_first(), language, template) {
            Some(i) => Some(i + 1),
            None => None,
        }
    }
}

/// What a request decides, before any prompting:
/// - both language and name given: the first exact match, or not found;
/// - only the language: not found without a candidate, the single
///   candidate, or a prompt among several;
/// - only the name: the single match, not found, or ambiguous across
///   languages;
/// - neither: a prompt, or not found when nothing is available.
pub open spec fn spec_selection(
    ts: Seq<TemplateInfo>,
    language: Option<String>,
    template: Option<String>,
) -> SelectionOutcome {
    if ts.len() == 0 {
        SelectionOutcome::NotFound
    } else {
        match (language, template) {
            (Some(_), Some(_)) => match sel_first(ts, language, template) {
                Some(i) => SelectionOutcome::Chosen(i as usize),
                None => SelectionOutcome::NotFound,
            },
            (Some(_), None) => {
                let n = sel_count(ts, language, template);
                if n == 0 {
                    SelectionOutcome::NotFound
                } else if n == 1 {
                    SelectionOutcome::Chosen(sel_first(ts, language, template)->0 as usize)
                } else {
                    SelectionOutcome::NeedsPrompt
                }
            },
            (None, Some(_)) => {
                let n = sel_count(ts, language, template);
                if n == 0 {
                    SelectionOutcome::NotFound
                } else if n == 1 {
                    SelectionOutcome::Chosen(sel_first(ts, language, template)->0 as usize)
                } else {
                    SelectionOutcome::Ambiguous
                }
            },
            (None, None) => SelectionOutcome::NeedsPrompt,
        }
    }
}

/// The first match exists whenever some template matches.
proof fn lemma_first_some_iff_count_pos(
    ts: Seq<TemplateInfo>,
    language: Option<String>,
    template: Option<String>,
)
    ensures
        sel_first(ts, language, template) is Some <==> sel_count(ts, language, template) > 0,
        sel_count(ts, language, template) >= 0,
        match sel_first(ts, language, template) {
            Some(i) => 0 <= i < ts.len() && sel_matches(ts[i], language, template),
            None => true,
        },
    decreases ts.len(),
{
    if ts.len() > 0 {
        lemma_first_some_iff_count_pos(ts.drop_first(), language, template);
        lemma_count_drop_first(ts, language, template);
    }
}

/// Counting from the front or from the back agrees.
proof fn lemma_count_drop_first(
    ts: Seq<TemplateInfo>,
    language: Option<String>,
    template: Option<String>,
)
    requires
        ts.len() > 0,
    ensures
        sel_count(ts, language, template) == sel_count(ts.drop_first(), language, template)
            + if sel_matches(ts[0], language, template) {
            1int
        } else {
            0int
        },
    decreases ts.len(),
{
    if ts.len() == 1 {
        assert(ts.drop_last() =~= Seq::<TemplateInfo>::empty());
        assert(ts.drop_first() =~= Seq::<TemplateInfo>::empty());
    } else {
        lemma_count_drop_first(ts.drop_last(), language, template);
        assert(ts.drop_last().drop_first() =~= ts.drop_first().drop_last());
        assert(ts.drop_last()[0] == ts[0]);
        assert(ts.drop_first().last() == ts.last());
    }
}

/// Count the matches of a request.
fn count_matches(
    templates: &Vec<TemplateInfo>,
    language: &Option<String>,
    template: &Option<String>,
) -> (r: usize)
    ensures
        r == sel_count(templates@, *language, *template),
        r <= templates@.len(),
{
    let n = templates.len();
    proof {
        assert(templates@.subrange(0, 0) =~= Seq::<TemplateInfo>::empty());
    }
    let mut count: usize = 0;
    let mut i: usize = 0;
    while i < n
        invariant
            n == templates@.len(),
            i <= n,
            count <= i,
            count == sel_count(templates@.subrange(0, i as int), *language, *template),
        decreases n - i,
    {
        proof {
            assert(templates@.subrange(0, i + 1 as int).drop_last() =~= templates@.subrange(
                0,
                i as int,
            ));
            assert(templates@.subrange(0, i + 1 as int).last() == templates@[i as int]);
        }
        if matches_exec(&templates[i], language, template) {
            count = count + 1;
        }
        i = i + 1;
    }
    proof {
        assert(templates@.subrange(0, n as int) =~= templates@);
    }
    count
}

fn matches_exec(t: &TemplateInfo, language: &Option<String>, template: &Option<String>) -> (r:
    bool)
    ensures
        r == sel_matches(*t, *language, *template),
{
    let lang_ok = match language {
        Some(l) => t.language == *l,
        None => true,
    };
    let name_ok = match template {
        Some(n) => t.name == *n,
        None => true,
    };
    lang_ok && name_ok
}

/// Index of the first match of a request.
fn first_match(
    templates: &Vec<TemplateInfo>,
    language: &Option<String>,
    template: &Option<String>,
) -> (r: Option<usize>)
    ensures
        match r {
            Some(i) => sel_first(templates@, *language, *template) == Some(i as int),
            None => sel_first(templates@, *language, *template) is None,
        },
{
    let n = templates.len();
    let mut i: usize = 0;
    while i < n
        invariant
            n == templates@.len(),
            i <= n,
            forall|m: int| 0 <= m < i ==> !sel_matches(templates@[m], *language, *template),
        decreases n - i,
    {
        if matches_exec(&templates[i], language, template) {
            proof {
                lemma_first_prefix(templates@, *language, *template, i as int);
            }
            return Some(i);
        }
        i = i + 1;
    }
    proof {
        lemma_first_none(templates@, *language, *template);
    }
    None
}

/// When nothing before index `i` matches and `ts[i]` does, the first
/// match is `i`.
proof fn lemma_first_prefix(
    ts: Seq<TemplateInfo>,
    language: Option<String>,
    template: Option<String>,
    i: int,
)
    requires
        0 <= i < ts.len(),
        sel_matches(ts[i], language, template),
        forall|m: int| 0 <= m < i ==> !sel_matches(ts[m], language, template),
    ensures
        sel_first(ts, language, template) == Some(i),
    decreases i,
{
    if i == 0 {
    } else {
        lemma_first_prefix(ts.drop_first(), language, template, i - 1);
    }
}

/// When nothing matches, there is no first match.
proof fn lemma_first_none(
    ts: Seq<TemplateInfo>,
    language: Option<String>,
    template: Option<String>,
)
    requires
        forall|m: int| 0 <= m < ts.len() ==> !sel_matches(ts[m], language, template),
    ensures
        sel_first(ts, language, template) is None,
    decreases ts.len(),
{
    if ts.len() > 0 {
        lemma_first_none(ts.drop_first(), language, template);
    }
}

/// Decide a selection request over the available templates.
pub fn find_template(
    templates: &Vec<TemplateInfo>,
    language: &Option<String>,
    template: &Option<String>,
) -> (r: SelectionOutcome)
    ensures
        r == spec_selection(templates@, *language, *template),
        r matches SelectionOutcome::Chosen(i) ==> i < templates@.len() && sel_matches(
            templates@[i as int],
            *language,
            *template,
        ),
{
    proof {
        lemma_first_some_iff_count_pos(templates@, *language, *template);
    }
    if templates.len() == 0 {
        return SelectionOutcome::NotFound;
    }
    let lang_given = language.is_some();
    let name_given = template.is_some();
    if lang_given && name_given {
        match first_match(templates, language, template) {
            Some(i) => SelectionOutcome::Chosen(i),
            None => SelectionOutcome::NotFound,
        }
    } else if lang_given || name_given {
        let n = count_matches(templates, language, template);
        if n == 0 {
            SelectionOutcome::NotFound
        } else if n == 1 {
            match first_match(templates, language, template) {
                Some(i) => SelectionOutcome::Chosen(i),
                None => {
                    proof {
                        assert(false);
                    }
                    SelectionOutcome::NotFound
                },
            }
        } else if lang_given {
            SelectionOutcome::NeedsPrompt
        } else {
            SelectionOutcome::Ambiguous
        }
    } else {
        SelectionOutcome::NeedsPrompt
    }
}

} // verus!
