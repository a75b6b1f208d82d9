//! Conditional inclusion of template paths: case-insensitive comparison of a
//! resolved variable's value against a condition's expected value.  A
//! condition whose variable is absent fails closed.
use crate::config::Condition;
use crate::text::{ascii_lower, lower_char, lower_seq, str_chars};
use crate::varmap::{has_key, lookup, VarMap};
use vstd::prelude::*;

verus! {

/// Equality of two character sequences, ignoring ASCII case.
pub open spec fn ascii_ieq(a: Seq<char>, b: Seq<char>) -> bool {
    lower_seq(a) == lower_seq(b)
}

/// Whether a condition holds of the given variables: the named variable must
/// be present and its value must equal the expected value, ignoring ASCII
/// case.  An absent variable never satisfies a condition.
pub open spec fn condition_holds(c: Condition, vars: Seq<(Seq<char>, Seq<char>)>) -> bool {
    match lookup(vars, c.variable@) {
        Some(v) => ascii_ieq(v, c.value@),
        None => false,
    }
}

/// A condition on a variable that is absent from the resolved variables
/// fails, whatever value the condition expects.
pub proof fn lemma_absent_variable_fails_condition(
    c: Condition,
    vars: Seq<(Seq<char>, Seq<char>)>,
)
    requires
        !has_key(vars, c.variable@),
    ensures
        !condition_holds(c, vars),
{
}

/// Compare two strings for equality ignoring ASCII case.
pub fn eq_ignore_case(a: &String, b: &String) -> (r: bool)
    ensures
        r == ascii_ieq(a@, b@),
{
    let ca = str_chars(a.as_str());
    let cb = str_chars(b.as_str());
    let n = ca.len();
    if n != cb.len() {
        proof {
            assert(lower_seq(a@).len() != lower_seq(b@).len());
        }
        return false;
    }
    let mut i: usize = 0;
    while i < n
        invariant
            n == ca@.len() == cb@.len(),
            ca@ == a@,
            cb@ == b@,
            i <= n,
            forall|k: int| 0 <= k < i ==> lower_char(a@[k]) == lower_char(b@[k]),
        decreases n - i,
    {
        if ascii_lower(ca[i]) != ascii_lower(cb[i]) {
            proof {
                assert(lower_seq(a@)[i as int] != lower_seq(b@)[i as int]);
            }
            return false;
        }
        i = i + 1;
    }
    proof {
        assert(lower_seq(a@) =~= lower_seq(b@));
    }
    true
}

/// Decide a condition against the resolved variables.
pub fn evaluate_condition(condition: &Condition, base_variables: &VarMap) -> (r: bool)
    ensures
        r == condition_holds(*condition, base_variables@),
{
    match base_variables.get(&condition.variable) {
        Some(actual_value) => eq_ignore_case(actual_value, &condition.value),
        None => false,
    }
}

} // verus!
