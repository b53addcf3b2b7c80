use vstd::prelude::*;
use vstd::multiset::Multiset;
use crate::outcome::UrlTestResult;
use crate::text::{lemma_seq_lt_irreflexive, lemma_seq_lt_transitive, seq_lt, str_lt};

verus! {

broadcast use vstd::seq_lib::group_to_multiset_ensures;

/// Order of optional state parameters: an absent one comes before any present one, present
/// ones compare lexicographically.
pub open spec fn opt_lt(a: Option<String>, b: Option<String>) -> bool {
    match (a, b) {
        (None, Some(_)) => true,
        (Some(x), Some(y)) => seq_lt(x@, y@),
        _ => false,
    }
}

/// Report order: by environment name, then by state parameter.
pub open spec fn result_lt(a: UrlTestResult, b: UrlTestResult) -> bool {
    seq_lt(a.environment_name@, b.environment_name@) || (a.environment_name@
        == b.environment_name@ && opt_lt(a.state_param, b.state_param))
}

/// No result of `s` comes after a later one in report order.
pub open spec fn sorted(s: Seq<UrlTestResult>) -> bool {
    forall|i: int, j: int| 0 <= i < j < s.len() ==> !result_lt(#[trigger] s[j], #[trigger] s[i])
}

/// Report order is transitive.
pub proof fn lemma_result_lt_transitive(a: UrlTestResult, b: UrlTestResult, c: UrlTestResult)
    requires
        result_lt(a, b),
        result_lt(b, c),
    ensures
        result_lt(a, c),
{
    let (x, y, z) = (a.environment_name@, b.environment_name@, c.environment_name@);
    if seq_lt(x, y) && seq_lt(y, z) {
        lemma_seq_lt_transitive(x, y, z);
    }
    if x == y && y == z {
        lemma_seq_lt_irreflexive(x);
        if a.state_param is Some && b.state_param is Some && c.state_param is Some {
            lemma_seq_lt_transitive(a.state_param->0@, b.state_param->0@, c.state_param->0@);
        }
    }
}

/// Report order is irreflexive.
pub proof fn lemma_result_lt_irreflexive(a: UrlTestResult)
    ensures
        !result_lt(a, a),
{
    lemma_seq_lt_irreflexive(a.environment_name@);
    if a.state_param is Some {
        lemma_seq_lt_irreflexive(a.state_param->0@);
    }
}

/// Whether `a` comes before `b` in report order.
pub fn result_before(a: &UrlTestResult, b: &UrlTestResult) -> (r: bool)
    ensures
        r == result_lt(*a, *b),
{
    if str_lt(a.environment_name.as_str(), b.environment_name.as_str()) {
        return true;
    }
    if a.environment_name != b.environment_name {
        return false;
    }
    match (&a.state_param, &b.state_param) {
        (None, Some(_)) => true,
        (Some(x), Some(y)) => str_lt(x.as_str(), y.as_str()),
        _ => false,
    }
}

/// The index of a result of `v` that no other result of `v` comes before.
fn min_index(v: &Vec<UrlTestResult>) -> (r: usize)
    requires
        v@.len() > 0,
    ensures
        r < v@.len(),
        forall|j: int| 0 <= j < v@.len() ==> !result_lt(#[trigger] v@[j], v@[r as int]),
{
    let mut best: usize = 0;
    let mut k: usize = 1;
    proof {
        lemma_result_lt_irreflexive(v@[0]);
    }
    while k < v.len()
        invariant
            1 <= k <= v@.len(),
            best < k,
            forall|j: int| 0 <= j < k ==> !result_lt(#[trigger] v@[j], v@[best as int]),
        decreases v@.len() - k,
    {
        if result_before(&v[k], &v[best]) {
            proof {
                lemma_result_lt_irreflexive(v@[k as int]);
                assert forall|j: int| 0 <= j < k + 1 implies !result_lt(
                    #[trigger] v@[j],
                    v@[k as int],
                ) by {
                    if j < k && result_lt(v@[j], v@[k as int]) {
                        lemma_result_lt_transitive(v@[j], v@[k as int], v@[best as int]);
                    }
                }
            }
            best = k;
        }
        k = k + 1;
    }
    best
}

/// The same results in report order.
pub fn sort_results(v: Vec<UrlTestResult>) -> (r: Vec<UrlTestResult>)
    ensures
        r@.to_multiset() == v@.to_multiset(),
        sorted(r@),
{
    let mut rest = v;
    let mut out: Vec<UrlTestResult> = Vec::new();
    while rest.len() > 0
        invariant
            out@.to_multiset().add(rest@.to_multiset()) == v@.to_multiset(),
            sorted(out@),
            forall|k: int, j: int|
                0 <= k < out@.len() && 0 <= j < rest@.len() ==> !result_lt(
                    #[trigger] rest@[j],
                    #[trigger] out@[k],
                ),
        decreases rest@.len(),
    {
        let m = min_index(&rest);
        let ghost before = rest@;
        let ghost out_before = out@;
        let x = rest.remove(m);
        out.push(x);
        proof {
            assert(out_before.push(x).to_multiset() =~= out_before.to_multiset().insert(x));
            assert(before.to_multiset() =~= rest@.to_multiset().insert(x));
            assert(out@.to_multiset().add(rest@.to_multiset()) =~= v@.to_multiset());
            assert forall|k: int, j: int|
                0 <= k < out@.len() && 0 <= j < rest@.len() implies !result_lt(
                #[trigger] rest@[j],
                #[trigger] out@[k],
            ) by {
                let jj = if j < m { j } else { j + 1 };
                assert(rest@[j] == before[jj]);
                if k < out_before.len() {
                    assert(out@[k] == out_before[k]);
                }
            }
            assert forall|i: int, j: int| 0 <= i < j < out@.len() implies !result_lt(
                #[trigger] out@[j],
                #[trigger] out@[i],
            ) by {
                if j == out_before.len() {
                    assert(before[m as int] == x);
                }
            }
        }
    }
    proof {
        assert(rest@.to_multiset() =~= Multiset::empty());
        assert(out@.to_multiset().add(Multiset::empty()) =~= out@.to_multiset());
    }
    out
}

} // verus!

verus! {

/// The results of `s` that passed, in their order.
pub open spec fn passing_of(s: Seq<UrlTestResult>) -> Seq<UrlTestResult>
    decreases s.len(),
{
    if s.len() == 0 {
        s
    } else if s.last().passed {
        passing_of(s.drop_last()).push(s.last())
    } else {
        passing_of(s.drop_last())
    }
}

/// The results of `s` that failed, in their order.
pub open spec fn failing_of(s: Seq<UrlTestResult>) -> Seq<UrlTestResult>
    decreases s.len(),
{
    if s.len() == 0 {
        s
    } else if !s.last().passed {
        failing_of(s.drop_last()).push(s.last())
    } else {
        failing_of(s.drop_last())
    }
}

/// Splits the results into those that passed and those that failed, each in the given order.
pub fn partition_results(results: Vec<UrlTestResult>) -> (r: (Vec<UrlTestResult>, Vec<UrlTestResult>))
    ensures
        r.0@ == passing_of(results@),
        r.1@ == failing_of(results@),
{
    let ghost all = results@;
    let mut rest = results;
    let mut passing: Vec<UrlTestResult> = Vec::new();
    let mut failing: Vec<UrlTestResult> = Vec::new();
    while rest.len() > 0
        invariant
            rest@.len() <= all.len(),
            rest@ == all.skip(all.len() - rest@.len()),
            passing@ == passing_of(all.take(all.len() - rest@.len())),
            failing@ == failing_of(all.take(all.len() - rest@.len())),
        decreases rest@.len(),
    {
        let ghost i = all.len() - rest@.len();
        let x = rest.remove(0);
        proof {
            assert(all.take(i + 1).drop_last() =~= all.take(i));
            assert(all.take(i + 1).last() == all[i]);
            assert(rest@ =~= all.skip(i + 1));
        }
        if x.passed {
            passing.push(x);
        } else {
            failing.push(x);
        }
    }
    proof {
        assert(all.take(all.len() as int) =~= all);
    }
    (passing, failing)
}

/// The results that passed and those that failed, each sorted into report order.
pub fn report_order(results: Vec<UrlTestResult>) -> (r: (Vec<UrlTestResult>, Vec<UrlTestResult>))
    ensures
        r.0@.to_multiset() == passing_of(results@).to_multiset(),
        r.1@.to_multiset() == failing_of(results@).to_multiset(),
        sorted(r.0@),
        sorted(r.1@),
{
    let (passing, failing) = partition_results(results);
    (sort_results(passing), sort_results(failing))
}

} // verus!
