//! The order in which issues are taken up.
use vstd::prelude::*;

use crate::text::{comes_before, lemma_precedes_total, lemma_precedes_transitive, precedes};
use crate::types::{Issue, IssueView};

verus! {

/// The priority by which an issue is taken up; none comes last.
pub open spec fn rank(issue: IssueView) -> int {
    match issue.priority {
        Some(priority) => priority as int,
        None => i64::MAX as int,
    }
}

/// The age by which an issue is taken up, in milliseconds since 1970-01-01T00:00:00Z; none comes
/// last.
pub open spec fn birth(issue: IssueView) -> int {
    match issue.created_at {
        Some(at) => at.epoch_millis(),
        None => i64::MAX as int,
    }
}

/// The first issue is taken up before the second: it has the smaller priority or, with the same
/// priority, is older or, with the same age too, has the smaller identifier.
pub open spec fn goes_first(a: IssueView, b: IssueView) -> bool {
    ||| rank(a) < rank(b)
    ||| rank(a) == rank(b) && birth(a) < birth(b)
    ||| rank(a) == rank(b) && birth(a) == birth(b) && precedes(a.identifier, b.identifier)
}

/// Neither of two issues is taken up before the other.
pub open spec fn ties(a: IssueView, b: IssueView) -> bool {
    rank(a) == rank(b) && birth(a) == birth(b) && a.identifier == b.identifier
}

/// A list in order with one more issue: it comes after all that it is not taken up before.
pub open spec fn inserted(issues: Seq<IssueView>, issue: IssueView) -> Seq<IssueView>
    decreases issues.len(),
{
    if issues.len() == 0 || !goes_first(issue, issues.last()) {
        issues.push(issue)
    } else {
        inserted(issues.drop_last(), issue).push(issues.last())
    }
}

/// The issues in the order in which they are taken up; of two that tie, the one that stood first
/// comes first.
pub open spec fn dispatch_order(issues: Seq<IssueView>) -> Seq<IssueView>
    decreases issues.len(),
{
    if issues.len() == 0 {
        issues
    } else {
        inserted(dispatch_order(issues.drop_last()), issues.last())
    }
}

fn issue_goes_first(a: &Issue, b: &Issue) -> (r: bool)
    ensures
        r == goes_first(a@, b@),
{
    let rank_a = a.priority.unwrap_or(i64::MAX);
    let rank_b = b.priority.unwrap_or(i64::MAX);
    if rank_a != rank_b {
        return rank_a < rank_b;
    }
    let birth_a = match &a.created_at {
        Some(at) => at.timestamp_millis(),
        None => i64::MAX,
    };
    let birth_b = match &b.created_at {
        Some(at) => at.timestamp_millis(),
        None => i64::MAX,
    };
    if birth_a != birth_b {
        return birth_a < birth_b;
    }
    comes_before(a.identifier.as_str(), b.identifier.as_str())
}

fn insert_issue(issues: &mut Vec<Issue>, issue: Issue)
    ensures
        final(issues).deep_view() == inserted(old(issues).deep_view(), issue@),
{
    let ghost start = issues.deep_view();
    let mut position: usize = issues.len();
    proof {
        assert(start.take(position as int) =~= start);
        assert(start.skip(position as int) =~= Seq::empty());
        assert(inserted(start, issue@) + Seq::<IssueView>::empty() =~= inserted(start, issue@));
    }
    while position > 0 && issue_goes_first(&issue, &issues[position - 1])
        invariant
            position <= issues@.len(),
            start == issues.deep_view(),
            inserted(start, issue@) == inserted(start.take(position as int), issue@) + start.skip(
                position as int,
            ),
        decreases position,
    {
        proof {
            let head = start.take(position as int);
            assert(head.last() == issues@[position - 1]@);
            assert(head.drop_last() =~= start.take(position - 1));
            assert(inserted(start.take(position - 1), issue@).push(head.last()) + start.skip(
                position as int,
            ) =~= inserted(start.take(position - 1), issue@) + start.skip(position - 1));
        }
        position -= 1;
    }
    let ghost view = issue@;
    proof {
        let head = start.take(position as int);
        if position > 0 {
            assert(head.last() == issues@[position - 1]@);
        }
        assert(inserted(head, view) == head.push(view));
    }
    issues.insert(position, issue);
    proof {
        assert(issues.deep_view() =~= start.take(position as int).push(view) + start.skip(
            position as int,
        ));
    }
}

/// Put issues in the order in which they are taken up.
pub fn sort_issues_for_dispatch(issues: &mut Vec<Issue>)
    ensures
        final(issues).deep_view() == dispatch_order(old(issues).deep_view()),
{
    let ghost start = issues.deep_view();
    let mut waiting: Vec<Issue> = Vec::new();
    let mut sorted: Vec<Issue> = Vec::new();
    std::mem::swap(&mut waiting, issues);
    let n = waiting.len();
    proof {
        assert(waiting.deep_view() =~= start);
        assert(sorted.deep_view() =~= dispatch_order(start.take(0)));
    }
    let mut i: usize = 0;
    while i < n
        invariant
            i <= n,
            n == start.len(),
            waiting.deep_view() == start.skip(i as int),
            sorted.deep_view() == dispatch_order(start.take(i as int)),
        decreases n - i,
    {
        proof {
            assert(waiting.deep_view().len() == waiting@.len());
            assert(waiting@[0]@ == waiting.deep_view()[0]);
            assert(start.take(i + 1).drop_last() =~= start.take(i as int));
            assert(start.take(i + 1).last() == start[i as int]);
        }
        let ghost before = waiting.deep_view();
        let issue = waiting.remove(0);
        proof {
            assert(waiting.deep_view() =~= before.skip(1));
            assert(before.skip(1) =~= start.skip(i + 1));
        }
        insert_issue(&mut sorted, issue);
        i += 1;
    }
    proof {
        assert(start.take(n as int) =~= start);
    }
    *issues = sorted;
}

// ---------------------------------------------------------------------------
// Laws
// ---------------------------------------------------------------------------

/// Of two issues one is taken up before the other, or they tie.
pub proof fn lemma_order_is_total(a: IssueView, b: IssueView)
    ensures
        goes_first(a, b) || goes_first(b, a) || ties(a, b),
        !(goes_first(a, b) && goes_first(b, a)),
        ties(a, b) ==> !goes_first(a, b) && !goes_first(b, a),
{
    lemma_precedes_total(a.identifier, b.identifier);
    lemma_precedes_total(b.identifier, a.identifier);
}

/// The order is transitive, over ties too.
pub proof fn lemma_order_is_transitive(a: IssueView, b: IssueView, c: IssueView)
    requires
        !goes_first(b, a),
        !goes_first(c, b),
    ensures
        !goes_first(c, a),
{
    lemma_order_is_total(a, b);
    lemma_order_is_total(b, c);
    if rank(a) == rank(b) && birth(a) == birth(b) && rank(b) == rank(c) && birth(b) == birth(c) {
        lemma_precedes_total(a.identifier, c.identifier);
        lemma_precedes_total(c.identifier, a.identifier);
        if precedes(a.identifier, b.identifier) && precedes(b.identifier, c.identifier) {
            lemma_precedes_transitive(a.identifier, b.identifier, c.identifier);
        }
    }
}

/// No issue stands before one that is taken up before it.
pub open spec fn is_in_order(issues: Seq<IssueView>) -> bool {
    forall|i: int, j: int|
        0 <= i < j < issues.len() ==> !goes_first(#[trigger] issues[j], #[trigger] issues[i])
}

proof fn lemma_inserted(issues: Seq<IssueView>, issue: IssueView)
    ensures
        inserted(issues, issue).len() == issues.len() + 1,
        inserted(issues, issue).to_multiset() == issues.to_multiset().insert(issue),
        forall|other: IssueView|
            inserted(issues, issue).contains(other) ==> other == issue || #[trigger] issues.contains(
                other,
            ),
        is_in_order(issues) ==> is_in_order(inserted(issues, issue)),
    decreases issues.len(),
{
    broadcast use vstd::seq_lib::group_to_multiset_ensures;

    let after = inserted(issues, issue);
    if issues.len() == 0 || !goes_first(issue, issues.last()) {
        assert forall|other: IssueView| after.contains(other) implies other == issue
            || #[trigger] issues.contains(other) by {
            let k = choose|k: int| 0 <= k < after.len() && after[k] == other;
            if k < issues.len() {
                assert(issues[k] == other);
            }
        }
        if is_in_order(issues) {
            assert forall|i: int, j: int| 0 <= i < j < after.len() implies !goes_first(
                #[trigger] after[j],
                #[trigger] after[i],
            ) by {
                if j == issues.len() {
                    assert(after[i] == issues[i]);
                    let last = issues.len() - 1;
                    if i < last {
                        assert(!goes_first(issues[last], issues[i]));
                        lemma_order_is_transitive(issues[i], issues[last], issue);
                    }
                } else {
                    assert(after[i] == issues[i] && after[j] == issues[j]);
                }
            }
        }
    } else {
        let head = issues.drop_last();
        let inner = inserted(head, issue);
        lemma_inserted(head, issue);
        assert(issues =~= head.push(issues.last()));
        assert(issues.to_multiset() == head.to_multiset().insert(issues.last()));
        assert(after.to_multiset() =~= issues.to_multiset().insert(issue));
        assert forall|other: IssueView| after.contains(other) implies other == issue
            || #[trigger] issues.contains(other) by {
            let k = choose|k: int| 0 <= k < after.len() && after[k] == other;
            if k < inner.len() {
                assert(inner[k] == other);
                assert(inner.contains(other));
                if other != issue {
                    assert(head.contains(other));
                    let m = choose|m: int| 0 <= m < head.len() && head[m] == other;
                    assert(issues[m] == other);
                }
            } else {
                assert(issues[issues.len() - 1] == other);
            }
        }
        if is_in_order(issues) {
            assert(is_in_order(head)) by {
                assert forall|i: int, j: int| 0 <= i < j < head.len() implies !goes_first(
                    #[trigger] head[j],
                    #[trigger] head[i],
                ) by {
                    assert(head[i] == issues[i] && head[j] == issues[j]);
                }
            }
            assert forall|i: int, j: int| 0 <= i < j < after.len() implies !goes_first(
                #[trigger] after[j],
                #[trigger] after[i],
            ) by {
                if j == inner.len() {
                    assert(after[i] == inner[i]);
                    assert(inner.contains(inner[i]));
                    lemma_order_is_total(issue, issues.last());
                    if inner[i] != issue {
                        assert(head.contains(inner[i]));
                        let m = choose|m: int| 0 <= m < head.len() && head[m] == inner[i];
                        assert(issues[m] == inner[i]);
                    }
                } else {
                    assert(after[i] == inner[i] && after[j] == inner[j]);
                }
            }
        }
    }
}

/// Putting issues in order loses and repeats none, and leaves none before one that is taken up
/// before it.
pub proof fn lemma_dispatch_order_sorts(issues: Seq<IssueView>)
    ensures
        is_in_order(dispatch_order(issues)),
        dispatch_order(issues).len() == issues.len(),
        dispatch_order(issues).to_multiset() == issues.to_multiset(),
    decreases issues.len(),
{
    broadcast use vstd::seq_lib::group_to_multiset_ensures;

    if issues.len() > 0 {
        lemma_dispatch_order_sorts(issues.drop_last());
        lemma_inserted(dispatch_order(issues.drop_last()), issues.last());
        assert(issues =~= issues.drop_last().push(issues.last()));
    }
}

/// The issues of a list that tie with one.
pub open spec fn tied_with(issues: Seq<IssueView>, issue: IssueView) -> Seq<IssueView> {
    issues.filter(|other: IssueView| ties(other, issue))
}

proof fn lemma_inserted_ties(issues: Seq<IssueView>, issue: IssueView, probe: IssueView)
    requires
        is_in_order(issues),
    ensures
        tied_with(inserted(issues, issue), probe) == if ties(issue, probe) {
            tied_with(issues, probe).push(issue)
        } else {
            tied_with(issues, probe)
        },
    decreases issues.len(),
{
    reveal(Seq::filter);
    let pred = |other: IssueView| ties(other, probe);
    let after = inserted(issues, issue);
    if issues.len() == 0 || !goes_first(issue, issues.last()) {
        assert(after.drop_last() =~= issues);
    } else {
        let head = issues.drop_last();
        assert(is_in_order(head)) by {
            assert forall|i: int, j: int| 0 <= i < j < head.len() implies !goes_first(
                #[trigger] head[j],
                #[trigger] head[i],
            ) by {
                assert(head[i] == issues[i] && head[j] == issues[j]);
            }
        }
        lemma_inserted_ties(head, issue, probe);
        assert(after.drop_last() =~= inserted(head, issue));
        assert(after.last() == issues.last());
        if ties(issue, probe) {
            lemma_order_is_total(issue, issues.last());
            assert(!ties(issues.last(), probe)) by {
                if ties(issues.last(), probe) {
                    assert(ties(issue, issues.last()));
                }
            }
        }
    }
}

/// Issues that tie keep the order in which they stood.
pub proof fn lemma_dispatch_order_is_stable(issues: Seq<IssueView>, probe: IssueView)
    ensures
        tied_with(dispatch_order(issues), probe) == tied_with(issues, probe),
    decreases issues.len(),
{
    reveal(Seq::filter);
    if issues.len() > 0 {
        let head = issues.drop_last();
        lemma_dispatch_order_is_stable(head, probe);
        lemma_dispatch_order_sorts(head);
        lemma_inserted_ties(dispatch_order(head), issues.last(), probe);
    }
}

} // verus!
