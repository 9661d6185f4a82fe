//! The reporter: counts failing outcomes, renders their messages, and
//! decides the overall pass/fail status of a run.
//!
//! Evaluation order is unspecified, so the failure count is proved to be a
//! function of the multiset of outcomes alone.

use vstd::prelude::*;

use crate::error::{CheckError, message_of};

verus! {

/// The number of failing outcomes in `rs`.
pub open spec fn count_failures_spec(rs: Seq<Result<(), CheckError>>) -> int
    decreases rs.len(),
{
    if rs.len() == 0 {
        0
    } else {
        count_failures_spec(rs.drop_last()) + if rs.last() is Err {
            1int
        } else {
            0int
        }
    }
}

pub proof fn lemma_count_failures_bounds(rs: Seq<Result<(), CheckError>>)
    ensures
        0 <= count_failures_spec(rs) <= rs.len(),
    decreases rs.len(),
{
    if rs.len() > 0 {
        lemma_count_failures_bounds(rs.drop_last());
    }
}

/// Counting failures distributes over concatenation.
pub proof fn lemma_count_failures_concat(a: Seq<Result<(), CheckError>>, b: Seq<
    Result<(), CheckError>,
>)
    ensures
        count_failures_spec(a + b) == count_failures_spec(a) + count_failures_spec(b),
    decreases b.len(),
{
    if b.len() == 0 {
        assert(a + b =~= a);
    } else {
        assert((a + b).drop_last() =~= a + b.drop_last());
        assert((a + b).last() == b.last());
        lemma_count_failures_concat(a, b.drop_last());
    }
}

proof fn lemma_count_failures_remove(rs: Seq<Result<(), CheckError>>, i: int)
    requires
        0 <= i < rs.len(),
    ensures
        count_failures_spec(rs) == count_failures_spec(rs.remove(i)) + if rs[i] is Err {
            1int
        } else {
            0int
        },
{
    let a = rs.subrange(0, i);
    let m = rs.subrange(i, i + 1);
    let b = rs.subrange(i + 1, rs.len() as int);
    assert(rs =~= a + m + b);
    assert(rs.remove(i) =~= a + b);
    lemma_count_failures_concat(a + m, b);
    lemma_count_failures_concat(a, m);
    lemma_count_failures_concat(a, b);
    assert(m.drop_last() =~= Seq::<Result<(), CheckError>>::empty());
    assert(m.last() == rs[i]);
    assert(count_failures_spec(Seq::<Result<(), CheckError>>::empty()) == 0);
    assert(count_failures_spec(m) == if rs[i] is Err {
        1int
    } else {
        0int
    });
}

/// The failure count depends only on the multiset of outcomes: any two
/// orders of the same evaluations report the same number of failures.
pub proof fn lemma_count_failures_permutation(
    rs1: Seq<Result<(), CheckError>>,
    rs2: Seq<Result<(), CheckError>>,
)
    requires
        rs1.to_multiset() == rs2.to_multiset(),
    ensures
        count_failures_spec(rs1) == count_failures_spec(rs2),
    decreases rs1.len(),
{
    rs1.to_multiset_ensures();
    rs2.to_multiset_ensures();
    if rs1.len() == 0 {
        assert(rs2.len() == 0);
    } else {
        let x = rs1.last();
        let rest = rs1.drop_last();
        rest.to_multiset_ensures();
        assert(rest.push(x) =~= rs1);
        assert(rs1.to_multiset() =~= rest.to_multiset().insert(x));
        assert(rs2.to_multiset().count(x) > 0);
        assert(rs2.contains(x));
        let i = choose|i: int| 0 <= i < rs2.len() && rs2[i] == x;
        assert(rs2.remove(i).to_multiset() =~= rs2.to_multiset().remove(x));
        assert(rest.to_multiset() =~= rs2.remove(i).to_multiset()) by {
            assert forall|v: Result<(), CheckError>|
                rest.to_multiset().count(v) == rs2.remove(i).to_multiset().count(v) by {
                if v == x {
                    assert(rs1.to_multiset().count(x) == rest.to_multiset().count(x) + 1);
                } else {
                    assert(rs1.to_multiset().count(v) == rest.to_multiset().count(v));
                }
            }
        }
        lemma_count_failures_permutation(rest, rs2.remove(i));
        lemma_count_failures_remove(rs2, i);
    }
}

/// Counts the failing outcomes of a run.
pub fn count_failures(results: &Vec<Result<(), CheckError>>) -> (n: usize)
    ensures
        n == count_failures_spec(results@),
{
    let len = results.len();
    let mut n: usize = 0;
    let mut i: usize = 0;
    while i < len
        invariant
            len == results@.len(),
            i <= len,
            n <= i,
            n == count_failures_spec(results@.subrange(0, i as int)),
        decreases len - i,
    {
        let failed = match &results[i] {
            Ok(_) => false,
            Err(_) => true,
        };
        assert(results@.subrange(0, i + 1 as int).drop_last() =~= results@.subrange(0, i as int));
        assert(results@.subrange(0, i + 1 as int).last() == results@[i as int]);
        if failed {
            n = n + 1;
        }
        i = i + 1;
    }
    assert(results@.subrange(0, len as int) =~= results@);
    n
}

/// Whether the run failed: at least one outcome is a failure.
pub fn run_failed(results: &Vec<Result<(), CheckError>>) -> (b: bool)
    ensures
        b == (count_failures_spec(results@) > 0),
{
    proof {
        lemma_count_failures_bounds(results@);
    }
    count_failures(results) > 0
}

/// The report lines of a run: one message per failing outcome, in order.
pub open spec fn messages_spec(rs: Seq<Result<(), CheckError>>) -> Seq<Seq<char>>
    decreases rs.len(),
{
    if rs.len() == 0 {
        Seq::empty()
    } else {
        messages_spec(rs.drop_last()) + match rs.last() {
            Ok(_) => Seq::empty(),
            Err(e) => seq![message_of(e@)],
        }
    }
}

/// Renders one line per failing outcome, in the order given.
pub fn failure_messages(results: &Vec<Result<(), CheckError>>) -> (msgs: Vec<String>)
    ensures
        msgs@.len() == messages_spec(results@).len(),
        forall|k: int| 0 <= k < msgs@.len() ==> msgs@[k]@ == messages_spec(results@)[k],
{
    let len = results.len();
    let mut msgs: Vec<String> = Vec::new();
    let mut i: usize = 0;
    while i < len
        invariant
            len == results@.len(),
            i <= len,
            msgs@.len() == messages_spec(results@.subrange(0, i as int)).len(),
            forall|k: int|
                0 <= k < msgs@.len() ==> msgs@[k]@ == messages_spec(
                    results@.subrange(0, i as int),
                )[k],
        decreases len - i,
    {
        assert(results@.subrange(0, i + 1 as int).drop_last() =~= results@.subrange(0, i as int));
        assert(results@.subrange(0, i + 1 as int).last() == results@[i as int]);
        match &results[i] {
            Ok(_) => {},
            Err(e) => {
                msgs.push(e.message());
            },
        }
        i = i + 1;
    }
    assert(results@.subrange(0, len as int) =~= results@);
    msgs
}

} // verus!
