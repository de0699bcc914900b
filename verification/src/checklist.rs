//! Checks run in order: the first one that fails gives the message.

use vstd::prelude::*;

verus! {

/// The message of the first check in `cs` that fails, if any fails. A check
/// is whether it passes and what it reports when it does not.
pub open spec fn first_failure(cs: Seq<(bool, Seq<char>)>) -> Option<Seq<char>>
    decreases cs.len(),
{
    if cs.len() == 0 {
        None
    } else if !cs[0].0 {
        Some(cs[0].1)
    } else {
        first_failure(cs.drop_first())
    }
}

/// `r` is what running the checks `cs` in order gives: `Ok` when all pass,
/// else the first failure's message.
pub open spec fn reports(r: Result<(), String>, cs: Seq<(bool, Seq<char>)>) -> bool {
    match r {
        Ok(_) => first_failure(cs) is None,
        Err(m) => first_failure(cs) == Some(m@),
    }
}

pub broadcast proof fn lemma_first_failure_concat(a: Seq<(bool, Seq<char>)>, b: Seq<(bool, Seq<char>)>)
    ensures
        #[trigger] first_failure(a + b) == (if first_failure(a) is Some {
            first_failure(a)
        } else {
            first_failure(b)
        }),
    decreases a.len(),
{
    if a.len() > 0 {
        assert((a + b).drop_first() =~= a.drop_first() + b);
        lemma_first_failure_concat(a.drop_first(), b);
    } else {
        assert(a + b =~= b);
    }
}

/// A result with its value dropped, its message kept.
pub open spec fn outcome<T>(r: Result<T, String>) -> Result<(), String> {
    match r {
        Ok(_) => Ok(()),
        Err(m) => Err(m),
    }
}

/// A single check.
pub open spec fn check(ok: bool, message: Seq<char>) -> Seq<(bool, Seq<char>)> {
    seq![(ok, message)]
}

pub broadcast proof fn lemma_first_failure_check(ok: bool, message: Seq<char>)
    ensures
        #[trigger] first_failure(check(ok, message)) == (if ok {
            None
        } else {
            Some(message)
        }),
{
    assert(check(ok, message).drop_first() =~= Seq::<(bool, Seq<char>)>::empty());
    reveal_with_fuel(first_failure, 2);
}

pub broadcast group group_first_failure {
    lemma_first_failure_concat,
    lemma_first_failure_check,
}

/// The first failing check is the first whose test is false.
pub proof fn lemma_first_failure_at(cs: Seq<(bool, Seq<char>)>, i: int)
    requires
        0 <= i < cs.len(),
        forall|j: int| 0 <= j < i ==> (#[trigger] cs[j]).0,
        !cs[i].0,
    ensures
        first_failure(cs) == Some(cs[i].1),
    decreases i,
{
    if i > 0 {
        assert forall|j: int| 0 <= j < i - 1 implies (#[trigger] cs.drop_first()[j]).0 by {
            assert(cs.drop_first()[j] == cs[j + 1]);
        }
        assert(cs[0].0);
        lemma_first_failure_at(cs.drop_first(), i - 1);
    }
}

/// When every test holds, nothing fails.
pub proof fn lemma_first_failure_none(cs: Seq<(bool, Seq<char>)>)
    requires
        forall|j: int| 0 <= j < cs.len() ==> (#[trigger] cs[j]).0,
    ensures
        first_failure(cs) is None,
    decreases cs.len(),
{
    if cs.len() > 0 {
        assert(cs[0].0);
        assert forall|j: int| 0 <= j < cs.len() - 1 implies (#[trigger] cs.drop_first()[j]).0 by {
            assert(cs.drop_first()[j] == cs[j + 1]);
        }
        lemma_first_failure_none(cs.drop_first());
    }
}

/// The warnings (code and message) that the failing checks of `cs` raise,
/// in order. A check here is whether it passes, then its code and message.
pub open spec fn raised_issues(cs: Seq<(bool, Seq<char>, Seq<char>)>) -> Seq<(Seq<char>, Seq<char>)>
    decreases cs.len(),
{
    if cs.len() == 0 {
        Seq::empty()
    } else {
        let rest = raised_issues(cs.drop_last());
        if cs.last().0 {
            rest
        } else {
            rest.push((cs.last().1, cs.last().2))
        }
    }
}

/// One more check at the end raises its warning when it fails.
pub proof fn lemma_raised_step(cs: Seq<(bool, Seq<char>, Seq<char>)>, i: int)
    requires
        0 <= i < cs.len(),
    ensures
        raised_issues(cs.subrange(0, i + 1)) == (if cs[i].0 {
            raised_issues(cs.subrange(0, i))
        } else {
            raised_issues(cs.subrange(0, i)).push((cs[i].1, cs[i].2))
        }),
{
    assert(cs.subrange(0, i + 1).drop_last() =~= cs.subrange(0, i));
}

/// Checks that all pass raise nothing.
pub proof fn lemma_raised_none(cs: Seq<(bool, Seq<char>, Seq<char>)>)
    requires
        forall|j: int| 0 <= j < cs.len() ==> (#[trigger] cs[j]).0,
    ensures
        raised_issues(cs) == Seq::<(Seq<char>, Seq<char>)>::empty(),
    decreases cs.len(),
{
    if cs.len() > 0 {
        assert forall|j: int| 0 <= j < cs.len() - 1 implies (#[trigger] cs.drop_last()[j]).0 by {
            assert(cs.drop_last()[j] == cs[j]);
        }
        lemma_raised_none(cs.drop_last());
    }
}

/// Nothing is raised exactly when every check passes.
pub proof fn lemma_raised_empty(cs: Seq<(bool, Seq<char>, Seq<char>)>)
    ensures
        raised_issues(cs).len() == 0 <==> forall|j: int| 0 <= j < cs.len() ==> (#[trigger] cs[j]).0,
    decreases cs.len(),
{
    if cs.len() > 0 {
        lemma_raised_empty(cs.drop_last());
        if forall|j: int| 0 <= j < cs.len() ==> (#[trigger] cs[j]).0 {
            assert forall|j: int| 0 <= j < cs.len() - 1 implies (#[trigger] cs.drop_last()[j]).0 by {
                assert(cs.drop_last()[j] == cs[j]);
            }
        }
        if raised_issues(cs).len() == 0 {
            assert forall|j: int| 0 <= j < cs.len() implies (#[trigger] cs[j]).0 by {
                if j < cs.len() - 1 {
                    assert(cs.drop_last()[j] == cs[j]);
                }
            }
        }
    }
}

pub proof fn lemma_raised_concat(a: Seq<(bool, Seq<char>, Seq<char>)>, b: Seq<(bool, Seq<char>, Seq<char>)>)
    ensures
        raised_issues(a + b) == raised_issues(a) + raised_issues(b),
    decreases b.len(),
{
    if b.len() == 0 {
        assert(a + b =~= a);
        assert(raised_issues(a) + Seq::<(Seq<char>, Seq<char>)>::empty() =~= raised_issues(a));
    } else {
        lemma_raised_concat(a, b.drop_last());
        assert((a + b).drop_last() =~= a + b.drop_last());
        assert((a + b).last() == b.last());
        if !b.last().0 {
            assert(raised_issues(a) + raised_issues(b.drop_last()).push((b.last().1, b.last().2)) =~= (
            raised_issues(a) + raised_issues(b.drop_last())).push((b.last().1, b.last().2)));
        }
    }
}

/// When the checks before `n` pass and check `n` fails, its warning is the
/// first raised.
pub proof fn lemma_first_raised(cs: Seq<(bool, Seq<char>, Seq<char>)>, n: int)
    requires
        0 <= n < cs.len(),
        forall|j: int| 0 <= j < n ==> (#[trigger] cs[j]).0,
        !cs[n].0,
    ensures
        raised_issues(cs).len() > 0,
        raised_issues(cs)[0] == (cs[n].1, cs[n].2),
{
    let a = cs.subrange(0, n + 1);
    let b = cs.subrange(n + 1, cs.len() as int);
    assert(cs =~= a + b);
    lemma_raised_concat(a, b);
    lemma_raised_step(cs, n);
    assert forall|j: int| 0 <= j < cs.subrange(0, n).len() implies (#[trigger] cs.subrange(0, n)[j]).0 by {
        assert(cs.subrange(0, n)[j] == cs[j]);
    }
    lemma_raised_none(cs.subrange(0, n));
    assert(cs.subrange(0, n + 1).subrange(0, n) =~= cs.subrange(0, n));
}

} // verus!
