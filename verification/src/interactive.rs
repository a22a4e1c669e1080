//! Patterns to wait for, and the responses to them.

use crate::cli::ExpectRespondPair;
use crate::error::Error;
use vstd::prelude::*;

verus! {

/// The complete pairs among `pairs`, in order.
pub open spec fn complete_pairs(pairs: Seq<(Option<String>, Option<String>)>) -> Seq<
    ExpectRespondPair,
>
    decreases pairs.len(),
{
    if pairs.len() == 0 {
        Seq::empty()
    } else {
        match pairs.last() {
            (Some(expect), Some(respond)) => complete_pairs(pairs.drop_last()).push(
                ExpectRespondPair { expect, respond },
            ),
            _ => complete_pairs(pairs.drop_last()),
        }
    }
}

/// Whether one half of a pair is missing.
pub open spec fn incomplete(pair: (Option<String>, Option<String>)) -> bool {
    (pair.0 is Some) != (pair.1 is Some)
}

/// Whether the first incomplete pair stands at `i`.
pub open spec fn first_incomplete(pairs: Seq<(Option<String>, Option<String>)>, i: int) -> bool {
    &&& 0 <= i < pairs.len()
    &&& incomplete(pairs[i])
    &&& forall|j: int| 0 <= j < i ==> !incomplete(#[trigger] pairs[j])
}

/// What is wrong with an incomplete pair.
pub open spec fn missing_half(pair: (Option<String>, Option<String>)) -> Error {
    if pair.0 is Some {
        Error::ExpectWithoutRespond
    } else {
        Error::RespondWithoutExpect
    }
}

/// What is extracted from `pairs`: the complete ones, unless one is incomplete.
/// The first that is decides the error.
pub open spec fn extracted(
    pairs: Seq<(Option<String>, Option<String>)>,
    r: Result<Vec<ExpectRespondPair>, Error>,
) -> bool {
    match r {
        Ok(v) => v@ == complete_pairs(pairs) && forall|i: int|
            0 <= i < pairs.len() ==> !incomplete(#[trigger] pairs[i]),
        Err(e) => exists|i: int| #[trigger]
            first_incomplete(pairs, i) && e == missing_half(pairs[i]),
    }
}

/// The pairs that are given. A pair of which only one half is given is an
/// error.
pub fn expect_pairs(pairs: [(Option<String>, Option<String>); 3]) -> (r: Result<
    Vec<ExpectRespondPair>,
    Error,
>)
    ensures
        extracted(pairs@, r),
{
    let mut out: Vec<ExpectRespondPair> = Vec::new();
    let mut i: usize = 0;
    assert(pairs@.take(0) =~= Seq::empty());
    while i < 3
        invariant
            i <= 3,
            pairs@.len() == 3,
            out@ == complete_pairs(pairs@.take(i as int)),
            forall|j: int| 0 <= j < i ==> !incomplete(#[trigger] pairs@[j]),
        decreases 3 - i,
    {
        assert(pairs@.take(i + 1).drop_last() =~= pairs@.take(i as int));
        assert(pairs@.take(i + 1).last() == pairs@[i as int]);
        match (&pairs[i].0, &pairs[i].1) {
            (Some(expect), Some(respond)) => out.push(
                ExpectRespondPair { expect: expect.clone(), respond: respond.clone() },
            ),
            (None, None) => {},
            (Some(_), None) => {
                assert(first_incomplete(pairs@, i as int));
                return Err(Error::ExpectWithoutRespond);
            },
            (None, Some(_)) => {
                assert(first_incomplete(pairs@, i as int));
                return Err(Error::RespondWithoutExpect);
            },
        }
        i += 1;
    }
    assert(pairs@.take(3) =~= pairs@);
    Ok(out)
}

/// There is only one first incomplete pair.
pub proof fn lemma_first_incomplete(
    pairs: Seq<(Option<String>, Option<String>)>,
    i: int,
    k: int,
)
    requires
        first_incomplete(pairs, i),
        first_incomplete(pairs, k),
    ensures
        i == k,
{
    if i < k {
        assert(!incomplete(pairs[i]));
    } else if k < i {
        assert(!incomplete(pairs[k]));
    }
}

/// The pairs that are extracted are those that were given, in the order in which
/// they were given, each with its own response. Half a pair is an error,
/// whatever else was given: a pattern without a response, or a response without
/// a pattern.
pub proof fn pairs_are_extracted_as_given(
    pairs: Seq<(Option<String>, Option<String>)>,
    r: Result<Vec<ExpectRespondPair>, Error>,
    i: int,
)
    requires
        extracted(pairs, r),
        0 <= i < pairs.len(),
    ensures
        (pairs[i].0 is Some) != (pairs[i].1 is Some) ==> r is Err,
        r is Err ==> exists|k: int|
            0 <= k < pairs.len() && (#[trigger] pairs[k]).0 is Some != pairs[k].1 is Some
                && r->Err_0 == if pairs[k].0 is Some {
                Error::ExpectWithoutRespond
            } else {
                Error::RespondWithoutExpect
            },
        r is Ok && (forall|k: int| 0 <= k < pairs.len() ==> (#[trigger] pairs[k]).0 is Some) ==> {
            &&& r->Ok_0@.len() == pairs.len()
            &&& r->Ok_0@[i].expect == pairs[i].0->0
            &&& r->Ok_0@[i].respond == pairs[i].1->0
        },
{
    if r is Err {
        let k = choose|k: int| #[trigger]
            first_incomplete(pairs, k) && r->Err_0 == missing_half(pairs[k]);
        assert(incomplete(pairs[k]));
    } else {
        assert(!incomplete(pairs[i]));
        if forall|k: int| 0 <= k < pairs.len() ==> (#[trigger] pairs[k]).0 is Some {
            lemma_all_complete(pairs);
        }
    }
}

proof fn lemma_all_complete(pairs: Seq<(Option<String>, Option<String>)>)
    requires
        forall|k: int| 0 <= k < pairs.len() ==> (#[trigger] pairs[k]).0 is Some,
        forall|k: int| 0 <= k < pairs.len() ==> !incomplete(#[trigger] pairs[k]),
    ensures
        complete_pairs(pairs).len() == pairs.len(),
        forall|k: int|
            0 <= k < pairs.len() ==> (#[trigger] complete_pairs(pairs)[k]).expect == pairs[k].0->0
                && complete_pairs(pairs)[k].respond == pairs[k].1->0,
    decreases pairs.len(),
{
    if pairs.len() > 0 {
        let before = pairs.drop_last();
        assert forall|k: int| 0 <= k < before.len() implies (#[trigger] before[k]).0 is Some by {
            assert(before[k] == pairs[k]);
        }
        assert forall|k: int| 0 <= k < before.len() implies !incomplete(#[trigger] before[k]) by {
            assert(before[k] == pairs[k]);
        }
        lemma_all_complete(before);
        let last = pairs.len() - 1;
        assert(pairs[last].0 is Some && !incomplete(pairs[last]));
        assert(pairs.last() == pairs[last]);
        assert forall|k: int| 0 <= k < pairs.len() implies (#[trigger] complete_pairs(
            pairs,
        )[k]).expect == pairs[k].0->0 && complete_pairs(pairs)[k].respond == pairs[k].1->0 by {
            if k < last {
                assert(complete_pairs(pairs)[k] == complete_pairs(before)[k]);
                assert(before[k] == pairs[k]);
            }
        }
    }
}

/// Pairs of which nothing is given are passed over: the others follow each other
/// as if they were not there.
pub proof fn empty_pairs_are_passed_over(
    before: Seq<(Option<String>, Option<String>)>,
    expect: String,
    respond: String,
)
    ensures
        complete_pairs(before.push((None, None))) == complete_pairs(before),
        complete_pairs(before.push((Some(expect), Some(respond)))) == complete_pairs(before).push(
            ExpectRespondPair { expect, respond },
        ),
        complete_pairs(Seq::empty()).len() == 0,
{
    assert(before.push((None, None)).drop_last() =~= before);
    assert(before.push((Some(expect), Some(respond))).drop_last() =~= before);
}

} // verus!
