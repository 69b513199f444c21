//! Identifiers for new endpoints: random, and never one that is taken.

use crate::endpoint::{ids, models, Endpoint};
use vstd::prelude::*;

verus! {

/// The length of the longest of `taken`; zero where there is none.
pub open spec fn longest(taken: Seq<Seq<char>>) -> nat
    decreases taken.len(),
{
    if taken.len() == 0 {
        0
    } else {
        let rest = longest(taken.drop_last());
        if taken.last().len() > rest {
            taken.last().len()
        } else {
            rest
        }
    }
}

/// None of `taken` is longer than [`longest`] says.
pub proof fn lemma_longest(taken: Seq<Seq<char>>, i: int)
    requires
        0 <= i < taken.len(),
    ensures
        taken[i].len() <= longest(taken),
    decreases taken.len(),
{
    if i < taken.len() - 1 {
        lemma_longest(taken.drop_last(), i);
    }
}

/// The identifier that a candidate settles on: the candidate itself where it
/// is not taken, else the candidate with as few hyphens added at its end as
/// make it one that is not taken.
pub open spec fn unused_id(candidate: Seq<char>, taken: Seq<Seq<char>>) -> Seq<char>
    decreases longest(taken) + 1 - candidate.len(),
{
    if taken.contains(candidate) {
        proof {
            lemma_longest(taken, taken.index_of(candidate));
        }
        unused_id(candidate.push('-'), taken)
    } else {
        candidate
    }
}

/// What a candidate settles on is not taken, and begins with the candidate.
pub proof fn lemma_unused_id(candidate: Seq<char>, taken: Seq<Seq<char>>)
    ensures
        !taken.contains(unused_id(candidate, taken)),
        unused_id(candidate, taken).len() >= candidate.len(),
        unused_id(candidate, taken).take(candidate.len() as int) == candidate,
    decreases longest(taken) + 1 - candidate.len(),
{
    if taken.contains(candidate) {
        let longer = candidate.push('-');
        lemma_longest(taken, taken.index_of(candidate));
        lemma_unused_id(longer, taken);
        assert(unused_id(candidate, taken).take(candidate.len() as int) =~= unused_id(
            candidate,
            taken,
        ).take(longer.len() as int).take(candidate.len() as int));
        assert(longer.take(candidate.len() as int) =~= candidate);
    } else {
        assert(candidate.take(candidate.len() as int) =~= candidate);
    }
}

/// Calls `uuid::Uuid::new_v4` and renders the result through its `Display`
/// impl. Trusted: the text has the 36 characters of the hyphenated form.
/// Which text it is depends on chance, and nothing more is claimed of it.
#[verifier::external_body]
pub(crate) fn random_id() -> (id: String)
    ensures
        id@.len() == 36,
{
    uuid::Uuid::new_v4().to_string()
}

/// Tells whether one of `taken` has the identifier `id`.
pub fn is_taken(id: &String, taken: &Vec<Endpoint>) -> (b: bool)
    ensures
        b == ids(models(taken@)).contains(id@),
{
    let ghost texts = ids(models(taken@));
    let mut i: usize = 0;
    while i < taken.len()
        invariant
            i <= taken.len(),
            texts == ids(models(taken@)),
            forall|j: int| 0 <= j < i ==> #[trigger] texts[j] != id@,
        decreases taken.len() - i,
    {
        if taken[i].id == *id {
            assert(texts[i as int] == id@);
            return true;
        }
        i += 1;
    }
    false
}

/// Settles `candidate` on an identifier that none of `taken` has; see
/// [`unused_id`].
pub fn settle_id(candidate: String, taken: &Vec<Endpoint>) -> (id: String)
    ensures
        id@ == unused_id(candidate@, ids(models(taken@))),
        !ids(models(taken@)).contains(id@),
{
    let ghost texts = ids(models(taken@));
    let mut id = candidate;
    while is_taken(&id, taken)
        invariant
            texts == ids(models(taken@)),
            unused_id(id@, texts) == unused_id(candidate@, texts),
        decreases longest(texts) + 1 - id@.len(),
    {
        proof {
            reveal_strlit("-");
            lemma_longest(texts, texts.index_of(id@));
            assert(id@ + "-"@ =~= id@.push('-'));
        }
        id.append("-");
    }
    id
}

} // verus!
