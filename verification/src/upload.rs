//! The outcome of storing the images of one request.
//!
//! The images are stored side by side, and nothing is decided before every
//! attempt has ended. What is decided is all or nothing: the keys of all
//! images, or the failure of the first image that could not be stored. Images
//! that were stored stay stored.

use vstd::prelude::*;

use crate::error::{AppError, Failure};
use crate::text::texts_of;

verus! {

/// How the attempt to store one image ended.
#[derive(Debug, PartialEq, Eq)]
pub enum UploadOutcome {
    /// The image is stored under this key.
    Stored(String),
    /// The store refused or could not be reached: its own words.
    Failed(String),
}

/// An outcome as contracts speak of it.
pub enum Outcome {
    Stored(Seq<char>),
    Failed(Seq<char>),
}

impl View for UploadOutcome {
    type V = Outcome;

    open spec fn view(&self) -> Outcome {
        match self {
            UploadOutcome::Stored(key) => Outcome::Stored(key@),
            UploadOutcome::Failed(cause) => Outcome::Failed(cause@),
        }
    }
}

/// The outcomes of a list of attempts, in the order of the images.
pub open spec fn outcome_views(outcomes: Seq<UploadOutcome>) -> Seq<Outcome> {
    outcomes.map_values(|outcome: UploadOutcome| outcome@)
}

/// What a list of outcomes amounts to: the keys in the order of the images
/// where every image was stored, else the failure of the first image, in
/// that order, that was not.
pub open spec fn upload_result(outcomes: Seq<Outcome>) -> Result<Seq<Seq<char>>, Failure>
    decreases outcomes.len(),
{
    if outcomes.len() == 0 {
        Ok(Seq::empty())
    } else {
        match upload_result(outcomes.drop_last()) {
            Err(failure) => Err(failure),
            Ok(keys) => match outcomes.last() {
                Outcome::Stored(key) => Ok(keys.push(key)),
                Outcome::Failed(cause) => Err(Failure::S3(cause)),
            },
        }
    }
}

/// Sums up the outcomes of all attempts, given in the order of the images.
pub fn collect_uploads(outcomes: Vec<UploadOutcome>) -> (r: Result<Vec<String>, AppError>)
    ensures
        match upload_result(outcome_views(outcomes@)) {
            Ok(keys) => r matches Ok(stored) && texts_of(stored@) == keys,
            Err(failure) => r matches Err(e) && e@ == failure,
        },
{
    let ghost all = outcome_views(outcomes@);
    let mut stored: Vec<String> = Vec::new();
    let mut failed: Option<String> = None;
    assert(all.take(0) =~= Seq::empty());
    assert(texts_of(stored@) =~= Seq::empty());
    for outcome in it: outcomes
        invariant
            outcome_views(it.seq()) == all,
            match upload_result(all.take(it.index() as int)) {
                Ok(keys) => failed is None && texts_of(stored@) == keys,
                Err(failure) => failed matches Some(cause) && Failure::S3(cause@) == failure,
            },
    {
        let ghost i = it.index() as int;
        let ghost before = stored@;
        assert(all.take(i + 1).drop_last() =~= all.take(i));
        assert(all.take(i + 1).last() == outcome@);
        if failed.is_none() {
            match outcome {
                UploadOutcome::Stored(key) => {
                    stored.push(key);
                    assert(texts_of(stored@) =~= texts_of(before).push(key@));
                },
                UploadOutcome::Failed(cause) => {
                    failed = Some(cause);
                },
            }
        }
    }
    assert(all.take(all.len() as int) =~= all);
    match failed {
        Some(cause) => Err(AppError::S3(cause)),
        None => Ok(stored),
    }
}

/// What was reported of the attempts, each with the place of its image, in
/// the order in which the attempts ended.
pub open spec fn report_views(reports: Seq<(usize, UploadOutcome)>) -> Seq<(usize, Outcome)> {
    reports.map_values(|report: (usize, UploadOutcome)| (report.0, report.1@))
}

/// Whether the reports name each of `count` images once: there are `count` of
/// them, each for an image below `count`, no two for the same image.
pub open spec fn names_each_once(reports: Seq<(usize, Outcome)>, count: nat) -> bool {
    &&& reports.len() == count
    &&& forall|k: int| 0 <= k < reports.len() ==> (#[trigger] reports[k]).0 < count
    &&& forall|j: int, k: int|
        0 <= j < k < reports.len() ==> (#[trigger] reports[j]).0 != (#[trigger] reports[k]).0
}

/// Whether a place holds this outcome.
spec fn holds(place: Option<UploadOutcome>, outcome: Outcome) -> bool {
    place matches Some(held) && held@ == outcome
}

/// How many of the places hold an outcome.
spec fn taken(places: Seq<Option<UploadOutcome>>) -> nat
    decreases places.len(),
{
    if places.len() == 0 {
        0
    } else if places.last() is Some {
        taken(places.drop_last()) + 1
    } else {
        taken(places.drop_last())
    }
}

/// No more places are taken than there are, and where as many are taken as
/// there are, each is.
proof fn lemma_taken_all(places: Seq<Option<UploadOutcome>>)
    ensures
        taken(places) <= places.len(),
        taken(places) == places.len() ==> forall|i: int|
            0 <= i < places.len() ==> places[i] is Some,
    decreases places.len(),
{
    if places.len() > 0 {
        lemma_taken_all(places.drop_last());
        if taken(places) == places.len() {
            assert forall|i: int| 0 <= i < places.len() implies places[i] is Some by {
                if i < places.len() - 1 {
                    assert(places.drop_last()[i] == places[i]);
                }
            }
        }
    }
}

/// Where no place is taken, none is counted.
proof fn lemma_taken_none(places: Seq<Option<UploadOutcome>>)
    requires
        forall|i: int| 0 <= i < places.len() ==> places[i] is None,
    ensures
        taken(places) == 0,
    decreases places.len(),
{
    if places.len() > 0 {
        lemma_taken_none(places.drop_last());
    }
}

/// Taking a free place counts one more.
proof fn lemma_taken_one_more(places: Seq<Option<UploadOutcome>>, at: int, outcome: UploadOutcome)
    requires
        0 <= at < places.len(),
        places[at] is None,
    ensures
        taken(places.update(at, Some(outcome))) == taken(places) + 1,
    decreases places.len(),
{
    let after = places.update(at, Some(outcome));
    if at == places.len() - 1 {
        assert(after.drop_last() =~= places.drop_last());
    } else {
        lemma_taken_one_more(places.drop_last(), at, outcome);
        assert(after.drop_last() =~= places.drop_last().update(at, Some(outcome)));
    }
}

/// Puts the outcomes of `count` attempts, reported in the order in which the
/// attempts ended, into the order of the images. There is a result where the
/// reports name each image once, and only there.
pub fn in_image_order(count: usize, reports: Vec<(usize, UploadOutcome)>) -> (r: Option<
    Vec<UploadOutcome>,
>)
    ensures
        r is Some <==> names_each_once(report_views(reports@), count as nat),
        r matches Some(list) ==> list@.len() == count && forall|k: int|
            0 <= k < reports@.len() ==> (#[trigger] list@[reports@[k].0 as int])@ == reports@[k].1@,
{
    let ghost all = reports@;
    let ghost views = report_views(all);
    if reports.len() != count {
        return None;
    }
    let mut places: Vec<Option<UploadOutcome>> = Vec::new();
    let mut made: usize = 0;
    while made < count
        invariant
            made <= count,
            places@.len() == made,
            forall|i: int| 0 <= i < made ==> places@[i] is None,
        decreases count - made,
    {
        places.push(None);
        made += 1;
    }
    proof {
        lemma_taken_none(places@);
    }
    let ghost mut seen: int = 0;
    for report in it: reports
        invariant
            it.seq() == all,
            views == report_views(all),
            all.len() == count,
            seen == it.index(),
            places@.len() == count,
            taken(places@) == seen,
            forall|k: int| 0 <= k < seen ==> (#[trigger] views[k]).0 < count,
            forall|j: int, k: int|
                0 <= j < k < seen ==> (#[trigger] views[j]).0 != (#[trigger] views[k]).0,
            forall|k: int|
                0 <= k < seen ==> holds(#[trigger] places@[all[k].0 as int], all[k].1@),
            forall|i: int|
                0 <= i < count && (#[trigger] places@[i]) is Some ==> exists|k: int|
                    0 <= k < seen && (#[trigger] views[k]).0 == i,
    {
        let (index, outcome) = report;
        let ghost before = places@;
        assert(views[seen] == (index, outcome@));
        if index >= count {
            return None;
        }
        if places[index].is_some() {
            proof {
                let k = choose|k: int| 0 <= k < seen && (#[trigger] views[k]).0 == index;
                assert(views[k].0 == views[seen].0);
            }
            return None;
        }
        places.set(index, Some(outcome));
        proof {
            lemma_taken_one_more(before, index as int, outcome);
            assert forall|k: int| 0 <= k < seen + 1 implies holds(
                #[trigger] places@[all[k].0 as int],
                all[k].1@,
            ) by {
                if k < seen {
                    assert(views[k].0 == all[k].0);
                    assert(before[all[k].0 as int] is Some);
                }
            }
            assert forall|j: int, k: int| 0 <= j < k < seen + 1 implies (#[trigger] views[j]).0 != (
            #[trigger] views[k]).0 by {
                if k == seen {
                    assert(views[j].0 == all[j].0);
                    assert(before[all[j].0 as int] is Some);
                }
            }
            assert forall|i: int|
                0 <= i < count && (#[trigger] places@[i]) is Some implies exists|k: int|
                0 <= k < seen + 1 && (#[trigger] views[k]).0 == i by {
                if i == index {
                    assert(views[seen].0 == i);
                } else {
                    assert(before[i] is Some);
                    let k = choose|k: int| 0 <= k < seen && (#[trigger] views[k]).0 == i;
                    assert(views[k].0 == i);
                }
            }
            seen = seen + 1;
        }
    }
    proof {
        lemma_taken_all(places@);
        assert(names_each_once(views, count as nat));
    }
    let ghost placed = places@;
    let mut list: Vec<UploadOutcome> = Vec::new();
    for place in it: places
        invariant
            it.seq() == placed,
            forall|i: int| 0 <= i < placed.len() ==> placed[i] is Some,
            list@.len() == it.index(),
            forall|i: int| 0 <= i < list@.len() ==> placed[i] == Some(#[trigger] list@[i]),
    {
        list.push(place.unwrap());
    }
    proof {
        assert forall|k: int| 0 <= k < all.len() implies (#[trigger] list@[all[k].0 as int])@
            == all[k].1@ by {
            assert(views[k].0 == all[k].0);
            assert(placed[all[k].0 as int] is Some);
        }
    }
    Some(list)
}

} // verus!
