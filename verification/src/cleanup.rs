//! The cleanup stage's decisions.
//!
//! Cleanup receives the upstream summaries and deletes a video if and
//! only if its transcript was confirmed stored: only keys in a
//! summary's `processed` list are acted on; `failed` transcripts leave
//! their videos retained.

use vstd::prelude::*;
use crate::keys::video_key_of;
use crate::keys::transcript_to_video_key;
use crate::report::BatchReport;

verus! {

/// The video keys cleanup will delete, given the upstream `processed`
/// lists: the video key of every processed transcript, summary by
/// summary, in order.
pub open spec fn cleanup_targets_spec(processed_lists: Seq<Seq<Seq<char>>>) -> Seq<Seq<char>>
    decreases processed_lists.len(),
{
    if processed_lists.len() == 0 {
        Seq::empty()
    } else {
        cleanup_targets_spec(processed_lists.drop_last()) + processed_lists.last().map_values(
            |t: Seq<char>| video_key_of(t),
        )
    }
}

/// The `processed` lists of the upstream summaries.
pub open spec fn processed_lists_of(summaries: Seq<BatchReport>) -> Seq<Seq<Seq<char>>> {
    summaries.map_values(|s: BatchReport| s.processed.deep_view())
}

/// Collects the video keys to delete for a batch of upstream
/// summaries. Keys in `failed` lists are never targeted.
pub fn cleanup_targets(summaries: &Vec<BatchReport>) -> (r: Vec<String>)
    ensures
        r.deep_view() == cleanup_targets_spec(processed_lists_of(summaries@)),
{
    let mut targets: Vec<String> = Vec::new();
    let mut i: usize = 0;
    proof {
        assert(processed_lists_of(summaries@.subrange(0, 0)) =~= Seq::<Seq<Seq<char>>>::empty());
        assert(targets.deep_view() =~= cleanup_targets_spec(
            processed_lists_of(summaries@.subrange(0, 0)),
        ));
    }
    while i < summaries.len()
        invariant
            i <= summaries@.len(),
            targets.deep_view() == cleanup_targets_spec(
                processed_lists_of(summaries@.subrange(0, i as int)),
            ),
        decreases summaries@.len() - i,
    {
        let ghost done_lists = processed_lists_of(summaries@.subrange(0, i as int));
        let ghost current = summaries@[i as int].processed.deep_view();
        let count = summaries[i].processed.len();
        let mut j: usize = 0;
        proof {
            assert(current.subrange(0, 0).map_values(|t: Seq<char>| video_key_of(t))
                =~= Seq::<Seq<char>>::empty());
            assert(targets.deep_view() =~= cleanup_targets_spec(done_lists)
                + current.subrange(0, 0).map_values(|t: Seq<char>| video_key_of(t)));
        }
        while j < count
            invariant
                i < summaries@.len(),
                count == summaries@[i as int].processed@.len(),
                current == summaries@[i as int].processed.deep_view(),
                current.len() == count,
                done_lists == processed_lists_of(summaries@.subrange(0, i as int)),
                j <= count,
                targets.deep_view() == cleanup_targets_spec(done_lists) + current.subrange(
                    0,
                    j as int,
                ).map_values(|t: Seq<char>| video_key_of(t)),
            decreases count - j,
        {
            proof {
                assert(current[j as int] == summaries@[i as int].processed@[j as int]@);
            }
            let ghost before = targets.deep_view();
            let k = transcript_to_video_key(summaries[i].processed[j].as_str());
            targets.push(k);
            proof {
                assert(targets.deep_view() =~= before.push(k@));
                assert(k@ == video_key_of(current[j as int]));
                assert(current.subrange(0, j + 1).drop_last() =~= current.subrange(0, j as int));
                assert(current.subrange(0, j + 1).map_values(|t: Seq<char>| video_key_of(t))
                    =~= current.subrange(0, j as int).map_values(|t: Seq<char>| video_key_of(t))
                    .push(video_key_of(current[j as int])));
                assert(targets.deep_view() =~= cleanup_targets_spec(done_lists)
                    + current.subrange(0, j + 1).map_values(|t: Seq<char>| video_key_of(t)));
            }
            j += 1;
        }
        proof {
            assert(summaries@.subrange(0, i + 1).drop_last() =~= summaries@.subrange(0, i as int));
            assert(processed_lists_of(summaries@.subrange(0, i + 1)).drop_last()
                =~= processed_lists_of(summaries@.subrange(0, i as int)));
            assert(processed_lists_of(summaries@.subrange(0, i + 1)).last() == current);
            assert(current.subrange(0, count as int) =~= current);
            assert(targets.deep_view() =~= cleanup_targets_spec(
                processed_lists_of(summaries@.subrange(0, i + 1)),
            ));
        }
        i += 1;
    }
    proof {
        assert(summaries@.subrange(0, summaries@.len() as int) =~= summaries@);
    }
    targets
}

/// Whether `k` is the video key of a transcript that some upstream
/// summary reported processed.
pub open spec fn from_some_processed(
    processed_lists: Seq<Seq<Seq<char>>>,
    k: Seq<char>,
) -> bool {
    exists|i: int, j: int|
        0 <= i < processed_lists.len() && 0 <= j < processed_lists[i].len() && k == video_key_of(
            #[trigger] processed_lists[i][j],
        )
}

/// Cleanup only targets videos whose transcripts some upstream summary
/// reported processed; when nothing was reported processed, nothing is
/// targeted.
pub proof fn lemma_cleanup_targets_only_processed(processed_lists: Seq<Seq<Seq<char>>>)
    ensures
        forall|x: int|
            0 <= x < cleanup_targets_spec(processed_lists).len() ==> from_some_processed(
                processed_lists,
                #[trigger] cleanup_targets_spec(processed_lists)[x],
            ),
        (forall|i: int| 0 <= i < processed_lists.len() ==> processed_lists[i].len() == 0)
            ==> cleanup_targets_spec(processed_lists).len() == 0,
    decreases processed_lists.len(),
{
    if processed_lists.len() > 0 {
        let front = processed_lists.drop_last();
        let last = processed_lists.last();
        lemma_cleanup_targets_only_processed(front);
        let whole = cleanup_targets_spec(processed_lists);
        let front_targets = cleanup_targets_spec(front);
        assert forall|x: int| 0 <= x < cleanup_targets_spec(processed_lists).len() implies
            from_some_processed(
            processed_lists,
            #[trigger] cleanup_targets_spec(processed_lists)[x],
        ) by {
            if x < front_targets.len() {
                assert(from_some_processed(front, front_targets[x]));
                let (wi, wj) = choose|wi: int, wj: int|
                    0 <= wi < front.len() && 0 <= wj < front[wi].len() && front_targets[x]
                        == video_key_of(#[trigger] front[wi][wj]);
                assert(processed_lists[wi] == front[wi]);
                assert(whole[x] == front_targets[x]);
                assert(whole[x] == video_key_of(processed_lists[wi][wj]));
            } else {
                let wi = processed_lists.len() - 1;
                let wj = x - front_targets.len();
                assert(whole[x] == last.map_values(|t: Seq<char>| video_key_of(t))[wj]);
                assert(whole[x] == video_key_of(processed_lists[wi][wj]));
            }
        }
        if forall|i: int| 0 <= i < processed_lists.len() ==> #[trigger] processed_lists[i].len()
            == 0 {
            assert forall|i: int| 0 <= i < front.len() implies #[trigger] front[i].len() == 0 by {
                assert(front[i] == processed_lists[i]);
            }
            assert(front_targets.len() == 0);
            assert(last == processed_lists[processed_lists.len() - 1]);
            assert(last.len() == 0);
            assert(whole.len() == 0);
        }
    }
}

} // verus!
