//! Batch bookkeeping shared by every stage.
//!
//! A stage that works through a batch records one outcome per item and
//! partitions the keys into `processed` and `failed`, in processing
//! order: every item lands in exactly one of the two lists.

use vstd::prelude::*;
use vstd::string::StringExecFns;

verus! {

/// The outcome of one storage transfer (a put or a delete): the key it
/// concerned, whether it succeeded, and a diagnostic message. Failures
/// are data, never panics, so a batch always runs to completion.
pub struct TransferOutcome {
    pub key: String,
    pub success: bool,
    pub message: String,
}

/// Per-item result of uploading one transcript.
pub struct PutResponse {
    pub key: String,
    pub status: i32,
    pub message: String,
}

/// Per-item result of deleting one video.
pub struct DeleteResponse {
    pub key: String,
    pub status: i32,
    pub message: String,
}

impl PutResponse {
    /// The response recorded when a transcript was stored.
    pub fn success(key: String) -> (r: PutResponse)
        ensures
            r.status == 200,
            r.key@ == key@,
            r.message@ == "SUCCESS: S3 upload "@ + key@,
    {
        let mut m = String::from_str("SUCCESS: S3 upload ");
        m.append(key.as_str());
        PutResponse { key, status: 200, message: m }
    }

    /// The response recorded when the store refused the upload; the
    /// store's own error text follows the key.
    pub fn failure(key: String, error: &str) -> (r: PutResponse)
        ensures
            r.status == 400,
            r.key@ == key@,
            r.message@ == "ERROR: Failed S3 upload "@ + key@ + " : "@ + error@,
    {
        let mut m = String::from_str("ERROR: Failed S3 upload ");
        m.append(key.as_str());
        m.append(" : ");
        m.append(error);
        proof {
            assert(m@ =~= "ERROR: Failed S3 upload "@ + key@ + " : "@ + error@);
        }
        PutResponse { key, status: 400, message: m }
    }

    /// The response recorded when the local file could not be read
    /// into a byte stream at all.
    pub fn stream_failure(key: String, error: &str) -> (r: PutResponse)
        ensures
            r.status == 400,
            r.key@ == key@,
            r.message@ == "ERROR: Failed to extract bytestream from "@ + key@ + ", "@ + error@,
    {
        let mut m = String::from_str("ERROR: Failed to extract bytestream from ");
        m.append(key.as_str());
        m.append(", ");
        m.append(error);
        proof {
            assert(m@ =~= "ERROR: Failed to extract bytestream from "@ + key@ + ", "@ + error@);
        }
        PutResponse { key, status: 400, message: m }
    }

    /// The binary status class behind the code: only 200 counts as
    /// success.
    pub fn to_outcome(self) -> (r: TransferOutcome)
        ensures
            r.key@ == self.key@,
            r.success == (self.status == 200),
            r.message@ == self.message@,
    {
        let success = self.status == 200;
        TransferOutcome { key: self.key, success, message: self.message }
    }
}

impl DeleteResponse {
    /// The response recorded when a video was deleted.
    pub fn success(key: String) -> (r: DeleteResponse)
        ensures
            r.status == 200,
            r.key@ == key@,
            r.message@ == "SUCCESS: deleted "@ + key@,
    {
        let mut m = String::from_str("SUCCESS: deleted ");
        m.append(key.as_str());
        DeleteResponse { key, status: 200, message: m }
    }

    /// The response recorded when the store refused the delete; the
    /// store's own error text follows the key.
    pub fn failure(key: String, error: &str) -> (r: DeleteResponse)
        ensures
            r.status == 400,
            r.key@ == key@,
            r.message@ == "ERROR: Failed to delete "@ + key@ + " : "@ + error@,
    {
        let mut m = String::from_str("ERROR: Failed to delete ");
        m.append(key.as_str());
        m.append(" : ");
        m.append(error);
        proof {
            assert(m@ =~= "ERROR: Failed to delete "@ + key@ + " : "@ + error@);
        }
        DeleteResponse { key, status: 400, message: m }
    }

    /// The binary status class behind the code: only 200 counts as
    /// success.
    pub fn to_outcome(self) -> (r: TransferOutcome)
        ensures
            r.key@ == self.key@,
            r.success == (self.status == 200),
            r.message@ == self.message@,
    {
        let success = self.status == 200;
        TransferOutcome { key: self.key, success, message: self.message }
    }
}

/// The key/status pairs a report is computed from.
pub open spec fn outcome_model(outs: Seq<TransferOutcome>) -> Seq<(Seq<char>, bool)> {
    outs.map_values(|o: TransferOutcome| (o.key@, o.success))
}

/// The keys of the successful items, in processing order.
pub open spec fn processed_keys(items: Seq<(Seq<char>, bool)>) -> Seq<Seq<char>>
    decreases items.len(),
{
    if items.len() == 0 {
        Seq::empty()
    } else {
        let rest = processed_keys(items.drop_last());
        if items.last().1 {
            rest.push(items.last().0)
        } else {
            rest
        }
    }
}

/// The keys of the failed items, in processing order.
pub open spec fn failed_keys(items: Seq<(Seq<char>, bool)>) -> Seq<Seq<char>>
    decreases items.len(),
{
    if items.len() == 0 {
        Seq::empty()
    } else {
        let rest = failed_keys(items.drop_last());
        if items.last().1 {
            rest
        } else {
            rest.push(items.last().0)
        }
    }
}

/// Splits a batch of outcomes into its processed and failed key lists.
pub fn partition_outcomes(outs: &Vec<TransferOutcome>) -> (r: (Vec<String>, Vec<String>))
    ensures
        r.0.deep_view() == processed_keys(outcome_model(outs@)),
        r.1.deep_view() == failed_keys(outcome_model(outs@)),
{
    let mut processed: Vec<String> = Vec::new();
    let mut failed: Vec<String> = Vec::new();
    let mut i: usize = 0;
    proof {
        assert(outcome_model(outs@.subrange(0, 0)) =~= Seq::<(Seq<char>, bool)>::empty());
        assert(processed.deep_view() =~= processed_keys(outcome_model(outs@.subrange(0, 0))));
        assert(failed.deep_view() =~= failed_keys(outcome_model(outs@.subrange(0, 0))));
    }
    while i < outs.len()
        invariant
            i <= outs@.len(),
            processed.deep_view() == processed_keys(outcome_model(outs@.subrange(0, i as int))),
            failed.deep_view() == failed_keys(outcome_model(outs@.subrange(0, i as int))),
        decreases outs@.len() - i,
    {
        let ghost shorter = outcome_model(outs@.subrange(0, i as int));
        let ghost longer = outcome_model(outs@.subrange(0, i + 1));
        proof {
            assert(outs@.subrange(0, i + 1).drop_last() =~= outs@.subrange(0, i as int));
            assert(longer.drop_last() =~= shorter);
            assert(longer.last() == (outs@[i as int].key@, outs@[i as int].success));
        }
        let key = outs[i].key.clone();
        if outs[i].success {
            processed.push(key);
            proof {
                assert(processed.deep_view() =~= processed_keys(longer));
                assert(failed.deep_view() =~= failed_keys(longer));
            }
        } else {
            failed.push(key);
            proof {
                assert(processed.deep_view() =~= processed_keys(longer));
                assert(failed.deep_view() =~= failed_keys(longer));
            }
        }
        i += 1;
    }
    proof {
        assert(outs@.subrange(0, outs@.len() as int) =~= outs@);
    }
    (processed, failed)
}

/// Every batch item lands in exactly one of the two lists: their
/// lengths sum to the batch size, together they hold the batch's keys
/// with their exact multiplicities (no drops, no duplicates), and each
/// listed key comes from an item with the matching status.
pub proof fn lemma_partition_complete(items: Seq<(Seq<char>, bool)>)
    ensures
        processed_keys(items).len() + failed_keys(items).len() == items.len(),
        processed_keys(items).to_multiset().add(failed_keys(items).to_multiset()) == items
            .map_values(|p: (Seq<char>, bool)| p.0).to_multiset(),
        forall|k: Seq<char>| processed_keys(items).contains(k) ==> items.contains((k, true)),
        forall|k: Seq<char>| failed_keys(items).contains(k) ==> items.contains((k, false)),
    decreases items.len(),
{
    broadcast use vstd::seq_lib::group_to_multiset_ensures;

    if items.len() == 0 {
        assert(processed_keys(items).to_multiset().add(failed_keys(items).to_multiset())
            =~= items.map_values(|p: (Seq<char>, bool)| p.0).to_multiset());
    } else {
        lemma_partition_complete(items.drop_last());
        let front = items.drop_last();
        let k = items.last().0;
        let keys = items.map_values(|p: (Seq<char>, bool)| p.0);
        let front_keys = front.map_values(|p: (Seq<char>, bool)| p.0);
        assert(keys =~= front_keys.push(k));
        assert(keys.to_multiset() =~= front_keys.to_multiset().insert(k));
        if items.last().1 {
            assert(processed_keys(items) == processed_keys(front).push(k));
            assert(processed_keys(items).to_multiset() =~= processed_keys(
                front,
            ).to_multiset().insert(k));
            assert(processed_keys(items).to_multiset().add(failed_keys(items).to_multiset())
                =~= keys.to_multiset());
        } else {
            assert(failed_keys(items) == failed_keys(front).push(k));
            assert(failed_keys(items).to_multiset() =~= failed_keys(
                front,
            ).to_multiset().insert(k));
            assert(processed_keys(items).to_multiset().add(failed_keys(items).to_multiset())
                =~= keys.to_multiset());
        }
        assert forall|k: Seq<char>| processed_keys(items).contains(k) implies items.contains(
            (k, true),
        ) by {
            if items.last().1 && k == items.last().0 {
                assert(items[items.len() - 1] == (k, true));
            } else {
                assert(processed_keys(items.drop_last()).contains(k));
                let x = choose|x: int|
                    0 <= x < items.drop_last().len() && items.drop_last()[x] == (k, true);
                assert(items[x] == (k, true));
            }
        }
        assert forall|k: Seq<char>| failed_keys(items).contains(k) implies items.contains(
            (k, false),
        ) by {
            if !items.last().1 && k == items.last().0 {
                assert(items[items.len() - 1] == (k, false));
            } else {
                assert(failed_keys(items.drop_last()).contains(k));
                let x = choose|x: int|
                    0 <= x < items.drop_last().len() && items.drop_last()[x] == (k, false);
                assert(items[x] == (k, false));
            }
        }
    }
}

/// With distinct keys in the batch, the two lists are disjoint: no key
/// is reported both processed and failed.
pub proof fn lemma_partition_disjoint(items: Seq<(Seq<char>, bool)>)
    requires
        forall|a: int, b: int| 0 <= a < b < items.len() ==> items[a].0 != items[b].0,
    ensures
        forall|k: Seq<char>|
            !(processed_keys(items).contains(k) && failed_keys(items).contains(k)),
{
    lemma_partition_complete(items);
    assert forall|k: Seq<char>|
        !(processed_keys(items).contains(k) && failed_keys(items).contains(k)) by {
        if processed_keys(items).contains(k) && failed_keys(items).contains(k) {
            let a = choose|a: int| 0 <= a < items.len() && items[a] == (k, true);
            let b = choose|b: int| 0 <= b < items.len() && items[b] == (k, false);
            assert(items[a].0 == items[b].0);
            assert(a != b);
            assert(false);
        }
    }
}

/// A stage's report over one batch: the keys that were processed and
/// the keys that failed, in processing order, beside a summary message.
pub struct BatchReport {
    pub message: String,
    pub processed: Vec<String>,
    pub failed: Vec<String>,
}

/// Assembles the transcriber's report: partitions its upload outcomes
/// and restates the transcript bucket in the summary message.
pub fn transcriber_report(outcomes: &Vec<TransferOutcome>, transcript_bucket: &str) -> (r:
    BatchReport)
    ensures
        r.processed.deep_view() == processed_keys(outcome_model(outcomes@)),
        r.failed.deep_view() == failed_keys(outcome_model(outcomes@)),
        r.message@ == "DONE! Transcripts available in S3 Bucket: "@ + transcript_bucket@,
{
    let (processed, failed) = partition_outcomes(outcomes);
    let mut m = String::from_str("DONE! Transcripts available in S3 Bucket: ");
    m.append(transcript_bucket);
    BatchReport { message: m, processed, failed }
}

/// Assembles the cleanup stage's report: partitions its delete
/// outcomes and restates the video bucket in the summary message.
pub fn cleanup_report(outcomes: &Vec<TransferOutcome>, video_bucket: &str) -> (r: BatchReport)
    ensures
        r.processed.deep_view() == processed_keys(outcome_model(outcomes@)),
        r.failed.deep_view() == failed_keys(outcome_model(outcomes@)),
        r.message@ == "CLEANUP COMPLETE: "@ + video_bucket@,
{
    let (processed, failed) = partition_outcomes(outcomes);
    let mut m = String::from_str("CLEANUP COMPLETE: ");
    m.append(video_bucket);
    BatchReport { message: m, processed, failed }
}

} // verus!
