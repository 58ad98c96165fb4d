//! The trigger listener's decision.
//!
//! The listener is invoked once per storage event. Exactly one key,
//! the sentinel written after a completed upload batch, starts the
//! downstream workflow; every other key is merely acknowledged as an
//! upload.

use vstd::prelude::*;
use vstd::string::StringExecFns;
use crate::text::str_eq;

verus! {

/// The reserved key whose appearance in storage signals that an upload
/// batch is complete.
pub open spec fn sentinel_key() -> Seq<char> {
    "done.txt"@
}

/// What the listener does with one observed object key.
#[derive(Debug, PartialEq, Eq, Structural)]
pub enum TriggerDecision {
    /// The sentinel appeared: start the downstream workflow once.
    StartWorkflow,
    /// An ordinary upload: acknowledge it and start nothing.
    Observe,
}

/// Decides whether an observed object key is the batch sentinel, in
/// which case the workflow must be started.
pub fn classify_event_key(key: &str) -> (r: TriggerDecision)
    ensures
        r == TriggerDecision::StartWorkflow <==> key@ == sentinel_key(),
{
    if str_eq(key, "done.txt") {
        TriggerDecision::StartWorkflow
    } else {
        TriggerDecision::Observe
    }
}

/// The acknowledgment the listener returns for one observed key.
pub fn listener_ack(key: &str) -> (m: String)
    ensures
        key@ == sentinel_key() ==> m@ == "Transcription Pipeline triggered"@,
        key@ != sentinel_key() ==> m@ == "UPLOAD: "@ + key@,
{
    if str_eq(key, "done.txt") {
        String::from_str("Transcription Pipeline triggered")
    } else {
        let mut m = String::from_str("UPLOAD: ");
        m.append(key);
        m
    }
}

/// The fixed message the workflow is launched with.
pub fn launch_payload() -> (m: String)
    ensures
        m@ == "{\"input\": {\"payload\": \"Listener --> Step Function!\"}}"@,
{
    String::from_str("{\"input\": {\"payload\": \"Listener --> Step Function!\"}}")
}

} // verus!
