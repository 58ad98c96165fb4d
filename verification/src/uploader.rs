//! The batch uploader's sequencing decisions.
//!
//! The uploader walks candidate video paths in enumeration order.
//! Validation failure is fatal to the whole batch: the first invalid
//! path halts planning and nothing after it is uploaded. Every path
//! before it is planned with its derived storage key. (Transfer
//! failures, by contrast, are per-item and do not halt a batch; and
//! the sentinel that closes a batch is uploaded unconditionally,
//! outside the plan.)

use vstd::prelude::*;
use crate::keys::extract_key;
use crate::keys::extract_key_spec;
use crate::keys::failure_reason;
use crate::keys::lemma_valid_path_has_key;
use crate::keys::valid_video_path;
use crate::keys::validate_path;

verus! {

/// One upload the plan calls for: a local file and the storage key it
/// is sent under.
pub struct PlannedUpload {
    pub path: String,
    pub key: String,
}

/// The uploader's plan for one batch of candidate paths.
pub struct UploadPlan {
    /// Uploads for the longest prefix of candidates that validate.
    pub uploads: Vec<PlannedUpload>,
    /// The first validation failure's message, which halted the batch.
    pub halt: Option<String>,
}

/// Plans a batch upload over the candidate paths, in order: each path
/// is validated, and the first invalid one halts the batch with its
/// validation message; each valid path before it is planned under its
/// derived key.
pub fn plan_uploads(paths: &Vec<String>) -> (r: UploadPlan)
    ensures
        r.uploads@.len() <= paths@.len(),
        forall|i: int|
            0 <= i < r.uploads@.len() ==> valid_video_path(#[trigger] paths.deep_view()[i])
                && r.uploads@[i].path@ == paths.deep_view()[i] && Some(r.uploads@[i].key@)
                == extract_key_spec(paths.deep_view()[i]),
        r.halt is None ==> r.uploads@.len() == paths@.len(),
        r.halt matches Some(m) ==> r.uploads@.len() < paths@.len() && !valid_video_path(
            paths.deep_view()[r.uploads@.len() as int],
        ) && m@ == failure_reason(paths.deep_view()[r.uploads@.len() as int]),
{
    let mut uploads: Vec<PlannedUpload> = Vec::new();
    let mut i: usize = 0;
    while i < paths.len()
        invariant
            i <= paths@.len(),
            uploads@.len() == i,
            paths.deep_view().len() == paths@.len(),
            forall|j: int|
                0 <= j < i ==> valid_video_path(#[trigger] paths.deep_view()[j])
                    && uploads@[j].path@ == paths.deep_view()[j] && Some(uploads@[j].key@)
                    == extract_key_spec(paths.deep_view()[j]),
        decreases paths@.len() - i,
    {
        proof {
            assert(paths.deep_view()[i as int] == paths@[i as int]@);
        }
        let p = &paths[i];
        match validate_path(p.as_str()) {
            Err(m) => {
                return UploadPlan { uploads, halt: Some(m) };
            },
            Ok(()) => {},
        }
        proof {
            lemma_valid_path_has_key(p@);
        }
        let key = match extract_key(p.as_str()) {
            Some(k) => k,
            None => vstd::pervasive::unreached(),
        };
        uploads.push(PlannedUpload { path: p.clone(), key });
        i += 1;
    }
    UploadPlan { uploads, halt: None }
}

} // verus!
