//! What to do with the body of a successful final response.
use vstd::prelude::*;
use crate::request::Method;
use crate::segment::SEGMENT_COUNT;

verus! {

/// Above this declared length a download to a file is split into ranges.
pub const SEGMENTED_THRESHOLD: u64 = 5_000_000;

/// Above this declared length a sequential download to a file shows progress.
pub const PROGRESS_THRESHOLD: u64 = 50_000;

/// How the body of the final response is handled.
#[derive(Clone, Copy, Debug, PartialEq, Eq, Structural)]
pub enum BodyPlan {
    /// `HEAD`: report status and elapsed time; no body, no destination.
    ReportHead,
    /// Copy the body to standard output.
    Print,
    /// Copy the body to the destination file in order, showing progress or not.
    Stream { total: u64, progress: bool },
    /// Fetch `total` bytes as `SEGMENT_COUNT` ranges and write each at its offset.
    Segmented { total: u64 },
}

/// The plan for a response of declared length `total` (0: unknown).
pub open spec fn plan_spec(method: Method, has_output: bool, total: u64) -> BodyPlan {
    if method == Method::Head {
        BodyPlan::ReportHead
    } else if !has_output {
        BodyPlan::Print
    } else if total > SEGMENTED_THRESHOLD {
        BodyPlan::Segmented { total }
    } else {
        BodyPlan::Stream { total, progress: total > PROGRESS_THRESHOLD }
    }
}

/// Whether a plan creates or writes the destination file.
pub open spec fn writes_destination(p: BodyPlan) -> bool {
    match p {
        BodyPlan::Stream { .. } | BodyPlan::Segmented { .. } => true,
        _ => false,
    }
}

/// Chooses how to handle the body: `HEAD` reads none; without a destination
/// file it is printed whatever its size; to a file it is fetched as ranges when
/// the declared length is above the threshold and streamed otherwise.
pub fn plan_body(method: Method, has_output: bool, total: u64) -> (p: BodyPlan)
    ensures
        p == plan_spec(method, has_output, total),
        p matches BodyPlan::Segmented { total: t } ==> t == total && t >= SEGMENT_COUNT,
{
    match method {
        Method::Head => BodyPlan::ReportHead,
        _ => {
            if !has_output {
                BodyPlan::Print
            } else if total > SEGMENTED_THRESHOLD {
                BodyPlan::Segmented { total }
            } else {
                BodyPlan::Stream { total, progress: total > PROGRESS_THRESHOLD }
            }
        },
    }
}

/// A body of unknown (zero) length is never fetched as ranges and shows no
/// progress: it is printed, or streamed whole to the destination file.
pub proof fn lemma_unknown_length_streams(method: Method, has_output: bool)
    requires
        method != Method::Head,
    ensures
        has_output ==> plan_spec(method, has_output, 0) == (BodyPlan::Stream { total: 0, progress: false }),
        !has_output ==> plan_spec(method, has_output, 0) == BodyPlan::Print,
{
}

} // verus!
