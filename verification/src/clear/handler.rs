//! The answer to a request to clear a topic.
use vstd::prelude::*;

use crate::clear::request::{read_request, ObjectApiClearRequest, TOPIC_LABEL};
use crate::text::opt_text;

verus! {

/// Why a request was not granted.
#[derive(Debug, PartialEq, Eq)]
pub enum ErrorCode {
    /// It was granted.
    NoError,
    PermissionDenied,
    TopicNotFound,
    Other(String),
}

/// The answer to a request about an object.
#[derive(Debug, PartialEq, Eq)]
pub struct Status {
    pub name: String,
    pub error_code: ErrorCode,
    pub error_entity: Option<String>,
}

/// What follows from a request.
#[derive(Debug)]
pub enum ClearStep {
    /// The question is put whether the requester may delete this topic. `reset_high_watermark` is
    /// what the request says of its high watermarks.
    Authorize { topic: String, reset_high_watermark: bool },
    /// The request is answered.
    Reply(Status),
}

/// Starts on a request: one about a topic is looked at further, any other one is answered at once.
/// Fails where the request is about a topic and does not say which.
pub fn handle_clear_request(request: &ObjectApiClearRequest) -> (r: Result<
    ClearStep,
    std::io::Error,
>)
    ensures
        (match r {
            Ok(ClearStep::Authorize { topic, reset_high_watermark }) => {
                &&& request.ty@ == TOPIC_LABEL@
                &&& read_request(request.buf@) == Some((topic@, reset_high_watermark))
            },
            Ok(ClearStep::Reply(status)) => {
                &&& request.ty@ != TOPIC_LABEL@
                &&& status.is_unknown_object()
            },
            Err(_) => request.ty@ == TOPIC_LABEL@ && read_request(request.buf@) is None,
        }),
{
    match request.downcast(TOPIC_LABEL) {
        Ok(Some(clear)) => {
            let reset_high_watermark = clear.reset_high_watermark();
            Ok(ClearStep::Authorize { topic: clear.key(), reset_high_watermark })
        },
        Ok(None) => Ok(ClearStep::Reply(unknown_object_status())),
        Err(e) => Err(e),
    }
}

/// The kind of an error of input or output.
#[derive(Debug, Clone, Copy, PartialEq, Eq, Structural)]
pub enum FailureKind {
    Interrupted,
}

/// What follows from the question whether the requester may delete the topic.
#[derive(Debug)]
pub enum AuthStep {
    /// The request goes on: the topic is looked up.
    Proceed,
    /// The request is answered.
    Reply(Status),
    /// The question could not be answered: the request fails with an error of this kind, for this
    /// reason.
    Failed { kind: FailureKind, reason: &'static str },
}

/// Goes on after the question whether the requester may delete the topic: `allowed` is the answer,
/// where there was one.
pub fn authorization_step(topic: &str, allowed: Option<bool>) -> (step: AuthStep)
    ensures
        (match allowed {
            Some(true) => step is Proceed,
            Some(false) => {
                &&& step matches AuthStep::Reply(status)
                &&& status.name@ == topic@
                &&& status.error_code is PermissionDenied
                &&& opt_text(status.error_entity) == Some("permission denied"@)
            },
            None => {
                &&& step matches AuthStep::Failed { kind, reason }
                &&& kind == FailureKind::Interrupted
                &&& reason@ == "authorization io error"@
            },
        }),
{
    match allowed {
        Some(authorized) => if authorized {
            AuthStep::Proceed
        } else {
            AuthStep::Reply(
                Status {
                    name: topic.to_owned(),
                    error_code: ErrorCode::PermissionDenied,
                    error_entity: Some("permission denied".to_owned()),
                },
            )
        },
        None => AuthStep::Failed {
            kind: FailureKind::Interrupted,
            reason: "authorization io error",
        },
    }
}

/// The answer to a request that was allowed: whether there is such a topic decides.
pub fn clear_topic_status(topic: String, exists: bool) -> (status: Status)
    ensures
        status.name == topic,
        exists ==> status.error_code is NoError && status.error_entity is None,
        !exists ==> status.error_code is TopicNotFound && opt_text(status.error_entity) == Some(
            "not found"@,
        ),
{
    if exists {
        Status { name: topic, error_code: ErrorCode::NoError, error_entity: None }
    } else {
        Status {
            name: topic,
            error_code: ErrorCode::TopicNotFound,
            error_entity: Some("not found".to_owned()),
        }
    }
}

/// A partition whose data is truncated, and whether its high watermark is reset.
#[derive(Debug, PartialEq, Eq)]
pub struct PartitionClear {
    pub topic: String,
    pub partition: u32,
    pub reset_high_watermark: bool,
}

/// What is done for a request that was allowed, and its answer.
#[derive(Debug)]
pub struct ClearPlan {
    pub partitions: Vec<PartitionClear>,
    pub status: Status,
}

/// Decides what is done for a request that was allowed: all data of every partition of the topic is
/// truncated, and its high watermark is reset where the request says so. Nothing else is touched: the
/// topic stays, and so does every other topic. `partitions` are those of the topic, none where
/// there is no such topic.
pub fn clear_topic(
    topic: String,
    partitions: Option<Vec<u32>>,
    reset_high_watermark: bool,
) -> (plan: ClearPlan)
    ensures
        plan.status.name == topic,
        (match partitions {
            Some(list) => {
                &&& plan.partitions@.len() == list@.len()
                &&& forall|i: int|
                    0 <= i < list@.len() ==> {
                        &&& (#[trigger] plan.partitions@[i]).topic@ == topic@
                        &&& plan.partitions@[i].partition == list@[i]
                        &&& plan.partitions@[i].reset_high_watermark == reset_high_watermark
                    }
                &&& plan.status.error_code is NoError && plan.status.error_entity is None
            },
            None => {
                &&& plan.partitions@.len() == 0
                &&& plan.status.error_code is TopicNotFound
                &&& opt_text(plan.status.error_entity) == Some("not found"@)
            },
        }),
{
    let mut cleared: Vec<PartitionClear> = Vec::new();
    match partitions {
        Some(list) => {
            let mut i: usize = 0;
            while i < list.len()
                invariant
                    i <= list@.len(),
                    cleared@.len() == i,
                    forall|k: int|
                        0 <= k < i ==> {
                            &&& (#[trigger] cleared@[k]).topic@ == topic@
                            &&& cleared@[k].partition == list@[k]
                            &&& cleared@[k].reset_high_watermark == reset_high_watermark
                        },
                decreases list.len() - i,
            {
                cleared.push(
                    PartitionClear {
                        topic: topic.clone(),
                        partition: list[i],
                        reset_high_watermark,
                    },
                );
                i += 1;
            }
            ClearPlan { partitions: cleared, status: clear_topic_status(topic, true) }
        },
        None => ClearPlan { partitions: cleared, status: clear_topic_status(topic, false) },
    }
}

impl Status {
    /// The answer to a request about an object of a kind that cannot be cleared.
    pub open spec fn is_unknown_object(self) -> bool {
        &&& self.name@ == "clear error"@
        &&& self.error_code matches ErrorCode::Other(reason)
        &&& reason@ == "unknown admin object type"@
        &&& self.error_entity is None
    }
}

/// The answer to a request about an object of a kind that cannot be cleared.
pub fn unknown_object_status() -> (status: Status)
    ensures
        status.is_unknown_object(),
{
    Status {
        name: "clear error".to_owned(),
        error_code: ErrorCode::Other("unknown admin object type".to_owned()),
        error_entity: None,
    }
}

/// A request about an object of a kind that cannot be cleared is not granted: the answer says that the
/// kind is not known.
pub proof fn law_unknown_kind_is_refused(status: Status)
    requires
        status.is_unknown_object(),
    ensures
        !(status.error_code is NoError),
        status.error_code is Other && status.error_code->Other_0@ == "unknown admin object type"@,
        status.name@ == "clear error"@,
        status.error_entity is None,
{
}

} // verus!
