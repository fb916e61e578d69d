//! The deletion of the topics whose source namespace goes.
use vstd::prelude::*;

verus! {

/// The label that ties a topic to the namespace it came from.
pub const SOURCE_NAMESPACE_LABEL: &'static str = "fluvio.io/source-namespace";

/// Seconds until a namespace is looked at again after a failure.
pub const GC_RETRY_DELAY: u64 = 30;

/// The code with which the cluster says that there is no such object.
pub const GONE: u16 = 404;

/// Where the run stands.
#[derive(Debug, Clone, Copy, PartialEq, Eq, Structural)]
pub enum GcStage {
    /// The topics of the namespace are awaited.
    Listing,
    /// A topic is being deleted.
    Deleting,
    /// Nothing is left to do.
    Done,
}

/// What the run asks for.
#[derive(Debug)]
pub enum GcAction {
    /// List the topics that carry a label.
    List { selector: String },
    /// Delete a topic.
    Delete { name: String },
    /// Wait until the namespace changes.
    AwaitChange,
    /// Give up, with the error at hand.
    Fail,
}

/// The reply of the cluster to a deletion.
#[derive(Debug, Clone, Copy, PartialEq, Eq, Structural)]
pub enum DeleteReply {
    Deleted,
    /// The cluster refused, with a code.
    Refused(u16),
    /// The cluster did not reply.
    Failed,
}

/// The deletion of the topics of one namespace.
#[derive(Debug)]
pub struct GcRun {
    pub namespace: String,
    pub dry_run: bool,
    pub topics: Vec<String>,
    /// The topic at hand.
    pub next: usize,
    pub stage: GcStage,
}

/// The label of the topics that came from a namespace.
pub open spec fn source_selector(namespace: Seq<char>) -> Seq<char> {
    SOURCE_NAMESPACE_LABEL@ + "="@ + namespace
}

/// Whether the topic is gone after a reply.
pub open spec fn is_gone(reply: DeleteReply) -> bool {
    reply == DeleteReply::Deleted || reply == DeleteReply::Refused(GONE)
}

impl GcRun {
    pub open spec fn wf(self) -> bool {
        self.stage == GcStage::Deleting ==> !self.dry_run && self.next < self.topics@.len()
    }

    /// The run stands before the topic `index`, or at its end where there is no such topic.
    pub open spec fn stands_before(self, index: int, action: GcAction) -> bool {
        if index < self.topics@.len() {
            &&& self.stage == GcStage::Deleting
            &&& self.next == index
            &&& action matches GcAction::Delete { name }
            &&& name@ == self.topics@[index]@
        } else {
            &&& self.stage == GcStage::Done
            &&& action is AwaitChange
        }
    }

    /// Starts on a namespace. Nothing is done for one that is not being deleted.
    pub fn start(namespace: &str, being_deleted: bool, dry_run: bool) -> (r: (GcRun, GcAction))
        ensures
            r.0.wf(),
            r.0.namespace@ == namespace@,
            r.0.dry_run == dry_run,
            being_deleted ==> r.0.stage == GcStage::Listing && (r.1 matches GcAction::List {
                selector,
            } && selector@ == source_selector(namespace@)),
            !being_deleted ==> r.0.stage == GcStage::Done && r.1 is AwaitChange,
    {
        let run = GcRun {
            namespace: namespace.to_owned(),
            dry_run,
            topics: Vec::new(),
            next: 0,
            stage: if being_deleted {
                GcStage::Listing
            } else {
                GcStage::Done
            },
        };
        if being_deleted {
            let selector = SOURCE_NAMESPACE_LABEL.to_owned().concat("=").concat(namespace);
            (run, GcAction::List { selector })
        } else {
            (run, GcAction::AwaitChange)
        }
    }

    /// Takes the topics that came from the namespace. All are deleted, one after the other; in a dry
    /// run none is.
    pub fn listed(&mut self, topics: Vec<String>) -> (action: GcAction)
        requires
            old(self).wf(),
            old(self).stage == GcStage::Listing,
        ensures
            final(self).wf(),
            final(self).namespace == old(self).namespace,
            final(self).dry_run == old(self).dry_run,
            final(self).topics == topics,
            old(self).dry_run ==> final(self).stage == GcStage::Done && action is AwaitChange,
            !old(self).dry_run ==> final(self).stands_before(0, action),
    {
        self.topics = topics;
        self.next = 0;
        if self.dry_run || self.topics.len() == 0 {
            self.stage = GcStage::Done;
            GcAction::AwaitChange
        } else {
            self.stage = GcStage::Deleting;
            GcAction::Delete { name: self.topics[0].clone() }
        }
    }

    /// Takes the reply to a deletion. A topic that was gone already is as good as deleted; any other
    /// failure ends the run.
    pub fn deleted(&mut self, reply: DeleteReply) -> (action: GcAction)
        requires
            old(self).wf(),
            old(self).stage == GcStage::Deleting,
        ensures
            final(self).wf(),
            final(self).namespace == old(self).namespace,
            final(self).dry_run == old(self).dry_run,
            final(self).topics == old(self).topics,
            is_gone(reply) ==> final(self).stands_before(old(self).next + 1, action),
            !is_gone(reply) ==> final(self).stage == GcStage::Done && action is Fail,
    {
        let gone = match reply {
            DeleteReply::Deleted => true,
            DeleteReply::Refused(code) => code == GONE,
            DeleteReply::Failed => false,
        };
        if !gone {
            self.stage = GcStage::Done;
            return GcAction::Fail;
        }
        if self.next < self.topics.len() - 1 {
            self.next = self.next + 1;
            GcAction::Delete { name: self.topics[self.next].clone() }
        } else {
            self.stage = GcStage::Done;
            GcAction::AwaitChange
        }
    }
}

/// The topics of a namespace are those whose label for the source namespace is the name of it.
pub proof fn law_topics_are_found_by_their_source(namespace: Seq<char>)
    ensures
        source_selector(namespace) == "fluvio.io/source-namespace="@ + namespace,
{
    reveal_strlit("fluvio.io/source-namespace");
    reveal_strlit("=");
    reveal_strlit("fluvio.io/source-namespace=");
    assert("fluvio.io/source-namespace="@ =~= SOURCE_NAMESPACE_LABEL@ + "="@);
}

/// A topic is gone after it was deleted, and where the cluster says that there is none of its name.
/// It is not where the cluster refuses for another reason or does not reply.
pub proof fn law_when_a_topic_is_gone(code: u16)
    ensures
        is_gone(DeleteReply::Deleted),
        is_gone(DeleteReply::Refused(code)) <==> code == 404,
        !is_gone(DeleteReply::Failed),
{
}

/// The topics are deleted one after the other, each by its name, and the run ends behind the last.
pub proof fn law_topics_are_deleted_in_turn(run: GcRun, index: int, action: GcAction)
    requires
        0 <= index,
        run.stands_before(index, action),
    ensures
        index < run.topics@.len() ==> run.next == index && run.stage == GcStage::Deleting && (
        action matches GcAction::Delete { name } && name@ == run.topics@[index]@),
        index >= run.topics@.len() ==> run.stage == GcStage::Done && action is AwaitChange,
{
}

} // verus!
