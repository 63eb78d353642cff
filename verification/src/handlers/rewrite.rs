//! Carrying the mentions inside content over to the mirrored guild.
use crate::errors::HandlerError;
use crate::mention::{content_mentions, mentions_of, rewrite_mention, rewritten, Mention};
use crate::operation::{destination, Action, Progress, Reply, ReplyKind, Task};
use vstd::prelude::*;

verus! {

/// How far the rewriting has come.
#[derive(Clone, Copy, Debug, PartialEq, Eq, Structural)]
pub enum RewriteStage {
    Begin,
    LookingUp(usize),
    Ended,
}

/// Looks up what content mentions, one mention after the other, and lets each mention
/// that leads somewhere name what it leads to.
pub struct RewriteMentions {
    pub content: String,
    pub found: Vec<Mention>,
    pub stage: RewriteStage,
    /// The content before anything was looked up.
    pub original: Ghost<Seq<char>>,
    /// What the lookups so far led to.
    pub dests: Ghost<Seq<Option<u64>>>,
}

/// Begins to rewrite content that mentions the given roles.
pub fn rewrite_mentions(content: String, roles: &Vec<u64>) -> (task: RewriteMentions)
    ensures
        task.wf(),
        task.begins(content@, roles@),
{
    let found = content_mentions(content.as_str(), roles);
    let ghost original = content@;
    RewriteMentions {
        content,
        found,
        stage: RewriteStage::Begin,
        original: Ghost(original),
        dests: Ghost(Seq::empty()),
    }
}

impl RewriteMentions {
    /// Whether this is the rewriting of the given content at its beginning.
    pub open spec fn begins(self, content: Seq<char>, roles: Seq<u64>) -> bool {
        &&& self.stage is Begin
        &&& self.content@ == content
        &&& self.original@ == content
        &&& self.found@ == mentions_of(content, roles)
        &&& self.dests@.len() == 0
    }

    /// What follows once the lookups so far have led to `dests`: the next lookup, or the
    /// rewritten content.
    pub open spec fn advanced(
        self,
        dests: Seq<Option<u64>>,
        next: Self,
        progress: Progress<String, HandlerError>,
    ) -> bool {
        let content = rewritten(self.original@, self.found@, dests);
        if dests.len() < self.found@.len() {
            &&& next.stage == RewriteStage::LookingUp(dests.len() as usize)
            &&& next.content@ == content
            &&& next.found == self.found
            &&& next.original == self.original
            &&& next.dests@ == dests
            &&& progress.performs(
                Action::GetMapping { orig_id: self.found@[dests.len() as int].spec_id() },
            )
        } else {
            &&& next.stage is Ended
            &&& progress matches Progress::Done(result)
            &&& result@ == content
        }
    }

    /// Asks for the next lookup, or ends.
    fn advance(self, looked_up: usize) -> (res: (Self, Progress<String, HandlerError>))
        requires
            looked_up <= self.found@.len(),
            self.dests@.len() == looked_up,
            self.content@ == rewritten(self.original@, self.found@, self.dests@),
        ensures
            self.advanced(self.dests@, res.0, res.1),
            res.0.wf(),
            res.1.leaves(res.0.awaits()),
    {
        if looked_up < self.found.len() {
            let action = Action::GetMapping { orig_id: self.found[looked_up].id() };
            let next = RewriteMentions { stage: RewriteStage::LookingUp(looked_up), ..self };
            (next, Progress::Perform(action))
        } else {
            let next = RewriteMentions {
                content: String::new(),
                found: self.found,
                stage: RewriteStage::Ended,
                original: self.original,
                dests: self.dests,
            };
            (next, Progress::Done(self.content))
        }
    }
}

impl Task for RewriteMentions {
    type Output = String;

    type Error = HandlerError;

    open spec fn wf(self) -> bool {
        match self.stage {
            RewriteStage::Begin => {
                &&& self.dests@.len() == 0
                &&& self.content@ == self.original@
            },
            RewriteStage::LookingUp(i) => {
                &&& i < self.found@.len()
                &&& self.dests@.len() == i
                &&& self.content@ == rewritten(self.original@, self.found@, self.dests@)
            },
            RewriteStage::Ended => true,
        }
    }

    open spec fn awaits(self) -> Option<ReplyKind> {
        match self.stage {
            RewriteStage::Begin => Some(ReplyKind::Begin),
            RewriteStage::LookingUp(_) => Some(ReplyKind::Mapping),
            RewriteStage::Ended => None,
        }
    }

    open spec fn step(
        self,
        reply: Reply,
        next: Self,
        progress: Progress<String, HandlerError>,
    ) -> bool {
        match reply {
            Reply::Begin => self.advanced(Seq::empty(), next, progress),
            Reply::Mapping(found) => self.advanced(
                self.dests@.push(destination(found)),
                next,
                progress,
            ),
            Reply::Failed(failure) => next.stage is Ended && progress.fails(
                HandlerError::of(failure),
            ),
            _ => false,
        }
    }

    fn resume(self, reply: Reply) -> (res: (Self, Progress<String, HandlerError>)) {
        assert(self.wf());
        match (self.stage, reply) {
            (RewriteStage::Begin, Reply::Begin) => {
                assert(self.dests@ =~= Seq::<Option<u64>>::empty());
                self.advance(0)
            },
            (RewriteStage::LookingUp(i), Reply::Mapping(found)) => {
                let ghost dests = self.dests@.push(destination(found));
                assert(dests.drop_last() =~= self.dests@);
                assert(i < self.found.len());
                let content = match found {
                    Some(mapping) => rewrite_mention(
                        self.content.as_str(),
                        self.found[i],
                        mapping.ref_id(),
                    ),
                    None => self.content,
                };
                let task = RewriteMentions {
                    content,
                    found: self.found,
                    stage: self.stage,
                    original: self.original,
                    dests: Ghost(dests),
                };
                task.advance(i + 1)
            },
            (_, Reply::Failed(failure)) => {
                (
                    RewriteMentions { stage: RewriteStage::Ended, ..self },
                    Progress::Failed(HandlerError::from_failure(failure)),
                )
            },
            _ => vstd::pervasive::unreached(),
        }
    }
}

} // verus!
