//! Finding, or else creating, the webhook of a channel.
use crate::errors::HandlerError;
use crate::model::Webhook;
use crate::operation::{is_run, Action, Progress, Reply, ReplyKind, Task};
use crate::validation::{check_webhook, webhook_refusal};
use vstd::prelude::*;

verus! {

/// How far the search for a webhook has come.
#[derive(Clone, Copy, Debug, PartialEq, Eq, Structural)]
pub enum WebhookStage {
    Begin,
    Listing,
    FindingParent,
    ListingParent,
    Creating,
    Ended,
}

/// Finds the first webhook of a channel. Where the channel turns out to have none of its
/// own because it is a thread, its parent is searched; where nothing is found, a webhook
/// is created.
pub struct GetOrCreateWebhook {
    pub channel_id: u64,
    pub default_webhook_username: String,
    pub stage: WebhookStage,
}

/// Begins to look for the webhook of a channel.
pub fn get_or_create_webhook(channel_id: u64, default_webhook_username: String) -> (task:
    GetOrCreateWebhook)
    ensures
        task.wf(),
        task == (GetOrCreateWebhook {
            channel_id,
            default_webhook_username,
            stage: WebhookStage::Begin,
        }),
{
    GetOrCreateWebhook { channel_id, default_webhook_username, stage: WebhookStage::Begin }
}

/// Whether a webhook is asked for.
pub open spec fn creates_webhook(progress: Progress<Webhook, HandlerError>) -> bool {
    progress matches Progress::Perform(action) && action is CreateWebhook
}

impl GetOrCreateWebhook {
    /// The same search, at another stage.
    pub open spec fn at(self, stage: WebhookStage) -> GetOrCreateWebhook {
        GetOrCreateWebhook { stage, ..self }
    }

    /// What follows from the webhooks of a channel: the first one, or else a new one, unless a
    /// webhook cannot have the name.
    pub open spec fn chosen(
        self,
        webhooks: Seq<Webhook>,
        next: Self,
        progress: Progress<Webhook, HandlerError>,
    ) -> bool {
        if webhooks.len() > 0 {
            next == self.at(WebhookStage::Ended) && progress.yields(webhooks[0])
        } else {
            match webhook_refusal(self.default_webhook_username@) {
                Some(reason) => next == self.at(WebhookStage::Ended) && progress.refuses_webhook(
                    reason,
                ),
                None => {
                    &&& next == self.at(WebhookStage::Creating)
                    &&& progress.performs(
                        Action::CreateWebhook {
                            channel_id: self.channel_id,
                            name: self.default_webhook_username,
                        },
                    )
                },
            }
        }
    }

    fn choose_webhook(self, webhooks: Vec<Webhook>) -> (res: (
        Self,
        Progress<Webhook, HandlerError>,
    ))
        ensures
            self.chosen(webhooks@, res.0, res.1),
    {
        let mut webhooks = webhooks;
        if webhooks.len() > 0 {
            let first = webhooks.remove(0);
            (GetOrCreateWebhook { stage: WebhookStage::Ended, ..self }, Progress::Done(first))
        } else if let Err(reason) = check_webhook(&self.default_webhook_username) {
            (
                GetOrCreateWebhook { stage: WebhookStage::Ended, ..self },
                Progress::Failed(HandlerError::ClientValidation(reason)),
            )
        } else {
            let name = self.default_webhook_username.clone();
            let action = Action::CreateWebhook { channel_id: self.channel_id, name };
            (GetOrCreateWebhook { stage: WebhookStage::Creating, ..self }, Progress::Perform(
                action,
            ))
        }
    }
}

impl Task for GetOrCreateWebhook {
    type Output = Webhook;

    type Error = HandlerError;

    open spec fn wf(self) -> bool {
        true
    }

    open spec fn awaits(self) -> Option<ReplyKind> {
        match self.stage {
            WebhookStage::Begin => Some(ReplyKind::Begin),
            WebhookStage::Listing => Some(ReplyKind::Webhooks),
            WebhookStage::FindingParent => Some(ReplyKind::Parent),
            WebhookStage::ListingParent => Some(ReplyKind::Webhooks),
            WebhookStage::Creating => Some(ReplyKind::Webhook),
            WebhookStage::Ended => None,
        }
    }

    open spec fn step(
        self,
        reply: Reply,
        next: Self,
        progress: Progress<Webhook, HandlerError>,
    ) -> bool {
        match reply {
            Reply::Begin => {
                &&& next == self.at(WebhookStage::Listing)
                &&& progress.performs(Action::GetWebhooks(self.channel_id))
            },
            Reply::Webhooks(webhooks) => self.chosen(webhooks@, next, progress),
            Reply::Parent(parent_id) => {
                &&& next == self.at(WebhookStage::ListingParent)
                &&& progress.performs(Action::GetWebhooks(parent_id))
            },
            Reply::Webhook(webhook) => next == self.at(WebhookStage::Ended) && progress.yields(
                webhook,
            ),
            Reply::Failed(failure) => if self.stage is Listing && failure.has_status(404) {
                &&& next == self.at(WebhookStage::FindingParent)
                &&& progress.performs(Action::GetThreadParent(self.channel_id))
            } else {
                next == self.at(WebhookStage::Ended) && progress.fails(HandlerError::of(failure))
            },
            _ => false,
        }
    }

    fn resume(self, reply: Reply) -> (res: (Self, Progress<Webhook, HandlerError>)) {
        match reply {
            Reply::Begin => {
                let action = Action::GetWebhooks(self.channel_id);
                (GetOrCreateWebhook { stage: WebhookStage::Listing, ..self }, Progress::Perform(
                    action,
                ))
            },
            Reply::Webhooks(webhooks) => self.choose_webhook(webhooks),
            Reply::Parent(parent_id) => {
                let action = Action::GetWebhooks(parent_id);
                (
                    GetOrCreateWebhook { stage: WebhookStage::ListingParent, ..self },
                    Progress::Perform(action),
                )
            },
            Reply::Webhook(webhook) => {
                (GetOrCreateWebhook { stage: WebhookStage::Ended, ..self }, Progress::Done(webhook))
            },
            Reply::Failed(failure) => {
                if self.stage == WebhookStage::Listing && failure.is_not_found() {
                    let action = Action::GetThreadParent(self.channel_id);
                    (
                        GetOrCreateWebhook { stage: WebhookStage::FindingParent, ..self },
                        Progress::Perform(action),
                    )
                } else {
                    (
                        GetOrCreateWebhook { stage: WebhookStage::Ended, ..self },
                        Progress::Failed(HandlerError::from_failure(failure)),
                    )
                }
            },
            _ => vstd::pervasive::unreached(),
        }
    }
}

/// A webhook is created only after a channel, or the parent of a thread, turned out to have
/// none.
pub proof fn webhook_is_created_only_for_want_of_one(
    task: GetOrCreateWebhook,
    reply: Reply,
    next: GetOrCreateWebhook,
    progress: Progress<Webhook, HandlerError>,
    channel_id: u64,
    name: String,
)
    requires
        task.step(reply, next, progress),
        progress.performs(Action::CreateWebhook { channel_id, name }),
    ensures
        reply matches Reply::Webhooks(webhooks) && webhooks@.len() == 0,
        channel_id == task.channel_id,
        name == task.default_webhook_username,
{
}

/// A search ends after at most four operations, so it creates at most one webhook.
pub proof fn webhook_search_is_short(
    tasks: Seq<GetOrCreateWebhook>,
    replies: Seq<Reply>,
    progress: Seq<Progress<Webhook, HandlerError>>,
)
    requires
        is_run(tasks, replies, progress),
        tasks[0].stage is Begin,
    ensures
        replies.len() <= 5,
        forall|i: int, j: int|
            0 <= i < replies.len() && 0 <= j < replies.len() && creates_webhook(
                #[trigger] progress[i],
            ) && creates_webhook(#[trigger] progress[j]) ==> i == j,
{
    if replies.len() > 0 {
        let reply = replies[0];
    }
    if replies.len() > 1 {
        let reply = replies[1];
    }
    if replies.len() > 2 {
        let reply = replies[2];
    }
    if replies.len() > 3 {
        let reply = replies[3];
    }
    if replies.len() > 4 {
        let reply = replies[4];
    }
    if replies.len() > 5 {
        let reply = replies[5];
    }
    assert forall|i: int, j: int|
        0 <= i < replies.len() && 0 <= j < replies.len() && creates_webhook(
            #[trigger] progress[i],
        ) && creates_webhook(#[trigger] progress[j]) implies i == j by {
        assert(i == 0 || i == 1 || i == 2 || i == 3 || i == 4);
        assert(j == 0 || j == 1 || j == 2 || j == 3 || j == 4);
    }
}

} // verus!
