//! Relaying the edit of a message.
use crate::config::GuildSettings;
use crate::errors::HandlerError;
use crate::handlers::message::{write_as, written_as};
use crate::handlers::reference::{message_link, message_url};
use crate::handlers::rewrite::{rewrite_mentions, RewriteMentions};
use crate::handlers::webhook::{get_or_create_webhook, GetOrCreateWebhook, WebhookStage};
use crate::model::{ChannelType, MessageUpdate, User, Webhook};
use crate::operation::{destination, Action, Progress, Reply, ReplyKind, Task, WebhookMessage};
use crate::validation::{
    check_embeds, content_refusal, first_of, first_refusal, message_content,
    optional_embeds_refusal, refuses, username_refusal, webhook_username, Refusal,
};
use vstd::prelude::*;

verus! {

// ---------------------------------------------------------------------------
// What is written
// ---------------------------------------------------------------------------

/// The content of an edited message, marked as such, with a link to the mirror of what was
/// edited where there is one.
pub open spec fn edited_content(
    guild_id: u64,
    channel_id: Option<u64>,
    message_id: Option<u64>,
    content: Seq<char>,
) -> Seq<char> {
    match (channel_id, message_id) {
        (Some(channel_id), Some(message_id)) => "[EDITED]\n"@ + message_link(
            guild_id,
            channel_id,
            message_id,
        ) + "\n\n"@ + content,
        _ => "[EDITED]\n\n"@ + content,
    }
}

/// The content of an edited message, marked as such.
pub fn mark_edited(
    guild_id: u64,
    channel_id: Option<u64>,
    message_id: Option<u64>,
    content: String,
) -> (marked: String)
    ensures
        marked@ == edited_content(guild_id, channel_id, message_id, content@),
{
    match (channel_id, message_id) {
        (Some(channel_id), Some(message_id)) => "[EDITED]\n".to_string().concat(
            message_url(guild_id, channel_id, message_id).as_str(),
        ).concat("\n\n").concat(content.as_str()),
        _ => "[EDITED]\n\n".to_string().concat(content.as_str()),
    }
}

/// Why the edit of a message cannot be written under the name of its author, where it is.
pub open spec fn author_refusal(use_webhook_profile: bool, author: Option<User>) -> Refusal {
    match author {
        Some(author) if !use_webhook_profile => username_refusal(author.name@),
        _ => None,
    }
}

/// Checks that the edit of a message can be written under the name of its author.
fn check_author(use_webhook_profile: bool, author: &Option<User>) -> (res: Result<(), String>)
    ensures
        refuses(res, author_refusal(use_webhook_profile, *author)),
{
    match author {
        Some(author) if !use_webhook_profile => match webhook_username(author.name.as_str()) {
            Ok(()) => Ok(()),
            Err((_, reason)) => Err(reason),
        },
        _ => Ok(()),
    }
}

/// What is kept of an edit while it is relayed.
pub struct Draft {
    pub id: u64,
    pub channel_id: u64,
    pub author: Option<User>,
    pub embeds: Option<Vec<String>>,
    pub dest_channel_id: u64,
    pub dest_kind: ChannelType,
    pub webhook_id: u64,
    pub token: Option<String>,
}

/// Whether a message written through a webhook relays an edit.
pub open spec fn relays(
    written: WebhookMessage,
    draft: Draft,
    token: String,
    use_webhook_profile: bool,
    content: Seq<char>,
) -> bool {
    &&& written.webhook_id == draft.webhook_id
    &&& written.token == token
    &&& written.thread_id is None
    &&& match draft.author {
        Some(author) => written_as(
            use_webhook_profile,
            author,
            written.username,
            written.avatar_url,
        ),
        None => written.username is None && written.avatar_url is None,
    }
    &&& written.attachments is None
    &&& written.embeds == draft.embeds
    &&& written.content@ == content
}

// ---------------------------------------------------------------------------
// The task
// ---------------------------------------------------------------------------

/// How far the relaying has come.
pub enum EditStage {
    Begin(MessageUpdate),
    FindingChannel(MessageUpdate),
    GettingChannel { update: MessageUpdate, dest_channel_id: u64 },
    Waiting { update: MessageUpdate, dest_channel_id: u64, dest_kind: ChannelType },
    FindingWebhook {
        update: MessageUpdate,
        dest_channel_id: u64,
        dest_kind: ChannelType,
        finding: GetOrCreateWebhook,
    },
    Rewriting { draft: Draft, rewriting: RewriteMentions },
    LocatingChannel { draft: Draft, token: String, content: String },
    LocatingMessage {
        draft: Draft,
        token: String,
        content: String,
        channel_id: Option<u64>,
    },
    Sending { dest_channel_id: u64, dest_kind: ChannelType },
    Crossposting,
    Ended,
}

/// Relays the edit of a message: writes the new content as a message of its own, with a
/// link to the mirror of what was edited, and passes it on in an announcement channel.
pub struct RelayEdit {
    pub dest_guild_id: u64,
    pub webhook_username: String,
    pub use_webhook_profile: bool,
    pub stage: EditStage,
}

/// Begins to relay the edit of a message.
pub fn relay_edit(update: MessageUpdate, settings: &GuildSettings) -> (task: RelayEdit)
    ensures
        task.wf(),
        task == (RelayEdit {
            dest_guild_id: settings.dest_guild_id,
            webhook_username: settings.webhook_username,
            use_webhook_profile: settings.message_settings.use_webhook_profile,
            stage: EditStage::Begin(update),
        }),
{
    RelayEdit {
        dest_guild_id: settings.dest_guild_id,
        webhook_username: settings.webhook_username.clone(),
        use_webhook_profile: settings.message_settings.use_webhook_profile,
        stage: EditStage::Begin(update),
    }
}

impl RelayEdit {
    /// The same relaying, at another stage.
    pub open spec fn at(self, stage: EditStage) -> RelayEdit {
        RelayEdit { stage, ..self }
    }

    /// Whether the relaying ends here.
    pub open spec fn ends(self, next: Self, progress: Progress<(), HandlerError>) -> bool {
        next == self.at(EditStage::Ended) && progress.yields(())
    }

    /// What follows from a step of the search for the webhook.
    pub open spec fn after_webhook(
        self,
        update: MessageUpdate,
        dest_channel_id: u64,
        dest_kind: ChannelType,
        finding: GetOrCreateWebhook,
        found: Progress<Webhook, HandlerError>,
        next: Self,
        progress: Progress<(), HandlerError>,
    ) -> bool {
        match found {
            Progress::Perform(action) => {
                &&& next == self.at(
                    EditStage::FindingWebhook { update, dest_channel_id, dest_kind, finding },
                )
                &&& progress.performs(action)
            },
            Progress::Failed(error) => next == self.at(EditStage::Ended) && progress.fails(error),
            Progress::Done(webhook) => match (update.content, update.mention_roles) {
                (Some(content), Some(mention_roles)) => {
                    let draft = Draft {
                        id: update.id,
                        channel_id: update.channel_id,
                        author: update.author,
                        embeds: update.embeds,
                        dest_channel_id,
                        dest_kind,
                        webhook_id: webhook.id,
                        token: webhook.token,
                    };
                    exists|task: RewriteMentions, rewriting: RewriteMentions, rewritten|
                        #![trigger task.step(Reply::Begin, rewriting, rewritten)]
                        {
                            &&& task.begins(content@, mention_roles@)
                            &&& task.step(Reply::Begin, rewriting, rewritten)
                            &&& self.after_rewriting(draft, rewriting, rewritten, next, progress)
                        }
                },
                _ => self.ends(next, progress),
            },
        }
    }

    /// What follows from a step of the rewriting.
    pub open spec fn after_rewriting(
        self,
        draft: Draft,
        rewriting: RewriteMentions,
        rewritten: Progress<String, HandlerError>,
        next: Self,
        progress: Progress<(), HandlerError>,
    ) -> bool {
        match rewritten {
            Progress::Perform(action) => {
                &&& next == self.at(EditStage::Rewriting { draft, rewriting })
                &&& progress.performs(action)
            },
            Progress::Failed(error) => next == self.at(EditStage::Ended) && progress.fails(error),
            Progress::Done(content) => match draft.token {
                Some(token) => match author_refusal(self.use_webhook_profile, draft.author) {
                    Some(reason) => next == self.at(EditStage::Ended) && progress.refuses_message(
                        reason,
                    ),
                    None => {
                        &&& next == self.at(EditStage::LocatingChannel { draft, token, content })
                        &&& progress.performs(Action::GetMapping { orig_id: draft.channel_id })
                    },
                },
                None => self.ends(next, progress),
            },
        }
    }

    fn end(self) -> (res: (Self, Progress<(), HandlerError>))
        ensures
            self.ends(res.0, res.1),
            res.0.wf(),
            res.1.leaves(res.0.awaits()),
    {
        (RelayEdit { stage: EditStage::Ended, ..self }, Progress::Done(()))
    }

    fn fail(self, error: HandlerError) -> (res: (Self, Progress<(), HandlerError>))
        ensures
            res.0 == self.at(EditStage::Ended),
            res.1.fails(error),
    {
        (RelayEdit { stage: EditStage::Ended, ..self }, Progress::Failed(error))
    }

    fn continue_rewriting(
        self,
        draft: Draft,
        step: (RewriteMentions, Progress<String, HandlerError>),
    ) -> (res: (Self, Progress<(), HandlerError>))
        requires
            step.0.wf(),
            step.1.leaves(step.0.awaits()),
        ensures
            self.after_rewriting(draft, step.0, step.1, res.0, res.1),
            res.0.wf(),
            res.1.leaves(res.0.awaits()),
    {
        let (rewriting, rewritten) = step;
        match rewritten {
            Progress::Perform(action) => {
                let stage = EditStage::Rewriting { draft, rewriting };
                (RelayEdit { stage, ..self }, Progress::Perform(action))
            },
            Progress::Failed(error) => self.fail(error),
            Progress::Done(content) => {
                match &draft.token {
                    Some(token) => {
                        let token = token.clone();
                        match check_author(self.use_webhook_profile, &draft.author) {
                            Ok(()) => {
                                let action = Action::GetMapping { orig_id: draft.channel_id };
                                let stage = EditStage::LocatingChannel { draft, token, content };
                                (RelayEdit { stage, ..self }, Progress::Perform(action))
                            },
                            Err(detail) => self.fail(HandlerError::ClientMessageValidation(detail)),
                        }
                    },
                    None => self.end(),
                }
            },
        }
    }

    fn continue_webhook(
        self,
        update: MessageUpdate,
        dest_channel_id: u64,
        dest_kind: ChannelType,
        step: (GetOrCreateWebhook, Progress<Webhook, HandlerError>),
    ) -> (res: (Self, Progress<(), HandlerError>))
        requires
            step.0.wf(),
            step.1.leaves(step.0.awaits()),
        ensures
            self.after_webhook(
                update,
                dest_channel_id,
                dest_kind,
                step.0,
                step.1,
                res.0,
                res.1,
            ),
            res.0.wf(),
            res.1.leaves(res.0.awaits()),
    {
        let (finding, found) = step;
        match found {
            Progress::Perform(action) => {
                let stage = EditStage::FindingWebhook {
                    update,
                    dest_channel_id,
                    dest_kind,
                    finding,
                };
                (RelayEdit { stage, ..self }, Progress::Perform(action))
            },
            Progress::Failed(error) => self.fail(error),
            Progress::Done(webhook) => {
                let MessageUpdate { id, channel_id, content, mention_roles, author, embeds } =
                    update;
                let Some(content) = content else {
                    return self.end();
                };
                let Some(mention_roles) = mention_roles else {
                    return self.end();
                };
                let draft = Draft {
                    id,
                    channel_id,
                    author,
                    embeds,
                    dest_channel_id,
                    dest_kind,
                    webhook_id: webhook.id,
                    token: webhook.token,
                };
                let rewriting = rewrite_mentions(content, &mention_roles);
                let step = rewriting.resume(Reply::Begin);
                self.continue_rewriting(draft, step)
            },
        }
    }
}

impl Task for RelayEdit {
    type Output = ();

    type Error = HandlerError;

    open spec fn wf(self) -> bool {
        match self.stage {
            EditStage::FindingWebhook { finding, .. } => finding.wf(),
            EditStage::Rewriting { rewriting, .. } => rewriting.wf(),
            _ => true,
        }
    }

    open spec fn awaits(self) -> Option<ReplyKind> {
        match self.stage {
            EditStage::Begin(_) => Some(ReplyKind::Begin),
            EditStage::FindingChannel(_) => Some(ReplyKind::Mapping),
            EditStage::GettingChannel { .. } => Some(ReplyKind::Channel),
            EditStage::Waiting { .. } => Some(ReplyKind::Done),
            EditStage::FindingWebhook { finding, .. } => finding.awaits(),
            EditStage::Rewriting { rewriting, .. } => rewriting.awaits(),
            EditStage::LocatingChannel { .. } => Some(ReplyKind::Mapping),
            EditStage::LocatingMessage { channel_id, .. } => Some(
                if channel_id is Some {
                    ReplyKind::Mapping
                } else {
                    ReplyKind::Record
                },
            ),
            EditStage::Sending { .. } => Some(ReplyKind::Sent),
            EditStage::Crossposting => Some(ReplyKind::Done),
            EditStage::Ended => None,
        }
    }

    open spec fn step(
        self,
        reply: Reply,
        next: Self,
        progress: Progress<(), HandlerError>,
    ) -> bool {
        let ended = self.at(EditStage::Ended);
        match (self.stage, reply) {
            (
                EditStage::FindingWebhook { update, dest_channel_id, dest_kind, finding: task },
                _,
            ) => exists|finding: GetOrCreateWebhook, found|
                #![trigger task.step(reply, finding, found)]
                {
                    &&& task.step(reply, finding, found)
                    &&& ended.after_webhook(
                        update,
                        dest_channel_id,
                        dest_kind,
                        finding,
                        found,
                        next,
                        progress,
                    )
                },
            (EditStage::Rewriting { draft, rewriting: task }, _) => exists|
                rewriting: RewriteMentions,
                rewritten,
            |
                #![trigger task.step(reply, rewriting, rewritten)]
                {
                    &&& task.step(reply, rewriting, rewritten)
                    &&& ended.after_rewriting(draft, rewriting, rewritten, next, progress)
                },
            (_, Reply::Failed(failure)) => next == ended && progress.fails(
                HandlerError::of(failure),
            ),
            (EditStage::Begin(update), Reply::Begin) => {
                &&& next == self.at(EditStage::FindingChannel(update))
                &&& progress.performs(Action::GetMapping { orig_id: update.channel_id })
            },
            (EditStage::FindingChannel(update), Reply::Mapping(found)) => match destination(
                found,
            ) {
                Some(dest_channel_id) => {
                    &&& next == self.at(EditStage::GettingChannel { update, dest_channel_id })
                    &&& progress.performs(Action::GetChannel(dest_channel_id))
                },
                None => ended.ends(next, progress),
            },
            (EditStage::GettingChannel { update, dest_channel_id }, Reply::Channel(channel)) => {
                &&& next == self.at(
                    EditStage::Waiting { update, dest_channel_id, dest_kind: channel.kind },
                )
                &&& progress.performs(Action::Sleep(1))
            },
            (
                EditStage::Waiting { update, dest_channel_id, dest_kind },
                Reply::Done,
            ) => exists|finding: GetOrCreateWebhook, found|
                #![trigger ended.after_webhook(update, dest_channel_id, dest_kind, finding, found, next, progress)]
                {
                    &&& (GetOrCreateWebhook {
                        channel_id: dest_channel_id,
                        default_webhook_username: self.webhook_username,
                        stage: WebhookStage::Begin,
                    }).step(Reply::Begin, finding, found)
                    &&& ended.after_webhook(
                        update,
                        dest_channel_id,
                        dest_kind,
                        finding,
                        found,
                        next,
                        progress,
                    )
                },
            (EditStage::LocatingChannel { draft, token, content }, Reply::Mapping(found)) => {
                &&& next == self.at(
                    EditStage::LocatingMessage {
                        draft,
                        token,
                        content,
                        channel_id: destination(found),
                    },
                )
                &&& progress.performs(
                    if found is Some {
                        Action::GetMapping { orig_id: draft.id }
                    } else {
                        Action::FindMapping { orig_id: draft.id }
                    },
                )
            },
            (
                EditStage::LocatingMessage { draft, token, content, channel_id },
                Reply::Mapping(found),
            ) => {
                let content = edited_content(
                    self.dest_guild_id,
                    channel_id,
                    destination(found),
                    content@,
                );
                match first_of(optional_embeds_refusal(draft.embeds), content_refusal(content)) {
                    Some(reason) => next == ended && progress.refuses_message(reason),
                    None => {
                        &&& next == self.at(
                            EditStage::Sending {
                                dest_channel_id: draft.dest_channel_id,
                                dest_kind: draft.dest_kind,
                            },
                        )
                        &&& progress matches Progress::Perform(Action::ExecuteWebhook(written))
                        &&& relays(written, draft, token, self.use_webhook_profile, content)
                    },
                }
            },
            (
                EditStage::Sending { dest_channel_id, dest_kind },
                Reply::Sent(message_id),
            ) => if dest_kind is GuildAnnouncement {
                &&& next == self.at(EditStage::Crossposting)
                &&& progress.performs(
                    Action::CrosspostMessage { channel_id: dest_channel_id, message_id },
                )
            } else {
                ended.ends(next, progress)
            },
            (EditStage::Crossposting, Reply::Done) => ended.ends(next, progress),
            _ => false,
        }
    }

    fn resume(self, reply: Reply) -> (res: (Self, Progress<(), HandlerError>)) {
        assert(self.wf());
        let RelayEdit { dest_guild_id, webhook_username, use_webhook_profile, stage } = self;
        let ended = RelayEdit {
            dest_guild_id,
            webhook_username,
            use_webhook_profile,
            stage: EditStage::Ended,
        };
        match (stage, reply) {
            (EditStage::FindingWebhook { update, dest_channel_id, dest_kind, finding }, reply) => {
                let step = finding.resume(reply);
                ended.continue_webhook(update, dest_channel_id, dest_kind, step)
            },
            (EditStage::Rewriting { draft, rewriting }, reply) => {
                let step = rewriting.resume(reply);
                ended.continue_rewriting(draft, step)
            },
            (_, Reply::Failed(failure)) => ended.fail(HandlerError::from_failure(failure)),
            (EditStage::Begin(update), Reply::Begin) => {
                let action = Action::GetMapping { orig_id: update.channel_id };
                (
                    RelayEdit { stage: EditStage::FindingChannel(update), ..ended },
                    Progress::Perform(action),
                )
            },
            (EditStage::FindingChannel(update), Reply::Mapping(found)) => {
                match found {
                    Some(mapping) => {
                        let dest_channel_id = mapping.ref_id();
                        let stage = EditStage::GettingChannel { update, dest_channel_id };
                        (
                            RelayEdit { stage, ..ended },
                            Progress::Perform(Action::GetChannel(dest_channel_id)),
                        )
                    },
                    None => ended.end(),
                }
            },
            (EditStage::GettingChannel { update, dest_channel_id }, Reply::Channel(channel)) => {
                let dest_kind = channel.kind;
                let stage = EditStage::Waiting { update, dest_channel_id, dest_kind };
                (RelayEdit { stage, ..ended }, Progress::Perform(Action::Sleep(1)))
            },
            (EditStage::Waiting { update, dest_channel_id, dest_kind }, Reply::Done) => {
                let name = ended.webhook_username.clone();
                let finding = get_or_create_webhook(dest_channel_id, name);
                let step = finding.resume(Reply::Begin);
                ended.continue_webhook(update, dest_channel_id, dest_kind, step)
            },
            (EditStage::LocatingChannel { draft, token, content }, Reply::Mapping(found)) => {
                let orig_id = draft.id;
                let (channel_id, action) = match found {
                    Some(mapping) => (Some(mapping.ref_id()), Action::GetMapping { orig_id }),
                    None => (None, Action::FindMapping { orig_id }),
                };
                let stage = EditStage::LocatingMessage { draft, token, content, channel_id };
                (RelayEdit { stage, ..ended }, Progress::Perform(action))
            },
            (
                EditStage::LocatingMessage { draft, token, content, channel_id },
                Reply::Mapping(found),
            ) => {
                let message_id = match (channel_id, found) {
                    (Some(_), Some(mapping)) => Some(mapping.ref_id()),
                    _ => None,
                };
                let content = mark_edited(dest_guild_id, channel_id, message_id, content);
                if let Err(reason) = first_refusal(
                    check_embeds(&draft.embeds),
                    message_content(content.as_str()),
                ) {
                    return ended.fail(HandlerError::ClientMessageValidation(reason));
                }
                let (username, avatar_url) = match draft.author {
                    Some(author) => write_as(use_webhook_profile, author),
                    None => (None, None),
                };
                let written = WebhookMessage {
                    webhook_id: draft.webhook_id,
                    token,
                    thread_id: None,
                    username,
                    avatar_url,
                    attachments: None,
                    embeds: draft.embeds,
                    content,
                };
                let stage = EditStage::Sending {
                    dest_channel_id: draft.dest_channel_id,
                    dest_kind: draft.dest_kind,
                };
                (
                    RelayEdit { stage, ..ended },
                    Progress::Perform(Action::ExecuteWebhook(written)),
                )
            },
            (EditStage::Sending { dest_channel_id, dest_kind }, Reply::Sent(message_id)) => {
                if dest_kind == ChannelType::GuildAnnouncement {
                    let action = Action::CrosspostMessage {
                        channel_id: dest_channel_id,
                        message_id,
                    };
                    (
                        RelayEdit { stage: EditStage::Crossposting, ..ended },
                        Progress::Perform(action),
                    )
                } else {
                    ended.end()
                }
            },
            (EditStage::Crossposting, Reply::Done) => ended.end(),
            _ => vstd::pervasive::unreached(),
        }
    }
}

} // verus!
