//! What becomes of the edit of a message.
use super::content::{
    asked, is_looked_up, is_rewriting, looked_up, result_of, rewriting_begins, rewriting_goes_on,
};
use super::{begins, mirror_id};
use crate::config::GuildSettings;
use crate::errors::HandlerError;
use crate::handlers::edit::{Draft, EditStage, RelayEdit};
use crate::handlers::event::{Event, EventTask, HandleSingleEvent};
use crate::handlers::rewrite::RewriteMentions;
use crate::handlers::webhook::{GetOrCreateWebhook, WebhookStage};
use crate::model::{MessageUpdate, User, Webhook};
use crate::operation::{
    destination, is_run, runs_end, Action, Progress, Reply, Task, WebhookMessage,
};
use crate::text::decimal;
use vstd::prelude::*;

verus! {

/// Whether an answer gave a webhook: as the first of those that a channel has, or as one that was
/// created.
pub open spec fn gives_webhook(reply: Reply, id: u64, token: Option<String>) -> bool {
    match reply {
        Reply::Webhooks(webhooks) => webhooks@.len() > 0 && webhooks@[0].id == id
            && webhooks@[0].token == token,
        Reply::Webhook(webhook) => webhook.id == id && webhook.token == token,
        _ => false,
    }
}

/// Whether a message is written under the name and with the picture of its author, unless the
/// webhook keeps its own.
pub open spec fn is_written_by(
    written: WebhookMessage,
    author: Option<User>,
    use_webhook_profile: bool,
) -> bool {
    match author {
        Some(author) if !use_webhook_profile => {
            &&& written.username == Some(author.name)
            &&& match author.avatar {
                Some(avatar) => written.avatar_url is Some && written.avatar_url->0@
                    == "https://cdn.discordapp.com/avatars/"@ + decimal(author.id as nat) + "/"@
                    + avatar@ + ".png"@,
                None => written.avatar_url is None,
            }
        },
        _ => written.username is None && written.avatar_url is None,
    }
}

/// The content of an edit: marked as one, and with a link to the mirror of what was edited where
/// the lookups of the channel and of the message both found one.
pub open spec fn edit_of(
    content: Seq<char>,
    dest_guild_id: u64,
    channel: Reply,
    message: Reply,
) -> Seq<char> {
    match (channel, message) {
        (Reply::Mapping(Some(channel)), Reply::Mapping(Some(message))) => "[EDITED]\n"@ + (
        "https://discord.com/channels/"@ + decimal(dest_guild_id as nat) + "/"@ + decimal(
            mirror_id(channel) as nat,
        ) + "/"@ + decimal(mirror_id(message) as nat)) + "\n\n"@ + content,
        _ => "[EDITED]\n\n"@ + content,
    }
}

/// Whether a draft is that of an edit, with the webhook that an answer gave.
pub open spec fn is_draft(draft: Draft, update: MessageUpdate, reply: Reply) -> bool {
    &&& draft.id == update.id
    &&& draft.channel_id == update.channel_id
    &&& draft.author == update.author
    &&& draft.embeds == update.embeds
    &&& gives_webhook(reply, draft.webhook_id, draft.token)
}

/// Whether these are the mirror of the channel of an edit, and what it is.
pub open spec fn is_dest(dest_channel_id: u64, replies: Seq<Reply>) -> bool {
    replies[2] matches Reply::Mapping(Some(found)) && dest_channel_id == mirror_id(found)
}

/// Whether a relaying waits for the answer after `k`.
pub open spec fn is_relaying(
    task: RelayEdit,
    update: MessageUpdate,
    settings: GuildSettings,
    actions: Seq<Option<Action>>,
    replies: Seq<Reply>,
    k: int,
) -> bool {
    let content = update.content->0@;
    let roles = update.mention_roles->0@;
    let n = looked_up(content, roles).len() as int;
    &&& task.dest_guild_id == settings.dest_guild_id
    &&& task.webhook_username == settings.webhook_username
    &&& task.use_webhook_profile == settings.message_settings.use_webhook_profile
    &&& match task.stage {
        EditStage::Begin(_) => false,
        EditStage::FindingChannel(kept) => kept == update && k == 1,
        EditStage::GettingChannel { update: kept, dest_channel_id } => {
            &&& kept == update
            &&& k == 2
            &&& is_dest(dest_channel_id, replies)
        },
        EditStage::Waiting { update: kept, dest_channel_id, dest_kind } => {
            &&& kept == update
            &&& k == 3
            &&& is_dest(dest_channel_id, replies)
            &&& replies[3] matches Reply::Channel(channel) && channel.kind == dest_kind
        },
        EditStage::FindingWebhook { update: kept, dest_channel_id, dest_kind, finding } => {
            &&& kept == update
            &&& k >= 4
            &&& is_dest(dest_channel_id, replies)
            &&& replies[3] matches Reply::Channel(channel) && channel.kind == dest_kind
            &&& finding.channel_id == dest_channel_id
            &&& finding.default_webhook_username == settings.webhook_username
            &&& !(finding.stage is Begin)
        },
        EditStage::Rewriting { draft, rewriting } => {
            let start = k - rewriting.dests@.len();
            &&& k >= 4
            &&& update.content is Some
            &&& update.mention_roles is Some
            &&& is_draft(draft, update, replies[start])
            &&& is_dest(draft.dest_channel_id, replies)
            &&& replies[3] matches Reply::Channel(channel) && channel.kind == draft.dest_kind
            &&& is_rewriting(rewriting, content, roles, actions, replies, start, k)
        },
        EditStage::LocatingChannel { draft, token, content: carried } => {
            let start = k - n;
            &&& k >= 4
            &&& update.content is Some
            &&& update.mention_roles is Some
            &&& is_draft(draft, update, replies[start])
            &&& draft.token == Some(token)
            &&& is_dest(draft.dest_channel_id, replies)
            &&& replies[3] matches Reply::Channel(channel) && channel.kind == draft.dest_kind
            &&& is_looked_up(content, roles, actions, replies, start)
            &&& carried@ == result_of(content, roles, replies, start)
            &&& actions[k] == Some(Action::GetMapping { orig_id: update.channel_id })
        },
        EditStage::LocatingMessage { draft, token, content: carried, channel_id } => {
            let start = k - 1 - n;
            &&& k >= 4
            &&& update.content is Some
            &&& update.mention_roles is Some
            &&& is_draft(draft, update, replies[start])
            &&& draft.token == Some(token)
            &&& is_dest(draft.dest_channel_id, replies)
            &&& replies[3] matches Reply::Channel(channel) && channel.kind == draft.dest_kind
            &&& is_looked_up(content, roles, actions, replies, start)
            &&& carried@ == result_of(content, roles, replies, start)
            &&& actions[k - 1] == Some(Action::GetMapping { orig_id: update.channel_id })
            &&& replies[k] is Mapping
            &&& channel_id == destination(replies[k]->Mapping_0)
            &&& actions[k] == Some(
                if channel_id is Some {
                    Action::GetMapping { orig_id: update.id }
                } else {
                    Action::FindMapping { orig_id: update.id }
                },
            )
        },
        EditStage::Sending { dest_channel_id, dest_kind } => {
            &&& is_dest(dest_channel_id, replies)
            &&& replies[3] matches Reply::Channel(channel) && channel.kind == dest_kind
        },
        EditStage::Crossposting => true,
        EditStage::Ended => true,
    }
}

/// Whether a message that was asked for after answer `i` relays an edit: everything that the edit
/// mentions was looked up, and so were the channel and the message; the content is that of the
/// edit in which each mention names its mirror, marked and with its link; the embeds are those of
/// the edit; and it is written through the webhook that was found, under the author's name.
pub open spec fn writes_edit(
    written: WebhookMessage,
    update: MessageUpdate,
    settings: GuildSettings,
    actions: Seq<Option<Action>>,
    replies: Seq<Reply>,
    i: int,
) -> bool {
    let content = update.content->0@;
    let roles = update.mention_roles->0@;
    let n = looked_up(content, roles).len() as int;
    let start = i - 2 - n;
    &&& update.content is Some
    &&& update.mention_roles is Some
    &&& is_looked_up(content, roles, actions, replies, start)
    &&& actions[i - 2] == Some(Action::GetMapping { orig_id: update.channel_id })
    &&& actions[i - 1] == Some(Action::GetMapping { orig_id: update.id }) || actions[i - 1] == Some(
        Action::FindMapping { orig_id: update.id },
    )
    &&& written.content@ == edit_of(
        result_of(content, roles, replies, start),
        settings.dest_guild_id,
        replies[i - 1],
        replies[i],
    )
    &&& written.embeds == update.embeds
    &&& written.attachments is None
    &&& written.thread_id is None
    &&& gives_webhook(replies[start], written.webhook_id, Some(written.token))
    &&& is_written_by(written, update.author, settings.message_settings.use_webhook_profile)
}

/// Whether what is asked for after answer `i` relays an edit: the mirror of its channel is looked up
/// and got, its webhook is found or created under the configured name, the edit is written through it,
/// and passed on in an announcement channel.
pub open spec fn is_to_relay(
    action: Action,
    update: MessageUpdate,
    settings: GuildSettings,
    actions: Seq<Option<Action>>,
    replies: Seq<Reply>,
    i: int,
) -> bool {
    match action {
        Action::ExecuteWebhook(written) => writes_edit(
            written,
            update,
            settings,
            actions,
            replies,
            i,
        ),
        Action::CrosspostMessage { channel_id, message_id } => {
            &&& is_dest(channel_id, replies)
            &&& replies[3] matches Reply::Channel(channel) && channel.kind is GuildAnnouncement
            &&& replies[i] == Reply::Sent(message_id)
        },
        Action::CreateWebhook { channel_id, name } => {
            &&& is_dest(channel_id, replies)
            &&& name == settings.webhook_username
        },
        Action::GetWebhooks(id) => is_dest(id, replies) || replies[i] == Reply::Parent(id),
        Action::GetThreadParent(id) => is_dest(id, replies),
        Action::GetChannel(id) => is_dest(id, replies),
        Action::Sleep(seconds) => seconds == 1,
        Action::GetMapping { orig_id } => orig_id == update.channel_id || orig_id == update.id || (
        update.content is Some && update.mention_roles is Some && looked_up(
            update.content->0@,
            update.mention_roles->0@,
        ).contains(orig_id)),
        Action::FindMapping { orig_id } => orig_id == update.id,
        _ => false,
    }
}

/// One step of a relaying.
proof fn relaying_goes_on(
    task: RelayEdit,
    next: RelayEdit,
    progress: Progress<(), HandlerError>,
    update: MessageUpdate,
    settings: GuildSettings,
    actions: Seq<Option<Action>>,
    replies: Seq<Reply>,
    k: int,
)
    requires
        is_relaying(task, update, settings, actions, replies, k - 1),
        task.awaits() is Some,
        replies[k].answers(task.awaits()->0),
        task.step(replies[k], next, progress),
        2 <= k < replies.len(),
        actions.len() == replies.len(),
        progress matches Progress::Perform(action) ==> actions[k] == Some(action),
    ensures
        is_relaying(next, update, settings, actions, replies, k),
        progress matches Progress::Perform(action) ==> is_to_relay(
            action,
            update,
            settings,
            actions,
            replies,
            k,
        ),
        next.stage is Sending <==> progress is Perform && progress->Perform_0 is ExecuteWebhook,
{
    let ended = task.at(EditStage::Ended);
    match task.stage {
        EditStage::FindingWebhook { update: kept, dest_channel_id, dest_kind, finding: before } => {
            let (finding, found) = choose|finding: GetOrCreateWebhook, found: Progress<Webhook, HandlerError>|
                #![trigger before.step(replies[k], finding, found)]
                {
                    &&& before.step(replies[k], finding, found)
                    &&& ended.after_webhook(
                        kept,
                        dest_channel_id,
                        dest_kind,
                        finding,
                        found,
                        next,
                        progress,
                    )
                };
            relaying_found_webhook(
                task,
                before,
                replies[k],
                finding,
                found,
                next,
                progress,
                update,
                settings,
                actions,
                replies,
                dest_channel_id,
                dest_kind,
                k,
            );
        },
        EditStage::Waiting { update: kept, dest_channel_id, dest_kind } => {
            if replies[k] is Done {
                let before = GetOrCreateWebhook {
                    channel_id: dest_channel_id,
                    default_webhook_username: task.webhook_username,
                    stage: WebhookStage::Begin,
                };
                let (finding, found) = choose|finding: GetOrCreateWebhook, found: Progress<Webhook, HandlerError>|
                    #![trigger ended.after_webhook(kept, dest_channel_id, dest_kind, finding, found, next, progress)]
                    {
                        &&& before.step(Reply::Begin, finding, found)
                        &&& ended.after_webhook(
                            kept,
                            dest_channel_id,
                            dest_kind,
                            finding,
                            found,
                            next,
                            progress,
                        )
                    };
                assert(found is Perform);
            }
        },
        EditStage::Rewriting { draft, rewriting: before } => {
            let start = k - 1 - before.dests@.len();
            let (rewriting, rewritten) = choose|rewriting: RewriteMentions, rewritten|
                #![trigger before.step(replies[k], rewriting, rewritten)]
                {
                    &&& before.step(replies[k], rewriting, rewritten)
                    &&& ended.after_rewriting(draft, rewriting, rewritten, next, progress)
                };
            rewriting_goes_on(
                before,
                update.content->0@,
                update.mention_roles->0@,
                rewriting,
                rewritten,
                actions,
                replies,
                start,
                k,
            );
            if rewritten is Perform {
                let ids = looked_up(update.content->0@, update.mention_roles->0@);
                assert(ids.contains(ids[k - start]));
            }
        },
        _ => {},
    }
}

/// What follows from a step of the search for the webhook.
proof fn relaying_found_webhook(
    task: RelayEdit,
    before: GetOrCreateWebhook,
    reply: Reply,
    finding: GetOrCreateWebhook,
    found: Progress<Webhook, HandlerError>,
    next: RelayEdit,
    progress: Progress<(), HandlerError>,
    update: MessageUpdate,
    settings: GuildSettings,
    actions: Seq<Option<Action>>,
    replies: Seq<Reply>,
    dest_channel_id: u64,
    dest_kind: crate::model::ChannelType,
    k: int,
)
    requires
        task.dest_guild_id == settings.dest_guild_id,
        task.webhook_username == settings.webhook_username,
        task.use_webhook_profile == settings.message_settings.use_webhook_profile,
        5 <= k < replies.len(),
        actions.len() == replies.len(),
        reply == replies[k],
        !(reply is Begin),
        is_dest(dest_channel_id, replies),
        replies[3] matches Reply::Channel(channel) && channel.kind == dest_kind,
        before.channel_id == dest_channel_id,
        before.default_webhook_username == settings.webhook_username,
        before.step(reply, finding, found),
        task.at(EditStage::Ended).after_webhook(
            update,
            dest_channel_id,
            dest_kind,
            finding,
            found,
            next,
            progress,
        ),
        progress matches Progress::Perform(action) ==> actions[k] == Some(action),
    ensures
        is_relaying(next, update, settings, actions, replies, k),
        !(next.stage is Sending),
        progress matches Progress::Perform(action) ==> !(action is ExecuteWebhook),
        progress matches Progress::Perform(action) ==> is_to_relay(
            action,
            update,
            settings,
            actions,
            replies,
            k,
        ),
{
    let ended = task.at(EditStage::Ended);
    if let Progress::Done(webhook) = found {
        if update.content is Some && update.mention_roles is Some {
            let content = update.content->0@;
            let roles = update.mention_roles->0@;
            let draft = Draft {
                id: update.id,
                channel_id: update.channel_id,
                author: update.author,
                embeds: update.embeds,
                dest_channel_id,
                dest_kind,
                webhook_id: webhook.id,
                token: webhook.token,
            };
            assert(gives_webhook(replies[k], webhook.id, webhook.token));
            let (start, rewriting, rewritten) = choose|
                start: RewriteMentions,
                rewriting: RewriteMentions,
                rewritten,
            |
                #![trigger start.step(Reply::Begin, rewriting, rewritten)]
                {
                    &&& start.begins(content, roles)
                    &&& start.step(Reply::Begin, rewriting, rewritten)
                    &&& ended.after_rewriting(draft, rewriting, rewritten, next, progress)
                };
            rewriting_begins(start, content, roles, rewriting, rewritten, actions, replies, k);
            if rewritten is Perform {
                let ids = looked_up(content, roles);
                assert(ids.contains(ids[0]));
            }
        }
    }
}

proof fn relayed_up_to(
    tasks: Seq<HandleSingleEvent>,
    replies: Seq<Reply>,
    progress: Seq<Progress<(), HandlerError>>,
    settings: GuildSettings,
    update: MessageUpdate,
    k: int,
)
    requires
        is_run(tasks, replies, progress),
        begins(tasks[0], Event::MessageUpdate(update), settings),
        1 <= k < replies.len(),
        replies[1] is Done,
    ensures
        tasks[k + 1].task matches EventTask::MessageUpdate(task) && {
            &&& is_relaying(task, update, settings, asked(progress), replies, k)
            &&& task.stage is Sending <==> progress[k] is Perform
                && progress[k]->Perform_0 is ExecuteWebhook
        },
        progress[k] is Perform ==> tasks[k + 1].stage is Running,
        progress[k] matches Progress::Perform(action) ==> is_to_relay(
            action,
            update,
            settings,
            asked(progress),
            replies,
            k,
        ),
    decreases k,
{
    let first = replies[0];
    let reply = replies[k];
    if k > 1 {
        relayed_up_to(tasks, replies, progress, settings, update, k - 1);
        if !(progress[k - 1] is Perform) {
            runs_end(tasks, replies, progress, k - 1);
        }
        relaying_goes_on(
            tasks[k].task->MessageUpdate_0,
            tasks[k + 1].task->MessageUpdate_0,
            progress[k],
            update,
            settings,
            asked(progress),
            replies,
            k,
        );
    }
}

/// Whatever is asked for when a message is edited relays the edit. Before it is written, everything
/// that its content mentions was looked up, and the content that is written ends with that of the
/// edit, in which each mention whose lookup found a mirror names that mirror.
pub proof fn edits_are_relayed_faithfully(
    tasks: Seq<HandleSingleEvent>,
    replies: Seq<Reply>,
    progress: Seq<Progress<(), HandlerError>>,
    settings: GuildSettings,
    update: MessageUpdate,
    action: Action,
    i: int,
)
    requires
        is_run(tasks, replies, progress),
        begins(tasks[0], Event::MessageUpdate(update), settings),
        1 <= i < replies.len(),
        progress[i].performs(action),
    ensures
        is_to_relay(action, update, settings, asked(progress), replies, i),
{
    let first = replies[0];
    let reply = replies[i];
    let second = replies[1];
    if !(replies[1] is Done) {
        runs_end(tasks, replies, progress, 1);
    }
    relayed_up_to(tasks, replies, progress, settings, update, i);
}

/// An edit with content, in a channel that is mirrored by one with a webhook, is relayed, where
/// nothing fails and nothing is out of bounds: after the lookups it is written, and after that
/// passed on in an announcement channel.
#[verifier::rlimit(40)]
pub proof fn edits_are_relayed(
    tasks: Seq<HandleSingleEvent>,
    replies: Seq<Reply>,
    progress: Seq<Progress<(), HandlerError>>,
    settings: GuildSettings,
    update: MessageUpdate,
    found: crate::model::IdMapping,
    dest_channel: crate::model::Channel,
    webhooks: Vec<Webhook>,
    n: int,
)
    requires
        is_run(tasks, replies, progress),
        begins(tasks[0], Event::MessageUpdate(update), settings),
        update.content is Some,
        update.mention_roles is Some,
        update.embeds is None,
        n == looked_up(update.content->0@, update.mention_roles->0@).len(),
        replies.len() > n + 7,
        forall|j: int| 0 <= j < replies.len() ==> !(#[trigger] replies[j] is Failed),
        replies[2] == Reply::Mapping(Some(found)),
        replies[3] == Reply::Channel(dest_channel),
        replies[5] == Reply::Webhooks(webhooks),
        webhooks@.len() > 0,
        webhooks@[0].token is Some,
        settings.message_settings.use_webhook_profile || (update.author matches Some(author)
            ==> 2 <= author.name@.len() <= 80 && author.name@ != "clyde"@),
        edit_of(
            result_of(update.content->0@, update.mention_roles->0@, replies, 5),
            settings.dest_guild_id,
            replies[n + 6],
            replies[n + 7],
        ).len() <= 2000,
    ensures
        progress[1].performs(Action::GetMapping { orig_id: update.channel_id }),
        progress[2].performs(Action::GetChannel(mirror_id(found))),
        progress[4].performs(Action::GetWebhooks(mirror_id(found))),
        progress[n + 7] is Perform,
        progress[n + 7]->Perform_0 is ExecuteWebhook,
        replies.len() > n + 8 ==> replies[n + 8] is Sent && if dest_channel.kind is GuildAnnouncement {
            progress[n + 8].performs(
                Action::CrosspostMessage {
                    channel_id: mirror_id(found),
                    message_id: replies[n + 8]->Sent_0,
                },
            )
        } else {
            progress[n + 8].yields(())
        },
{
    let a = replies[0];
    let b = replies[1];
    let c = replies[2];
    let d = replies[3];
    let e = replies[4];
    let f = replies[5];
    let content = update.content->0@;
    let roles = update.mention_roles->0@;
    relayed_up_to(tasks, replies, progress, settings, update, 4);
    edit_is_rewritten(tasks, replies, progress, settings, update, webhooks, n, n + 5);
    relayed_up_to(tasks, replies, progress, settings, update, n + 5);
    let g = replies[n + 6];
    relayed_up_to(tasks, replies, progress, settings, update, n + 6);
    let h = replies[n + 7];
    relayed_up_to(tasks, replies, progress, settings, update, n + 7);
    if replies.len() > n + 8 {
        let i = replies[n + 8];
    }
}

/// While an edit is being rewritten nothing else is done.
proof fn edit_is_rewritten(
    tasks: Seq<HandleSingleEvent>,
    replies: Seq<Reply>,
    progress: Seq<Progress<(), HandlerError>>,
    settings: GuildSettings,
    update: MessageUpdate,
    webhooks: Vec<Webhook>,
    n: int,
    k: int,
)
    requires
        is_run(tasks, replies, progress),
        begins(tasks[0], Event::MessageUpdate(update), settings),
        update.content is Some,
        update.mention_roles is Some,
        n == looked_up(update.content->0@, update.mention_roles->0@).len(),
        replies.len() > n + 5,
        forall|j: int| 0 <= j < replies.len() ==> !(#[trigger] replies[j] is Failed),
        replies[1] is Done,
        tasks[5].task matches EventTask::MessageUpdate(task) && task.stage is FindingWebhook,
        replies[5] == Reply::Webhooks(webhooks),
        webhooks@.len() > 0,
        webhooks@[0].token is Some,
        settings.message_settings.use_webhook_profile || (update.author matches Some(author)
            ==> 2 <= author.name@.len() <= 80 && author.name@ != "clyde"@),
        5 <= k <= n + 5,
    ensures
        progress[k] is Perform,
        tasks[k + 1].task matches EventTask::MessageUpdate(task) && if k < n + 5 {
            task.stage matches EditStage::Rewriting { rewriting, .. } && rewriting.dests@.len() == k
                - 5
        } else {
            task.stage is LocatingChannel
        },
    decreases k,
{
    let reply = replies[k];
    relayed_up_to(tasks, replies, progress, settings, update, k);
    relayed_up_to(tasks, replies, progress, settings, update, k - 1);
    let task = tasks[k].task->MessageUpdate_0;
    let next = tasks[k + 1].task->MessageUpdate_0;
    let ended = task.at(EditStage::Ended);
    let content = update.content->0@;
    let roles = update.mention_roles->0@;
    if k == 5 {
        if let EditStage::FindingWebhook { update: kept, dest_channel_id, dest_kind, finding: before } =
            task.stage {
            let (finding, found) = choose|finding: GetOrCreateWebhook, found: Progress<Webhook, HandlerError>|
                #![trigger before.step(replies[k], finding, found)]
                {
                    &&& before.step(replies[k], finding, found)
                    &&& ended.after_webhook(
                        kept,
                        dest_channel_id,
                        dest_kind,
                        finding,
                        found,
                        next,
                        progress[k],
                    )
                };
            let draft = Draft {
                id: update.id,
                channel_id: update.channel_id,
                author: update.author,
                embeds: update.embeds,
                dest_channel_id,
                dest_kind,
                webhook_id: webhooks@[0].id,
                token: webhooks@[0].token,
            };
            let (start, rewriting, rewritten) = choose|
                start: RewriteMentions,
                rewriting: RewriteMentions,
                rewritten,
            |
                #![trigger start.step(Reply::Begin, rewriting, rewritten)]
                {
                    &&& start.begins(content, roles)
                    &&& start.step(Reply::Begin, rewriting, rewritten)
                    &&& ended.after_rewriting(draft, rewriting, rewritten, next, progress[k])
                };
            rewriting_begins(start, content, roles, rewriting, rewritten, asked(progress), replies, k);
        }
    } else {
        edit_is_rewritten(tasks, replies, progress, settings, update, webhooks, n, k - 1);
        if let EditStage::Rewriting { draft, rewriting: before } = task.stage {
            let (rewriting, rewritten) = choose|rewriting: RewriteMentions, rewritten|
                #![trigger before.step(replies[k], rewriting, rewritten)]
                {
                    &&& before.step(replies[k], rewriting, rewritten)
                    &&& ended.after_rewriting(draft, rewriting, rewritten, next, progress[k])
                };
            rewriting_goes_on(
                before,
                content,
                roles,
                rewriting,
                rewritten,
                asked(progress),
                replies,
                5,
                k,
            );
        }
    }
}

} // verus!
