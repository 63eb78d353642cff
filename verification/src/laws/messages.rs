//! What becomes of a message.
use super::content::{asked, looked_up};
use super::edits::{gives_webhook, is_written_by};
use super::formatting::{
    formatting_begins, formatting_goes_on, is_formatted, is_formatting, lookups_end,
    mirrored_content,
};
use super::{begins, keeps, leads};
use crate::blacklist::Blacklist;
use crate::config::GuildSettings;
use crate::errors::HandlerError;
use crate::handlers::event::{Event, EventTask, HandleSingleEvent};
use crate::handlers::format::{FormatMessage, FormatStage, Formatted};
use crate::handlers::message::{bars, ignored, is_barred, MessageStage, MirrorMessage, Writing};
use crate::handlers::thread::{GetOrCreateThread, Target, ThreadStage};
use crate::handlers::webhook::{GetOrCreateWebhook, WebhookStage};
use crate::model::{Channel, Decoded, IdMapping, MappingData, Message, Place, Webhook};
use crate::operation::{
    is_run, runs_end, Action, NewForumPost, Progress, Reply, Task, WebhookMessage,
};
use vstd::prelude::*;
use vstd::utf8::encode_utf8;

verus! {

// ---------------------------------------------------------------------------
// Which messages are mirrored
// ---------------------------------------------------------------------------

/// Whether a message is one that the settings of a mirror leave out: its author, or a role that
/// the author is known to have, is blacklisted; it has fewer files, bytes of content or embeds
/// than it has to; it answers another one, or comes from a bot, and those are not mirrored; or it
/// is no ordinary message.
pub open spec fn is_left_out(message: Message, settings: GuildSettings) -> bool {
    ||| settings.blacklists@.contains(Blacklist::User(message.author.id))
    ||| message.member_roles matches Some(roles) && exists|id: u64|
        #![trigger roles@.contains(id)]
        roles@.contains(id) && settings.blacklists@.contains(Blacklist::Role(id))
    ||| message.attachments@.len() < settings.message_requirements.min_attachments_amount
    ||| encode_utf8(message.content@).len() < settings.message_requirements.min_content_length
    ||| message.embeds@.len() < settings.message_requirements.min_embeds_amount
    ||| message.reference is Some && !settings.message_settings.mirror_reply_messages
    ||| message.author.bot && !settings.message_settings.mirror_messages_from_bots
    ||| !(message.kind is Regular || message.kind is ThreadStarterMessage
        || message.kind is ThreadCreated)
}

/// Messages are ignored exactly where the settings leave them out.
proof fn left_out_is_ignored(message: Message, settings: GuildSettings)
    ensures
        is_left_out(message, settings) <==> ignored(settings, message),
{
    let blacklists = settings.blacklists@;
    if is_barred(blacklists, message) {
        let i = choose|i: int| 0 <= i < blacklists.len() && bars(#[trigger] blacklists[i], message);
        assert(blacklists.contains(blacklists[i]));
    }
    if blacklists.contains(Blacklist::User(message.author.id)) {
        let i = choose|i: int|
            0 <= i < blacklists.len() && blacklists[i] == Blacklist::User(message.author.id);
        assert(bars(blacklists[i], message));
    }
    if let Some(roles) = message.member_roles {
        if exists|id: u64|
            #![trigger roles@.contains(id)]
            roles@.contains(id) && blacklists.contains(Blacklist::Role(id)) {
            let id = choose|id: u64|
                #![trigger roles@.contains(id)]
                roles@.contains(id) && blacklists.contains(Blacklist::Role(id));
            let i = choose|i: int| 0 <= i < blacklists.len() && blacklists[i] == Blacklist::Role(id);
            assert(bars(blacklists[i], message));
        }
    }
}

/// A message that the settings leave out leads to nothing. Of the news of a thread, the thread is
/// joined, and nothing else is done. For any other message the mirror of its channel is looked up.
pub proof fn messages_are_taken_up(
    tasks: Seq<HandleSingleEvent>,
    replies: Seq<Reply>,
    progress: Seq<Progress<(), HandlerError>>,
    settings: GuildSettings,
    message: Message,
)
    requires
        is_run(tasks, replies, progress),
        begins(tasks[0], Event::MessageCreate(message), settings),
        replies.len() > 1,
        replies[1] is Done,
    ensures
        if is_left_out(message, settings) {
            replies.len() == 2 && progress[1].yields(())
        } else if message.kind is ThreadCreated {
            &&& progress[1].performs(Action::JoinThread(message.id))
            &&& replies.len() <= 3
            &&& replies.len() == 3 && replies[2] is Done ==> progress[2].yields(())
        } else {
            progress[1].performs(Action::FindMapping { orig_id: message.channel_id })
        },
{
    let a = replies[0];
    let b = replies[1];
    left_out_is_ignored(message, settings);
    if !(progress[1] is Perform) {
        runs_end(tasks, replies, progress, 1);
    }
    if replies.len() > 2 {
        let c = replies[2];
        if !(progress[2] is Perform) {
            runs_end(tasks, replies, progress, 2);
        }
    }
}

// ---------------------------------------------------------------------------
// Where a message goes
// ---------------------------------------------------------------------------

/// Whether a place is that of a channel.
pub open spec fn is_place_of(place: Place, channel: Channel) -> bool {
    place.id == channel.id && place.kind == channel.kind && place.parent_id == channel.parent_id
}

/// Whether a mapping turned out to keep a channel for the mirroring side.
pub open spec fn keeps_channel(mapping: IdMapping, reply: Reply, place: Place) -> bool {
    &&& mapping@.dest_mapping_data is Some
    &&& reply matches Reply::Decoded { dest: Some(Ok(MappingData::Channel(channel))), .. }
        && is_place_of(place, channel)
}

/// Whether the thread of a message is one that is created where nothing mirrors it, and what its
/// mirror is created below: what mirrors its parent.
pub open spec fn is_orphan(
    src_thread: Channel,
    dest_parent: Place,
    actions: Seq<Option<Action>>,
    replies: Seq<Reply>,
) -> bool {
    &&& replies[2] == Reply::Mapping(None)
    &&& replies[3] == Reply::Channel(src_thread)
    &&& src_thread.kind is AnnouncementThread || src_thread.kind is PublicThread
    &&& src_thread.parent_id is Some
    &&& actions[3] == Some(Action::FindMapping { orig_id: src_thread.parent_id->0 })
    &&& replies[4] matches Reply::Mapping(Some(mapping)) && keeps_channel(
        mapping,
        replies[5],
        dest_parent,
    )
}

/// Whether a message goes to a place: what mirrors its channel, or a thread that was created for
/// it, which may be a post of a forum that the message has begun.
pub open spec fn is_target(
    dest: Place,
    is_parent_forum: bool,
    actions: Seq<Option<Action>>,
    replies: Seq<Reply>,
) -> bool {
    ||| {
        &&& replies[2] matches Reply::Mapping(Some(mapping)) && keeps_channel(
            mapping,
            replies[3],
            dest,
        )
        &&& !is_parent_forum
    }
    ||| exists|src_thread: Channel, dest_parent: Place, j: int|
        {
            &&& #[trigger] is_orphan(src_thread, dest_parent, actions, replies)
            &&& 0 <= j < replies.len()
            &&& (#[trigger] replies[j]) matches Reply::Thread(thread) && is_place_of(dest, thread)
            &&& is_parent_forum == (dest_parent.kind is GuildForum)
        }
}

/// Whether a search for the place of a message waits for the answer after `k`.
pub open spec fn is_targeting(
    task: GetOrCreateThread,
    message: Message,
    settings: GuildSettings,
    actions: Seq<Option<Action>>,
    replies: Seq<Reply>,
    k: int,
) -> bool {
    &&& task.src_guild_id == settings.src_guild_id
    &&& task.dest_guild_id == settings.dest_guild_id
    &&& task.src_channel_id == message.channel_id
    &&& task.attach == settings.message_settings.remove_attachments
    &&& match task.stage {
        ThreadStage::FindingChannel(kept) => kept == message && k == 1,
        ThreadStage::ReadingChannel { message: kept, mapping } => {
            &&& kept == message
            &&& k == 2
            &&& replies[2] == Reply::Mapping(Some(mapping))
        },
        ThreadStage::GettingThread(kept) => {
            &&& kept == message
            &&& k == 2
            &&& replies[2] == Reply::Mapping(None)
        },
        ThreadStage::FindingParent { message: kept, src_thread } => {
            &&& kept == message
            &&& k == 3
            &&& replies[2] == Reply::Mapping(None)
            &&& replies[3] == Reply::Channel(src_thread)
            &&& src_thread.kind is AnnouncementThread || src_thread.kind is PublicThread
            &&& src_thread.parent_id is Some
            &&& actions[3] == Some(Action::FindMapping { orig_id: src_thread.parent_id->0 })
        },
        ThreadStage::ReadingParent { message: kept, src_thread, mapping } => {
            &&& kept == message
            &&& k == 4
            &&& replies[2] == Reply::Mapping(None)
            &&& replies[3] == Reply::Channel(src_thread)
            &&& src_thread.kind is AnnouncementThread || src_thread.kind is PublicThread
            &&& src_thread.parent_id is Some
            &&& actions[3] == Some(Action::FindMapping { orig_id: src_thread.parent_id->0 })
            &&& replies[4] == Reply::Mapping(Some(mapping))
        },
        ThreadStage::Formatting { src_thread, dest_parent, formatting } => {
            &&& k >= 5
            &&& is_orphan(src_thread, dest_parent, actions, replies)
            &&& is_formatting(
                formatting,
                message,
                settings.dest_guild_id,
                settings.message_settings.remove_attachments,
                actions,
                replies,
                5,
                k,
            )
        },
        ThreadStage::Creating { message: kept, src_thread, dest_parent } => {
            &&& k >= 5
            &&& kept == message
            &&& is_orphan(src_thread, dest_parent, actions, replies)
        },
        ThreadStage::Registering { message: kept, dest, is_parent_forum } => {
            &&& kept == message
            &&& is_target(dest, is_parent_forum, actions, replies)
        },
        _ => false,
    }
}

/// Whether a post begins with a message: with its mirrored content, its embeds and its files.
pub open spec fn begins_with(post: NewForumPost, formatted: Formatted) -> bool {
    &&& post.content@ == formatted.content@
    &&& post.embeds is Some
    &&& post.embeds->0@ == formatted.message.embeds@
    &&& post.attachments is Some
    &&& post.attachments->0@ == formatted.attachments@
}

/// Whether an operation that was asked for after answer `i` creates the mirror of the thread of a
/// message below what mirrors its parent.
pub open spec fn creates_mirror_of_thread(
    action: Action,
    message: Message,
    settings: GuildSettings,
    actions: Seq<Option<Action>>,
    replies: Seq<Reply>,
    i: int,
) -> bool {
    exists|src_thread: Channel, dest_parent: Place, formatted: Formatted|
        {
            &&& #[trigger] is_orphan(src_thread, dest_parent, actions, replies)
            &&& #[trigger] is_formatted(
                formatted,
                message,
                settings.dest_guild_id,
                settings.message_settings.remove_attachments,
                actions,
                replies,
                5,
                i,
            )
            &&& src_thread.name is Some
            &&& match action {
                Action::CreateForumPost(post) => {
                    &&& dest_parent.kind is GuildForum
                    &&& post.parent_id == dest_parent.id
                    &&& post.name == src_thread.name->0
                    &&& post.auto_archive_duration == src_thread.default_auto_archive_duration
                    &&& begins_with(post, formatted)
                },
                Action::CreateThread(new) => {
                    &&& !(dest_parent.kind is GuildForum)
                    &&& new.parent_id == dest_parent.id
                    &&& new.name == src_thread.name->0
                    &&& new.kind == src_thread.kind
                    &&& new.invitable == src_thread.invitable
                    &&& new.auto_archive_duration == src_thread.default_auto_archive_duration
                },
                _ => false,
            }
        }
}

/// Whether a mapping that was asked to be registered after answer `i` is that of the thread of a
/// message: it leads from the thread to the one that was created, and keeps both.
pub open spec fn is_mapping_of_thread(
    mapping: IdMapping,
    settings: GuildSettings,
    replies: Seq<Reply>,
    i: int,
) -> bool {
    &&& replies[3] matches Reply::Channel(src_thread)
    &&& replies[i] matches Reply::Thread(thread)
    &&& leads(
        mapping@,
        src_thread.id,
        thread.id,
        settings.src_guild_id,
        settings.dest_guild_id,
    )
    &&& keeps(mapping@, src_thread.encoded, thread.encoded)
}

/// What a search for the place of a message has come to after answer `k`.
pub open spec fn has_targeted(
    next: GetOrCreateThread,
    progress: Progress<Target, HandlerError>,
    message: Message,
    settings: GuildSettings,
    actions: Seq<Option<Action>>,
    replies: Seq<Reply>,
    k: int,
) -> bool {
    match progress {
        Progress::Perform(action) => {
            &&& is_targeting(next, message, settings, actions, replies, k)
            &&& action is CreateThread || action is CreateForumPost ==> creates_mirror_of_thread(
                action,
                message,
                settings,
                actions,
                replies,
                k,
            )
            &&& action matches Action::RegisterMapping(mapping) ==> is_mapping_of_thread(
                mapping,
                settings,
                replies,
                k,
            )
            &&& !(action is ExecuteWebhook)
            &&& !(action is CrosspostMessage)
            &&& !(action is CreateWebhook)
        },
        Progress::Done(target) => {
            &&& target.message == message
            &&& target.dest matches Some(dest) ==> is_target(
                dest,
                target.is_parent_forum,
                actions,
                replies,
            )
        },
        Progress::Failed(_) => true,
    }
}

/// What follows from a step of formatting the message that a thread begins with.
proof fn targeting_formats(
    task: GetOrCreateThread,
    message: Message,
    settings: GuildSettings,
    src_thread: Channel,
    dest_parent: Place,
    formatting: FormatMessage,
    formatted: Progress<Formatted, HandlerError>,
    next: GetOrCreateThread,
    progress: Progress<Target, HandlerError>,
    actions: Seq<Option<Action>>,
    replies: Seq<Reply>,
    k: int,
)
    requires
        task.src_guild_id == settings.src_guild_id,
        task.dest_guild_id == settings.dest_guild_id,
        task.src_channel_id == message.channel_id,
        task.attach == settings.message_settings.remove_attachments,
        5 <= k < replies.len(),
        is_orphan(src_thread, dest_parent, actions, replies),
        match formatted {
            Progress::Perform(action) => {
                &&& is_formatting(
                    formatting,
                    message,
                    settings.dest_guild_id,
                    settings.message_settings.remove_attachments,
                    actions,
                    replies,
                    5,
                    k,
                )
                &&& action is GetMapping || action is Now || action is Download
            },
            Progress::Done(formatted) => is_formatted(
                formatted,
                message,
                settings.dest_guild_id,
                settings.message_settings.remove_attachments,
                actions,
                replies,
                5,
                k,
            ),
            Progress::Failed(_) => true,
        },
        task.after_formatting(src_thread, dest_parent, formatting, formatted, next, progress),
    ensures
        has_targeted(next, progress, message, settings, actions, replies, k),
{
    if let Progress::Done(done) = formatted {
        if let Progress::Perform(action) = progress {
            assert(is_formatted(
                done,
                message,
                settings.dest_guild_id,
                settings.message_settings.remove_attachments,
                actions,
                replies,
                5,
                k,
            ));
            assert(creates_mirror_of_thread(action, message, settings, actions, replies, k));
        }
    }
}

/// What a formatting asks for.
proof fn formatting_only_reads(
    task: FormatMessage,
    reply: Reply,
    next: FormatMessage,
    progress: Progress<Formatted, HandlerError>,
)
    requires
        task.step(reply, next, progress),
    ensures
        progress matches Progress::Perform(action) ==> action is GetMapping || action is Now
            || action is Download,
{
}

/// One step of a search for the place of a message.
proof fn targeting_goes_on(
    task: GetOrCreateThread,
    next: GetOrCreateThread,
    progress: Progress<Target, HandlerError>,
    message: Message,
    settings: GuildSettings,
    actions: Seq<Option<Action>>,
    replies: Seq<Reply>,
    k: int,
)
    requires
        is_targeting(task, message, settings, actions, replies, k - 1),
        task.awaits() is Some,
        replies[k].answers(task.awaits()->0),
        task.step(replies[k], next, progress),
        2 <= k < replies.len(),
        progress matches Progress::Perform(action) ==> actions[k] == Some(action),
    ensures
        has_targeted(next, progress, message, settings, actions, replies, k),
{
    let ended = task.at(ThreadStage::Ended);
    match task.stage {
        ThreadStage::ReadingParent { message: kept, src_thread, mapping } => {
            if let Reply::Decoded { src: _, dest } = replies[k] {
                if let Some(dest_parent) = crate::handlers::thread::kept_channel(mapping, dest) {
                    let before = FormatMessage {
                        dest_guild_id: task.dest_guild_id,
                        attach: task.attach,
                        stage: FormatStage::Begin(message),
                    };
                    let (formatting, formatted) = choose|
                        formatting: FormatMessage,
                        formatted: Progress<Formatted, HandlerError>,
                    |
                        #![trigger ended.after_formatting(src_thread, dest_parent, formatting, formatted, next, progress)]
                        {
                            &&& before.step(Reply::Begin, formatting, formatted)
                            &&& ended.after_formatting(
                                src_thread,
                                dest_parent,
                                formatting,
                                formatted,
                                next,
                                progress,
                            )
                        };
                    assert(is_orphan(src_thread, dest_parent, actions, replies));
                    formatting_only_reads(before, Reply::Begin, formatting, formatted);
                    formatting_begins(before, message, formatting, formatted, actions, replies, k);
                    targeting_formats(
                        ended,
                        message,
                        settings,
                        src_thread,
                        dest_parent,
                        formatting,
                        formatted,
                        next,
                        progress,
                        actions,
                        replies,
                        k,
                    );
                }
            }
        },
        ThreadStage::Formatting { src_thread, dest_parent, formatting: before } => {
            let (formatting, formatted) = choose|
                formatting: FormatMessage,
                formatted: Progress<Formatted, HandlerError>,
            |
                #![trigger before.step(replies[k], formatting, formatted)]
                {
                    &&& before.step(replies[k], formatting, formatted)
                    &&& ended.after_formatting(
                        src_thread,
                        dest_parent,
                        formatting,
                        formatted,
                        next,
                        progress,
                    )
                };
            formatting_only_reads(before, replies[k], formatting, formatted);
            formatting_goes_on(
                before,
                message,
                formatting,
                formatted,
                actions,
                replies,
                5,
                k,
            );
            targeting_formats(
                ended,
                message,
                settings,
                src_thread,
                dest_parent,
                formatting,
                formatted,
                next,
                progress,
                actions,
                replies,
                k,
            );
        },
        ThreadStage::Creating { message: kept, src_thread, dest_parent } => {
            if let Reply::Thread(thread) = replies[k] {
                assert(is_place_of(thread.spec_place(), thread));
                assert(is_orphan(src_thread, dest_parent, actions, replies));
                assert(is_target(
                    thread.spec_place(),
                    dest_parent.kind is GuildForum,
                    actions,
                    replies,
                ));
            }
        },
        _ => {},
    }
}

// ---------------------------------------------------------------------------
// What is written
// ---------------------------------------------------------------------------

/// Whether this is the channel whose webhook writes to a place: a thread is written to through its
/// parent.
pub open spec fn is_channel_of(channel_id: u64, dest: Place) -> bool {
    if dest.kind is AnnouncementThread || dest.kind is PublicThread || dest.kind is PrivateThread {
        dest.parent_id == Some(channel_id)
    } else {
        dest.id == channel_id
    }
}

/// Whether a message is being written to its place.
pub open spec fn is_writing(
    writing: Writing,
    message: Message,
    actions: Seq<Option<Action>>,
    replies: Seq<Reply>,
) -> bool {
    &&& writing.message_id == message.id
    &&& writing.channel_id == message.channel_id
    &&& is_target(writing.dest, writing.is_parent_forum, actions, replies)
    &&& is_channel_of(writing.dest_channel_id, writing.dest)
}

/// Whether a message was formatted after its place was found.
pub open spec fn is_ready(
    formatted: Formatted,
    message: Message,
    settings: GuildSettings,
    actions: Seq<Option<Action>>,
    replies: Seq<Reply>,
    k: int,
) -> bool {
    exists|start: int, end: int|
        {
            &&& #[trigger] is_formatted(
                formatted,
                message,
                settings.dest_guild_id,
                settings.message_settings.remove_attachments,
                actions,
                replies,
                start,
                end,
            )
            &&& 2 <= start <= end <= k
        }
}

/// Whether a mirroring waits for the answer after `k`.
pub open spec fn is_mirroring(
    task: MirrorMessage,
    message: Message,
    settings: GuildSettings,
    actions: Seq<Option<Action>>,
    replies: Seq<Reply>,
    k: int,
) -> bool {
    &&& task.src_guild_id == settings.src_guild_id
    &&& task.dest_guild_id == settings.dest_guild_id
    &&& task.webhook_username == settings.webhook_username
    &&& task.use_webhook_profile == settings.message_settings.use_webhook_profile
    &&& task.attach == settings.message_settings.remove_attachments
    &&& match task.stage {
        MessageStage::Begin(_) => false,
        MessageStage::Joining => true,
        MessageStage::Targeting(targeting) => is_targeting(
            targeting,
            message,
            settings,
            actions,
            replies,
            k,
        ),
        MessageStage::Formatting { dest, dest_channel_id, is_parent_forum, formatting } => {
            &&& is_target(dest, is_parent_forum, actions, replies)
            &&& is_channel_of(dest_channel_id, dest)
            &&& exists|start: int|
                2 <= start && #[trigger] is_formatting(
                    formatting,
                    message,
                    settings.dest_guild_id,
                    settings.message_settings.remove_attachments,
                    actions,
                    replies,
                    start,
                    k,
                )
        },
        MessageStage::FindingWebhook { formatted, writing, finding } => {
            &&& is_ready(formatted, message, settings, actions, replies, k)
            &&& is_writing(writing, message, actions, replies)
            &&& finding.channel_id == writing.dest_channel_id
            &&& finding.default_webhook_username == settings.webhook_username
            &&& !(finding.stage is Begin)
        },
        MessageStage::Sending(writing) => is_writing(writing, message, actions, replies),
        MessageStage::Crossposting { writing, dest_message_id } => {
            &&& is_writing(writing, message, actions, replies)
            &&& replies[k] == Reply::Sent(dest_message_id)
        },
        MessageStage::Registering => true,
        MessageStage::Ended => true,
    }
}

/// Whether a message that was asked for after answer `i` mirrors another one: it goes to the
/// message's place, through the webhook that was found; its content is the mirrored one; the
/// embeds are those of the message, and so are the files, where they are sent along; and it is
/// written under the author's name, unless the webhook keeps its own.
pub open spec fn writes_mirror(
    written: WebhookMessage,
    message: Message,
    settings: GuildSettings,
    actions: Seq<Option<Action>>,
    replies: Seq<Reply>,
    i: int,
) -> bool {
    exists|formatted: Formatted, writing: Writing|
        {
            &&& #[trigger] is_ready(formatted, message, settings, actions, replies, i)
            &&& #[trigger] is_writing(writing, message, actions, replies)
            &&& written.thread_id == (if writing.dest.kind is AnnouncementThread
                || writing.dest.kind is PublicThread || writing.dest.kind is PrivateThread {
                Some(writing.dest.id)
            } else {
                None
            })
            &&& gives_webhook(replies[i], written.webhook_id, Some(written.token))
            &&& is_written_by(
                written,
                Some(message.author),
                settings.message_settings.use_webhook_profile,
            )
            &&& written.content@ == formatted.content@
            &&& written.embeds is Some
            &&& written.embeds->0@ == message.embeds@
            &&& if formatted.attachments@.len() > 0 {
                written.attachments is Some && written.attachments->0@ == formatted.attachments@
            } else {
                written.attachments is None
            }
        }
}

/// Whether a message was written, and its mirror is the one with the given identifier.
pub open spec fn was_sent(id: u64, actions: Seq<Option<Action>>, replies: Seq<Reply>, i: int) -> bool {
    &&& 0 < i
    &&& actions[i - 1] is Some && actions[i - 1]->0 is ExecuteWebhook
    &&& replies[i] == Reply::Sent(id)
}

/// What the operations that a mirroring asks for after answer `i` are for.
pub open spec fn is_to_mirror(
    action: Action,
    message: Message,
    settings: GuildSettings,
    actions: Seq<Option<Action>>,
    replies: Seq<Reply>,
    i: int,
) -> bool {
    match action {
        Action::ExecuteWebhook(written) => writes_mirror(
            written,
            message,
            settings,
            actions,
            replies,
            i,
        ),
        Action::CreateThread(_) | Action::CreateForumPost(_) => creates_mirror_of_thread(
            action,
            message,
            settings,
            actions,
            replies,
            i,
        ),
        Action::RegisterMapping(mapping) => {
            ||| is_mapping_of_thread(mapping, settings, replies, i)
            ||| exists|id: u64, j: int|
                {
                    &&& #[trigger] was_sent(id, actions, replies, j)
                    &&& j == i || j == i - 1
                    &&& leads(
                        mapping@,
                        message.id,
                        id,
                        settings.src_guild_id,
                        settings.dest_guild_id,
                    )
                }
        },
        Action::CrosspostMessage { channel_id, message_id } => {
            &&& was_sent(message_id, actions, replies, i)
            &&& exists|writing: Writing|
                {
                    &&& #[trigger] is_writing(writing, message, actions, replies)
                    &&& channel_id == writing.dest_channel_id
                    &&& writing.dest.kind is GuildAnnouncement
                        || writing.dest.kind is AnnouncementThread
                }
        },
        Action::CreateWebhook { channel_id, name } => {
            &&& name == settings.webhook_username
            &&& exists|writing: Writing|
                {
                    &&& #[trigger] is_writing(writing, message, actions, replies)
                    &&& channel_id == writing.dest_channel_id
                }
        },
        Action::JoinThread(id) => message.kind is ThreadCreated && id == message.id,
        Action::FindMapping { .. } => true,
        Action::GetMapping { .. } => true,
        Action::DecodeMapping(_) => true,
        Action::GetChannel(id) => id == message.channel_id,
        Action::GetWebhooks(id) => replies[i] == Reply::Parent(id) || exists|writing: Writing|
            #[trigger]
            is_writing(writing, message, actions, replies) && id == writing.dest_channel_id,
        Action::GetThreadParent(id) => exists|writing: Writing| #[trigger]
            is_writing(writing, message, actions, replies) && id == writing.dest_channel_id,
        Action::Now => true,
        Action::Download(_) => true,
        _ => false,
    }
}

/// What a mirroring has come to after answer `k`.
pub open spec fn has_mirrored(
    next: MirrorMessage,
    progress: Progress<(), HandlerError>,
    message: Message,
    settings: GuildSettings,
    actions: Seq<Option<Action>>,
    replies: Seq<Reply>,
    k: int,
) -> bool {
    &&& is_mirroring(next, message, settings, actions, replies, k)
    &&& progress matches Progress::Perform(action) ==> is_to_mirror(
        action,
        message,
        settings,
        actions,
        replies,
        k,
    )
    &&& next.stage is Sending ==> progress is Perform && progress->Perform_0 is ExecuteWebhook
    &&& next.stage is Crossposting ==> was_sent(
        next.stage->Crossposting_dest_message_id,
        actions,
        replies,
        k,
    )
}

/// What follows from a step of the search for the webhook.
proof fn mirroring_finds_webhook(
    task: MirrorMessage,
    message: Message,
    settings: GuildSettings,
    formatted: Formatted,
    writing: Writing,
    before: GetOrCreateWebhook,
    reply: Reply,
    finding: GetOrCreateWebhook,
    found: Progress<Webhook, HandlerError>,
    next: MirrorMessage,
    progress: Progress<(), HandlerError>,
    actions: Seq<Option<Action>>,
    replies: Seq<Reply>,
    k: int,
)
    requires
        task.src_guild_id == settings.src_guild_id,
        task.dest_guild_id == settings.dest_guild_id,
        task.webhook_username == settings.webhook_username,
        task.use_webhook_profile == settings.message_settings.use_webhook_profile,
        task.attach == settings.message_settings.remove_attachments,
        2 <= k < replies.len(),
        is_ready(formatted, message, settings, actions, replies, k),
        formatted.message == message,
        is_writing(writing, message, actions, replies),
        before.channel_id == writing.dest_channel_id,
        before.default_webhook_username == settings.webhook_username,
        reply == replies[k] || (reply is Begin && before.stage is Begin),
        reply is Begin ==> before.stage is Begin,
        before.step(reply, finding, found),
        task.after_webhook(formatted, writing, finding, found, next, progress),
    ensures
        has_mirrored(next, progress, message, settings, actions, replies, k),
{
    assert(is_writing(writing, message, actions, replies));
    if let Progress::Done(webhook) = found {
        assert(gives_webhook(replies[k], webhook.id, webhook.token));
        if let Progress::Perform(Action::ExecuteWebhook(written)) = progress {
            assert(is_ready(formatted, message, settings, actions, replies, k));
            assert(is_writing(writing, message, actions, replies));
            assert(writes_mirror(written, message, settings, actions, replies, k));
        }
    }
}

/// What follows from a step of formatting the message.
proof fn mirroring_formats(
    task: MirrorMessage,
    message: Message,
    settings: GuildSettings,
    dest: Place,
    dest_channel_id: u64,
    is_parent_forum: bool,
    formatting: FormatMessage,
    formatted: Progress<Formatted, HandlerError>,
    next: MirrorMessage,
    progress: Progress<(), HandlerError>,
    actions: Seq<Option<Action>>,
    replies: Seq<Reply>,
    start: int,
    k: int,
)
    requires
        task.src_guild_id == settings.src_guild_id,
        task.dest_guild_id == settings.dest_guild_id,
        task.webhook_username == settings.webhook_username,
        task.use_webhook_profile == settings.message_settings.use_webhook_profile,
        task.attach == settings.message_settings.remove_attachments,
        2 <= start <= k < replies.len(),
        is_target(dest, is_parent_forum, actions, replies),
        is_channel_of(dest_channel_id, dest),
        match formatted {
            Progress::Perform(action) => {
                &&& is_formatting(
                    formatting,
                    message,
                    settings.dest_guild_id,
                    settings.message_settings.remove_attachments,
                    actions,
                    replies,
                    start,
                    k,
                )
                &&& action is GetMapping || action is Now || action is Download
            },
            Progress::Done(formatted) => is_formatted(
                formatted,
                message,
                settings.dest_guild_id,
                settings.message_settings.remove_attachments,
                actions,
                replies,
                start,
                k,
            ),
            Progress::Failed(_) => true,
        },
        task.after_formatting(
            dest,
            dest_channel_id,
            is_parent_forum,
            formatting,
            formatted,
            next,
            progress,
        ),
    ensures
        has_mirrored(next, progress, message, settings, actions, replies, k),
{
    if let Progress::Done(formatted) = formatted {
        let writing = Writing {
            message_id: formatted.message.id,
            channel_id: formatted.message.channel_id,
            dest,
            dest_channel_id,
            is_parent_forum,
        };
        let before = GetOrCreateWebhook {
            channel_id: dest_channel_id,
            default_webhook_username: task.webhook_username,
            stage: WebhookStage::Begin,
        };
        let (finding, found) = choose|
            finding: GetOrCreateWebhook,
            found: Progress<Webhook, HandlerError>,
        |
            #![trigger task.after_webhook(formatted, writing, finding, found, next, progress)]
            {
                &&& before.step(Reply::Begin, finding, found)
                &&& task.after_webhook(formatted, writing, finding, found, next, progress)
            };
        assert(is_ready(formatted, message, settings, actions, replies, k));
        mirroring_finds_webhook(
            task,
            message,
            settings,
            formatted,
            writing,
            before,
            Reply::Begin,
            finding,
            found,
            next,
            progress,
            actions,
            replies,
            k,
        );
    }
}

/// What follows from a step of the search for the place.
proof fn mirroring_targets(
    task: MirrorMessage,
    message: Message,
    settings: GuildSettings,
    targeting: GetOrCreateThread,
    targeted: Progress<Target, HandlerError>,
    next: MirrorMessage,
    progress: Progress<(), HandlerError>,
    actions: Seq<Option<Action>>,
    replies: Seq<Reply>,
    k: int,
)
    requires
        task.src_guild_id == settings.src_guild_id,
        task.dest_guild_id == settings.dest_guild_id,
        task.webhook_username == settings.webhook_username,
        task.use_webhook_profile == settings.message_settings.use_webhook_profile,
        task.attach == settings.message_settings.remove_attachments,
        2 <= k < replies.len(),
        has_targeted(targeting, targeted, message, settings, actions, replies, k),
        targeted matches Progress::Perform(action) ==> is_to_mirror(
            action,
            message,
            settings,
            actions,
            replies,
            k,
        ),
        progress matches Progress::Perform(action) ==> actions[k] == Some(action),
        task.after_targeting(targeting, targeted, next, progress),
    ensures
        has_mirrored(next, progress, message, settings, actions, replies, k),
{
    if let Progress::Done(target) = targeted {
        if let Some(dest) = target.dest {
            if let Some(dest_channel_id) = crate::handlers::message::channel_of(dest) {
                let before = FormatMessage {
                    dest_guild_id: task.dest_guild_id,
                    attach: task.attach,
                    stage: FormatStage::Begin(target.message),
                };
                let (formatting, formatted) = choose|
                    formatting: FormatMessage,
                    formatted: Progress<Formatted, HandlerError>,
                |
                    #![trigger task.after_formatting(dest, dest_channel_id, target.is_parent_forum, formatting, formatted, next, progress)]
                    {
                        &&& before.step(Reply::Begin, formatting, formatted)
                        &&& task.after_formatting(
                            dest,
                            dest_channel_id,
                            target.is_parent_forum,
                            formatting,
                            formatted,
                            next,
                            progress,
                        )
                    };
                formatting_only_reads(before, Reply::Begin, formatting, formatted);
                formatting_begins(before, message, formatting, formatted, actions, replies, k);
                mirroring_formats(
                    task,
                    message,
                    settings,
                    dest,
                    dest_channel_id,
                    target.is_parent_forum,
                    formatting,
                    formatted,
                    next,
                    progress,
                    actions,
                    replies,
                    k,
                    k,
                );
            }
        }
    }
}

/// What a search for the place asks for.
proof fn targeting_is_to_mirror(
    task: GetOrCreateThread,
    reply: Reply,
    next: GetOrCreateThread,
    progress: Progress<Target, HandlerError>,
    message: Message,
    settings: GuildSettings,
    actions: Seq<Option<Action>>,
    replies: Seq<Reply>,
    k: int,
)
    requires
        task.src_channel_id == message.channel_id,
        task.step(reply, next, progress),
        has_targeted(next, progress, message, settings, actions, replies, k),
    ensures
        progress matches Progress::Perform(action) ==> is_to_mirror(
            action,
            message,
            settings,
            actions,
            replies,
            k,
        ),
{
    if let ThreadStage::Formatting { src_thread, dest_parent, formatting: before } = task.stage {
        let ended = task.at(ThreadStage::Ended);
        let (formatting, formatted) = choose|
            formatting: FormatMessage,
            formatted: Progress<Formatted, HandlerError>,
        |
            #![trigger before.step(reply, formatting, formatted)]
            {
                &&& before.step(reply, formatting, formatted)
                &&& ended.after_formatting(
                    src_thread,
                    dest_parent,
                    formatting,
                    formatted,
                    next,
                    progress,
                )
            };
        formatting_only_reads(before, reply, formatting, formatted);
    }
}

/// One step of a mirroring.
proof fn mirroring_goes_on(
    task: MirrorMessage,
    next: MirrorMessage,
    progress: Progress<(), HandlerError>,
    message: Message,
    settings: GuildSettings,
    actions: Seq<Option<Action>>,
    replies: Seq<Reply>,
    k: int,
)
    requires
        is_mirroring(task, message, settings, actions, replies, k - 1),
        task.stage is Sending ==> actions[k - 1] is Some && actions[k - 1]->0 is ExecuteWebhook,
        task.stage is Crossposting ==> was_sent(
            task.stage->Crossposting_dest_message_id,
            actions,
            replies,
            k - 1,
        ),
        task.awaits() is Some,
        replies[k].answers(task.awaits()->0),
        task.step(replies[k], next, progress),
        2 <= k < replies.len(),
        progress matches Progress::Perform(action) ==> actions[k] == Some(action),
    ensures
        has_mirrored(next, progress, message, settings, actions, replies, k),
{
    let ended = task.at(MessageStage::Ended);
    match task.stage {
        MessageStage::Targeting(before) => {
            let (targeting, targeted) = choose|
                targeting: GetOrCreateThread,
                targeted: Progress<Target, HandlerError>,
            |
                #![trigger before.step(replies[k], targeting, targeted)]
                {
                    &&& before.step(replies[k], targeting, targeted)
                    &&& ended.after_targeting(targeting, targeted, next, progress)
                };
            targeting_goes_on(before, targeting, targeted, message, settings, actions, replies, k);
            targeting_is_to_mirror(
                before,
                replies[k],
                targeting,
                targeted,
                message,
                settings,
                actions,
                replies,
                k,
            );
            mirroring_targets(
                ended,
                message,
                settings,
                targeting,
                targeted,
                next,
                progress,
                actions,
                replies,
                k,
            );
        },
        MessageStage::Formatting { dest, dest_channel_id, is_parent_forum, formatting: before } => {
            let start = choose|start: int|
                2 <= start && #[trigger] is_formatting(
                    before,
                    message,
                    settings.dest_guild_id,
                    settings.message_settings.remove_attachments,
                    actions,
                    replies,
                    start,
                    k - 1,
                );
            let (formatting, formatted) = choose|
                formatting: FormatMessage,
                formatted: Progress<Formatted, HandlerError>,
            |
                #![trigger before.step(replies[k], formatting, formatted)]
                {
                    &&& before.step(replies[k], formatting, formatted)
                    &&& ended.after_formatting(
                        dest,
                        dest_channel_id,
                        is_parent_forum,
                        formatting,
                        formatted,
                        next,
                        progress,
                    )
                };
            formatting_only_reads(before, replies[k], formatting, formatted);
            formatting_goes_on(
                before,
                message,
                formatting,
                formatted,
                actions,
                replies,
                start,
                k,
            );
            mirroring_formats(
                ended,
                message,
                settings,
                dest,
                dest_channel_id,
                is_parent_forum,
                formatting,
                formatted,
                next,
                progress,
                actions,
                replies,
                start,
                k,
            );
        },
        MessageStage::FindingWebhook { formatted, writing, finding: before } => {
            let (start, end) = choose|start: int, end: int|
                {
                    &&& #[trigger] is_formatted(
                        formatted,
                        message,
                        settings.dest_guild_id,
                        settings.message_settings.remove_attachments,
                        actions,
                        replies,
                        start,
                        end,
                    )
                    &&& 2 <= start <= end <= k - 1
                };
            assert(is_ready(formatted, message, settings, actions, replies, k));
            let (finding, found) = choose|
                finding: GetOrCreateWebhook,
                found: Progress<Webhook, HandlerError>,
            |
                #![trigger before.step(replies[k], finding, found)]
                {
                    &&& before.step(replies[k], finding, found)
                    &&& ended.after_webhook(formatted, writing, finding, found, next, progress)
                };
            mirroring_finds_webhook(
                ended,
                message,
                settings,
                formatted,
                writing,
                before,
                replies[k],
                finding,
                found,
                next,
                progress,
                actions,
                replies,
                k,
            );
        },
        MessageStage::Sending(writing) => {
            if let Reply::Sent(id) = replies[k] {
                assert(was_sent(id, actions, replies, k));
            }
        },
        _ => {},
    }
}

proof fn mirrored_up_to(
    tasks: Seq<HandleSingleEvent>,
    replies: Seq<Reply>,
    progress: Seq<Progress<(), HandlerError>>,
    settings: GuildSettings,
    message: Message,
    k: int,
)
    requires
        is_run(tasks, replies, progress),
        begins(tasks[0], Event::MessageCreate(message), settings),
        1 <= k < replies.len(),
        replies[1] is Done,
    ensures
        tasks[k + 1].task matches EventTask::MessageCreate(task) && has_mirrored(
            task,
            progress[k],
            message,
            settings,
            asked(progress),
            replies,
            k,
        ),
        progress[k] is Perform ==> tasks[k + 1].stage is Running,
    decreases k,
{
    let first = replies[0];
    let reply = replies[k];
    if k > 1 {
        mirrored_up_to(tasks, replies, progress, settings, message, k - 1);
        if !(progress[k - 1] is Perform) {
            runs_end(tasks, replies, progress, k - 1);
        }
        mirroring_goes_on(
            tasks[k].task->MessageCreate_0,
            tasks[k + 1].task->MessageCreate_0,
            progress[k],
            message,
            settings,
            asked(progress),
            replies,
            k,
        );
    } else {
        let task = tasks[1].task->MessageCreate_0;
        let next = tasks[2].task->MessageCreate_0;
        let ended = task.at(MessageStage::Ended);
        if !task.ignore && !(message.kind is ThreadCreated) {
            let before = GetOrCreateThread {
                src_guild_id: task.src_guild_id,
                dest_guild_id: task.dest_guild_id,
                src_channel_id: message.channel_id,
                attach: task.attach,
                stage: ThreadStage::Begin(message),
            };
            let (targeting, targeted) = choose|
                targeting: GetOrCreateThread,
                targeted: Progress<Target, HandlerError>,
            |
                #![trigger ended.after_targeting(targeting, targeted, next, progress[1])]
                {
                    &&& before.step(Reply::Begin, targeting, targeted)
                    &&& ended.after_targeting(targeting, targeted, next, progress[1])
                };
            assert(targeted is Perform);
        }
    }
}

/// Whatever is asked for because of a message is for mirroring it: what is written is its mirror;
/// what is created is the mirror of its thread; what is registered leads from the message to what
/// was written, or from its thread to what was created; and what is passed on is what was written.
pub proof fn messages_are_mirrored_faithfully(
    tasks: Seq<HandleSingleEvent>,
    replies: Seq<Reply>,
    progress: Seq<Progress<(), HandlerError>>,
    settings: GuildSettings,
    message: Message,
    action: Action,
    i: int,
)
    requires
        is_run(tasks, replies, progress),
        begins(tasks[0], Event::MessageCreate(message), settings),
        1 <= i < replies.len(),
        progress[i].performs(action),
    ensures
        is_to_mirror(action, message, settings, asked(progress), replies, i),
{
    let first = replies[0];
    let second = replies[1];
    let reply = replies[i];
    if !(replies[1] is Done) {
        runs_end(tasks, replies, progress, 1);
    }
    mirrored_up_to(tasks, replies, progress, settings, message, i);
}

// ---------------------------------------------------------------------------
// Messages are mirrored
// ---------------------------------------------------------------------------

/// Whether a message can be written under a name, and with a content.
pub open spec fn can_be_written(message: Message, settings: GuildSettings, content: Seq<char>) -> bool {
    &&& content.len() <= 2000
    &&& settings.message_settings.use_webhook_profile || (2 <= message.author.name@.len() <= 80
        && message.author.name@ != "clyde"@)
}

/// While a message whose channel is mirrored is being formatted nothing else is done.
proof fn message_is_formatted(
    tasks: Seq<HandleSingleEvent>,
    replies: Seq<Reply>,
    progress: Seq<Progress<(), HandlerError>>,
    settings: GuildSettings,
    message: Message,
    mapping: IdMapping,
    dest_channel: Channel,
    channel_id: u64,
    k: int,
)
    requires
        is_run(tasks, replies, progress),
        begins(tasks[0], Event::MessageCreate(message), settings),
        !is_left_out(message, settings),
        !(message.kind is ThreadCreated),
        !settings.message_settings.remove_attachments,
        forall|j: int| 0 <= j < replies.len() ==> !(#[trigger] replies[j] is Failed),
        3 <= k <= lookups_end(message, replies, 3),
        lookups_end(message, replies, 3) < replies.len(),
        replies[2] == Reply::Mapping(Some(mapping)),
        mapping@.dest_mapping_data is Some,
        replies[3] matches Reply::Decoded { dest: Some(Ok(MappingData::Channel(channel))), .. }
            && channel == dest_channel,
        is_channel_of(channel_id, dest_channel.spec_place()),
    ensures
        progress[k] is Perform,
        tasks[k + 1].task matches EventTask::MessageCreate(task) && if k < lookups_end(
            message,
            replies,
            3,
        ) {
            task.stage matches MessageStage::Formatting {
                dest,
                dest_channel_id,
                is_parent_forum,
                formatting,
            } && dest == dest_channel.spec_place() && dest_channel_id == channel_id
                && !is_parent_forum && is_formatting(
                formatting,
                message,
                settings.dest_guild_id,
                false,
                asked(progress),
                replies,
                3,
                k,
            )
        } else {
            &&& progress[k].performs(Action::GetWebhooks(channel_id))
            &&& task.stage matches MessageStage::FindingWebhook { formatted, writing, finding }
            &&& is_formatted(
                formatted,
                message,
                settings.dest_guild_id,
                false,
                asked(progress),
                replies,
                3,
                k,
            )
            &&& writing.dest == dest_channel.spec_place()
            &&& writing.message_id == message.id
            &&& writing.channel_id == message.channel_id
            &&& writing.dest_channel_id == channel_id
            &&& !writing.is_parent_forum
            &&& finding.stage is Listing
        },
    decreases k,
{
    let a = replies[0];
    let b = replies[1];
    let c = replies[2];
    let reply = replies[k];
    let actions = asked(progress);
    left_out_is_ignored(message, settings);
    mirrored_up_to(tasks, replies, progress, settings, message, k);
    mirrored_up_to(tasks, replies, progress, settings, message, k - 1);
    let task = tasks[k].task->MessageCreate_0;
    let next = tasks[k + 1].task->MessageCreate_0;
    let ended = task.at(MessageStage::Ended);
    let place = dest_channel.spec_place();
    if k == 3 {
        mirrored_up_to(tasks, replies, progress, settings, message, 1);
        mirrored_up_to(tasks, replies, progress, settings, message, 2);
        if let MessageStage::Targeting(before) = task.stage {
            let (targeting, targeted) = choose|
                targeting: GetOrCreateThread,
                targeted: Progress<Target, HandlerError>,
            |
                #![trigger before.step(replies[k], targeting, targeted)]
                {
                    &&& before.step(replies[k], targeting, targeted)
                    &&& ended.after_targeting(targeting, targeted, next, progress[k])
                };
            let formatter = FormatMessage {
                dest_guild_id: task.dest_guild_id,
                attach: task.attach,
                stage: FormatStage::Begin(message),
            };
            let (formatting, formatted) = choose|
                formatting: FormatMessage,
                formatted: Progress<Formatted, HandlerError>,
            |
                #![trigger ended.after_formatting(place, channel_id, false, formatting, formatted, next, progress[k])]
                {
                    &&& formatter.step(Reply::Begin, formatting, formatted)
                    &&& ended.after_formatting(
                        place,
                        channel_id,
                        false,
                        formatting,
                        formatted,
                        next,
                        progress[k],
                    )
                };
            formatting_begins(formatter, message, formatting, formatted, actions, replies, k);
        }
    } else {
        message_is_formatted(
            tasks,
            replies,
            progress,
            settings,
            message,
            mapping,
            dest_channel,
            channel_id,
            k - 1,
        );
        if let MessageStage::Formatting { dest, dest_channel_id, is_parent_forum, formatting: before } =
            task.stage {
            let (formatting, formatted) = choose|
                formatting: FormatMessage,
                formatted: Progress<Formatted, HandlerError>,
            |
                #![trigger before.step(replies[k], formatting, formatted)]
                {
                    &&& before.step(replies[k], formatting, formatted)
                    &&& ended.after_formatting(
                        dest,
                        dest_channel_id,
                        is_parent_forum,
                        formatting,
                        formatted,
                        next,
                        progress[k],
                    )
                };
            formatting_goes_on(
                before,
                message,
                formatting,
                formatted,
                actions,
                replies,
                3,
                k,
            );
            formatting_fails_only_with_its_answers(before, replies[k], formatting, formatted);
        }
    }
}

/// A formatting fails only where an operation does.
proof fn formatting_fails_only_with_its_answers(
    task: FormatMessage,
    reply: Reply,
    next: FormatMessage,
    progress: Progress<Formatted, HandlerError>,
)
    requires
        task.step(reply, next, progress),
        !(reply is Failed),
    ensures
        !(progress is Failed),
{
}

/// A message that the settings do not leave out, in a channel that is mirrored by one with a
/// webhook, is written there where nothing fails and nothing is out of bounds: with its content, in
/// which each mention names its mirror, below a link to what it answers where that is mirrored.
/// What was written is passed on where that is an announcement channel, and it is registered as the
/// mirror of the message, unless the message stands for its thread.
pub proof fn messages_are_mirrored(
    tasks: Seq<HandleSingleEvent>,
    replies: Seq<Reply>,
    progress: Seq<Progress<(), HandlerError>>,
    settings: GuildSettings,
    message: Message,
    mapping: IdMapping,
    dest_channel: Channel,
    channel_id: u64,
    webhooks: Vec<Webhook>,
    end: int,
)
    requires
        is_run(tasks, replies, progress),
        begins(tasks[0], Event::MessageCreate(message), settings),
        !is_left_out(message, settings),
        !(message.kind is ThreadCreated),
        !settings.message_settings.remove_attachments,
        forall|j: int| 0 <= j < replies.len() ==> !(#[trigger] replies[j] is Failed),
        end == lookups_end(message, replies, 3),
        end + 1 < replies.len(),
        replies[2] == Reply::Mapping(Some(mapping)),
        mapping@.dest_mapping_data is Some,
        replies[3] matches Reply::Decoded { dest: Some(Ok(MappingData::Channel(channel))), .. }
            && channel == dest_channel,
        is_channel_of(channel_id, dest_channel.spec_place()),
        replies[end + 1] == Reply::Webhooks(webhooks),
        webhooks@.len() > 0,
        webhooks@[0].token is Some,
        can_be_written(
            message,
            settings,
            mirrored_content(message, settings.dest_guild_id, replies, 3),
        ),
    ensures
        progress[1].performs(Action::FindMapping { orig_id: message.channel_id }),
        progress[end].performs(Action::GetWebhooks(channel_id)),
        if crate::validation::embeds_refusal(
            crate::validation::texts_of(message.embeds@),
        ) is Some {
            progress[end + 1] is Failed
        } else {
            progress[end + 1] matches Progress::Perform(Action::ExecuteWebhook(written)) && {
                &&& written.content@ == mirrored_content(
                    message,
                    settings.dest_guild_id,
                    replies,
                    3,
                )
                &&& written.embeds is Some && written.embeds->0@ == message.embeds@
                &&& written.webhook_id == webhooks@[0].id
                &&& written.token == webhooks@[0].token->0
            }
        },
        replies.len() > end + 2 ==> replies[end + 2] is Sent && {
            let id = replies[end + 2]->Sent_0;
            if dest_channel.kind is GuildAnnouncement || dest_channel.kind is AnnouncementThread {
                progress[end + 2].performs(
                    Action::CrosspostMessage { channel_id, message_id: id },
                )
            } else if message.id == message.channel_id {
                progress[end + 2].yields(())
            } else {
                progress[end + 2] matches Progress::Perform(Action::RegisterMapping(registered))
                    && leads(
                    registered@,
                    message.id,
                    id,
                    settings.src_guild_id,
                    settings.dest_guild_id,
                )
            }
        },
{
    let a = replies[0];
    let b = replies[1];
    let c = replies[2];
    left_out_is_ignored(message, settings);
    message_is_formatted(
        tasks,
        replies,
        progress,
        settings,
        message,
        mapping,
        dest_channel,
        channel_id,
        end,
    );
    mirrored_up_to(tasks, replies, progress, settings, message, 1);
    mirrored_up_to(tasks, replies, progress, settings, message, end);
    let d = replies[end + 1];
    let task = tasks[end + 1].task->MessageCreate_0;
    let next = tasks[end + 2].task->MessageCreate_0;
    let ended = task.at(MessageStage::Ended);
    if let MessageStage::FindingWebhook { formatted, writing, finding: before } = task.stage {
        let (finding, found) = choose|
            finding: GetOrCreateWebhook,
            found: Progress<Webhook, HandlerError>,
        |
            #![trigger before.step(replies[end + 1], finding, found)]
            {
                &&& before.step(replies[end + 1], finding, found)
                &&& ended.after_webhook(formatted, writing, finding, found, next, progress[end + 1])
            };
        assert(found.yields(webhooks@[0]));
    }
    if replies.len() > end + 2 {
        let e = replies[end + 2];
    }
}

/// A message in a public thread, or in one of an announcement channel, that nothing mirrors yet, is
/// what the mirror of that thread is created for, below what mirrors its parent, where nothing fails
/// and nothing is out of bounds. What was created is registered as the mirror of the thread.
pub proof fn threads_are_created_for_messages(
    tasks: Seq<HandleSingleEvent>,
    replies: Seq<Reply>,
    progress: Seq<Progress<(), HandlerError>>,
    settings: GuildSettings,
    message: Message,
    src_thread: Channel,
    mapping: IdMapping,
    dest_parent: Channel,
    dest_thread: Channel,
)
    requires
        is_run(tasks, replies, progress),
        begins(tasks[0], Event::MessageCreate(message), settings),
        !is_left_out(message, settings),
        !(message.kind is ThreadCreated),
        !settings.message_settings.remove_attachments,
        looked_up(message.content@, message.mention_roles@).len() == 0,
        message.reference is None,
        replies.len() > 6,
        replies[1] is Done,
        replies[2] == Reply::Mapping(None),
        replies[3] == Reply::Channel(src_thread),
        src_thread.kind is PublicThread || src_thread.kind is AnnouncementThread,
        src_thread.parent_id is Some,
        src_thread.name is Some,
        1 <= src_thread.name->0@.len() <= 100,
        src_thread.encoded is Ok,
        replies[4] == Reply::Mapping(Some(mapping)),
        mapping@.dest_mapping_data is Some,
        replies[5] matches Reply::Decoded { dest: Some(Ok(MappingData::Channel(channel))), .. }
            && channel == dest_parent,
        !(dest_parent.kind is GuildForum),
        replies[6] == Reply::Thread(dest_thread),
        dest_thread.encoded is Ok,
    ensures
        progress[2].performs(Action::GetChannel(message.channel_id)),
        progress[3].performs(Action::FindMapping { orig_id: src_thread.parent_id->0 }),
        progress[5] is Perform,
        progress[5]->Perform_0 is CreateThread,
        progress[6] is Perform,
        progress[6]->Perform_0 is RegisterMapping,
{
    let a = replies[0];
    let b = replies[1];
    let c = replies[2];
    let d = replies[3];
    let e = replies[4];
    let f = replies[5];
    let g = replies[6];
    left_out_is_ignored(message, settings);
    mirrored_up_to(tasks, replies, progress, settings, message, 4);
    mirrored_up_to(tasks, replies, progress, settings, message, 5);
    let task = tasks[5].task->MessageCreate_0;
    let next = tasks[6].task->MessageCreate_0;
    let ended = task.at(MessageStage::Ended);
    let place = dest_parent.spec_place();
    if let MessageStage::Targeting(before) = task.stage {
        let (targeting, targeted) = choose|
            targeting: GetOrCreateThread,
            targeted: Progress<Target, HandlerError>,
        |
            #![trigger before.step(replies[5], targeting, targeted)]
            {
                &&& before.step(replies[5], targeting, targeted)
                &&& ended.after_targeting(targeting, targeted, next, progress[5])
            };
        let formatter = FormatMessage {
            dest_guild_id: before.dest_guild_id,
            attach: before.attach,
            stage: FormatStage::Begin(message),
        };
        let finished = before.at(ThreadStage::Ended);
        let (formatting, formatted) = choose|
            formatting: FormatMessage,
            formatted: Progress<Formatted, HandlerError>,
        |
            #![trigger finished.after_formatting(src_thread, place, formatting, formatted, targeting, targeted)]
            {
                &&& formatter.step(Reply::Begin, formatting, formatted)
                &&& finished.after_formatting(
                    src_thread,
                    place,
                    formatting,
                    formatted,
                    targeting,
                    targeted,
                )
            };
        formatting_begins(formatter, message, formatting, formatted, asked(progress), replies, 5);
        formatting_fails_only_with_its_answers(formatter, Reply::Begin, formatting, formatted);
        assert(formatted is Done);
    }
    mirrored_up_to(tasks, replies, progress, settings, message, 6);
}

} // verus!
