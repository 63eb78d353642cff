//! What becomes of the content and the files of a message.
use super::content::{
    is_looked_up, is_rewriting, looked_up, result_of, rewriting_begins, rewriting_goes_on,
};
use super::mirror_id;
use crate::errors::HandlerError;
use crate::handlers::format::{FormatMessage, FormatStage, Formatted};
use crate::handlers::reference::{ReferenceStage, ReferenceToUrl};
use crate::handlers::rewrite::RewriteMentions;
use crate::model::{Message, MessageReference};
use crate::operation::{Action, Progress, Reply, Task, Upload};
use crate::text::decimal;
use vstd::prelude::*;

verus! {

/// Whether it is told which message is answered.
pub open spec fn is_answer(message: Message) -> bool {
    message.reference matches Some(reference) && reference.channel_id is Some
        && reference.message_id is Some
}

/// After which answer the lookups of what a message mentions have ended.
pub open spec fn mentions_end(message: Message, start: int) -> int {
    start + looked_up(message.content@, message.mention_roles@).len()
}

/// After which answer the lookups of what a message answers have ended: the message is looked up
/// where the channel was found.
pub open spec fn lookups_end(message: Message, replies: Seq<Reply>, start: int) -> int {
    let r = mentions_end(message, start);
    if !is_answer(message) {
        r
    } else if replies[r + 1] matches Reply::Mapping(Some(_)) {
        r + 2
    } else {
        r + 1
    }
}

/// Whether what a message answers was looked up, after what it mentions.
pub open spec fn reference_is_looked_up(
    message: Message,
    actions: Seq<Option<Action>>,
    replies: Seq<Reply>,
    start: int,
) -> bool {
    let r = mentions_end(message, start);
    is_answer(message) ==> {
        &&& actions[r] == Some(
            Action::GetMapping { orig_id: message.reference->0.channel_id->0 },
        )
        &&& replies[r + 1] is Mapping
        &&& replies[r + 1]->Mapping_0 is Some ==> {
            &&& actions[r + 1] == Some(
                Action::GetMapping { orig_id: message.reference->0.message_id->0 },
            )
            &&& replies[r + 2] is Mapping
        }
    }
}

/// The content of a message as it is mirrored: each mention names its mirror, and where the mirror
/// of what is answered was found, a link to it stands in front.
pub open spec fn mirrored_content(
    message: Message,
    dest_guild_id: u64,
    replies: Seq<Reply>,
    start: int,
) -> Seq<char> {
    let content = result_of(message.content@, message.mention_roles@, replies, start);
    let r = mentions_end(message, start);
    if !is_answer(message) {
        content
    } else {
        match (replies[r + 1], replies[r + 2]) {
            (Reply::Mapping(Some(channel)), Reply::Mapping(Some(answered))) => "[REPLY]\n"@ + (
            "https://discord.com/channels/"@ + decimal(dest_guild_id as nat) + "/"@ + decimal(
                mirror_id(channel) as nat,
            ) + "/"@ + decimal(mirror_id(answered) as nat)) + "\n\n"@ + content,
            _ => content,
        }
    }
}

/// Whether the first files of a message were fetched from `t` on, each under its name and with the
/// time at which it was.
pub open spec fn are_fetched(
    uploads: Seq<Upload>,
    message: Message,
    actions: Seq<Option<Action>>,
    replies: Seq<Reply>,
    t: int,
) -> bool {
    &&& uploads.len() <= message.attachments@.len()
    &&& forall|j: int|
        0 <= j < uploads.len() ==> {
            &&& (#[trigger] uploads[j]).filename == message.attachments@[j].filename
            &&& actions[t + 2 * j] == Some(Action::Now)
            &&& actions[t + 2 * j + 1] == Some(Action::Download(message.attachments@[j].url))
            &&& replies[t + 2 * j + 1] matches Reply::Time { secs, subsec_nanos } && uploads[j].id
                == secs * 1000 + subsec_nanos / 1_000_000
            &&& replies[t + 2 * j + 2] == Reply::Bytes(uploads[j].bytes)
        }
}

/// Whether a message was formatted, from after answer `start` to after answer `end`: what it
/// mentions and what it answers were looked up, its content is the mirrored one, and its files
/// were fetched where they are to be sent along.
pub open spec fn is_formatted(
    formatted: Formatted,
    message: Message,
    dest_guild_id: u64,
    attach: bool,
    actions: Seq<Option<Action>>,
    replies: Seq<Reply>,
    start: int,
    end: int,
) -> bool {
    let t = lookups_end(message, replies, start);
    &&& 0 <= start
    &&& end < replies.len()
    &&& is_looked_up(message.content@, message.mention_roles@, actions, replies, start)
    &&& reference_is_looked_up(message, actions, replies, start)
    &&& formatted.message == message
    &&& formatted.content@ == mirrored_content(message, dest_guild_id, replies, start)
    &&& are_fetched(formatted.attachments@, message, actions, replies, t)
    &&& formatted.attachments@.len() == (if attach {
        message.attachments@.len()
    } else {
        0
    })
    &&& end == t + 2 * formatted.attachments@.len()
}

/// Whether a formatting that began after answer `start` waits for the answer after `k`.
pub open spec fn is_formatting(
    task: FormatMessage,
    message: Message,
    dest_guild_id: u64,
    attach: bool,
    actions: Seq<Option<Action>>,
    replies: Seq<Reply>,
    start: int,
    k: int,
) -> bool {
    let content = message.content@;
    let roles = message.mention_roles@;
    let r = mentions_end(message, start);
    &&& task.dest_guild_id == dest_guild_id
    &&& task.attach == attach
    &&& 0 <= start <= k
    &&& match task.stage {
        FormatStage::Rewriting { message: kept, rewriting } => kept == message && is_rewriting(
            rewriting,
            content,
            roles,
            actions,
            replies,
            start,
            k,
        ),
        FormatStage::Referencing { message: kept, content: carried, referencing } => {
            &&& kept == message
            &&& is_looked_up(content, roles, actions, replies, start)
            &&& carried@ == result_of(content, roles, replies, start)
            &&& is_answer(message)
            &&& referencing.reference == message.reference
            &&& referencing.dest_guild == dest_guild_id
            &&& actions[r] == Some(
                Action::GetMapping { orig_id: message.reference->0.channel_id->0 },
            )
            &&& match referencing.stage {
                ReferenceStage::FindingChannel(id) => k == r && id
                    == message.reference->0.message_id->0,
                ReferenceStage::FindingMessage(id) => {
                    &&& k == r + 1
                    &&& replies[k] matches Reply::Mapping(Some(found)) && id == mirror_id(found)
                    &&& actions[k] == Some(
                        Action::GetMapping { orig_id: message.reference->0.message_id->0 },
                    )
                },
                _ => false,
            }
        },
        FormatStage::ReadingClock(formatted) => {
            let t = lookups_end(message, replies, start);
            &&& attach
            &&& formatted.message == message
            &&& is_looked_up(content, roles, actions, replies, start)
            &&& reference_is_looked_up(message, actions, replies, start)
            &&& formatted.content@ == mirrored_content(message, dest_guild_id, replies, start)
            &&& are_fetched(formatted.attachments@, message, actions, replies, t)
            &&& k == t + 2 * formatted.attachments@.len()
            &&& actions[k] == Some(Action::Now)
            &&& formatted.attachments@.len() < message.attachments@.len()
        },
        FormatStage::Fetching { formatted, upload_id } => {
            let t = lookups_end(message, replies, start);
            let next = formatted.attachments@.len() as int;
            &&& attach
            &&& formatted.message == message
            &&& is_looked_up(content, roles, actions, replies, start)
            &&& reference_is_looked_up(message, actions, replies, start)
            &&& formatted.content@ == mirrored_content(message, dest_guild_id, replies, start)
            &&& are_fetched(formatted.attachments@, message, actions, replies, t)
            &&& k == t + 2 * next + 1
            &&& actions[k - 1] == Some(Action::Now)
            &&& next < message.attachments@.len()
            &&& actions[k] == Some(Action::Download(message.attachments@[next].url))
            &&& replies[k] matches Reply::Time { secs, subsec_nanos } && upload_id == secs * 1000
                + subsec_nanos / 1_000_000
        },
        _ => false,
    }
}

/// What a formatting has come to after answer `k`.
pub open spec fn has_formatted(
    next: FormatMessage,
    progress: Progress<Formatted, HandlerError>,
    message: Message,
    dest_guild_id: u64,
    attach: bool,
    actions: Seq<Option<Action>>,
    replies: Seq<Reply>,
    start: int,
    k: int,
) -> bool {
    match progress {
        Progress::Perform(_) => is_formatting(
            next,
            message,
            dest_guild_id,
            attach,
            actions,
            replies,
            start,
            k,
        ),
        Progress::Done(formatted) => is_formatted(
            formatted,
            message,
            dest_guild_id,
            attach,
            actions,
            replies,
            start,
            k,
        ),
        Progress::Failed(_) => true,
    }
}

/// What follows once everything was looked up.
proof fn fetching_begins(
    task: FormatMessage,
    message: Message,
    content: Seq<char>,
    next: FormatMessage,
    progress: Progress<Formatted, HandlerError>,
    actions: Seq<Option<Action>>,
    replies: Seq<Reply>,
    start: int,
    k: int,
)
    requires
        0 <= start <= k < replies.len(),
        is_looked_up(message.content@, message.mention_roles@, actions, replies, start),
        reference_is_looked_up(message, actions, replies, start),
        content == mirrored_content(message, task.dest_guild_id, replies, start),
        k == lookups_end(message, replies, start),
        task.fetched(message, content, Seq::empty(), next, progress),
        progress matches Progress::Perform(action) ==> actions[k] == Some(action),
    ensures
        has_formatted(
            next,
            progress,
            message,
            task.dest_guild_id,
            task.attach,
            actions,
            replies,
            start,
            k,
        ),
{
}

/// What follows once the content was rewritten.
proof fn referencing_begins(
    task: FormatMessage,
    message: Message,
    content: String,
    next: FormatMessage,
    progress: Progress<Formatted, HandlerError>,
    actions: Seq<Option<Action>>,
    replies: Seq<Reply>,
    start: int,
    k: int,
    rewriting: RewriteMentions,
)
    requires
        0 <= start <= k < replies.len(),
        is_looked_up(message.content@, message.mention_roles@, actions, replies, start),
        content@ == result_of(message.content@, message.mention_roles@, replies, start),
        k == mentions_end(message, start),
        task.after_rewriting(
            message,
            rewriting,
            Progress::<String, HandlerError>::Done(content),
            next,
            progress,
        ),
        progress matches Progress::Perform(action) ==> actions[k] == Some(action),
    ensures
        has_formatted(
            next,
            progress,
            message,
            task.dest_guild_id,
            task.attach,
            actions,
            replies,
            start,
            k,
        ),
{
    let before = ReferenceToUrl {
        reference: message.reference,
        dest_guild: task.dest_guild_id,
        stage: ReferenceStage::Begin,
    };
    let (referencing, referenced) = choose|
        referencing: ReferenceToUrl,
        referenced: Progress<Option<String>, HandlerError>,
    |
        #![trigger task.after_referencing(message, content, referencing, referenced, next, progress)]
        {
            &&& before.step(Reply::Begin, referencing, referenced)
            &&& task.after_referencing(message, content, referencing, referenced, next, progress)
        };
    if referenced is Done {
        fetching_begins(
            task,
            message,
            content@,
            next,
            progress,
            actions,
            replies,
            start,
            k,
        );
    }
}

/// The first step of a formatting, which has the answer `k` of the whole.
pub(crate) proof fn formatting_begins(
    task: FormatMessage,
    message: Message,
    next: FormatMessage,
    progress: Progress<Formatted, HandlerError>,
    actions: Seq<Option<Action>>,
    replies: Seq<Reply>,
    k: int,
)
    requires
        task.stage == FormatStage::Begin(message),
        task.step(Reply::Begin, next, progress),
        0 <= k < replies.len(),
        progress matches Progress::Perform(action) ==> actions[k] == Some(action),
    ensures
        has_formatted(
            next,
            progress,
            message,
            task.dest_guild_id,
            task.attach,
            actions,
            replies,
            k,
            k,
        ),
{
    let ended = task.at(FormatStage::Ended);
    let content = message.content@;
    let roles = message.mention_roles@;
    let (before, rewriting, rewritten) = choose|
        before: RewriteMentions,
        rewriting: RewriteMentions,
        rewritten,
    |
        #![trigger before.step(Reply::Begin, rewriting, rewritten)]
        {
            &&& before.begins(content, roles)
            &&& before.step(Reply::Begin, rewriting, rewritten)
            &&& ended.after_rewriting(message, rewriting, rewritten, next, progress)
        };
    rewriting_begins(before, content, roles, rewriting, rewritten, actions, replies, k);
    if let Progress::Done(result) = rewritten {
        assert(looked_up(content, roles).len() == 0) by {
            assert(before.advanced(Seq::empty(), rewriting, rewritten));
            crate::laws::content::mentions_are_looked_up(content, roles);
        }
        referencing_begins(
            ended,
            message,
            result,
            next,
            progress,
            actions,
            replies,
            k,
            k,
            rewriting,
        );
    }
}

/// One step of a formatting.
pub(crate) proof fn formatting_goes_on(
    task: FormatMessage,
    message: Message,
    next: FormatMessage,
    progress: Progress<Formatted, HandlerError>,
    actions: Seq<Option<Action>>,
    replies: Seq<Reply>,
    start: int,
    k: int,
)
    requires
        is_formatting(
            task,
            message,
            task.dest_guild_id,
            task.attach,
            actions,
            replies,
            start,
            k - 1,
        ),
        task.awaits() is Some,
        replies[k].answers(task.awaits()->0),
        task.step(replies[k], next, progress),
        0 <= k < replies.len(),
        progress matches Progress::Perform(action) ==> actions[k] == Some(action),
    ensures
        has_formatted(
            next,
            progress,
            message,
            task.dest_guild_id,
            task.attach,
            actions,
            replies,
            start,
            k,
        ),
{
    let ended = task.at(FormatStage::Ended);
    let content = message.content@;
    let roles = message.mention_roles@;
    match task.stage {
        FormatStage::Rewriting { message: kept, rewriting: before } => {
            let (rewriting, rewritten) = choose|
                rewriting: RewriteMentions,
                rewritten: Progress<String, HandlerError>,
            |
                #![trigger before.step(replies[k], rewriting, rewritten)]
                {
                    &&& before.step(replies[k], rewriting, rewritten)
                    &&& ended.after_rewriting(message, rewriting, rewritten, next, progress)
                };
            rewriting_goes_on(
                before,
                content,
                roles,
                rewriting,
                rewritten,
                actions,
                replies,
                start,
                k,
            );
            if let Progress::Done(result) = rewritten {
                referencing_begins(
                    ended,
                    message,
                    result,
                    next,
                    progress,
                    actions,
                    replies,
                    start,
                    k,
                    rewriting,
                );
            }
        },
        FormatStage::Referencing { message: kept, content: carried, referencing: before } => {
            let (referencing, referenced) = choose|
                referencing: ReferenceToUrl,
                referenced: Progress<Option<String>, HandlerError>,
            |
                #![trigger before.step(replies[k], referencing, referenced)]
                {
                    &&& before.step(replies[k], referencing, referenced)
                    &&& ended.after_referencing(
                        message,
                        carried,
                        referencing,
                        referenced,
                        next,
                        progress,
                    )
                };
            if let Progress::Done(url) = referenced {
                let linked = crate::handlers::format::with_reply_link(url, carried@);
                fetching_begins(
                    ended,
                    message,
                    linked,
                    next,
                    progress,
                    actions,
                    replies,
                    start,
                    k,
                );
            }
        },
        FormatStage::Fetching { formatted, upload_id } => {
            if let Reply::Bytes(bytes) = replies[k] {
                let t = lookups_end(message, replies, start);
                let before = formatted.attachments@;
                let filename = message.attachments@[before.len() as int].filename;
                let uploads = before.push(Upload { filename, bytes, id: upload_id });
                assert forall|j: int| 0 <= j < uploads.len() implies {
                    &&& (#[trigger] uploads[j]).filename == message.attachments@[j].filename
                    &&& actions[t + 2 * j] == Some(Action::Now)
                    &&& actions[t + 2 * j + 1] == Some(
                        Action::Download(message.attachments@[j].url),
                    )
                    &&& replies[t + 2 * j + 1] matches Reply::Time { secs, subsec_nanos }
                        && uploads[j].id == secs * 1000 + subsec_nanos / 1_000_000
                    &&& replies[t + 2 * j + 2] == Reply::Bytes(uploads[j].bytes)
                } by {
                    if j < before.len() {
                        assert(before[j] == uploads[j]);
                    }
                }
                assert(are_fetched(uploads, message, actions, replies, t));
            }
        },
        _ => {},
    }
}

} // verus!
