//! Finding, or else creating, the channel in which a message is mirrored.
use crate::errors::HandlerError;
use crate::handlers::format::{format_message, FormatMessage, FormatStage, Formatted};
use crate::model::{
    kept_object, record, recorded, Channel, ChannelType, Decoded, IdMapping, MappingData, Message,
    Place,
};
use crate::operation::{
    Action, NewForumPost, NewThread, Progress, Reply, ReplyKind, Task, Upload,
};
use crate::text::copy_texts;
use crate::validation::{
    check_post, check_thread, content_refusal, embeds_refusal, first_of, texts_of, thread_refusal,
    uploads_refusal, Refusal,
};
use vstd::prelude::*;

verus! {

// ---------------------------------------------------------------------------
// Creating a thread
// ---------------------------------------------------------------------------

/// The message that a thread begins with, its content and its attachments as they are
/// mirrored.
pub type Starter<'a> = Option<(&'a Message, String, Vec<Upload>)>;

/// Why a post cannot begin with a message. It can always begin with an empty line.
pub open spec fn starter_refusal(starter: Starter) -> Refusal {
    match starter {
        Some((message, content, attachments)) => first_of(
            content_refusal(content@),
            first_of(embeds_refusal(texts_of(message.embeds@)), uploads_refusal(attachments@)),
        ),
        None => None,
    }
}

/// Whether an operation creates the mirror of a thread below a channel, or an error tells why
/// there is none. In a forum it is a post, which begins with the starter message or else with
/// an empty line, and is refused where that message cannot be written; elsewhere it is a thread
/// of the same kind, and is refused where a thread cannot have that name or that kind.
pub open spec fn creates_thread(
    outcome: Result<Action, HandlerError>,
    src_thread: Channel,
    dest_parent: Place,
    starter: Starter,
    thread_name: String,
) -> bool {
    if dest_parent.kind is GuildForum {
        match starter_refusal(starter) {
            Some(reason) => outcome matches Err(HandlerError::ClientMessageValidation(detail))
                && detail@ == reason,
            None => outcome matches Ok(Action::CreateForumPost(post)) && begins_post(
                post,
                src_thread,
                dest_parent,
                starter,
                thread_name,
            ),
        }
    } else {
        match thread_refusal(thread_name@, src_thread.kind) {
            Some(reason) => outcome matches Err(HandlerError::ClientChannelValidation(detail))
                && detail@ == reason,
            None => outcome == Ok::<Action, HandlerError>(
                Action::CreateThread(
                    NewThread {
                        parent_id: dest_parent.id,
                        name: thread_name,
                        kind: src_thread.kind,
                        invitable: src_thread.invitable,
                        auto_archive_duration: src_thread.default_auto_archive_duration,
                    },
                ),
            ),
        }
    }
}

/// Whether a post mirrors a thread.
pub open spec fn begins_post(
    post: NewForumPost,
    src_thread: Channel,
    dest_parent: Place,
    starter: Starter,
    thread_name: String,
) -> bool {
    &&& post.parent_id == dest_parent.id
    &&& post.name == thread_name
    &&& post.auto_archive_duration == src_thread.default_auto_archive_duration
    &&& match starter {
        Some((message, content, attachments)) => {
            &&& post.content == content
            &&& post.embeds is Some
            &&& post.embeds->0@ == message.embeds@
            &&& post.attachments == Some(attachments)
        },
        None => {
            &&& post.content@ == "_ _"@
            &&& post.embeds is None
            &&& post.attachments is None
        },
    }
}

/// The operation that creates the mirror of a thread below a channel, or why there is none.
pub fn create_thread(
    src_thread: &Channel,
    dest_parent: Place,
    starter: Starter,
    thread_name: String,
) -> (outcome: Result<Action, HandlerError>)
    ensures
        creates_thread(outcome, *src_thread, dest_parent, starter, thread_name),
        outcome is Ok ==> outcome->Ok_0.answered_by() is Thread,
{
    let parent_id = dest_parent.id;
    let name = thread_name;
    let auto_archive_duration = src_thread.default_auto_archive_duration;
    if dest_parent.kind == ChannelType::GuildForum {
        let (content, embeds, attachments) = match starter {
            Some((message, content, attachments)) => (
                content,
                Some(copy_texts(&message.embeds)),
                Some(attachments),
            ),
            None => ("_ _".to_string(), None, None),
        };
        let post = NewForumPost {
            parent_id,
            name,
            auto_archive_duration,
            content,
            embeds,
            attachments,
        };
        proof {
            reveal_strlit("_ _");
        }
        match check_post(&post) {
            Ok(()) => Ok(Action::CreateForumPost(post)),
            Err(reason) => Err(HandlerError::ClientMessageValidation(reason)),
        }
    } else {
        let kind = src_thread.kind;
        match check_thread(&name, kind) {
            Ok(()) => {
                let invitable = src_thread.invitable;
                Ok(
                    Action::CreateThread(
                        NewThread { parent_id, name, kind, invitable, auto_archive_duration },
                    ),
                )
            },
            Err(reason) => Err(HandlerError::ClientChannelValidation(reason)),
        }
    }
}

/// The channel that a mapping keeps for the mirroring side.
pub open spec fn kept_channel(mapping: IdMapping, dest: Decoded) -> Option<Place> {
    match kept_object(mapping@.dest_mapping_data, dest) {
        Some(MappingData::Channel(channel)) => Some(channel.spec_place()),
        _ => None,
    }
}

/// The channel that a mapping keeps for the mirroring side.
fn read_channel(mapping: IdMapping, src: Decoded, dest: Decoded) -> (place: Option<Place>)
    ensures
        place == kept_channel(mapping, dest),
{
    match mapping.mapping_data(src, dest).1 {
        Some(MappingData::Channel(channel)) => Some(channel.place()),
        _ => None,
    }
}

// ---------------------------------------------------------------------------
// Finding or creating
// ---------------------------------------------------------------------------

/// Whether a thread of this type is created where nothing mirrors it yet.
pub open spec fn is_creatable(kind: ChannelType) -> bool {
    kind is AnnouncementThread || kind is PublicThread
}

/// Where a message goes, if anywhere, and whether the message has just begun a post of a
/// forum there.
pub struct Target {
    pub message: Message,
    pub dest: Option<Place>,
    pub is_parent_forum: bool,
}

/// How far the search for the channel has come.
pub enum ThreadStage {
    Begin(Message),
    FindingChannel(Message),
    ReadingChannel { message: Message, mapping: IdMapping },
    GettingThread(Message),
    FindingParent { message: Message, src_thread: Channel },
    ReadingParent { message: Message, src_thread: Channel, mapping: IdMapping },
    Formatting { src_thread: Channel, dest_parent: Place, formatting: FormatMessage },
    Creating { message: Message, src_thread: Channel, dest_parent: Place },
    Registering { message: Message, dest: Place, is_parent_forum: bool },
    Ended,
}

/// Finds the channel that mirrors the one of a message. Where nothing mirrors it and it is an
/// announcement thread or a public thread, a thread is created below what mirrors its parent,
/// with the message as its beginning, and registered.
pub struct GetOrCreateThread {
    pub src_guild_id: u64,
    pub dest_guild_id: u64,
    pub src_channel_id: u64,
    /// Whether attachments are fetched and sent along.
    pub attach: bool,
    pub stage: ThreadStage,
}

/// Begins to look for the channel in which a message is mirrored.
pub fn get_or_create_thread(
    src_guild_id: u64,
    dest_guild_id: u64,
    src_channel_id: u64,
    starter_message: Message,
    attach: bool,
) -> (task: GetOrCreateThread)
    ensures
        task.wf(),
        task == (GetOrCreateThread {
            src_guild_id,
            dest_guild_id,
            src_channel_id,
            attach,
            stage: ThreadStage::Begin(starter_message),
        }),
{
    let stage = ThreadStage::Begin(starter_message);
    GetOrCreateThread { src_guild_id, dest_guild_id, src_channel_id, attach, stage }
}

impl GetOrCreateThread {
    /// The same search, at another stage.
    pub open spec fn at(self, stage: ThreadStage) -> GetOrCreateThread {
        GetOrCreateThread { stage, ..self }
    }

    /// Whether the search ends with a channel, or without one.
    pub open spec fn ends_with(
        self,
        message: Message,
        dest: Option<Place>,
        is_parent_forum: bool,
        next: Self,
        progress: Progress<Target, HandlerError>,
    ) -> bool {
        &&& next == self.at(ThreadStage::Ended)
        &&& progress.yields(Target { message, dest, is_parent_forum })
    }

    /// What follows from a step of the formatting.
    pub open spec fn after_formatting(
        self,
        src_thread: Channel,
        dest_parent: Place,
        formatting: FormatMessage,
        formatted: Progress<Formatted, HandlerError>,
        next: Self,
        progress: Progress<Target, HandlerError>,
    ) -> bool {
        match formatted {
            Progress::Perform(action) => {
                &&& next == self.at(
                    ThreadStage::Formatting { src_thread, dest_parent, formatting },
                )
                &&& progress.performs(action)
            },
            Progress::Failed(error) => next == self.at(ThreadStage::Ended) && progress.fails(error),
            Progress::Done(done) => match src_thread.name {
                Some(name) => {
                    &&& next == self.at(
                        if progress is Perform {
                            ThreadStage::Creating { message: done.message, src_thread, dest_parent }
                        } else {
                            ThreadStage::Ended
                        },
                    )
                    &&& progress.outcome() matches Some(outcome)
                    &&& creates_thread(
                        outcome,
                        src_thread,
                        dest_parent,
                        Some((&done.message, done.content, done.attachments)),
                        name,
                    )
                },
                None => self.ends_with(done.message, None, false, next, progress),
            },
        }
    }

    fn end_with(self, message: Message, dest: Option<Place>, is_parent_forum: bool) -> (res: (
        Self,
        Progress<Target, HandlerError>,
    ))
        ensures
            self.ends_with(message, dest, is_parent_forum, res.0, res.1),
            res.0.wf(),
            res.1.leaves(res.0.awaits()),
    {
        (
            GetOrCreateThread { stage: ThreadStage::Ended, ..self },
            Progress::Done(Target { message, dest, is_parent_forum }),
        )
    }

    fn continue_formatting(
        self,
        src_thread: Channel,
        dest_parent: Place,
        step: (FormatMessage, Progress<Formatted, HandlerError>),
    ) -> (res: (Self, Progress<Target, HandlerError>))
        requires
            step.0.wf(),
            step.1.leaves(step.0.awaits()),
        ensures
            self.after_formatting(src_thread, dest_parent, step.0, step.1, res.0, res.1),
            res.0.wf(),
            res.1.leaves(res.0.awaits()),
    {
        let (formatting, formatted) = step;
        match formatted {
            Progress::Perform(action) => {
                let stage = ThreadStage::Formatting { src_thread, dest_parent, formatting };
                (GetOrCreateThread { stage, ..self }, Progress::Perform(action))
            },
            Progress::Failed(error) => (
                GetOrCreateThread { stage: ThreadStage::Ended, ..self },
                Progress::Failed(error),
            ),
            Progress::Done(done) => {
                let Formatted { message, content, attachments } = done;
                match &src_thread.name {
                    Some(name) => {
                        let name = name.clone();
                        let starter = Some((&message, content, attachments));
                        match create_thread(&src_thread, dest_parent, starter, name) {
                            Ok(action) => {
                                let stage = ThreadStage::Creating {
                                    message,
                                    src_thread,
                                    dest_parent,
                                };
                                (GetOrCreateThread { stage, ..self }, Progress::Perform(action))
                            },
                            Err(error) => (
                                GetOrCreateThread { stage: ThreadStage::Ended, ..self },
                                Progress::Failed(error),
                            ),
                        }
                    },
                    None => self.end_with(message, None, false),
                }
            },
        }
    }
}

impl Task for GetOrCreateThread {
    type Output = Target;

    type Error = HandlerError;

    open spec fn wf(self) -> bool {
        match self.stage {
            ThreadStage::Formatting { formatting, .. } => formatting.wf(),
            _ => true,
        }
    }

    open spec fn awaits(self) -> Option<ReplyKind> {
        match self.stage {
            ThreadStage::Begin(_) => Some(ReplyKind::Begin),
            ThreadStage::FindingChannel(_) => Some(ReplyKind::Record),
            ThreadStage::ReadingChannel { .. } => Some(ReplyKind::Decoded),
            ThreadStage::GettingThread(_) => Some(ReplyKind::Channel),
            ThreadStage::FindingParent { .. } => Some(ReplyKind::Record),
            ThreadStage::ReadingParent { .. } => Some(ReplyKind::Decoded),
            ThreadStage::Formatting { formatting, .. } => formatting.awaits(),
            ThreadStage::Creating { .. } => Some(ReplyKind::Thread),
            ThreadStage::Registering { .. } => Some(ReplyKind::Done),
            ThreadStage::Ended => None,
        }
    }

    open spec fn step(
        self,
        reply: Reply,
        next: Self,
        progress: Progress<Target, HandlerError>,
    ) -> bool {
        let ended = self.at(ThreadStage::Ended);
        match (self.stage, reply) {
            (
                ThreadStage::Formatting { src_thread, dest_parent, formatting: task },
                _,
            ) => exists|formatting: FormatMessage, formatted|
                #![trigger task.step(reply, formatting, formatted)]
                {
                    &&& task.step(reply, formatting, formatted)
                    &&& ended.after_formatting(
                        src_thread,
                        dest_parent,
                        formatting,
                        formatted,
                        next,
                        progress,
                    )
                },
            (_, Reply::Failed(failure)) => next == ended && progress.fails(
                HandlerError::of(failure),
            ),
            (ThreadStage::Begin(message), Reply::Begin) => {
                &&& next == self.at(ThreadStage::FindingChannel(message))
                &&& progress.performs(Action::FindMapping { orig_id: self.src_channel_id })
            },
            (ThreadStage::FindingChannel(message), Reply::Mapping(Some(mapping))) => {
                &&& next == self.at(ThreadStage::ReadingChannel { message, mapping })
                &&& progress.decodes(mapping@)
            },
            (ThreadStage::FindingChannel(message), Reply::Mapping(None)) => {
                &&& next == self.at(ThreadStage::GettingThread(message))
                &&& progress.performs(Action::GetChannel(self.src_channel_id))
            },
            (
                ThreadStage::ReadingChannel { message, mapping },
                Reply::Decoded { src: _, dest },
            ) => ended.ends_with(message, kept_channel(mapping, dest), false, next, progress),
            (
                ThreadStage::GettingThread(message),
                Reply::Channel(src_thread),
            ) => match src_thread.parent_id {
                Some(parent_id) if is_creatable(src_thread.kind) => {
                    &&& next == self.at(ThreadStage::FindingParent { message, src_thread })
                    &&& progress.performs(Action::FindMapping { orig_id: parent_id })
                },
                _ => ended.ends_with(message, None, false, next, progress),
            },
            (
                ThreadStage::FindingParent { message, src_thread },
                Reply::Mapping(Some(mapping)),
            ) => {
                &&& next == self.at(ThreadStage::ReadingParent { message, src_thread, mapping })
                &&& progress.decodes(mapping@)
            },
            (
                ThreadStage::FindingParent { message, src_thread: _ },
                Reply::Mapping(None),
            ) => ended.ends_with(message, None, false, next, progress),
            (
                ThreadStage::ReadingParent { message, src_thread, mapping },
                Reply::Decoded { src: _, dest },
            ) => match kept_channel(mapping, dest) {
                Some(dest_parent) => exists|formatting: FormatMessage, formatted|
                    #![trigger ended.after_formatting(src_thread, dest_parent, formatting, formatted, next, progress)]
                    {
                        &&& (FormatMessage {
                            dest_guild_id: self.dest_guild_id,
                            attach: self.attach,
                            stage: FormatStage::Begin(message),
                        }).step(Reply::Begin, formatting, formatted)
                        &&& ended.after_formatting(
                            src_thread,
                            dest_parent,
                            formatting,
                            formatted,
                            next,
                            progress,
                        )
                    },
                None => ended.ends_with(message, None, false, next, progress),
            },
            (
                ThreadStage::Creating { message, src_thread, dest_parent },
                Reply::Thread(thread),
            ) => match recorded(
                (src_thread.id, MappingData::Channel(src_thread)),
                (thread.id, MappingData::Channel(thread)),
                self.src_guild_id,
                self.dest_guild_id,
            ) {
                Ok(mapping) => {
                    &&& next == self.at(
                        ThreadStage::Registering {
                            message,
                            dest: thread.spec_place(),
                            is_parent_forum: dest_parent.kind is GuildForum,
                        },
                    )
                    &&& progress.registers(mapping)
                },
                Err(error) => next == ended && progress.fails(HandlerError::Database(error)),
            },
            (
                ThreadStage::Registering { message, dest, is_parent_forum },
                Reply::Done,
            ) => ended.ends_with(message, Some(dest), is_parent_forum, next, progress),
            _ => false,
        }
    }

    fn resume(self, reply: Reply) -> (res: (Self, Progress<Target, HandlerError>)) {
        assert(self.wf());
        let GetOrCreateThread { src_guild_id, dest_guild_id, src_channel_id, attach, stage } = self;
        let ended = GetOrCreateThread {
            src_guild_id,
            dest_guild_id,
            src_channel_id,
            attach,
            stage: ThreadStage::Ended,
        };
        match (stage, reply) {
            (ThreadStage::Formatting { src_thread, dest_parent, formatting }, reply) => {
                let step = formatting.resume(reply);
                ended.continue_formatting(src_thread, dest_parent, step)
            },
            (_, Reply::Failed(failure)) => (
                ended,
                Progress::Failed(HandlerError::from_failure(failure)),
            ),
            (ThreadStage::Begin(message), Reply::Begin) => (
                GetOrCreateThread { stage: ThreadStage::FindingChannel(message), ..ended },
                Progress::Perform(Action::FindMapping { orig_id: src_channel_id }),
            ),
            (ThreadStage::FindingChannel(message), Reply::Mapping(found)) => {
                match found {
                    Some(mapping) => {
                        let action = Action::DecodeMapping(mapping.clone());
                        let stage = ThreadStage::ReadingChannel { message, mapping };
                        (GetOrCreateThread { stage, ..ended }, Progress::Perform(action))
                    },
                    None => (
                        GetOrCreateThread { stage: ThreadStage::GettingThread(message), ..ended },
                        Progress::Perform(Action::GetChannel(src_channel_id)),
                    ),
                }
            },
            (ThreadStage::ReadingChannel { message, mapping }, Reply::Decoded { src, dest }) => {
                let place = read_channel(mapping, src, dest);
                ended.end_with(message, place, false)
            },
            (ThreadStage::GettingThread(message), Reply::Channel(src_thread)) => {
                match src_thread.parent_id {
                    Some(parent_id) if src_thread.kind == ChannelType::AnnouncementThread
                        || src_thread.kind == ChannelType::PublicThread => {
                        let stage = ThreadStage::FindingParent { message, src_thread };
                        (
                            GetOrCreateThread { stage, ..ended },
                            Progress::Perform(Action::FindMapping { orig_id: parent_id }),
                        )
                    },
                    _ => ended.end_with(message, None, false),
                }
            },
            (ThreadStage::FindingParent { message, src_thread }, Reply::Mapping(found)) => {
                match found {
                    Some(mapping) => {
                        let action = Action::DecodeMapping(mapping.clone());
                        let stage = ThreadStage::ReadingParent { message, src_thread, mapping };
                        (GetOrCreateThread { stage, ..ended }, Progress::Perform(action))
                    },
                    None => ended.end_with(message, None, false),
                }
            },
            (
                ThreadStage::ReadingParent { message, src_thread, mapping },
                Reply::Decoded { src, dest },
            ) => {
                match read_channel(mapping, src, dest) {
                    Some(dest_parent) => {
                        let formatting = format_message(message, dest_guild_id, attach);
                        let step = formatting.resume(Reply::Begin);
                        ended.continue_formatting(src_thread, dest_parent, step)
                    },
                    None => ended.end_with(message, None, false),
                }
            },
            (
                ThreadStage::Creating { message, src_thread, dest_parent },
                Reply::Thread(thread),
            ) => {
                let dest = thread.place();
                let is_parent_forum = dest_parent.kind == ChannelType::GuildForum;
                let src = (src_thread.id, MappingData::Channel(src_thread));
                let made = (thread.id, MappingData::Channel(thread));
                match record(src, made, src_guild_id, dest_guild_id) {
                    Ok(mapping) => {
                        let stage = ThreadStage::Registering { message, dest, is_parent_forum };
                        (
                            GetOrCreateThread { stage, ..ended },
                            Progress::Perform(Action::RegisterMapping(mapping)),
                        )
                    },
                    Err(error) => (ended, Progress::Failed(HandlerError::Database(error))),
                }
            },
            (ThreadStage::Registering { message, dest, is_parent_forum }, Reply::Done) => {
                ended.end_with(message, Some(dest), is_parent_forum)
            },
            _ => vstd::pervasive::unreached(),
        }
    }
}

} // verus!
