//! The operations that mirroring consists of, what they answer, and how a task asks for
//! them one by one.
//!
//! A task never touches the service or the database itself. It names the next operation,
//! waits for the answer, and goes on from there until it is done or has failed.
use crate::actions::mapping::is_guild_row;
use crate::errors::{Failure, HandlerError};
use crate::keys::{is_id_key, is_valid_key};
use crate::model::{
    Channel, ChannelType, Decoded, Guild, IdMapping, MappingView, PermissionOverwrite, Role,
    Webhook,
};
use vstd::prelude::*;

verus! {

// ---------------------------------------------------------------------------
// Requests
// ---------------------------------------------------------------------------

/// A channel to be created.
#[derive(Debug)]
pub struct NewChannel {
    pub guild_id: u64,
    pub name: String,
    pub kind: ChannelType,
    pub nsfw: Option<bool>,
    pub topic: Option<String>,
    pub permission_overwrites: Option<Vec<PermissionOverwrite>>,
}

/// A channel to be changed. What is absent stays, except for the parent, which is always
/// set.
#[derive(Debug)]
pub struct ChannelChange {
    pub channel_id: u64,
    pub name: Option<String>,
    pub nsfw: Option<bool>,
    pub topic: Option<String>,
    pub permission_overwrites: Option<Vec<PermissionOverwrite>>,
    pub position: Option<u64>,
    pub kind: ChannelType,
    pub parent_id: Option<u64>,
}

/// What a role is to be.
#[derive(Debug)]
pub struct RoleShape {
    pub color: u32,
    pub hoist: bool,
    pub mentionable: bool,
    pub name: String,
    pub permissions: u64,
}

/// A thread to be created in a channel of text.
#[derive(Debug)]
pub struct NewThread {
    pub parent_id: u64,
    pub name: String,
    pub kind: ChannelType,
    pub invitable: Option<bool>,
    pub auto_archive_duration: Option<u16>,
}

/// A post to be created in a forum.
#[derive(Debug)]
pub struct NewForumPost {
    pub parent_id: u64,
    pub name: String,
    pub auto_archive_duration: Option<u16>,
    pub content: String,
    pub embeds: Option<Vec<String>>,
    pub attachments: Option<Vec<Upload>>,
}

/// A thread to be changed. What is absent stays.
#[derive(Debug)]
pub struct ThreadChange {
    pub thread_id: u64,
    pub name: Option<String>,
    pub invitable: Option<bool>,
    pub auto_archive_duration: Option<u16>,
}

/// A file to be sent along.
#[derive(Debug)]
pub struct Upload {
    pub filename: String,
    pub bytes: Vec<u8>,
    pub id: u64,
}

/// A message to be written through a webhook.
#[derive(Debug)]
pub struct WebhookMessage {
    pub webhook_id: u64,
    pub token: String,
    pub thread_id: Option<u64>,
    pub username: Option<String>,
    pub avatar_url: Option<String>,
    pub attachments: Option<Vec<Upload>>,
    pub embeds: Option<Vec<String>>,
    pub content: String,
}

// ---------------------------------------------------------------------------
// Operations and answers
// ---------------------------------------------------------------------------

/// One operation on the service, the database or the clock.
#[derive(Debug)]
pub enum Action {
    /// Takes a connection to the database.
    Connect,
    /// Looks up the mapping of a thing that is mirrored, in order to read what it leads to.
    GetMapping { orig_id: u64 },
    /// Looks up the mapping of a thing that is mirrored. What it leads to is not read.
    FindMapping { orig_id: u64 },
    /// Reads the objects that a mapping keeps.
    DecodeMapping(IdMapping),
    RegisterMapping(IdMapping),
    UnregisterMapping(IdMapping),
    UpdateMapping { mapping: IdMapping, new_mapping: IdMapping },
    /// Lists the mappings from one guild into another.
    GetMappings { orig_guild_id: u64, ref_guild_id: u64 },
    /// Lists the mappings into a guild, whatever guild they lead from.
    GetMappingsInto { ref_guild_id: u64 },
    GetRegisteredGuilds,
    GetGuild(u64),
    GetGuildChannels(u64),
    GetRoles(u64),
    GetChannel(u64),
    /// Looks up the parent of a thread, which has one.
    GetThreadParent(u64),
    CreateChannel(NewChannel),
    ChangeChannel(ChannelChange),
    /// Puts a channel into a category.
    MoveChannel { channel_id: u64, parent_id: u64 },
    DeleteChannel(u64),
    PositionChannels { guild_id: u64, positions: Vec<(u64, u64)> },
    CreateRole { guild_id: u64, shape: RoleShape },
    ChangeRole { guild_id: u64, role_id: u64, shape: RoleShape },
    DeleteRole { guild_id: u64, role_id: u64 },
    PositionRoles { guild_id: u64, positions: Vec<(u64, u64)> },
    JoinThread(u64),
    CreateThread(NewThread),
    CreateForumPost(NewForumPost),
    ChangeThread(ThreadChange),
    GetWebhooks(u64),
    CreateWebhook { channel_id: u64, name: String },
    ExecuteWebhook(WebhookMessage),
    CrosspostMessage { channel_id: u64, message_id: u64 },
    /// Waits, as many times as told, for the time between two requests.
    Sleep(u32),
    /// Reads the clock.
    Now,
    Download(String),
}

/// The answer to an operation.
#[derive(Debug)]
pub enum Reply {
    /// No operation came before: the task begins.
    Begin,
    Done,
    Mapping(Option<IdMapping>),
    Decoded { src: Decoded, dest: Decoded },
    Mappings(Vec<IdMapping>),
    GuildRows(Vec<(Vec<u8>, Vec<u8>)>),
    Guild(Guild),
    Channels(Vec<Channel>),
    Roles(Vec<Role>),
    Channel(Channel),
    Parent(u64),
    Role(Role),
    Thread(Channel),
    Webhooks(Vec<Webhook>),
    Webhook(Webhook),
    Sent(u64),
    /// The time since the epoch.
    Time { secs: u64, subsec_nanos: u32 },
    Bytes(Vec<u8>),
    Failed(Failure),
}

/// Which answer belongs to an operation.
#[derive(Clone, Copy, Debug, PartialEq, Eq, Structural)]
pub enum ReplyKind {
    Begin,
    Done,
    Mapping,
    Record,
    Decoded,
    Mappings,
    GuildRows,
    Guild,
    Channels,
    Roles,
    Channel,
    Parent,
    Role,
    Thread,
    Webhooks,
    Webhook,
    Sent,
    Time,
    Bytes,
}

impl Action {
    /// The answer that belongs to the operation, unless it fails.
    pub open spec fn answered_by(self) -> ReplyKind {
        match self {
            Action::Connect => ReplyKind::Done,
            Action::GetMapping { .. } => ReplyKind::Mapping,
            Action::FindMapping { .. } => ReplyKind::Record,
            Action::DecodeMapping(_) => ReplyKind::Decoded,
            Action::RegisterMapping(_) => ReplyKind::Done,
            Action::UnregisterMapping(_) => ReplyKind::Done,
            Action::UpdateMapping { .. } => ReplyKind::Done,
            Action::GetMappings { .. } => ReplyKind::Mappings,
            Action::GetMappingsInto { .. } => ReplyKind::Mappings,
            Action::GetRegisteredGuilds => ReplyKind::GuildRows,
            Action::GetGuild(_) => ReplyKind::Guild,
            Action::GetGuildChannels(_) => ReplyKind::Channels,
            Action::GetRoles(_) => ReplyKind::Roles,
            Action::GetChannel(_) => ReplyKind::Channel,
            Action::GetThreadParent(_) => ReplyKind::Parent,
            Action::CreateChannel(_) => ReplyKind::Channel,
            Action::ChangeChannel(_) => ReplyKind::Channel,
            Action::MoveChannel { .. } => ReplyKind::Done,
            Action::DeleteChannel(_) => ReplyKind::Done,
            Action::PositionChannels { .. } => ReplyKind::Done,
            Action::CreateRole { .. } => ReplyKind::Role,
            Action::ChangeRole { .. } => ReplyKind::Role,
            Action::DeleteRole { .. } => ReplyKind::Done,
            Action::PositionRoles { .. } => ReplyKind::Done,
            Action::JoinThread(_) => ReplyKind::Done,
            Action::CreateThread(_) => ReplyKind::Thread,
            Action::CreateForumPost(_) => ReplyKind::Thread,
            Action::ChangeThread(_) => ReplyKind::Done,
            Action::GetWebhooks(_) => ReplyKind::Webhooks,
            Action::CreateWebhook { .. } => ReplyKind::Webhook,
            Action::ExecuteWebhook(_) => ReplyKind::Sent,
            Action::CrosspostMessage { .. } => ReplyKind::Done,
            Action::Sleep(_) => ReplyKind::Done,
            Action::Now => ReplyKind::Time,
            Action::Download(_) => ReplyKind::Bytes,
        }
    }

    /// The answer that belongs to the operation, unless it fails.
    pub fn reply_kind(&self) -> (kind: ReplyKind)
        ensures
            kind == self.answered_by(),
    {
        match self {
            Action::Connect => ReplyKind::Done,
            Action::GetMapping { .. } => ReplyKind::Mapping,
            Action::FindMapping { .. } => ReplyKind::Record,
            Action::DecodeMapping(_) => ReplyKind::Decoded,
            Action::RegisterMapping(_) => ReplyKind::Done,
            Action::UnregisterMapping(_) => ReplyKind::Done,
            Action::UpdateMapping { .. } => ReplyKind::Done,
            Action::GetMappings { .. } => ReplyKind::Mappings,
            Action::GetMappingsInto { .. } => ReplyKind::Mappings,
            Action::GetRegisteredGuilds => ReplyKind::GuildRows,
            Action::GetGuild(_) => ReplyKind::Guild,
            Action::GetGuildChannels(_) => ReplyKind::Channels,
            Action::GetRoles(_) => ReplyKind::Roles,
            Action::GetChannel(_) => ReplyKind::Channel,
            Action::GetThreadParent(_) => ReplyKind::Parent,
            Action::CreateChannel(_) => ReplyKind::Channel,
            Action::ChangeChannel(_) => ReplyKind::Channel,
            Action::MoveChannel { .. } => ReplyKind::Done,
            Action::DeleteChannel(_) => ReplyKind::Done,
            Action::PositionChannels { .. } => ReplyKind::Done,
            Action::CreateRole { .. } => ReplyKind::Role,
            Action::ChangeRole { .. } => ReplyKind::Role,
            Action::DeleteRole { .. } => ReplyKind::Done,
            Action::PositionRoles { .. } => ReplyKind::Done,
            Action::JoinThread(_) => ReplyKind::Done,
            Action::CreateThread(_) => ReplyKind::Thread,
            Action::CreateForumPost(_) => ReplyKind::Thread,
            Action::ChangeThread(_) => ReplyKind::Done,
            Action::GetWebhooks(_) => ReplyKind::Webhooks,
            Action::CreateWebhook { .. } => ReplyKind::Webhook,
            Action::ExecuteWebhook(_) => ReplyKind::Sent,
            Action::CrosspostMessage { .. } => ReplyKind::Done,
            Action::Sleep(_) => ReplyKind::Done,
            Action::Now => ReplyKind::Time,
            Action::Download(_) => ReplyKind::Bytes,
        }
    }
}

impl ReplyKind {
    /// Whether the operation belongs to events alone, and can fail in ways that setting up
    /// guilds never meets.
    pub open spec fn spec_events_only(self) -> bool {
        self is Thread || self is Webhooks || self is Webhook || self is Sent || self is Bytes
    }

    /// Whether the operation belongs to events alone.
    pub fn events_only(&self) -> (res: bool)
        ensures
            res == self.spec_events_only(),
    {
        match self {
            ReplyKind::Thread => true,
            ReplyKind::Webhooks => true,
            ReplyKind::Webhook => true,
            ReplyKind::Sent => true,
            ReplyKind::Bytes => true,
            _ => false,
        }
    }
}

/// Whether the milliseconds since the epoch fit 64 bits.
pub open spec fn is_clock_time(secs: u64, subsec_nanos: u32) -> bool {
    secs * 1000 + subsec_nanos / 1_000_000 <= u64::MAX
}

impl Reply {
    /// Whether the answer is one to an operation of the given kind: a failure that the
    /// operation can meet, or an answer of that kind that can be read.
    pub open spec fn answers(self, kind: ReplyKind) -> bool {
        match self {
            Reply::Failed(failure) => !(kind is Begin) && (failure.concerns_mappings()
                || kind.spec_events_only()),
            Reply::Begin => kind is Begin,
            Reply::Done => kind is Done,
            Reply::Mapping(Some(mapping)) => kind is Record || (kind is Mapping && is_id_key(
                mapping@.ref_id,
            )),
            Reply::Mapping(None) => kind is Mapping || kind is Record,
            Reply::Decoded { .. } => kind is Decoded,
            Reply::Mappings(_) => kind is Mappings,
            Reply::GuildRows(rows) => kind is GuildRows && forall|i: int|
                0 <= i < rows@.len() ==> is_guild_row(#[trigger] rows@[i]),
            Reply::Guild(_) => kind is Guild,
            Reply::Channels(_) => kind is Channels,
            Reply::Roles(_) => kind is Roles,
            Reply::Channel(_) => kind is Channel,
            Reply::Parent(_) => kind is Parent,
            Reply::Role(_) => kind is Role,
            Reply::Thread(_) => kind is Thread,
            Reply::Webhooks(_) => kind is Webhooks,
            Reply::Webhook(_) => kind is Webhook,
            Reply::Sent(_) => kind is Sent,
            Reply::Time { secs, subsec_nanos } => kind is Time && is_clock_time(
                secs,
                subsec_nanos,
            ),
            Reply::Bytes(_) => kind is Bytes,
        }
    }

    /// Whether the answer is one to an operation of the given kind.
    pub fn is_answer_to(&self, kind: ReplyKind) -> (res: bool)
        ensures
            res == self.answers(kind),
    {
        match self {
            Reply::Failed(failure) => kind != ReplyKind::Begin && (failure.may_concern_mappings()
                || kind.events_only()),
            Reply::Begin => kind == ReplyKind::Begin,
            Reply::Done => kind == ReplyKind::Done,
            Reply::Mapping(found) => kind == ReplyKind::Record || (kind == ReplyKind::Mapping
                && match found {
                Some(mapping) => is_valid_key(&mapping.ref_id),
                None => true,
            }),
            Reply::Decoded { .. } => kind == ReplyKind::Decoded,
            Reply::Mappings(_) => kind == ReplyKind::Mappings,
            Reply::GuildRows(rows) => kind == ReplyKind::GuildRows && are_guild_rows(rows),
            Reply::Guild(_) => kind == ReplyKind::Guild,
            Reply::Channels(_) => kind == ReplyKind::Channels,
            Reply::Roles(_) => kind == ReplyKind::Roles,
            Reply::Channel(_) => kind == ReplyKind::Channel,
            Reply::Parent(_) => kind == ReplyKind::Parent,
            Reply::Role(_) => kind == ReplyKind::Role,
            Reply::Thread(_) => kind == ReplyKind::Thread,
            Reply::Webhooks(_) => kind == ReplyKind::Webhooks,
            Reply::Webhook(_) => kind == ReplyKind::Webhook,
            Reply::Sent(_) => kind == ReplyKind::Sent,
            Reply::Time { secs, subsec_nanos } => kind == ReplyKind::Time && *secs <= (u64::MAX
                - (*subsec_nanos / 1_000_000) as u64) / 1000,
            Reply::Bytes(_) => kind == ReplyKind::Bytes,
        }
    }
}

/// Whether two guilds can be read from each row.
fn are_guild_rows(rows: &Vec<(Vec<u8>, Vec<u8>)>) -> (res: bool)
    ensures
        res == forall|i: int| 0 <= i < rows@.len() ==> is_guild_row(#[trigger] rows@[i]),
{
    for i in 0..rows.len()
        invariant
            forall|j: int| 0 <= j < i ==> is_guild_row(#[trigger] rows@[j]),
    {
        if !(is_valid_key(&rows[i].0) && is_valid_key(&rows[i].1)) {
            assert(!is_guild_row(rows@[i as int]));
            return false;
        }
    }
    true
}

// ---------------------------------------------------------------------------
// Tasks
// ---------------------------------------------------------------------------

/// What a task wants next, or how it ended.
#[derive(Debug)]
pub enum Progress<T, E> {
    Perform(Action),
    Done(T),
    Failed(E),
}

impl<T, E> Progress<T, E> {
    /// Whether this is the answer that is awaited now: the one to the operation asked for,
    /// or none once the task has ended.
    pub open spec fn leaves(self, awaits: Option<ReplyKind>) -> bool {
        match self {
            Progress::Perform(action) => awaits == Some(action.answered_by()),
            _ => awaits is None,
        }
    }

    /// Whether the task asks for this operation.
    pub open spec fn performs(self, action: Action) -> bool {
        self == Progress::<T, E>::Perform(action)
    }

    /// Whether the task asks for this mapping to be registered.
    pub open spec fn registers(self, mapping: MappingView) -> bool {
        self matches Progress::Perform(Action::RegisterMapping(registered)) && registered@
            == mapping
    }

    /// Whether the task asks for this mapping to be unregistered.
    pub open spec fn unregisters(self, mapping: MappingView) -> bool {
        self matches Progress::Perform(Action::UnregisterMapping(unregistered)) && unregistered@
            == mapping
    }

    /// Whether the task asks for a mapping to be replaced by another one.
    pub open spec fn updates(self, mapping: MappingView, new_mapping: MappingView) -> bool {
        &&& self matches Progress::Perform(Action::UpdateMapping { mapping: from, new_mapping: to })
        &&& from@ == mapping
        &&& to@ == new_mapping
    }

    /// Whether the task asks for the objects that this mapping keeps.
    pub open spec fn decodes(self, mapping: MappingView) -> bool {
        self matches Progress::Perform(Action::DecodeMapping(decoded)) && decoded@ == mapping
    }

    /// Whether the task is done with this result.
    pub open spec fn yields(self, output: T) -> bool {
        self == Progress::<T, E>::Done(output)
    }

    /// Whether the task failed with this error.
    pub open spec fn fails(self, error: E) -> bool {
        self == Progress::<T, E>::Failed(error)
    }
}

impl<T, E> Progress<T, E> {
    /// The operation that the task asks for, or what it failed with; nothing once it is done.
    pub open spec fn outcome(self) -> Option<Result<Action, E>> {
        match self {
            Progress::Perform(action) => Some(Ok(action)),
            Progress::Failed(error) => Some(Err(error)),
            Progress::Done(_) => None,
        }
    }
}

impl<T> Progress<T, HandlerError> {
    /// Whether the task failed because a channel or a thread was refused for this reason.
    pub open spec fn refuses_channel(self, reason: Seq<char>) -> bool {
        self matches Progress::Failed(HandlerError::ClientChannelValidation(detail)) && detail@
            == reason
    }

    /// Whether the task failed because a message was refused for this reason.
    pub open spec fn refuses_message(self, reason: Seq<char>) -> bool {
        self matches Progress::Failed(HandlerError::ClientMessageValidation(detail)) && detail@
            == reason
    }

    /// Whether the task failed because a webhook was refused for this reason.
    pub open spec fn refuses_webhook(self, reason: Seq<char>) -> bool {
        self matches Progress::Failed(HandlerError::ClientValidation(detail)) && detail@ == reason
    }
}

/// What a lookup leads to, where it found anything.
pub open spec fn destination(found: Option<IdMapping>) -> Option<u64> {
    match found {
        Some(mapping) => Some(mapping@.reference() as u64),
        None => None,
    }
}

/// A task that asks for one operation after the other.
pub trait Task: Sized {
    /// What the task produces.
    type Output;

    /// What the task fails with.
    type Error;

    /// Whether the task is in a state that it can be in.
    spec fn wf(self) -> bool;

    /// The answer that the task waits for; none once it has ended.
    spec fn awaits(self) -> Option<ReplyKind>;

    /// Whether `next` and `progress` are what an answer leads to.
    spec fn step(
        self,
        reply: Reply,
        next: Self,
        progress: Progress<Self::Output, Self::Error>,
    ) -> bool;

    /// Goes on with an answer.
    fn resume(self, reply: Reply) -> (res: (Self, Progress<Self::Output, Self::Error>))
        requires
            self.wf(),
            self.awaits() is Some,
            reply.answers(self.awaits()->0),
        ensures
            self.step(reply, res.0, res.1),
            res.0.wf(),
            res.1.leaves(res.0.awaits()),
    ;
}

/// Whether these are a task from some moment on, the answers it got, and what it asked for or
/// how it ended after each of them.
pub open spec fn is_run<T: Task>(
    tasks: Seq<T>,
    replies: Seq<Reply>,
    progress: Seq<Progress<T::Output, T::Error>>,
) -> bool {
    &&& tasks.len() == replies.len() + 1
    &&& progress.len() == replies.len()
    &&& forall|i: int|
        #![trigger replies[i]]
        0 <= i < replies.len() ==> {
            &&& tasks[i].awaits() is Some
            &&& replies[i].answers(tasks[i].awaits()->0)
            &&& tasks[i].step(replies[i], tasks[i + 1], progress[i])
            &&& progress[i].leaves(tasks[i + 1].awaits())
        }
}

/// Once a task has ended it gets no further answer.
pub proof fn runs_end<T: Task>(
    tasks: Seq<T>,
    replies: Seq<Reply>,
    progress: Seq<Progress<T::Output, T::Error>>,
    i: int,
)
    requires
        is_run(tasks, replies, progress),
        0 <= i < replies.len(),
        !(progress[i] is Perform),
    ensures
        i == replies.len() - 1,
{
    let ended = replies[i];
    if i + 1 < replies.len() {
        let next = replies[i + 1];
    }
}

/// A mapping leads to what it was made to lead to, with or without objects, so what a lookup
/// finds of something registered is its mirror.
pub proof fn registered_leads_to_mirror(
    mapping: IdMapping,
    orig: u64,
    reference: u64,
    orig_guild: u64,
    ref_guild: u64,
    src: Seq<char>,
    dest: Seq<char>,
)
    requires
        ({
            let between = MappingView::between(orig, reference, orig_guild, ref_guild);
            mapping@ == between || mapping@ == between.with_data(src, dest)
        }),
    ensures
        destination(Some(mapping)) == Some(reference),
        mapping@.orig() == orig,
{
    crate::model::mapping_round_trip(orig, reference, orig_guild, ref_guild);
}

} // verus!
