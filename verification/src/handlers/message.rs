//! Mirroring a message.
use crate::blacklist::Blacklist;
use crate::config::GuildSettings;
use crate::errors::HandlerError;
use crate::handlers::format::{format_message, FormatMessage, FormatStage, Formatted};
use crate::handlers::thread::{get_or_create_thread, GetOrCreateThread, Target, ThreadStage};
use crate::handlers::webhook::{get_or_create_webhook, GetOrCreateWebhook, WebhookStage};
use crate::mention::mentions_of;
use crate::model::{
    Channel, ChannelType, Decoded, IdMapping, MappingData, MappingView, Message, MessageType,
    Place, User, Webhook,
};
use crate::operation::{
    is_run, runs_end, Action, Progress, Reply, ReplyKind, Task, WebhookMessage,
};
use crate::text::{decimal, decimal_text};
use crate::validation::{
    check_message, content_refusal, embeds_refusal, first_of, message_refusal, texts_of,
    uploads_refusal, username_refusal, Refusal,
};
use vstd::prelude::*;
use vstd::utf8::encode_utf8;

verus! {

// ---------------------------------------------------------------------------
// Which messages are mirrored
// ---------------------------------------------------------------------------

/// Whether an entry of the blacklist bars a message: its author, or a role that its author
/// is known to have.
pub open spec fn bars(entry: Blacklist, message: Message) -> bool {
    match entry {
        Blacklist::User(id) => id == message.author.id,
        Blacklist::Role(id) => match message.member_roles {
            Some(roles) => roles@.contains(id),
            None => false,
        },
        Blacklist::Channel(_) => false,
    }
}

/// Whether a message is barred by some entry of a blacklist.
pub open spec fn is_barred(blacklists: Seq<Blacklist>, message: Message) -> bool {
    exists|i: int| 0 <= i < blacklists.len() && bars(#[trigger] blacklists[i], message)
}

/// Whether a message holds less than it has to. The length of the content is counted in
/// bytes.
pub open spec fn falls_short(settings: GuildSettings, message: Message) -> bool {
    ||| message.attachments@.len() < settings.message_requirements.min_attachments_amount
    ||| encode_utf8(message.content@).len() < settings.message_requirements.min_content_length
    ||| message.embeds@.len() < settings.message_requirements.min_embeds_amount
}

/// Whether nothing at all is done about a message.
pub open spec fn ignored(settings: GuildSettings, message: Message) -> bool {
    ||| is_barred(settings.blacklists@, message)
    ||| falls_short(settings, message)
    ||| message.reference is Some && !settings.message_settings.mirror_reply_messages
    ||| message.author.bot && !settings.message_settings.mirror_messages_from_bots
    ||| message.kind is Other
}

/// Whether a role is among some roles.
fn has_role(roles: &Vec<u64>, id: u64) -> (found: bool)
    ensures
        found == roles@.contains(id),
{
    for i in 0..roles.len()
        invariant
            forall|j: int| 0 <= j < i ==> (#[trigger] roles@[j]) != id,
    {
        if roles[i] == id {
            return true;
        }
    }
    false
}

/// Whether a message is barred by some entry of a blacklist.
fn is_message_barred(blacklists: &Vec<Blacklist>, message: &Message) -> (barred: bool)
    ensures
        barred == is_barred(blacklists@, *message),
{
    for i in 0..blacklists.len()
        invariant
            forall|j: int| 0 <= j < i ==> !bars(#[trigger] blacklists@[j], *message),
    {
        let barred = match &blacklists[i] {
            Blacklist::User(id) => *id == message.author.id,
            Blacklist::Role(id) => match &message.member_roles {
                Some(roles) => has_role(roles, *id),
                None => false,
            },
            Blacklist::Channel(_) => false,
        };
        if barred {
            assert(bars(blacklists@[i as int], *message));
            return true;
        }
    }
    false
}

/// Whether nothing at all is done about a message.
pub fn is_ignored(settings: &GuildSettings, message: &Message) -> (res: bool)
    ensures
        res == ignored(*settings, *message),
{
    if is_message_barred(&settings.blacklists, message) {
        return true;
    }
    let requirements = settings.message_requirements;
    let length: usize = message.content.as_str().as_bytes().len();
    if message.attachments.len() < requirements.min_attachments_amount as usize || length
        < requirements.min_content_length as usize || message.embeds.len()
        < requirements.min_embeds_amount as usize {
        return true;
    }
    if message.reference.is_some() && !settings.message_settings.mirror_reply_messages {
        return true;
    }
    if message.author.bot && !settings.message_settings.mirror_messages_from_bots {
        return true;
    }
    match message.kind {
        MessageType::Other(_) => true,
        _ => false,
    }
}

// ---------------------------------------------------------------------------
// What is written
// ---------------------------------------------------------------------------

/// The link to the avatar of a user.
pub open spec fn avatar_link(user_id: u64, avatar: Seq<char>) -> Seq<char> {
    "https://cdn.discordapp.com/avatars/"@ + decimal(user_id as nat) + "/"@ + avatar + ".png"@
}

/// The name and the avatar under which a message is written: those of its author, unless
/// the webhook keeps its own.
pub open spec fn written_as(
    use_webhook_profile: bool,
    author: User,
    username: Option<String>,
    avatar_url: Option<String>,
) -> bool {
    if use_webhook_profile {
        username is None && avatar_url is None
    } else {
        &&& username == Some(author.name)
        &&& match author.avatar {
            Some(avatar) => avatar_url is Some && avatar_url->0@ == avatar_link(
                author.id,
                avatar@,
            ),
            None => avatar_url is None,
        }
    }
}

/// The name and the avatar under which a message is written.
pub fn write_as(use_webhook_profile: bool, author: User) -> (profile: (
    Option<String>,
    Option<String>,
))
    ensures
        written_as(use_webhook_profile, author, profile.0, profile.1),
{
    if use_webhook_profile {
        return (None, None);
    }
    let avatar_url = match author.avatar {
        Some(avatar) => Some(
            "https://cdn.discordapp.com/avatars/".to_string().concat(
                decimal_text(author.id).as_str(),
            ).concat("/").concat(avatar.as_str()).concat(".png"),
        ),
        None => None,
    };
    (Some(author.name), avatar_url)
}

/// The channel whose webhook writes to a place: a thread is written to through its parent.
pub open spec fn channel_of(dest: Place) -> Option<u64> {
    if dest.kind.spec_is_thread() {
        dest.parent_id
    } else {
        Some(dest.id)
    }
}

/// Whether a message written through a webhook mirrors a message in a place.
pub open spec fn mirrors(
    written: WebhookMessage,
    formatted: Formatted,
    dest: Place,
    use_webhook_profile: bool,
    webhook_id: u64,
    token: String,
) -> bool {
    &&& written.webhook_id == webhook_id
    &&& written.token == token
    &&& written.thread_id == (if dest.kind.spec_is_thread() {
        Some(dest.id)
    } else {
        None
    })
    &&& written_as(
        use_webhook_profile,
        formatted.message.author,
        written.username,
        written.avatar_url,
    )
    &&& written.attachments == (if formatted.attachments@.len() > 0 {
        Some(formatted.attachments)
    } else {
        None
    })
    &&& written.embeds == Some(formatted.message.embeds)
    &&& written.content == formatted.content
}

/// Why a message cannot be mirrored: for the name of its author, where it is written under that,
/// or else for its files, its embeds or its content.
pub open spec fn mirror_refusal(formatted: Formatted, use_webhook_profile: bool) -> Refusal {
    first_of(
        first_of(
            if use_webhook_profile {
                None
            } else {
                username_refusal(formatted.message.author.name@)
            },
            uploads_refusal(formatted.attachments@),
        ),
        first_of(
            embeds_refusal(texts_of(formatted.message.embeds@)),
            content_refusal(formatted.content@),
        ),
    )
}

/// The message that mirrors another one in a place.
pub fn mirror(
    formatted: Formatted,
    dest: Place,
    use_webhook_profile: bool,
    webhook_id: u64,
    token: String,
) -> (written: WebhookMessage)
    ensures
        mirrors(written, formatted, dest, use_webhook_profile, webhook_id, token),
        message_refusal(written) == mirror_refusal(formatted, use_webhook_profile),
{
    let thread_id = if dest.kind.is_thread() {
        Some(dest.id)
    } else {
        None
    };
    let Formatted { message, content, attachments } = formatted;
    let (username, avatar_url) = write_as(use_webhook_profile, message.author);
    let attachments = if attachments.len() > 0 {
        Some(attachments)
    } else {
        None
    };
    let embeds = Some(message.embeds);
    WebhookMessage {
        webhook_id,
        token,
        thread_id,
        username,
        avatar_url,
        attachments,
        embeds,
        content,
    }
}

// ---------------------------------------------------------------------------
// The task
// ---------------------------------------------------------------------------

/// What is kept of a message while its mirror is written.
#[derive(Clone, Copy, Debug, PartialEq, Eq, Structural)]
pub struct Writing {
    pub message_id: u64,
    pub channel_id: u64,
    pub dest: Place,
    /// The channel whose webhook writes.
    pub dest_channel_id: u64,
    pub is_parent_forum: bool,
}

/// How far the mirroring has come.
pub enum MessageStage {
    Begin(Message),
    Joining,
    Targeting(GetOrCreateThread),
    Formatting {
        dest: Place,
        dest_channel_id: u64,
        is_parent_forum: bool,
        formatting: FormatMessage,
    },
    FindingWebhook { formatted: Formatted, writing: Writing, finding: GetOrCreateWebhook },
    Sending(Writing),
    Crossposting { writing: Writing, dest_message_id: u64 },
    Registering,
    Ended,
}

/// Mirrors a message: finds where it goes, formats it, writes it through a webhook there,
/// passes it on where that is an announcement channel, and registers it.
pub struct MirrorMessage {
    pub src_guild_id: u64,
    pub dest_guild_id: u64,
    pub webhook_username: String,
    pub use_webhook_profile: bool,
    /// Whether attachments are fetched and sent along.
    pub attach: bool,
    /// Whether nothing at all is done about the message.
    pub ignore: bool,
    pub stage: MessageStage,
}

/// Begins to mirror a message.
pub fn mirror_message(message: Message, settings: &GuildSettings) -> (task: MirrorMessage)
    ensures
        task.wf(),
        task == (MirrorMessage {
            src_guild_id: settings.src_guild_id,
            dest_guild_id: settings.dest_guild_id,
            webhook_username: settings.webhook_username,
            use_webhook_profile: settings.message_settings.use_webhook_profile,
            attach: settings.message_settings.remove_attachments,
            ignore: ignored(*settings, message),
            stage: MessageStage::Begin(message),
        }),
{
    MirrorMessage {
        src_guild_id: settings.src_guild_id,
        dest_guild_id: settings.dest_guild_id,
        webhook_username: settings.webhook_username.clone(),
        use_webhook_profile: settings.message_settings.use_webhook_profile,
        attach: settings.message_settings.remove_attachments,
        ignore: is_ignored(settings, &message),
        stage: MessageStage::Begin(message),
    }
}

impl MirrorMessage {
    /// The same mirroring, at another stage.
    pub open spec fn at(self, stage: MessageStage) -> MirrorMessage {
        MirrorMessage { stage, ..self }
    }

    /// Whether the mirroring ends here.
    pub open spec fn ends(self, next: Self, progress: Progress<(), HandlerError>) -> bool {
        next == self.at(MessageStage::Ended) && progress.yields(())
    }

    /// What follows from a step of the search for the place.
    pub open spec fn after_targeting(
        self,
        targeting: GetOrCreateThread,
        targeted: Progress<Target, HandlerError>,
        next: Self,
        progress: Progress<(), HandlerError>,
    ) -> bool {
        match targeted {
            Progress::Perform(action) => next == self.at(MessageStage::Targeting(targeting))
                && progress.performs(action),
            Progress::Failed(error) => next == self.at(MessageStage::Ended) && progress.fails(
                error,
            ),
            Progress::Done(target) => match target.dest {
                Some(dest) => match channel_of(dest) {
                    Some(dest_channel_id) => exists|formatting: FormatMessage, formatted|
                        #![trigger self.after_formatting(dest, dest_channel_id, target.is_parent_forum, formatting, formatted, next, progress)]
                        {
                            &&& (FormatMessage {
                                dest_guild_id: self.dest_guild_id,
                                attach: self.attach,
                                stage: FormatStage::Begin(target.message),
                            }).step(Reply::Begin, formatting, formatted)
                            &&& self.after_formatting(
                                dest,
                                dest_channel_id,
                                target.is_parent_forum,
                                formatting,
                                formatted,
                                next,
                                progress,
                            )
                        },
                    None => self.ends(next, progress),
                },
                None => self.ends(next, progress),
            },
        }
    }

    /// What follows from a step of the formatting.
    pub open spec fn after_formatting(
        self,
        dest: Place,
        dest_channel_id: u64,
        is_parent_forum: bool,
        formatting: FormatMessage,
        formatted: Progress<Formatted, HandlerError>,
        next: Self,
        progress: Progress<(), HandlerError>,
    ) -> bool {
        match formatted {
            Progress::Perform(action) => {
                &&& next == self.at(
                    MessageStage::Formatting { dest, dest_channel_id, is_parent_forum, formatting },
                )
                &&& progress.performs(action)
            },
            Progress::Failed(error) => next == self.at(MessageStage::Ended) && progress.fails(
                error,
            ),
            Progress::Done(formatted) => {
                let writing = Writing {
                    message_id: formatted.message.id,
                    channel_id: formatted.message.channel_id,
                    dest,
                    dest_channel_id,
                    is_parent_forum,
                };
                exists|finding: GetOrCreateWebhook, found|
                    #![trigger self.after_webhook(formatted, writing, finding, found, next, progress)]
                    {
                        &&& (GetOrCreateWebhook {
                            channel_id: dest_channel_id,
                            default_webhook_username: self.webhook_username,
                            stage: WebhookStage::Begin,
                        }).step(Reply::Begin, finding, found)
                        &&& self.after_webhook(formatted, writing, finding, found, next, progress)
                    }
            },
        }
    }

    /// What follows from a step of the search for the webhook.
    pub open spec fn after_webhook(
        self,
        formatted: Formatted,
        writing: Writing,
        finding: GetOrCreateWebhook,
        found: Progress<Webhook, HandlerError>,
        next: Self,
        progress: Progress<(), HandlerError>,
    ) -> bool {
        match found {
            Progress::Perform(action) => {
                &&& next == self.at(MessageStage::FindingWebhook { formatted, writing, finding })
                &&& progress.performs(action)
            },
            Progress::Failed(error) => next == self.at(MessageStage::Ended) && progress.fails(
                error,
            ),
            Progress::Done(webhook) => match webhook.token {
                Some(token) => match mirror_refusal(formatted, self.use_webhook_profile) {
                    Some(reason) => next == self.at(MessageStage::Ended)
                        && progress.refuses_message(reason),
                    None => {
                        &&& next == self.at(MessageStage::Sending(writing))
                        &&& progress matches Progress::Perform(Action::ExecuteWebhook(written))
                        &&& mirrors(
                            written,
                            formatted,
                            writing.dest,
                            self.use_webhook_profile,
                            webhook.id,
                            token,
                        )
                    },
                },
                None => self.ends(next, progress),
            },
        }
    }

    /// What follows once the message has been written and passed on: it is registered,
    /// unless it already stands for the thread that it began.
    pub open spec fn after_sending(
        self,
        writing: Writing,
        dest_message_id: u64,
        next: Self,
        progress: Progress<(), HandlerError>,
    ) -> bool {
        if writing.is_parent_forum || writing.message_id == writing.channel_id {
            self.ends(next, progress)
        } else {
            &&& next == self.at(MessageStage::Registering)
            &&& progress.registers(
                MappingView::between(
                    writing.message_id,
                    dest_message_id,
                    self.src_guild_id,
                    self.dest_guild_id,
                ),
            )
        }
    }

    fn end(self) -> (res: (Self, Progress<(), HandlerError>))
        ensures
            self.ends(res.0, res.1),
            res.0.wf(),
            res.1.leaves(res.0.awaits()),
    {
        (MirrorMessage { stage: MessageStage::Ended, ..self }, Progress::Done(()))
    }

    fn fail(self, error: HandlerError) -> (res: (Self, Progress<(), HandlerError>))
        ensures
            res.0 == self.at(MessageStage::Ended),
            res.1.fails(error),
    {
        (MirrorMessage { stage: MessageStage::Ended, ..self }, Progress::Failed(error))
    }

    fn continue_sending(self, writing: Writing, dest_message_id: u64) -> (res: (
        Self,
        Progress<(), HandlerError>,
    ))
        ensures
            self.after_sending(writing, dest_message_id, res.0, res.1),
            res.0.wf(),
            res.1.leaves(res.0.awaits()),
    {
        if writing.is_parent_forum || writing.message_id == writing.channel_id {
            self.end()
        } else {
            let mapping = IdMapping::new(
                &writing.message_id,
                &dest_message_id,
                &self.src_guild_id,
                &self.dest_guild_id,
            );
            (
                MirrorMessage { stage: MessageStage::Registering, ..self },
                Progress::Perform(Action::RegisterMapping(mapping)),
            )
        }
    }

    fn continue_webhook(
        self,
        formatted: Formatted,
        writing: Writing,
        step: (GetOrCreateWebhook, Progress<Webhook, HandlerError>),
    ) -> (res: (Self, Progress<(), HandlerError>))
        requires
            step.0.wf(),
            step.1.leaves(step.0.awaits()),
        ensures
            self.after_webhook(formatted, writing, step.0, step.1, res.0, res.1),
            res.0.wf(),
            res.1.leaves(res.0.awaits()),
    {
        let (finding, found) = step;
        match found {
            Progress::Perform(action) => {
                let stage = MessageStage::FindingWebhook { formatted, writing, finding };
                (MirrorMessage { stage, ..self }, Progress::Perform(action))
            },
            Progress::Failed(error) => self.fail(error),
            Progress::Done(webhook) => {
                match webhook.token {
                    Some(token) => {
                        let written = mirror(
                            formatted,
                            writing.dest,
                            self.use_webhook_profile,
                            webhook.id,
                            token,
                        );
                        match check_message(&written) {
                            Ok(()) => (
                                MirrorMessage { stage: MessageStage::Sending(writing), ..self },
                                Progress::Perform(Action::ExecuteWebhook(written)),
                            ),
                            Err(reason) => self.fail(
                                HandlerError::ClientMessageValidation(reason),
                            ),
                        }
                    },
                    None => self.end(),
                }
            },
        }
    }

    fn continue_formatting(
        self,
        dest: Place,
        dest_channel_id: u64,
        is_parent_forum: bool,
        step: (FormatMessage, Progress<Formatted, HandlerError>),
    ) -> (res: (Self, Progress<(), HandlerError>))
        requires
            step.0.wf(),
            step.1.leaves(step.0.awaits()),
        ensures
            self.after_formatting(
                dest,
                dest_channel_id,
                is_parent_forum,
                step.0,
                step.1,
                res.0,
                res.1,
            ),
            res.0.wf(),
            res.1.leaves(res.0.awaits()),
    {
        let (formatting, formatted) = step;
        match formatted {
            Progress::Perform(action) => {
                let stage = MessageStage::Formatting {
                    dest,
                    dest_channel_id,
                    is_parent_forum,
                    formatting,
                };
                (MirrorMessage { stage, ..self }, Progress::Perform(action))
            },
            Progress::Failed(error) => self.fail(error),
            Progress::Done(formatted) => {
                let writing = Writing {
                    message_id: formatted.message.id,
                    channel_id: formatted.message.channel_id,
                    dest,
                    dest_channel_id,
                    is_parent_forum,
                };
                let finding = get_or_create_webhook(dest_channel_id, self.webhook_username.clone());
                let step = finding.resume(Reply::Begin);
                self.continue_webhook(formatted, writing, step)
            },
        }
    }

    fn continue_targeting(
        self,
        step: (GetOrCreateThread, Progress<Target, HandlerError>),
    ) -> (res: (Self, Progress<(), HandlerError>))
        requires
            step.0.wf(),
            step.1.leaves(step.0.awaits()),
        ensures
            self.after_targeting(step.0, step.1, res.0, res.1),
            res.0.wf(),
            res.1.leaves(res.0.awaits()),
    {
        let (targeting, targeted) = step;
        match targeted {
            Progress::Perform(action) => (
                MirrorMessage { stage: MessageStage::Targeting(targeting), ..self },
                Progress::Perform(action),
            ),
            Progress::Failed(error) => self.fail(error),
            Progress::Done(target) => {
                let Target { message, dest, is_parent_forum } = target;
                let Some(dest) = dest else {
                    return self.end();
                };
                let dest_channel_id = if dest.kind.is_thread() {
                    dest.parent_id
                } else {
                    Some(dest.id)
                };
                let Some(dest_channel_id) = dest_channel_id else {
                    return self.end();
                };
                let formatting = format_message(message, self.dest_guild_id, self.attach);
                let step = formatting.resume(Reply::Begin);
                self.continue_formatting(dest, dest_channel_id, is_parent_forum, step)
            },
        }
    }
}

impl Task for MirrorMessage {
    type Output = ();

    type Error = HandlerError;

    open spec fn wf(self) -> bool {
        match self.stage {
            MessageStage::Targeting(targeting) => targeting.wf(),
            MessageStage::Formatting { formatting, .. } => formatting.wf(),
            MessageStage::FindingWebhook { finding, .. } => finding.wf(),
            _ => true,
        }
    }

    open spec fn awaits(self) -> Option<ReplyKind> {
        match self.stage {
            MessageStage::Begin(_) => Some(ReplyKind::Begin),
            MessageStage::Joining => Some(ReplyKind::Done),
            MessageStage::Targeting(targeting) => targeting.awaits(),
            MessageStage::Formatting { formatting, .. } => formatting.awaits(),
            MessageStage::FindingWebhook { finding, .. } => finding.awaits(),
            MessageStage::Sending(_) => Some(ReplyKind::Sent),
            MessageStage::Crossposting { .. } => Some(ReplyKind::Done),
            MessageStage::Registering => Some(ReplyKind::Done),
            MessageStage::Ended => None,
        }
    }

    open spec fn step(
        self,
        reply: Reply,
        next: Self,
        progress: Progress<(), HandlerError>,
    ) -> bool {
        let ended = self.at(MessageStage::Ended);
        match (self.stage, reply) {
            (MessageStage::Begin(message), Reply::Begin) => if self.ignore {
                ended.ends(next, progress)
            } else if message.kind is ThreadCreated {
                &&& next == self.at(MessageStage::Joining)
                &&& progress.performs(Action::JoinThread(message.id))
            } else {
                exists|targeting: GetOrCreateThread, targeted|
                    #![trigger ended.after_targeting(targeting, targeted, next, progress)]
                    {
                        &&& (GetOrCreateThread {
                            src_guild_id: self.src_guild_id,
                            dest_guild_id: self.dest_guild_id,
                            src_channel_id: message.channel_id,
                            attach: self.attach,
                            stage: ThreadStage::Begin(message),
                        }).step(Reply::Begin, targeting, targeted)
                        &&& ended.after_targeting(targeting, targeted, next, progress)
                    }
            },
            (MessageStage::Targeting(task), _) => exists|targeting: GetOrCreateThread, targeted|
                #![trigger task.step(reply, targeting, targeted)]
                {
                    &&& task.step(reply, targeting, targeted)
                    &&& ended.after_targeting(targeting, targeted, next, progress)
                },
            (
                MessageStage::Formatting {
                    dest,
                    dest_channel_id,
                    is_parent_forum,
                    formatting: task,
                },
                _,
            ) => exists|formatting: FormatMessage, formatted|
                #![trigger task.step(reply, formatting, formatted)]
                {
                    &&& task.step(reply, formatting, formatted)
                    &&& ended.after_formatting(
                        dest,
                        dest_channel_id,
                        is_parent_forum,
                        formatting,
                        formatted,
                        next,
                        progress,
                    )
                },
            (
                MessageStage::FindingWebhook { formatted, writing, finding: task },
                _,
            ) => exists|finding: GetOrCreateWebhook, found|
                #![trigger task.step(reply, finding, found)]
                {
                    &&& task.step(reply, finding, found)
                    &&& ended.after_webhook(formatted, writing, finding, found, next, progress)
                },
            (_, Reply::Failed(failure)) => next == ended && progress.fails(
                HandlerError::of(failure),
            ),
            (MessageStage::Joining, Reply::Done) => ended.ends(next, progress),
            (
                MessageStage::Sending(writing),
                Reply::Sent(dest_message_id),
            ) => if writing.dest.kind is GuildAnnouncement
                || writing.dest.kind is AnnouncementThread {
                &&& next == self.at(MessageStage::Crossposting { writing, dest_message_id })
                &&& progress.performs(
                    Action::CrosspostMessage {
                        channel_id: writing.dest_channel_id,
                        message_id: dest_message_id,
                    },
                )
            } else {
                ended.after_sending(writing, dest_message_id, next, progress)
            },
            (
                MessageStage::Crossposting { writing, dest_message_id },
                Reply::Done,
            ) => ended.after_sending(writing, dest_message_id, next, progress),
            (MessageStage::Registering, Reply::Done) => ended.ends(next, progress),
            _ => false,
        }
    }

    fn resume(self, reply: Reply) -> (res: (Self, Progress<(), HandlerError>)) {
        assert(self.wf());
        let MirrorMessage {
            src_guild_id,
            dest_guild_id,
            webhook_username,
            use_webhook_profile,
            attach,
            ignore,
            stage,
        } = self;
        let ended = MirrorMessage {
            src_guild_id,
            dest_guild_id,
            webhook_username,
            use_webhook_profile,
            attach,
            ignore,
            stage: MessageStage::Ended,
        };
        match (stage, reply) {
            (MessageStage::Begin(message), Reply::Begin) => {
                if ignore {
                    ended.end()
                } else if message.kind == MessageType::ThreadCreated {
                    (
                        MirrorMessage { stage: MessageStage::Joining, ..ended },
                        Progress::Perform(Action::JoinThread(message.id)),
                    )
                } else {
                    let channel_id = message.channel_id;
                    let targeting = get_or_create_thread(
                        src_guild_id,
                        dest_guild_id,
                        channel_id,
                        message,
                        attach,
                    );
                    let step = targeting.resume(Reply::Begin);
                    ended.continue_targeting(step)
                }
            },
            (MessageStage::Targeting(targeting), reply) => {
                let step = targeting.resume(reply);
                ended.continue_targeting(step)
            },
            (
                MessageStage::Formatting { dest, dest_channel_id, is_parent_forum, formatting },
                reply,
            ) => {
                let step = formatting.resume(reply);
                ended.continue_formatting(dest, dest_channel_id, is_parent_forum, step)
            },
            (MessageStage::FindingWebhook { formatted, writing, finding }, reply) => {
                let step = finding.resume(reply);
                ended.continue_webhook(formatted, writing, step)
            },
            (_, Reply::Failed(failure)) => ended.fail(HandlerError::from_failure(failure)),
            (MessageStage::Joining, Reply::Done) => ended.end(),
            (MessageStage::Sending(writing), Reply::Sent(dest_message_id)) => {
                if writing.dest.kind == ChannelType::GuildAnnouncement || writing.dest.kind
                    == ChannelType::AnnouncementThread {
                    let action = Action::CrosspostMessage {
                        channel_id: writing.dest_channel_id,
                        message_id: dest_message_id,
                    };
                    let stage = MessageStage::Crossposting { writing, dest_message_id };
                    (MirrorMessage { stage, ..ended }, Progress::Perform(action))
                } else {
                    ended.continue_sending(writing, dest_message_id)
                }
            },
            (MessageStage::Crossposting { writing, dest_message_id }, Reply::Done) => {
                ended.continue_sending(writing, dest_message_id)
            },
            (MessageStage::Registering, Reply::Done) => ended.end(),
            _ => vstd::pervasive::unreached(),
        }
    }
}

/// A message that is ignored leads to no operation at all.
pub proof fn ignored_message_does_nothing(
    task: MirrorMessage,
    next: MirrorMessage,
    progress: Progress<(), HandlerError>,
)
    requires
        task.ignore,
        task.stage is Begin,
        task.step(Reply::Begin, next, progress),
    ensures
        progress.yields(()),
        next.awaits() is None,
{
}

/// The news of a thread leads to the thread being joined and to nothing else.
pub proof fn thread_news_is_only_joined(
    tasks: Seq<MirrorMessage>,
    replies: Seq<Reply>,
    progress: Seq<Progress<(), HandlerError>>,
    message: Message,
)
    requires
        is_run(tasks, replies, progress),
        tasks[0].stage == MessageStage::Begin(message),
        !tasks[0].ignore,
        message.kind is ThreadCreated,
        replies.len() > 0,
    ensures
        progress[0].performs(Action::JoinThread(message.id)),
        replies.len() <= 2,
        replies.len() == 2 ==> !(progress[1] is Perform),
{
    let first = replies[0];
    if replies.len() > 1 {
        let second = replies[1];
        if replies.len() > 2 {
            runs_end(tasks, replies, progress, 1);
        }
    }
}

/// A message is registered only once its mirror was written, and as what was written. One
/// that began a post of a forum, or that stands for its thread, is not registered at all.
pub proof fn registered_message_was_written(
    task: MirrorMessage,
    reply: Reply,
    next: MirrorMessage,
    progress: Progress<(), HandlerError>,
)
    requires
        task.step(reply, next, progress),
        next.stage is Registering,
    ensures
        match (task.stage, reply) {
            (MessageStage::Sending(writing), Reply::Sent(dest_message_id)) => {
                &&& !writing.is_parent_forum
                &&& writing.message_id != writing.channel_id
                &&& progress.registers(
                    MappingView::between(
                        writing.message_id,
                        dest_message_id,
                        task.src_guild_id,
                        task.dest_guild_id,
                    ),
                )
            },
            (MessageStage::Crossposting { writing, dest_message_id }, Reply::Done) => {
                &&& !writing.is_parent_forum
                &&& writing.message_id != writing.channel_id
                &&& progress.registers(
                    MappingView::between(
                        writing.message_id,
                        dest_message_id,
                        task.src_guild_id,
                        task.dest_guild_id,
                    ),
                )
            },
            _ => false,
        },
{
}

/// What an empty blacklist and no requirements let through, every message of a regular kind
/// passes, unless it answers another one or comes from a bot and those are not mirrored.
pub proof fn nothing_barred_is_ignored(settings: GuildSettings, message: Message)
    requires
        settings.blacklists@.len() == 0,
        settings.message_requirements.min_attachments_amount == 0,
        settings.message_requirements.min_content_length == 0,
        settings.message_requirements.min_embeds_amount == 0,
        settings.message_settings.mirror_reply_messages,
        settings.message_settings.mirror_messages_from_bots,
    ensures
        ignored(settings, message) <==> message.kind is Other,
{
}

/// Why a message without files cannot be written as it is.
pub open spec fn plain_refusal(message: Message, use_webhook_profile: bool) -> Refusal {
    first_of(
        if use_webhook_profile {
            None
        } else {
            username_refusal(message.author.name@)
        },
        first_of(embeds_refusal(texts_of(message.embeds@)), content_refusal(message.content@)),
    )
}

/// A message that mentions and answers nothing, in a channel whose mirror is known and has a
/// webhook, is written there word for word, unless the name of its author, its embeds or its
/// content is refused.
pub proof fn plain_message_is_mirrored(
    tasks: Seq<MirrorMessage>,
    replies: Seq<Reply>,
    progress: Seq<Progress<(), HandlerError>>,
    message: Message,
    mapping: IdMapping,
    src: Decoded,
    dest_channel: Channel,
    webhooks: Vec<Webhook>,
)
    requires
        is_run(tasks, replies, progress),
        tasks[0].stage == MessageStage::Begin(message),
        !tasks[0].ignore,
        !tasks[0].attach,
        !(message.kind is ThreadCreated),
        mentions_of(message.content@, message.mention_roles@).len() == 0,
        message.reference is None,
        replies.len() >= 4,
        replies[1] == Reply::Mapping(Some(mapping)),
        mapping@.dest_mapping_data is Some,
        replies[2] == (Reply::Decoded { src, dest: Some(Ok(MappingData::Channel(dest_channel))) }),
        channel_of(dest_channel.spec_place()) is Some,
        replies[3] == Reply::Webhooks(webhooks),
        webhooks@.len() > 0,
        webhooks@[0].token is Some,
    ensures
        progress[0].performs(Action::FindMapping { orig_id: message.channel_id }),
        progress[1].decodes(mapping@),
        progress[2].performs(Action::GetWebhooks(channel_of(dest_channel.spec_place())->0)),
        match plain_refusal(message, tasks[0].use_webhook_profile) {
            Some(reason) => progress[3].refuses_message(reason),
            None => progress[3] matches Progress::Perform(Action::ExecuteWebhook(written)) && {
                &&& written.content@ == message.content@
                &&& written.embeds == Some(message.embeds)
                &&& written.webhook_id == webhooks@[0].id
                &&& written.token == webhooks@[0].token->0
                &&& written_as(
                    tasks[0].use_webhook_profile,
                    message.author,
                    written.username,
                    written.avatar_url,
                )
            },
        },
{
    let first = replies[0];
    let second = replies[1];
    let third = replies[2];
    let fourth = replies[3];
}

} // verus!
