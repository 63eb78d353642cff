//! Bringing a message into the form in which it is mirrored.
use crate::errors::HandlerError;
use crate::handlers::reference::{reference_to_url, ReferenceStage, ReferenceToUrl};
use crate::handlers::rewrite::{rewrite_mentions, RewriteMentions};
use crate::model::Message;
use crate::operation::{is_clock_time, Action, Progress, Reply, ReplyKind, Task, Upload};
use vstd::prelude::*;

verus! {

/// A message and the form in which it is mirrored.
pub struct Formatted {
    pub message: Message,
    pub content: String,
    pub attachments: Vec<Upload>,
}

/// How far the formatting has come.
pub enum FormatStage {
    Begin(Message),
    Rewriting { message: Message, rewriting: RewriteMentions },
    Referencing { message: Message, content: String, referencing: ReferenceToUrl },
    /// The next attachment is about to be fetched.
    ReadingClock(Formatted),
    Fetching { formatted: Formatted, upload_id: u64 },
    Ended,
}

/// Carries the mentions of a message over, puts a link in front where it answers another
/// one, and fetches its attachments where they are to be sent along.
pub struct FormatMessage {
    pub dest_guild_id: u64,
    /// Whether attachments are fetched and sent along.
    pub attach: bool,
    pub stage: FormatStage,
}

/// Content with a link to what it answers in front, where there is one.
pub open spec fn with_reply_link(url: Option<String>, content: Seq<char>) -> Seq<char> {
    match url {
        Some(url) => "[REPLY]\n"@ + url@ + "\n\n"@ + content,
        None => content,
    }
}

/// Content with a link to what it answers in front, where there is one.
fn add_reply_link(url: Option<String>, content: String) -> (result: String)
    ensures
        result@ == with_reply_link(url, content@),
{
    match url {
        Some(url) => "[REPLY]\n".to_string().concat(url.as_str()).concat("\n\n").concat(
            content.as_str(),
        ),
        None => content,
    }
}

/// The whole milliseconds of a time since the epoch.
pub fn milliseconds(secs: u64, subsec_nanos: u32) -> (in_ms: u64)
    requires
        is_clock_time(secs, subsec_nanos),
    ensures
        in_ms == secs * 1000 + subsec_nanos / 1_000_000,
{
    secs * 1000 + (subsec_nanos / 1_000_000) as u64
}

/// Begins to format a message.
pub fn format_message(message: Message, dest_guild_id: u64, attach: bool) -> (task: FormatMessage)
    ensures
        task == (FormatMessage { dest_guild_id, attach, stage: FormatStage::Begin(message) }),
        task.wf(),
{
    FormatMessage { dest_guild_id, attach, stage: FormatStage::Begin(message) }
}

impl FormatMessage {
    /// The same formatting, at another stage.
    pub open spec fn at(self, stage: FormatStage) -> FormatMessage {
        FormatMessage { stage, ..self }
    }

    /// What follows from a step of the rewriting.
    pub open spec fn after_rewriting(
        self,
        message: Message,
        rewriting: RewriteMentions,
        rewritten: Progress<String, HandlerError>,
        next: Self,
        progress: Progress<Formatted, HandlerError>,
    ) -> bool {
        match rewritten {
            Progress::Perform(action) => next == self.at(
                FormatStage::Rewriting { message, rewriting },
            ) && progress.performs(action),
            Progress::Failed(error) => next == self.at(FormatStage::Ended) && progress.fails(error),
            Progress::Done(content) => exists|referencing: ReferenceToUrl, referenced|
                #![trigger self.after_referencing(message, content, referencing, referenced, next, progress)]
                {
                    &&& (ReferenceToUrl {
                        reference: message.reference,
                        dest_guild: self.dest_guild_id,
                        stage: ReferenceStage::Begin,
                    }).step(Reply::Begin, referencing, referenced)
                    &&& self.after_referencing(
                        message,
                        content,
                        referencing,
                        referenced,
                        next,
                        progress,
                    )
                },
        }
    }

    /// What follows from a step of the search for the link.
    pub open spec fn after_referencing(
        self,
        message: Message,
        content: String,
        referencing: ReferenceToUrl,
        referenced: Progress<Option<String>, HandlerError>,
        next: Self,
        progress: Progress<Formatted, HandlerError>,
    ) -> bool {
        match referenced {
            Progress::Perform(action) => next == self.at(
                FormatStage::Referencing { message, content, referencing },
            ) && progress.performs(action),
            Progress::Failed(error) => next == self.at(FormatStage::Ended) && progress.fails(error),
            Progress::Done(url) => self.fetched(
                message,
                with_reply_link(url, content@),
                Seq::empty(),
                next,
                progress,
            ),
        }
    }

    /// What follows once some attachments have been fetched: the next one is, or the
    /// message is ready.
    pub open spec fn fetched(
        self,
        message: Message,
        content: Seq<char>,
        uploads: Seq<Upload>,
        next: Self,
        progress: Progress<Formatted, HandlerError>,
    ) -> bool {
        if self.attach && uploads.len() < message.attachments@.len() {
            &&& next.dest_guild_id == self.dest_guild_id
            &&& next.attach == self.attach
            &&& next.stage matches FormatStage::ReadingClock(formatted)
            &&& formatted.message == message
            &&& formatted.content@ == content
            &&& formatted.attachments@ == uploads
            &&& progress.performs(Action::Now)
        } else {
            &&& next == self.at(FormatStage::Ended)
            &&& progress matches Progress::Done(formatted)
            &&& formatted.message == message
            &&& formatted.content@ == content
            &&& formatted.attachments@ == uploads
        }
    }

    fn continue_fetching(self, formatted: Formatted) -> (res: (
        Self,
        Progress<Formatted, HandlerError>,
    ))
        requires
            formatted.attachments@.len() <= formatted.message.attachments@.len(),
        ensures
            self.fetched(
                formatted.message,
                formatted.content@,
                formatted.attachments@,
                res.0,
                res.1,
            ),
            res.0.wf(),
            res.1.leaves(res.0.awaits()),
    {
        if self.attach && formatted.attachments.len() < formatted.message.attachments.len() {
            (
                FormatMessage { stage: FormatStage::ReadingClock(formatted), ..self },
                Progress::Perform(Action::Now),
            )
        } else {
            (FormatMessage { stage: FormatStage::Ended, ..self }, Progress::Done(formatted))
        }
    }

    fn continue_referencing(
        self,
        message: Message,
        content: String,
        step: (ReferenceToUrl, Progress<Option<String>, HandlerError>),
    ) -> (res: (Self, Progress<Formatted, HandlerError>))
        requires
            step.0.wf(),
            step.1.leaves(step.0.awaits()),
        ensures
            self.after_referencing(message, content, step.0, step.1, res.0, res.1),
            res.0.wf(),
            res.1.leaves(res.0.awaits()),
    {
        let (referencing, referenced) = step;
        match referenced {
            Progress::Perform(action) => {
                let stage = FormatStage::Referencing { message, content, referencing };
                (FormatMessage { stage, ..self }, Progress::Perform(action))
            },
            Progress::Failed(error) => (
                FormatMessage { stage: FormatStage::Ended, ..self },
                Progress::Failed(error),
            ),
            Progress::Done(url) => {
                let content = add_reply_link(url, content);
                let attachments: Vec<Upload> = Vec::new();
                self.continue_fetching(Formatted { message, content, attachments })
            },
        }
    }

    fn continue_rewriting(
        self,
        message: Message,
        step: (RewriteMentions, Progress<String, HandlerError>),
    ) -> (res: (Self, Progress<Formatted, HandlerError>))
        requires
            step.0.wf(),
            step.1.leaves(step.0.awaits()),
        ensures
            self.after_rewriting(message, step.0, step.1, res.0, res.1),
            res.0.wf(),
            res.1.leaves(res.0.awaits()),
    {
        let (rewriting, rewritten) = step;
        match rewritten {
            Progress::Perform(action) => {
                let stage = FormatStage::Rewriting { message, rewriting };
                (FormatMessage { stage, ..self }, Progress::Perform(action))
            },
            Progress::Failed(error) => (
                FormatMessage { stage: FormatStage::Ended, ..self },
                Progress::Failed(error),
            ),
            Progress::Done(content) => {
                let referencing = reference_to_url(message.reference, self.dest_guild_id);
                let step = referencing.resume(Reply::Begin);
                self.continue_referencing(message, content, step)
            },
        }
    }
}

impl Task for FormatMessage {
    type Output = Formatted;

    type Error = HandlerError;

    open spec fn wf(self) -> bool {
        match self.stage {
            FormatStage::Rewriting { rewriting, .. } => rewriting.wf(),
            FormatStage::ReadingClock(formatted) => formatted.attachments@.len()
                < formatted.message.attachments@.len(),
            FormatStage::Fetching { formatted, .. } => formatted.attachments@.len()
                < formatted.message.attachments@.len(),
            _ => true,
        }
    }

    open spec fn awaits(self) -> Option<ReplyKind> {
        match self.stage {
            FormatStage::Begin(_) => Some(ReplyKind::Begin),
            FormatStage::Rewriting { rewriting, .. } => rewriting.awaits(),
            FormatStage::Referencing { referencing, .. } => referencing.awaits(),
            FormatStage::ReadingClock(_) => Some(ReplyKind::Time),
            FormatStage::Fetching { .. } => Some(ReplyKind::Bytes),
            FormatStage::Ended => None,
        }
    }

    open spec fn step(
        self,
        reply: Reply,
        next: Self,
        progress: Progress<Formatted, HandlerError>,
    ) -> bool {
        let ended = self.at(FormatStage::Ended);
        match self.stage {
            FormatStage::Begin(message) => exists|
                task: RewriteMentions,
                rewriting: RewriteMentions,
                rewritten,
            |
                #![trigger task.step(reply, rewriting, rewritten)]
                {
                    &&& task.begins(message.content@, message.mention_roles@)
                    &&& task.step(reply, rewriting, rewritten)
                    &&& ended.after_rewriting(message, rewriting, rewritten, next, progress)
                },
            FormatStage::Rewriting { message, rewriting: task } => exists|
                rewriting: RewriteMentions,
                rewritten,
            |
                #![trigger task.step(reply, rewriting, rewritten)]
                {
                    &&& task.step(reply, rewriting, rewritten)
                    &&& ended.after_rewriting(message, rewriting, rewritten, next, progress)
                },
            FormatStage::Referencing { message, content, referencing: task } => exists|
                referencing: ReferenceToUrl,
                referenced,
            |
                #![trigger task.step(reply, referencing, referenced)]
                {
                    &&& task.step(reply, referencing, referenced)
                    &&& ended.after_referencing(
                        message,
                        content,
                        referencing,
                        referenced,
                        next,
                        progress,
                    )
                },
            FormatStage::ReadingClock(formatted) => match reply {
                Reply::Time { secs, subsec_nanos } => {
                    let upload_id = (secs * 1000 + subsec_nanos / 1_000_000) as u64;
                    let fetched = formatted.attachments@.len() as int;
                    let attachment = formatted.message.attachments@[fetched];
                    &&& next == self.at(FormatStage::Fetching { formatted, upload_id })
                    &&& progress.performs(Action::Download(attachment.url))
                },
                Reply::Failed(failure) => next == ended && progress.fails(
                    HandlerError::of(failure),
                ),
                _ => false,
            },
            FormatStage::Fetching { formatted, upload_id } => match reply {
                Reply::Bytes(bytes) => {
                    let fetched = formatted.attachments@.len() as int;
                    let attachment = formatted.message.attachments@[fetched];
                    let upload = Upload { filename: attachment.filename, bytes, id: upload_id };
                    ended.fetched(
                        formatted.message,
                        formatted.content@,
                        formatted.attachments@.push(upload),
                        next,
                        progress,
                    )
                },
                Reply::Failed(failure) => next == ended && progress.fails(
                    HandlerError::of(failure),
                ),
                _ => false,
            },
            FormatStage::Ended => false,
        }
    }

    fn resume(self, reply: Reply) -> (res: (Self, Progress<Formatted, HandlerError>)) {
        assert(self.wf());
        let FormatMessage { dest_guild_id, attach, stage } = self;
        let ended = FormatMessage { dest_guild_id, attach, stage: FormatStage::Ended };
        match stage {
            FormatStage::Begin(message) => {
                let task = rewrite_mentions(message.content.clone(), &message.mention_roles);
                let step = task.resume(reply);
                ended.continue_rewriting(message, step)
            },
            FormatStage::Rewriting { message, rewriting } => {
                let step = rewriting.resume(reply);
                ended.continue_rewriting(message, step)
            },
            FormatStage::Referencing { message, content, referencing } => {
                let step = referencing.resume(reply);
                ended.continue_referencing(message, content, step)
            },
            FormatStage::ReadingClock(formatted) => {
                match reply {
                    Reply::Time { secs, subsec_nanos } => {
                        let upload_id: u64 = milliseconds(secs, subsec_nanos);
                        let fetched: usize = formatted.attachments.len();
                        let url = formatted.message.attachments[fetched].url.clone();
                        let stage = FormatStage::Fetching { formatted, upload_id };
                        (
                            FormatMessage { dest_guild_id, attach, stage },
                            Progress::Perform(Action::Download(url)),
                        )
                    },
                    Reply::Failed(failure) => (
                        ended,
                        Progress::Failed(HandlerError::from_failure(failure)),
                    ),
                    _ => vstd::pervasive::unreached(),
                }
            },
            FormatStage::Fetching { formatted, upload_id } => {
                match reply {
                    Reply::Bytes(bytes) => {
                        let Formatted { message, content, attachments } = formatted;
                        let mut attachments = attachments;
                        let filename = message.attachments[attachments.len()].filename.clone();
                        attachments.push(Upload { filename, bytes, id: upload_id });
                        ended.continue_fetching(Formatted { message, content, attachments })
                    },
                    Reply::Failed(failure) => (
                        ended,
                        Progress::Failed(HandlerError::from_failure(failure)),
                    ),
                    _ => vstd::pervasive::unreached(),
                }
            },
            FormatStage::Ended => vstd::pervasive::unreached(),
        }
    }
}

} // verus!
