//! Links to mirrored messages.
use crate::errors::HandlerError;
use crate::model::{mapping_round_trip, IdMapping, MappingView, MessageReference};
use crate::operation::{destination, is_run, Action, Progress, Reply, ReplyKind, Task};
use crate::text::{decimal, decimal_text};
use vstd::prelude::*;

verus! {

/// The link to a message.
pub open spec fn message_link(guild_id: u64, channel_id: u64, message_id: u64) -> Seq<char> {
    "https://discord.com/channels/"@ + decimal(guild_id as nat) + "/"@ + decimal(
        channel_id as nat,
    ) + "/"@ + decimal(message_id as nat)
}

/// The link to a message.
pub fn message_url(guild_id: u64, channel_id: u64, message_id: u64) -> (url: String)
    ensures
        url@ == message_link(guild_id, channel_id, message_id),
{
    "https://discord.com/channels/".to_string().concat(decimal_text(guild_id).as_str()).concat(
        "/",
    ).concat(decimal_text(channel_id).as_str()).concat("/").concat(
        decimal_text(message_id).as_str(),
    )
}

/// How far the search for a link has come.
#[derive(Clone, Copy, Debug, PartialEq, Eq, Structural)]
pub enum ReferenceStage {
    Begin,
    FindingChannel(u64),
    FindingMessage(u64),
    Ended,
}

/// Finds the link to the mirror of the message that another one answers. There is none
/// where nothing is answered, or where the channel or the message is not mirrored.
pub struct ReferenceToUrl {
    pub reference: Option<MessageReference>,
    pub dest_guild: u64,
    pub stage: ReferenceStage,
}

/// Begins to look for the link to the mirror of what is answered.
pub fn reference_to_url(reference: Option<MessageReference>, dest_guild: u64) -> (task:
    ReferenceToUrl)
    ensures
        task == (ReferenceToUrl { reference, dest_guild, stage: ReferenceStage::Begin }),
{
    ReferenceToUrl { reference, dest_guild, stage: ReferenceStage::Begin }
}

impl ReferenceToUrl {
    /// The same search, at another stage.
    pub open spec fn at(self, stage: ReferenceStage) -> ReferenceToUrl {
        ReferenceToUrl { stage, ..self }
    }
}

impl Task for ReferenceToUrl {
    type Output = Option<String>;

    type Error = HandlerError;

    open spec fn wf(self) -> bool {
        true
    }

    open spec fn awaits(self) -> Option<ReplyKind> {
        match self.stage {
            ReferenceStage::Begin => Some(ReplyKind::Begin),
            ReferenceStage::FindingChannel(_) => Some(ReplyKind::Mapping),
            ReferenceStage::FindingMessage(_) => Some(ReplyKind::Mapping),
            ReferenceStage::Ended => None,
        }
    }

    open spec fn step(
        self,
        reply: Reply,
        next: Self,
        progress: Progress<Option<String>, HandlerError>,
    ) -> bool {
        match (self.stage, reply) {
            (ReferenceStage::Begin, Reply::Begin) => match self.reference {
                Some(
                    MessageReference { channel_id: Some(channel_id), message_id: Some(message_id) },
                ) => next == self.at(ReferenceStage::FindingChannel(message_id))
                    && progress.performs(Action::GetMapping { orig_id: channel_id }),
                _ => next == self.at(ReferenceStage::Ended) && progress.yields(None),
            },
            (
                ReferenceStage::FindingChannel(message_id),
                Reply::Mapping(found),
            ) => match destination(found) {
                Some(channel_id) => next == self.at(ReferenceStage::FindingMessage(channel_id))
                    && progress.performs(Action::GetMapping { orig_id: message_id }),
                None => next == self.at(ReferenceStage::Ended) && progress.yields(None),
            },
            (
                ReferenceStage::FindingMessage(channel_id),
                Reply::Mapping(found),
            ) => match destination(found) {
                Some(message_id) => {
                    &&& next == self.at(ReferenceStage::Ended)
                    &&& progress matches Progress::Done(Some(url))
                    &&& url@ == message_link(self.dest_guild, channel_id, message_id)
                },
                None => next == self.at(ReferenceStage::Ended) && progress.yields(None),
            },
            (_, Reply::Failed(failure)) => next == self.at(ReferenceStage::Ended)
                && progress.fails(HandlerError::of(failure)),
            _ => false,
        }
    }

    fn resume(self, reply: Reply) -> (res: (Self, Progress<Option<String>, HandlerError>)) {
        let ended = ReferenceToUrl {
            reference: self.reference,
            dest_guild: self.dest_guild,
            stage: ReferenceStage::Ended,
        };
        match (self.stage, reply) {
            (ReferenceStage::Begin, Reply::Begin) => {
                match self.reference {
                    Some(
                        MessageReference {
                            channel_id: Some(channel_id),
                            message_id: Some(message_id),
                        },
                    ) => {
                        let stage = ReferenceStage::FindingChannel(message_id);
                        (
                            ReferenceToUrl { stage, ..self },
                            Progress::Perform(Action::GetMapping { orig_id: channel_id }),
                        )
                    },
                    _ => (ended, Progress::Done(None)),
                }
            },
            (ReferenceStage::FindingChannel(message_id), Reply::Mapping(found)) => {
                match found {
                    Some(mapping) => {
                        let stage = ReferenceStage::FindingMessage(mapping.ref_id());
                        (
                            ReferenceToUrl { stage, ..self },
                            Progress::Perform(Action::GetMapping { orig_id: message_id }),
                        )
                    },
                    None => (ended, Progress::Done(None)),
                }
            },
            (ReferenceStage::FindingMessage(channel_id), Reply::Mapping(found)) => {
                match found {
                    Some(mapping) => {
                        let url = message_url(self.dest_guild, channel_id, mapping.ref_id());
                        (ended, Progress::Done(Some(url)))
                    },
                    None => (ended, Progress::Done(None)),
                }
            },
            (_, Reply::Failed(failure)) => (
                ended,
                Progress::Failed(HandlerError::from_failure(failure)),
            ),
            _ => vstd::pervasive::unreached(),
        }
    }
}

/// Where the channel and the message that are answered were both registered, the link leads
/// to the mirror of the message in the mirror of the channel.
pub proof fn link_leads_to_mirror(
    tasks: Seq<ReferenceToUrl>,
    replies: Seq<Reply>,
    progress: Seq<Progress<Option<String>, HandlerError>>,
    channel: IdMapping,
    message: IdMapping,
    dest_channel_id: u64,
    dest_message_id: u64,
    src_guild_id: u64,
)
    requires
        is_run(tasks, replies, progress),
        tasks[0].stage is Begin,
        tasks[0].reference matches Some(reference) && reference.channel_id is Some
            && reference.message_id is Some,
        replies.len() == 3,
        replies[1] == Reply::Mapping(Some(channel)),
        replies[2] == Reply::Mapping(Some(message)),
        channel@ == MappingView::between(
            tasks[0].reference->0.channel_id->0,
            dest_channel_id,
            src_guild_id,
            tasks[0].dest_guild,
        ),
        message@ == MappingView::between(
            tasks[0].reference->0.message_id->0,
            dest_message_id,
            src_guild_id,
            tasks[0].dest_guild,
        ),
    ensures
        progress[0].performs(
            Action::GetMapping { orig_id: tasks[0].reference->0.channel_id->0 },
        ),
        progress[1].performs(
            Action::GetMapping { orig_id: tasks[0].reference->0.message_id->0 },
        ),
        progress[2] matches Progress::Done(Some(url)) && url@ == message_link(
            tasks[0].dest_guild,
            dest_channel_id,
            dest_message_id,
        ),
{
    let first = replies[0];
    let second = replies[1];
    let third = replies[2];
    mapping_round_trip(
        tasks[0].reference->0.channel_id->0,
        dest_channel_id,
        src_guild_id,
        tasks[0].dest_guild,
    );
    mapping_round_trip(
        tasks[0].reference->0.message_id->0,
        dest_message_id,
        src_guild_id,
        tasks[0].dest_guild,
    );
}

} // verus!
