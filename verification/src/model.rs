//! The things that are mirrored, and the record of what mirrors what.
use crate::errors::DatabaseError;
use crate::text::{copy_text, copy_texts};
use crate::keys::{be_bytes, be_value, copy_bytes, id_key, is_id_key, key_value};
use vstd::prelude::*;
use vstd::utf8::{decode_utf8, encode_utf8};

verus! {

// ---------------------------------------------------------------------------
// Guilds, channels, roles
// ---------------------------------------------------------------------------

/// What a channel is for.
#[derive(Clone, Copy, Debug, PartialEq, Eq, Structural)]
pub enum ChannelType {
    GuildText,
    Private,
    GuildVoice,
    Group,
    GuildCategory,
    GuildAnnouncement,
    AnnouncementThread,
    PublicThread,
    PrivateThread,
    GuildStageVoice,
    GuildDirectory,
    GuildForum,
    Unknown(u8),
}

impl ChannelType {
    /// Whether a channel of this type is a thread.
    pub open spec fn spec_is_thread(self) -> bool {
        self is AnnouncementThread || self is PublicThread || self is PrivateThread
    }

    /// Whether a channel of this type is a thread.
    pub fn is_thread(&self) -> (res: bool)
        ensures
            res == self.spec_is_thread(),
    {
        match self {
            ChannelType::AnnouncementThread => true,
            ChannelType::PublicThread => true,
            ChannelType::PrivateThread => true,
            _ => false,
        }
    }

    /// The number that the service gives to the type.
    pub open spec fn spec_number(self) -> u8 {
        match self {
            ChannelType::GuildText => 0,
            ChannelType::Private => 1,
            ChannelType::GuildVoice => 2,
            ChannelType::Group => 3,
            ChannelType::GuildCategory => 4,
            ChannelType::GuildAnnouncement => 5,
            ChannelType::AnnouncementThread => 10,
            ChannelType::PublicThread => 11,
            ChannelType::PrivateThread => 12,
            ChannelType::GuildStageVoice => 13,
            ChannelType::GuildDirectory => 14,
            ChannelType::GuildForum => 15,
            ChannelType::Unknown(number) => number,
        }
    }

    /// The number that the service gives to the type.
    pub fn number(&self) -> (number: u8)
        ensures
            number == self.spec_number(),
    {
        match self {
            ChannelType::GuildText => 0,
            ChannelType::Private => 1,
            ChannelType::GuildVoice => 2,
            ChannelType::Group => 3,
            ChannelType::GuildCategory => 4,
            ChannelType::GuildAnnouncement => 5,
            ChannelType::AnnouncementThread => 10,
            ChannelType::PublicThread => 11,
            ChannelType::PrivateThread => 12,
            ChannelType::GuildStageVoice => 13,
            ChannelType::GuildDirectory => 14,
            ChannelType::GuildForum => 15,
            ChannelType::Unknown(number) => *number,
        }
    }
}

/// A trait of a guild that changes what it can hold.
#[derive(Clone, Copy, Debug, PartialEq, Eq, Structural)]
pub enum GuildFeature {
    Community,
    Other,
}

/// A guild.
#[derive(Clone, Debug)]
pub struct Guild {
    pub id: u64,
    pub features: Vec<GuildFeature>,
}

impl Guild {
    /// Whether the guild is a community.
    pub open spec fn community(self) -> bool {
        self.features@.contains(GuildFeature::Community)
    }

    /// Whether the guild is a community.
    pub fn is_community(&self) -> (res: bool)
        ensures
            res == self.community(),
    {
        for i in 0..self.features.len()
            invariant
                forall|j: int|
                    0 <= j < i ==> (#[trigger] self.features@[j]) != GuildFeature::Community,
        {
            if self.features[i] == GuildFeature::Community {
                return true;
            }
        }
        false
    }
}

/// An exception from the permissions of a channel, for a member or a role.
#[derive(Clone, Copy, Debug, PartialEq, Eq, Structural)]
pub struct PermissionOverwrite {
    pub id: u64,
    pub kind: u8,
    pub allow: u64,
    pub deny: u64,
}

/// The JSON text of a whole object, in the form in which mappings keep it, or why there
/// is none.
pub type Encoded = Result<String, String>;

/// A channel. Two channels are the same exactly when their whole objects are, which the
/// identifier and the JSON text tell.
#[derive(Debug)]
pub struct Channel {
    pub id: u64,
    pub kind: ChannelType,
    pub parent_id: Option<u64>,
    pub name: Option<String>,
    pub topic: Option<String>,
    pub nsfw: Option<bool>,
    pub position: Option<i32>,
    pub permission_overwrites: Option<Vec<PermissionOverwrite>>,
    pub invitable: Option<bool>,
    pub default_auto_archive_duration: Option<u16>,
    /// Whether a thread is archived, where that is told.
    pub archived: Option<bool>,
    pub encoded: Encoded,
}

/// Which channel it is, and what and where.
#[derive(Clone, Copy, Debug, PartialEq, Eq, Structural)]
pub struct Place {
    pub id: u64,
    pub kind: ChannelType,
    pub parent_id: Option<u64>,
}

/// A role.
#[derive(Debug)]
pub struct Role {
    pub id: u64,
    pub name: String,
    pub color: u32,
    pub hoist: bool,
    pub mentionable: bool,
    pub permissions: u64,
    pub position: i64,
    pub encoded: Encoded,
}

/// What two JSON texts, or two reasons for having none, say.
pub open spec fn encoded_view(encoded: Encoded) -> Result<Seq<char>, Seq<char>> {
    match encoded {
        Ok(text) => Ok(text@),
        Err(reason) => Err(reason@),
    }
}

/// Whether two objects have the same JSON text.
pub fn same_encoded(a: &Encoded, b: &Encoded) -> (same: bool)
    ensures
        same == (encoded_view(*a) == encoded_view(*b)),
{
    match (a, b) {
        (Ok(x), Ok(y)) => *x == *y,
        (Err(x), Err(y)) => *x == *y,
        _ => false,
    }
}

/// Whether two channels are the same.
pub open spec fn same_channel(a: Channel, b: Channel) -> bool {
    a.id == b.id && encoded_view(a.encoded) == encoded_view(b.encoded)
}

/// Whether two roles are the same.
pub open spec fn same_role(a: Role, b: Role) -> bool {
    a.id == b.id && encoded_view(a.encoded) == encoded_view(b.encoded)
}

impl Channel {
    /// Which channel it is, and what and where.
    pub open spec fn spec_place(self) -> Place {
        Place { id: self.id, kind: self.kind, parent_id: self.parent_id }
    }

    /// Which channel it is, and what and where.
    pub fn place(&self) -> (place: Place)
        ensures
            place == self.spec_place(),
    {
        Place { id: self.id, kind: self.kind, parent_id: self.parent_id }
    }

    /// Whether two channels are the same.
    pub fn same_as(&self, other: &Channel) -> (same: bool)
        ensures
            same == same_channel(*self, *other),
    {
        self.id == other.id && same_encoded(&self.encoded, &other.encoded)
    }
}

impl Role {
    /// Whether two roles are the same.
    pub fn same_as(&self, other: &Role) -> (same: bool)
        ensures
            same == same_role(*self, *other),
    {
        self.id == other.id && same_encoded(&self.encoded, &other.encoded)
    }
}

/// A copy of a JSON text, or of the reason for having none.
fn copy_encoded(encoded: &Encoded) -> (copy: Encoded)
    ensures
        copy == *encoded,
{
    match encoded {
        Ok(text) => Ok(text.clone()),
        Err(reason) => Err(reason.clone()),
    }
}

/// Whether one channel is a copy of another.
pub open spec fn is_copy(copy: Channel, channel: Channel) -> bool {
    &&& copy.id == channel.id
    &&& copy.kind == channel.kind
    &&& copy.parent_id == channel.parent_id
    &&& copy.name == channel.name
    &&& copy.topic == channel.topic
    &&& copy.nsfw == channel.nsfw
    &&& copy.position == channel.position
    &&& overwrites_view(copy.permission_overwrites) == overwrites_view(
        channel.permission_overwrites,
    )
    &&& copy.invitable == channel.invitable
    &&& copy.default_auto_archive_duration == channel.default_auto_archive_duration
    &&& copy.archived == channel.archived
    &&& copy.encoded == channel.encoded
}

impl Clone for Channel {
    fn clone(&self) -> (copy: Self)
        ensures
            is_copy(copy, *self),
    {
        Channel {
            id: self.id,
            kind: self.kind,
            parent_id: self.parent_id,
            name: copy_text(&self.name),
            topic: copy_text(&self.topic),
            nsfw: self.nsfw,
            position: self.position,
            permission_overwrites: copy_overwrites(&self.permission_overwrites),
            invitable: self.invitable,
            default_auto_archive_duration: self.default_auto_archive_duration,
            archived: self.archived,
            encoded: copy_encoded(&self.encoded),
        }
    }
}

/// Whether some channels are copies of others, one by one.
pub open spec fn are_copies(copies: Seq<Channel>, channels: Seq<Channel>) -> bool {
    &&& copies.len() == channels.len()
    &&& forall|i: int| 0 <= i < copies.len() ==> is_copy(#[trigger] copies[i], channels[i])
}

/// Copies of some channels.
pub fn copy_channels(channels: &Vec<Channel>) -> (copies: Vec<Channel>)
    ensures
        are_copies(copies@, channels@),
{
    let mut copies: Vec<Channel> = Vec::new();
    for i in 0..channels.len()
        invariant
            copies@.len() == i,
            forall|j: int| 0 <= j < i ==> is_copy(#[trigger] copies@[j], channels@[j]),
    {
        copies.push(channels[i].clone());
    }
    copies
}

impl Clone for Role {
    fn clone(&self) -> (copy: Self)
        ensures
            copy == *self,
    {
        Role {
            id: self.id,
            name: self.name.clone(),
            color: self.color,
            hoist: self.hoist,
            mentionable: self.mentionable,
            permissions: self.permissions,
            position: self.position,
            encoded: copy_encoded(&self.encoded),
        }
    }
}

/// The permission overwrites of a channel, as a sequence.
pub open spec fn overwrites_view(overwrites: Option<Vec<PermissionOverwrite>>) -> Option<
    Seq<PermissionOverwrite>,
> {
    match overwrites {
        Some(list) => Some(list@),
        None => None,
    }
}

/// A copy of the permission overwrites of a channel.
pub fn copy_overwrites(overwrites: &Option<Vec<PermissionOverwrite>>) -> (copy: Option<
    Vec<PermissionOverwrite>,
>)
    ensures
        overwrites_view(copy) == overwrites_view(*overwrites),
{
    match overwrites {
        Some(list) => {
            let mut copy: Vec<PermissionOverwrite> = Vec::new();
            for i in 0..list.len()
                invariant
                    copy@ == list@.take(i as int),
            {
                copy.push(list[i]);
                assert(list@.take(i + 1) == list@.take(i as int).push(list@[i as int]));
            }
            assert(list@.take(list@.len() as int) == list@);
            Some(copy)
        },
        None => None,
    }
}

// ---------------------------------------------------------------------------
// Messages
// ---------------------------------------------------------------------------

/// What a message is.
#[derive(Clone, Copy, Debug, PartialEq, Eq, Structural)]
pub enum MessageType {
    Regular,
    ThreadStarterMessage,
    ThreadCreated,
    Other(u8),
}

/// Someone who wrote a message.
#[derive(Debug)]
pub struct User {
    pub id: u64,
    pub name: String,
    pub bot: bool,
    /// The hash of the user's avatar, as text.
    pub avatar: Option<String>,
}

/// A file that came with a message.
#[derive(Debug)]
pub struct Attachment {
    pub filename: String,
    pub url: String,
}

/// What a message answers or points to.
#[derive(Clone, Copy, Debug, PartialEq, Eq, Structural)]
pub struct MessageReference {
    pub channel_id: Option<u64>,
    pub message_id: Option<u64>,
}

/// A message. Its embeds are kept as JSON texts.
#[derive(Debug)]
pub struct Message {
    pub id: u64,
    pub channel_id: u64,
    pub kind: MessageType,
    pub content: String,
    pub author: User,
    /// The roles of the author, where the author is known as a member.
    pub member_roles: Option<Vec<u64>>,
    pub mention_roles: Vec<u64>,
    pub attachments: Vec<Attachment>,
    pub embeds: Vec<String>,
    pub reference: Option<MessageReference>,
    pub encoded: Encoded,
}

/// An edit of a message: what is absent did not change.
#[derive(Debug)]
pub struct MessageUpdate {
    pub id: u64,
    pub channel_id: u64,
    pub content: Option<String>,
    pub mention_roles: Option<Vec<u64>>,
    pub author: Option<User>,
    pub embeds: Option<Vec<String>>,
}

/// A copy of some identifiers.
fn copy_ids(ids: &Vec<u64>) -> (copy: Vec<u64>)
    ensures
        copy@ == ids@,
{
    let mut copy: Vec<u64> = Vec::new();
    for i in 0..ids.len()
        invariant
            copy@ == ids@.take(i as int),
    {
        copy.push(ids[i]);
        assert(ids@.take(i + 1) == ids@.take(i as int).push(ids@[i as int]));
    }
    assert(ids@.take(ids@.len() as int) == ids@);
    copy
}

/// A copy of some attachments.
fn copy_attachments(attachments: &Vec<Attachment>) -> (copy: Vec<Attachment>)
    ensures
        copy@ == attachments@,
{
    let mut copy: Vec<Attachment> = Vec::new();
    for i in 0..attachments.len()
        invariant
            copy@ == attachments@.take(i as int),
    {
        let filename = attachments[i].filename.clone();
        let url = attachments[i].url.clone();
        copy.push(Attachment { filename, url });
        assert(attachments@.take(i + 1) == attachments@.take(i as int).push(
            attachments@[i as int],
        ));
    }
    assert(attachments@.take(attachments@.len() as int) == attachments@);
    copy
}

impl Clone for User {
    fn clone(&self) -> (copy: Self)
        ensures
            copy == *self,
    {
        User {
            id: self.id,
            name: self.name.clone(),
            bot: self.bot,
            avatar: copy_text(&self.avatar),
        }
    }
}

/// Some identifiers that may be absent, as a sequence.
pub open spec fn ids_view(ids: Option<Vec<u64>>) -> Option<Seq<u64>> {
    match ids {
        Some(ids) => Some(ids@),
        None => None,
    }
}

/// Some texts that may be absent, as a sequence.
pub open spec fn texts_view(texts: Option<Vec<String>>) -> Option<Seq<String>> {
    match texts {
        Some(texts) => Some(texts@),
        None => None,
    }
}

/// Whether one message is a copy of another.
pub open spec fn is_message_copy(copy: Message, message: Message) -> bool {
    &&& copy.id == message.id
    &&& copy.channel_id == message.channel_id
    &&& copy.kind == message.kind
    &&& copy.content == message.content
    &&& copy.author == message.author
    &&& ids_view(copy.member_roles) == ids_view(message.member_roles)
    &&& copy.mention_roles@ == message.mention_roles@
    &&& copy.attachments@ == message.attachments@
    &&& copy.embeds@ == message.embeds@
    &&& copy.reference == message.reference
    &&& copy.encoded == message.encoded
}

impl Clone for Message {
    fn clone(&self) -> (copy: Self)
        ensures
            is_message_copy(copy, *self),
    {
        Message {
            id: self.id,
            channel_id: self.channel_id,
            kind: self.kind,
            content: self.content.clone(),
            author: self.author.clone(),
            member_roles: match &self.member_roles {
                Some(roles) => Some(copy_ids(roles)),
                None => None,
            },
            mention_roles: copy_ids(&self.mention_roles),
            attachments: copy_attachments(&self.attachments),
            embeds: copy_texts(&self.embeds),
            reference: self.reference,
            encoded: copy_encoded(&self.encoded),
        }
    }
}

/// Whether one edit is a copy of another.
pub open spec fn is_update_copy(copy: MessageUpdate, update: MessageUpdate) -> bool {
    &&& copy.id == update.id
    &&& copy.channel_id == update.channel_id
    &&& copy.content == update.content
    &&& ids_view(copy.mention_roles) == ids_view(update.mention_roles)
    &&& copy.author == update.author
    &&& texts_view(copy.embeds) == texts_view(update.embeds)
}

impl Clone for MessageUpdate {
    fn clone(&self) -> (copy: Self)
        ensures
            is_update_copy(copy, *self),
    {
        MessageUpdate {
            id: self.id,
            channel_id: self.channel_id,
            content: copy_text(&self.content),
            mention_roles: match &self.mention_roles {
                Some(roles) => Some(copy_ids(roles)),
                None => None,
            },
            author: match &self.author {
                Some(author) => Some(author.clone()),
                None => None,
            },
            embeds: match &self.embeds {
                Some(embeds) => Some(copy_texts(embeds)),
                None => None,
            },
        }
    }
}

/// A webhook through which messages are written.
#[derive(Debug)]
pub struct Webhook {
    pub id: u64,
    pub token: Option<String>,
}

// ---------------------------------------------------------------------------
// Mappings
// ---------------------------------------------------------------------------

/// The object that a mapping keeps for one of its two sides.
#[derive(Debug)]
pub enum MappingData {
    Message(Message),
    Channel(Channel),
    Role(Role),
}

impl MappingData {
    /// The JSON text of the object.
    pub open spec fn spec_encoded(self) -> Encoded {
        match self {
            MappingData::Message(m) => m.encoded,
            MappingData::Channel(c) => c.encoded,
            MappingData::Role(r) => r.encoded,
        }
    }

    /// The JSON text of the object.
    pub fn encoded(&self) -> (encoded: &Encoded)
        ensures
            *encoded == self.spec_encoded(),
    {
        match self {
            MappingData::Message(m) => &m.encoded,
            MappingData::Channel(c) => &c.encoded,
            MappingData::Role(r) => &r.encoded,
        }
    }
}

/// What was read from the bytes that a mapping keeps for one side, where it keeps any.
pub type Decoded = Option<Result<MappingData, String>>;

/// The record that one thing mirrors another: the identifiers of both and of their
/// guilds, each as a key, and the objects as they were when last seen.
#[derive(Debug)]
pub struct IdMapping {
    pub orig_id: Vec<u8>,
    pub ref_id: Vec<u8>,
    pub orig_guild_id: Vec<u8>,
    pub ref_guild_id: Vec<u8>,
    pub src_mapping_data: Option<Vec<u8>>,
    pub dest_mapping_data: Option<Vec<u8>>,
}

/// A mapping as mathematics sees it.
pub struct MappingView {
    pub orig_id: Seq<u8>,
    pub ref_id: Seq<u8>,
    pub orig_guild_id: Seq<u8>,
    pub ref_guild_id: Seq<u8>,
    pub src_mapping_data: Option<Seq<u8>>,
    pub dest_mapping_data: Option<Seq<u8>>,
}

/// The bytes that a mapping keeps for one side.
pub open spec fn data_view(data: Option<Vec<u8>>) -> Option<Seq<u8>> {
    match data {
        Some(bytes) => Some(bytes@),
        None => None,
    }
}

impl View for IdMapping {
    type V = MappingView;

    open spec fn view(&self) -> MappingView {
        MappingView {
            orig_id: self.orig_id@,
            ref_id: self.ref_id@,
            orig_guild_id: self.orig_guild_id@,
            ref_guild_id: self.ref_guild_id@,
            src_mapping_data: data_view(self.src_mapping_data),
            dest_mapping_data: data_view(self.dest_mapping_data),
        }
    }
}

impl MappingView {
    /// The mapping of `orig` to `reference`, without objects.
    pub open spec fn between(
        orig: u64,
        reference: u64,
        orig_guild: u64,
        ref_guild: u64,
    ) -> MappingView {
        MappingView {
            orig_id: be_bytes(orig),
            ref_id: be_bytes(reference),
            orig_guild_id: be_bytes(orig_guild),
            ref_guild_id: be_bytes(ref_guild),
            src_mapping_data: None,
            dest_mapping_data: None,
        }
    }

    /// The same mapping, with the objects of both sides.
    pub open spec fn with_data(self, src: Seq<char>, dest: Seq<char>) -> MappingView {
        MappingView {
            src_mapping_data: Some(encode_utf8(src)),
            dest_mapping_data: Some(encode_utf8(dest)),
            ..self
        }
    }

    /// What identifies the mapping in the table.
    pub open spec fn primary_key(self) -> (Seq<u8>, Seq<u8>) {
        (self.orig_id, self.ref_id)
    }

    /// Whether both sides can be read from the mapping.
    pub open spec fn wf(self) -> bool {
        is_id_key(self.orig_id) && is_id_key(self.ref_id)
    }

    /// The thing that is mirrored.
    pub open spec fn orig(self) -> int {
        be_value(self.orig_id)
    }

    /// The thing that mirrors it.
    pub open spec fn reference(self) -> int {
        be_value(self.ref_id)
    }
}

/// The bytes of a JSON text.
fn text_bytes(text: &String) -> (bytes: Vec<u8>)
    ensures
        bytes@ == encode_utf8(text@),
{
    text.as_str().as_bytes_vec()
}

/// A copy of the bytes that a mapping keeps for one side.
fn copy_data(data: &Option<Vec<u8>>) -> (copy: Option<Vec<u8>>)
    ensures
        data_view(copy) == data_view(*data),
{
    match data {
        Some(bytes) => Some(copy_bytes(bytes)),
        None => None,
    }
}

/// The object that a mapping keeps for one side: what was read from the bytes, where there
/// are any and they could be read.
pub open spec fn kept_object(bytes: Option<Seq<u8>>, decoded: Decoded) -> Option<MappingData> {
    match (bytes, decoded) {
        (Some(_), Some(Ok(data))) => Some(data),
        _ => None,
    }
}

impl Clone for IdMapping {
    fn clone(&self) -> (copy: Self)
        ensures
            copy@ == self@,
    {
        IdMapping {
            orig_id: copy_bytes(&self.orig_id),
            ref_id: copy_bytes(&self.ref_id),
            orig_guild_id: copy_bytes(&self.orig_guild_id),
            ref_guild_id: copy_bytes(&self.ref_guild_id),
            src_mapping_data: copy_data(&self.src_mapping_data),
            dest_mapping_data: copy_data(&self.dest_mapping_data),
        }
    }
}

impl IdMapping {
    /// The mapping of one thing to another.
    pub fn new(orig_id: &u64, ref_id: &u64, orig_guild_id: &u64, ref_guild_id: &u64) -> (mapping:
        Self)
        ensures
            mapping@ == MappingView::between(*orig_id, *ref_id, *orig_guild_id, *ref_guild_id),
            mapping@.wf() == (*orig_id != 0 && *ref_id != 0),
    {
        IdMapping {
            orig_id: id_key(*orig_id),
            ref_id: id_key(*ref_id),
            orig_guild_id: id_key(*orig_guild_id),
            ref_guild_id: id_key(*ref_guild_id),
            src_mapping_data: None,
            dest_mapping_data: None,
        }
    }

    /// The objects of both sides, given what was read from the bytes. A side without bytes
    /// has no object, and neither has one whose bytes could not be read.
    pub fn mapping_data(&self, src: Decoded, dest: Decoded) -> (data: (
        Option<MappingData>,
        Option<MappingData>,
    ))
        ensures
            data.0 == kept_object(self@.src_mapping_data, src),
            data.1 == kept_object(self@.dest_mapping_data, dest),
    {
        let src = match (&self.src_mapping_data, src) {
            (Some(_), Some(Ok(data))) => Some(data),
            _ => None,
        };
        let dest = match (&self.dest_mapping_data, dest) {
            (Some(_), Some(Ok(data))) => Some(data),
            _ => None,
        };
        (src, dest)
    }

    /// Keeps an object for the mirrored side.
    pub fn set_src_mapping_data(self, data: MappingData) -> (res: Result<Self, DatabaseError>)
        ensures
            match data.spec_encoded() {
                Ok(text) => res is Ok && res->Ok_0@ == (MappingView {
                    src_mapping_data: Some(encode_utf8(text@)),
                    ..self@
                }),
                Err(reason) => res == Err::<Self, DatabaseError>(DatabaseError::Serialize(reason)),
            },
    {
        match data.encoded() {
            Ok(text) => Ok(IdMapping { src_mapping_data: Some(text_bytes(text)), ..self }),
            Err(reason) => Err(DatabaseError::Serialize(reason.clone())),
        }
    }

    /// Keeps an object for the mirroring side.
    pub fn set_dest_mapping_data(self, data: MappingData) -> (res: Result<Self, DatabaseError>)
        ensures
            match data.spec_encoded() {
                Ok(text) => res is Ok && res->Ok_0@ == (MappingView {
                    dest_mapping_data: Some(encode_utf8(text@)),
                    ..self@
                }),
                Err(reason) => res == Err::<Self, DatabaseError>(DatabaseError::Serialize(reason)),
            },
    {
        match data.encoded() {
            Ok(text) => Ok(IdMapping { dest_mapping_data: Some(text_bytes(text)), ..self }),
            Err(reason) => Err(DatabaseError::Serialize(reason.clone())),
        }
    }

    /// The thing that is mirrored.
    pub fn orig_id(&self) -> (id: u64)
        requires
            is_id_key(self.orig_id@),
        ensures
            id == self@.orig(),
            id != 0,
    {
        key_value(&self.orig_id)
    }

    /// The thing that mirrors it.
    pub fn ref_id(&self) -> (id: u64)
        requires
            is_id_key(self.ref_id@),
        ensures
            id == self@.reference(),
            id != 0,
    {
        key_value(&self.ref_id)
    }

    /// Lets the mapping lead to another thing.
    pub fn set_ref_id(self, ref_id: u64) -> (mapping: Self)
        ensures
            mapping@ == (MappingView { ref_id: be_bytes(ref_id), ..self@ }),
    {
        IdMapping { ref_id: id_key(ref_id), ..self }
    }

    /// The guild of the thing that is mirrored.
    pub fn orig_guild_id(&self) -> (id: u64)
        requires
            is_id_key(self.orig_guild_id@),
        ensures
            id == be_value(self@.orig_guild_id),
            id != 0,
    {
        key_value(&self.orig_guild_id)
    }

    /// The guild of the thing that mirrors it.
    pub fn ref_guild_id(&self) -> (id: u64)
        requires
            is_id_key(self.ref_guild_id@),
        ensures
            id == be_value(self@.ref_guild_id),
            id != 0,
    {
        key_value(&self.ref_guild_id)
    }
}

/// A mapping with the objects of both sides, or why one of them cannot be kept.
pub open spec fn kept(mapping: MappingView, src: MappingData, dest: MappingData) -> Result<
    MappingView,
    DatabaseError,
> {
    match (src.spec_encoded(), dest.spec_encoded()) {
        (Err(reason), _) => Err(DatabaseError::Serialize(reason)),
        (Ok(_), Err(reason)) => Err(DatabaseError::Serialize(reason)),
        (Ok(src_text), Ok(dest_text)) => Ok(mapping.with_data(src_text@, dest_text@)),
    }
}

/// A mapping with the objects of both sides.
pub fn keep(mapping: IdMapping, src: MappingData, dest: MappingData) -> (res: Result<
    IdMapping,
    DatabaseError,
>)
    ensures
        match kept(mapping@, src, dest) {
            Ok(mapping) => res is Ok && res->Ok_0@ == mapping,
            Err(error) => res == Err::<IdMapping, DatabaseError>(error),
        },
{
    match mapping.set_src_mapping_data(src) {
        Ok(mapping) => mapping.set_dest_mapping_data(dest),
        Err(error) => Err(error),
    }
}

/// The mapping of one object to another that keeps them both, or why one cannot be kept.
pub open spec fn recorded(
    src: (u64, MappingData),
    dest: (u64, MappingData),
    src_guild_id: u64,
    dest_guild_id: u64,
) -> Result<MappingView, DatabaseError> {
    kept(MappingView::between(src.0, dest.0, src_guild_id, dest_guild_id), src.1, dest.1)
}

/// The mapping of one object to another that keeps them both.
pub fn record(
    src: (u64, MappingData),
    dest: (u64, MappingData),
    src_guild_id: u64,
    dest_guild_id: u64,
) -> (res: Result<IdMapping, DatabaseError>)
    ensures
        match recorded(src, dest, src_guild_id, dest_guild_id) {
            Ok(mapping) => res is Ok && res->Ok_0@ == mapping,
            Err(error) => res == Err::<IdMapping, DatabaseError>(error),
        },
{
    let mapping = IdMapping::new(&src.0, &dest.0, &src_guild_id, &dest_guild_id);
    keep(mapping, src.1, dest.1)
}

/// A mapping gives back the identifiers it was made of.
pub proof fn mapping_round_trip(orig: u64, reference: u64, orig_guild: u64, ref_guild: u64)
    ensures
        ({
            let mapping = MappingView::between(orig, reference, orig_guild, ref_guild);
            &&& mapping.orig() == orig
            &&& mapping.reference() == reference
            &&& be_value(mapping.orig_guild_id) == orig_guild
            &&& be_value(mapping.ref_guild_id) == ref_guild
            &&& mapping.wf() <==> orig != 0 && reference != 0
        }),
{
    crate::keys::be_bytes_round_trip(orig);
    crate::keys::be_bytes_round_trip(reference);
    crate::keys::be_bytes_round_trip(orig_guild);
    crate::keys::be_bytes_round_trip(ref_guild);
}

/// Keeping objects in a mapping changes neither what it leads from nor what it leads to.
pub proof fn data_keeps_identity(mapping: MappingView, src: Seq<char>, dest: Seq<char>)
    ensures
        mapping.with_data(src, dest).primary_key() == mapping.primary_key(),
        mapping.with_data(src, dest).orig() == mapping.orig(),
        mapping.with_data(src, dest).reference() == mapping.reference(),
        mapping.with_data(src, dest).wf() == mapping.wf(),
{
}

/// Redirecting a mapping changes what it leads to and nothing else.
pub proof fn redirecting_keeps_origin(mapping: MappingView, ref_id: u64)
    ensures
        ({
            let redirected = MappingView { ref_id: be_bytes(ref_id), ..mapping };
            &&& redirected.reference() == ref_id
            &&& redirected.orig() == mapping.orig()
            &&& redirected.src_mapping_data == mapping.src_mapping_data
            &&& redirected.dest_mapping_data == mapping.dest_mapping_data
        }),
{
    crate::keys::be_bytes_round_trip(ref_id);
}

/// The JSON texts that a mapping keeps are read back as they were written.
pub proof fn kept_objects_are_read_back(mapping: MappingView, src: Seq<char>, dest: Seq<char>)
    ensures
        ({
            let kept = mapping.with_data(src, dest);
            &&& decode_utf8(kept.src_mapping_data->0) == src
            &&& decode_utf8(kept.dest_mapping_data->0) == dest
        }),
{
    vstd::utf8::encode_utf8_decode_utf8(src);
    vstd::utf8::encode_utf8_decode_utf8(dest);
}

} // verus!
