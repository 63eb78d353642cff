//! The limits that the service sets, as the client library checks them before it sends a
//! request, and what it says of a request that it refuses.
use crate::model::ChannelType;
use crate::operation::{NewForumPost, Upload, WebhookMessage};
use crate::text::decimal;
use twilight_validate::message::{MessageValidationError, MessageValidationErrorType};
use vstd::prelude::*;

verus! {

/// Why something is refused, in words; nothing where it is not.
pub type Refusal = Option<Seq<char>>;

/// Whether a check has this outcome.
pub open spec fn refuses(res: Result<(), String>, refusal: Refusal) -> bool {
    match refusal {
        Some(reason) => res is Err && res->Err_0@ == reason,
        None => res is Ok,
    }
}

/// The first of two refusals.
pub open spec fn first_of(first: Refusal, second: Refusal) -> Refusal {
    if first is Some {
        first
    } else {
        second
    }
}

/// The first of two checks that refuses.
pub fn first_refusal(first: Result<(), String>, second: Result<(), String>) -> (res: Result<
    (),
    String,
>)
    ensures
        res == (if first is Err {
            first
        } else {
            second
        }),
{
    match first {
        Err(reason) => Err(reason),
        Ok(()) => second,
    }
}

// ---------------------------------------------------------------------------
// Channels and threads
// ---------------------------------------------------------------------------

/// Whether a channel can have a name of this length.
pub open spec fn is_channel_name(name: Seq<char>) -> bool {
    1 <= name.len() <= 100
}

/// Why a channel or a thread cannot have a name.
pub open spec fn name_refusal(name: Seq<char>) -> Refusal {
    if is_channel_name(name) {
        None
    } else {
        Some("the length of the name is invalid"@)
    }
}

/// Why a channel cannot have a topic.
pub open spec fn topic_refusal(topic: Seq<char>) -> Refusal {
    if topic.len() <= 1024 {
        None
    } else {
        Some("the topic is invalid"@)
    }
}

/// What the client library calls the type of a channel that has the given number.
pub open spec fn kind_name(number: u8) -> Seq<char> {
    match number {
        0 => "GuildText"@,
        1 => "Private"@,
        2 => "GuildVoice"@,
        3 => "Group"@,
        4 => "GuildCategory"@,
        5 => "GuildAnnouncement"@,
        10 => "AnnouncementThread"@,
        11 => "PublicThread"@,
        12 => "PrivateThread"@,
        13 => "GuildStageVoice"@,
        14 => "GuildDirectory"@,
        15 => "GuildForum"@,
        _ => "Unknown"@,
    }
}

/// Why a thread cannot be of the type that has the given number.
pub open spec fn kind_refusal(number: u8) -> Refusal {
    if 10 <= number <= 12 {
        None
    } else {
        Some(kind_name(number) + " is not a thread"@)
    }
}

/// Calls `twilight_validate::channel::name`, and hands out the text of its error. It counts
/// the characters of the name and accepts from one to a hundred of them; its one error
/// always reads the same.
#[verifier::external_body]
pub(crate) fn channel_name(name: &str) -> (res: Result<(), String>)
    ensures
        refuses(res, name_refusal(name@)),
{
    twilight_validate::channel::name(name).map_err(|error| error.to_string())
}

/// Calls `twilight_validate::channel::topic`, and hands out the text of its error. It counts
/// the characters of the topic and accepts up to 1024 of them; its one error always reads the
/// same.
#[verifier::external_body]
pub(crate) fn channel_topic(topic: &str) -> (res: Result<(), String>)
    ensures
        refuses(res, topic_refusal(topic@)),
{
    twilight_validate::channel::topic(topic).map_err(|error| error.to_string())
}

/// Calls `twilight_validate::channel::is_thread` with the type that has the given number, and
/// hands out the text of its error. It accepts the three types of threads, and its error tells
/// the name of any other type.
#[verifier::external_body]
pub(crate) fn thread_kind(number: u8) -> (res: Result<(), String>)
    ensures
        refuses(res, kind_refusal(number)),
{
    let kind = twilight_model::channel::ChannelType::from(number);
    twilight_validate::channel::is_thread(kind).map_err(|error| error.to_string())
}

/// Why a text that may be absent is refused as a name.
pub open spec fn optional_name_refusal(name: Option<String>) -> Refusal {
    match name {
        Some(name) => name_refusal(name@),
        None => None,
    }
}

/// Why a text that may be absent is refused as a topic.
pub open spec fn optional_topic_refusal(topic: Option<String>) -> Refusal {
    match topic {
        Some(topic) => topic_refusal(topic@),
        None => None,
    }
}

/// Checks a name where there is one.
pub fn check_name(name: &Option<String>) -> (res: Result<(), String>)
    ensures
        refuses(res, optional_name_refusal(*name)),
{
    match name {
        Some(name) => channel_name(name.as_str()),
        None => Ok(()),
    }
}

/// Checks a topic where there is one.
pub fn check_topic(topic: &Option<String>) -> (res: Result<(), String>)
    ensures
        refuses(res, optional_topic_refusal(*topic)),
{
    match topic {
        Some(topic) => channel_topic(topic.as_str()),
        None => Ok(()),
    }
}

/// Why a thread cannot have a name and a type. The name is looked at first.
pub open spec fn thread_refusal(name: Seq<char>, kind: ChannelType) -> Refusal {
    first_of(name_refusal(name), kind_refusal(kind.spec_number()))
}

/// Checks the name and the type of a thread.
pub fn check_thread(name: &String, kind: ChannelType) -> (res: Result<(), String>)
    ensures
        refuses(res, thread_refusal(name@, kind)),
{
    first_refusal(channel_name(name.as_str()), thread_kind(kind.number()))
}

// ---------------------------------------------------------------------------
// Webhooks and messages
// ---------------------------------------------------------------------------

/// Whether a webhook can have this name, or write under it.
pub open spec fn is_webhook_username(name: Seq<char>) -> bool {
    2 <= name.len() <= 80 && name != "clyde"@
}

/// Why a webhook cannot have a name. The limits that are told are those on the names of users.
pub open spec fn webhook_refusal(name: Seq<char>) -> Refusal {
    if is_webhook_username(name) {
        None
    } else if name == "clyde"@ {
        Some("provided username cannot contain clyde"@)
    } else {
        Some(
            "provided username length is "@ + decimal(name.len())
                + ", but it must be at least 2 and at most 32"@,
        )
    }
}

/// Why a message cannot be written under a name.
pub open spec fn username_refusal(name: Seq<char>) -> Refusal {
    if is_webhook_username(name) {
        None
    } else {
        Some("webhook username is invalid"@)
    }
}

/// Why a message cannot have a content.
pub open spec fn content_refusal(content: Seq<char>) -> Refusal {
    if content.len() <= 2000 {
        None
    } else {
        Some("message content is invalid"@)
    }
}

/// Whether a character can stand in the name of a file.
pub open spec fn is_filename_char(c: char) -> bool {
    'a' <= c <= 'z' || 'A' <= c <= 'Z' || '0' <= c <= '9' || c == '.' || c == '-' || c == '_'
}

/// Why a file cannot have a name.
pub open spec fn filename_refusal(filename: Seq<char>) -> Refusal {
    if forall|i: int| 0 <= i < filename.len() ==> is_filename_char(#[trigger] filename[i]) {
        None
    } else {
        Some("attachment filename `"@ + filename + "`is invalid"@)
    }
}

/// Why some files cannot be sent along: why the first of them that has no valid name has none.
pub open spec fn uploads_refusal(uploads: Seq<Upload>) -> Refusal
    decreases uploads.len(),
{
    if uploads.len() == 0 {
        None
    } else {
        first_of(uploads_refusal(uploads.drop_last()), filename_refusal(uploads.last().filename@))
    }
}

/// Some texts, each as its characters.
pub open spec fn texts_of(texts: Seq<String>) -> Seq<Seq<char>> {
    texts.map_values(|text: String| text@)
}

/// Why a message cannot have some embeds, given as JSON texts.
pub uninterp spec fn embeds_refusal(embeds: Seq<Seq<char>>) -> Option<Seq<char>>;

/// Calls `twilight_validate::request::webhook_username`, and hands out the text of its error and
/// the text of the error that the client library makes of that when a webhook is executed. It
/// accepts from two to eighty characters other than the one forbidden name. Its own error tells
/// which of the two limits was broken, with the bounds that hold for users; the other one does
/// not tell.
#[verifier::external_body]
pub(crate) fn webhook_username(name: &str) -> (res: Result<(), (String, String)>)
    ensures
        res is Ok <==> is_webhook_username(name@),
        res is Err ==> Some(res->Err_0.0@) == webhook_refusal(name@),
        res is Err ==> Some(res->Err_0.1@) == username_refusal(name@),
{
    twilight_validate::request::webhook_username(name).map_err(
        |source|
            (
                source.to_string(),
                MessageValidationError::from_validation_error(
                    MessageValidationErrorType::WebhookUsername,
                    source,
                ).to_string(),
            ),
    )
}

/// Calls `twilight_validate::message::content`, and hands out the text of its error. It counts
/// the characters of the content and accepts up to 2000 of them; its one error always reads the
/// same.
#[verifier::external_body]
pub(crate) fn message_content(content: &str) -> (res: Result<(), String>)
    ensures
        refuses(res, content_refusal(content@)),
{
    twilight_validate::message::content(content).map_err(|error| error.to_string())
}

/// Calls `twilight_validate::message::attachment_filename`, and hands out the text of its error,
/// which repeats the name. It accepts letters and digits of ASCII, dots, dashes and underscores.
#[verifier::external_body]
pub(crate) fn attachment_filename(filename: &str) -> (res: Result<(), String>)
    ensures
        refuses(res, filename_refusal(filename@)),
{
    twilight_validate::message::attachment_filename(filename).map_err(|error| error.to_string())
}

/// Calls `twilight_validate::message::embeds` with the embeds that some JSON texts hold, and
/// hands out the text of its error, or of the error of `serde_json::from_str` where a text holds
/// no embed. What it accepts, and what it says of the rest, depends on the texts alone. No
/// embeds at all are accepted, and more than ten are not.
#[verifier::external_body]
pub(crate) fn message_embeds(embeds: &Vec<String>) -> (res: Result<(), String>)
    ensures
        refuses(res, embeds_refusal(texts_of(embeds@))),
        embeds@.len() == 0 ==> res is Ok,
        embeds@.len() > 10 ==> res is Err,
{
    match embeds.iter().map(|text| serde_json::from_str(text)).collect::<Result<Vec<_>, _>>() {
        Ok(embeds) => twilight_validate::message::embeds(&embeds).map_err(
            |error| error.to_string(),
        ),
        Err(error) => Err(error.to_string()),
    }
}

/// Checks the name of a new webhook.
pub fn check_webhook(name: &String) -> (res: Result<(), String>)
    ensures
        refuses(res, webhook_refusal(name@)),
{
    match webhook_username(name.as_str()) {
        Ok(()) => Ok(()),
        Err((reason, _)) => Err(reason),
    }
}

/// Why a name that may be absent is refused for a message.
pub open spec fn optional_username_refusal(name: Option<String>) -> Refusal {
    match name {
        Some(name) => username_refusal(name@),
        None => None,
    }
}

/// Why some files that may be absent are refused.
pub open spec fn optional_uploads_refusal(uploads: Option<Vec<Upload>>) -> Refusal {
    match uploads {
        Some(uploads) => uploads_refusal(uploads@),
        None => None,
    }
}

/// Why some embeds that may be absent are refused.
pub open spec fn optional_embeds_refusal(embeds: Option<Vec<String>>) -> Refusal {
    match embeds {
        Some(embeds) => embeds_refusal(texts_of(embeds@)),
        None => None,
    }
}

/// Checks the name under which a message is written, where it is written under one.
pub fn check_username(name: &Option<String>) -> (res: Result<(), String>)
    ensures
        refuses(res, optional_username_refusal(*name)),
{
    match name {
        Some(name) => match webhook_username(name.as_str()) {
            Ok(()) => Ok(()),
            Err((_, reason)) => Err(reason),
        },
        None => Ok(()),
    }
}

/// Checks the names of the files that are sent along, where there are any.
pub fn check_uploads(uploads: &Option<Vec<Upload>>) -> (res: Result<(), String>)
    ensures
        refuses(res, optional_uploads_refusal(*uploads)),
{
    let Some(uploads) = uploads else {
        return Ok(());
    };
    let mut res: Result<(), String> = Ok(());
    for i in 0..uploads.len()
        invariant
            refuses(res, uploads_refusal(uploads@.take(i as int))),
    {
        assert(uploads@.take(i + 1).drop_last() =~= uploads@.take(i as int));
        res = first_refusal(res, attachment_filename(uploads[i].filename.as_str()));
    }
    assert(uploads@.take(uploads@.len() as int) =~= uploads@);
    res
}

/// Checks the embeds of a message, where there are any.
pub fn check_embeds(embeds: &Option<Vec<String>>) -> (res: Result<(), String>)
    ensures
        refuses(res, optional_embeds_refusal(*embeds)),
{
    match embeds {
        Some(embeds) => message_embeds(embeds),
        None => Ok(()),
    }
}

/// Why a message cannot be written through a webhook. The name is looked at first, then the
/// files, the embeds and the content.
pub open spec fn message_refusal(message: WebhookMessage) -> Refusal {
    first_of(
        first_of(
            optional_username_refusal(message.username),
            optional_uploads_refusal(message.attachments),
        ),
        first_of(
            optional_embeds_refusal(message.embeds),
            content_refusal(message.content@),
        ),
    )
}

/// Checks a message that is to be written through a webhook.
pub fn check_message(message: &WebhookMessage) -> (res: Result<(), String>)
    ensures
        refuses(res, message_refusal(*message)),
{
    first_refusal(
        first_refusal(check_username(&message.username), check_uploads(&message.attachments)),
        first_refusal(check_embeds(&message.embeds), message_content(message.content.as_str())),
    )
}

/// Why a post cannot be created in a forum. The content is looked at first, then the embeds and
/// the files. The name is not looked at.
pub open spec fn post_refusal(post: NewForumPost) -> Refusal {
    first_of(
        content_refusal(post.content@),
        first_of(
            optional_embeds_refusal(post.embeds),
            optional_uploads_refusal(post.attachments),
        ),
    )
}

/// Checks a post that is to be created in a forum.
pub fn check_post(post: &NewForumPost) -> (res: Result<(), String>)
    ensures
        refuses(res, post_refusal(*post)),
{
    first_refusal(
        message_content(post.content.as_str()),
        first_refusal(check_embeds(&post.embeds), check_uploads(&post.attachments)),
    )
}

} // verus!
