use guild_mirror::blacklist::Blacklist;
use guild_mirror::config::{GuildSettings, MessageRequirements, MessageSettings};
use guild_mirror::errors::{ClientError, Failure, HandlerError};
use guild_mirror::handlers::edit::relay_edit;
use guild_mirror::handlers::format::{format_message, milliseconds};
use guild_mirror::handlers::message::{is_ignored, mirror_message};
use guild_mirror::handlers::reference::{message_url, reference_to_url};
use guild_mirror::handlers::thread::{get_or_create_thread, Target};
use guild_mirror::handlers::webhook::get_or_create_webhook;
use guild_mirror::model::{
    Attachment, Channel, ChannelType, IdMapping, MappingData, Message, MessageReference,
    MessageType, MessageUpdate, User, Webhook,
};
use guild_mirror::operation::{Action, Progress, Reply, Task};

const EMBED: &str = "{\"type\":\"rich\",\"title\":\"t\"}";

fn settings() -> GuildSettings {
    GuildSettings {
        src_guild_id: 1,
        dest_guild_id: 2,
        webhook_username: "Captain Hook".to_string(),
        relay_deletes: false,
        relay_updates: false,
        clone_roles: true,
        message_requirements: MessageRequirements::default(),
        message_settings: MessageSettings::default(),
        blacklists: Vec::new(),
    }
}

fn user() -> User {
    User { id: 70, name: "Ann".to_string(), bot: false, avatar: Some("a1".to_string()) }
}

fn message(content: &str) -> Message {
    Message {
        id: 50,
        channel_id: 60,
        kind: MessageType::Regular,
        content: content.to_string(),
        author: user(),
        member_roles: None,
        mention_roles: Vec::new(),
        attachments: Vec::new(),
        embeds: vec![EMBED.to_string()],
        reference: None,
        encoded: Ok("message".to_string()),
    }
}

fn update(content: Option<&str>) -> MessageUpdate {
    MessageUpdate {
        id: 50,
        channel_id: 60,
        content: content.map(|content| content.to_string()),
        mention_roles: Some(Vec::new()),
        author: Some(user()),
        embeds: None,
    }
}

fn channel(id: u64, kind: ChannelType, parent_id: Option<u64>) -> Channel {
    Channel {
        id,
        kind,
        parent_id,
        name: Some("general".to_string()),
        topic: None,
        nsfw: None,
        position: None,
        permission_overwrites: None,
        invitable: None,
        default_auto_archive_duration: Some(60),
        archived: None,
        encoded: Ok(format!("channel {id}")),
    }
}

fn mapping(orig: u64, reference: u64) -> IdMapping {
    IdMapping::new(&orig, &reference, &1, &2)
}

fn found(orig: u64, reference: u64) -> Reply {
    Reply::Mapping(Some(mapping(orig, reference)))
}

fn kept(orig: u64, dest: &Channel) -> Reply {
    let mapping = mapping(orig, dest.id);
    Reply::Mapping(Some(mapping.set_dest_mapping_data(MappingData::Channel(dest.clone())).unwrap()))
}

fn decoded(dest: Channel) -> Reply {
    Reply::Decoded { src: None, dest: Some(Ok(MappingData::Channel(dest))) }
}

fn webhook() -> Webhook {
    Webhook { id: 90, token: Some("secret".to_string()) }
}

fn client_failure(status: u16) -> Reply {
    Reply::Failed(Failure::ClientSend(ClientError {
        status: Some(status),
        detail: "d".to_string(),
    }))
}

// Which messages are mirrored

#[test]
fn ordinary_messages_are_mirrored() {
    assert!(!is_ignored(&settings(), &message("hi")));
}

#[test]
fn blacklisted_authors_are_ignored() {
    let mut settings = settings();
    settings.blacklists = vec![Blacklist::Channel(60), Blacklist::User(70)];
    assert!(is_ignored(&settings, &message("hi")));
    settings.blacklists = vec![Blacklist::Channel(70), Blacklist::User(71)];
    assert!(!is_ignored(&settings, &message("hi")));
}

#[test]
fn blacklisted_roles_are_ignored_where_they_are_known() {
    let mut settings = settings();
    settings.blacklists = vec![Blacklist::Role(5)];
    let mut message = message("hi");
    assert!(!is_ignored(&settings, &message));
    message.member_roles = Some(vec![4, 5]);
    assert!(is_ignored(&settings, &message));
    message.member_roles = Some(vec![4]);
    assert!(!is_ignored(&settings, &message));
}

#[test]
fn short_messages_are_ignored() {
    let mut settings = settings();
    settings.message_requirements.min_content_length = 3;
    assert!(is_ignored(&settings, &message("ab")));
    assert!(!is_ignored(&settings, &message("abc")));
    // Two characters, but four bytes.
    assert!(!is_ignored(&settings, &message("\u{e9}\u{e9}")));
    settings.message_requirements = MessageRequirements::default();
    settings.message_requirements.min_embeds_amount = 2;
    assert!(is_ignored(&settings, &message("abc")));
    settings.message_requirements = MessageRequirements::default();
    settings.message_requirements.min_attachments_amount = 1;
    assert!(is_ignored(&settings, &message("abc")));
}

#[test]
fn replies_and_bots_can_be_left_out() {
    let mut settings = settings();
    let mut reply = message("hi");
    reply.reference = Some(MessageReference { channel_id: None, message_id: None });
    assert!(!is_ignored(&settings, &reply));
    settings.message_settings.mirror_reply_messages = false;
    assert!(is_ignored(&settings, &reply));
    let mut bot = message("hi");
    bot.author.bot = true;
    assert!(!is_ignored(&settings, &bot));
    settings.message_settings.mirror_messages_from_bots = false;
    assert!(is_ignored(&settings, &bot));
}

#[test]
fn other_kinds_of_messages_are_ignored() {
    let mut message = message("hi");
    message.kind = MessageType::Other(7);
    assert!(is_ignored(&settings(), &message));
    message.kind = MessageType::ThreadStarterMessage;
    assert!(!is_ignored(&settings(), &message));
    message.kind = MessageType::ThreadCreated;
    assert!(!is_ignored(&settings(), &message));
}

#[test]
fn ignored_messages_lead_to_nothing() {
    let mut message = message("hi");
    message.kind = MessageType::Other(1);
    let (_, progress) = mirror_message(message, &settings()).resume(Reply::Begin);
    assert!(matches!(progress, Progress::Done(())));
}

#[test]
fn news_of_a_thread_lets_it_be_joined() {
    let mut message = message("a thread");
    message.kind = MessageType::ThreadCreated;
    let (task, progress) = mirror_message(message, &settings()).resume(Reply::Begin);
    assert!(matches!(progress, Progress::Perform(Action::JoinThread(50))));
    let (_, progress) = task.resume(Reply::Done);
    assert!(matches!(progress, Progress::Done(())));
}

// Webhooks

#[test]
fn first_webhook_is_taken() {
    let (task, progress) = get_or_create_webhook(5, "Hook".to_string()).resume(Reply::Begin);
    assert!(matches!(progress, Progress::Perform(Action::GetWebhooks(5))));
    let others = vec![webhook(), Webhook { id: 91, token: None }];
    let (_, progress) = task.resume(Reply::Webhooks(others));
    assert!(matches!(progress, Progress::Done(webhook) if webhook.id == 90));
}

#[test]
fn webhook_is_created_for_want_of_one() {
    let (task, _) = get_or_create_webhook(5, "Hook".to_string()).resume(Reply::Begin);
    let (task, progress) = task.resume(Reply::Webhooks(Vec::new()));
    assert!(matches!(
        progress,
        Progress::Perform(Action::CreateWebhook { channel_id: 5, name }) if name == "Hook"
    ));
    let (_, progress) = task.resume(Reply::Webhook(webhook()));
    assert!(matches!(progress, Progress::Done(webhook) if webhook.id == 90));
}

#[test]
fn webhooks_of_a_thread_are_those_of_its_parent() {
    let (task, _) = get_or_create_webhook(5, "Hook".to_string()).resume(Reply::Begin);
    let (task, progress) = task.resume(client_failure(404));
    assert!(matches!(progress, Progress::Perform(Action::GetThreadParent(5))));
    let (task, progress) = task.resume(Reply::Parent(6));
    assert!(matches!(progress, Progress::Perform(Action::GetWebhooks(6))));
    let (_, progress) = task.resume(client_failure(404));
    assert!(matches!(progress, Progress::Failed(HandlerError::ClientSend(_))));
}

#[test]
fn other_failures_end_the_search_for_a_webhook() {
    let (task, _) = get_or_create_webhook(5, "Hook".to_string()).resume(Reply::Begin);
    let (_, progress) = task.resume(client_failure(403));
    assert!(matches!(
        progress,
        Progress::Failed(HandlerError::ClientSend(client)) if client.status == Some(403)
    ));
}

// Links and formatting

#[test]
fn links_name_guild_channel_and_message() {
    assert_eq!(message_url(1, 22, 333), "https://discord.com/channels/1/22/333");
}

#[test]
fn reply_is_linked_where_both_sides_are_mirrored() {
    let reference = Some(MessageReference { channel_id: Some(60), message_id: Some(51) });
    let (task, progress) = reference_to_url(reference, 2).resume(Reply::Begin);
    assert!(matches!(progress, Progress::Perform(Action::GetMapping { orig_id: 60 })));
    let (task, progress) = task.resume(found(60, 600));
    assert!(matches!(progress, Progress::Perform(Action::GetMapping { orig_id: 51 })));
    let (_, progress) = task.resume(found(51, 510));
    assert!(matches!(
        progress,
        Progress::Done(Some(url)) if url == "https://discord.com/channels/2/600/510"
    ));
}

#[test]
fn reply_to_something_unmirrored_has_no_link() {
    let reference = Some(MessageReference { channel_id: Some(60), message_id: Some(51) });
    let (task, _) = reference_to_url(reference, 2).resume(Reply::Begin);
    let (_, progress) = task.resume(Reply::Mapping(None));
    assert!(matches!(progress, Progress::Done(None)));
    let partial = Some(MessageReference { channel_id: Some(60), message_id: None });
    let (_, progress) = reference_to_url(partial, 2).resume(Reply::Begin);
    assert!(matches!(progress, Progress::Done(None)));
    let (_, progress) = reference_to_url(None, 2).resume(Reply::Begin);
    assert!(matches!(progress, Progress::Done(None)));
}

#[test]
fn times_are_counted_in_milliseconds() {
    assert_eq!(milliseconds(0, 999_999), 0);
    assert_eq!(milliseconds(3, 14_999_999), 3014);
}

#[test]
fn reply_is_marked_and_linked() {
    let mut reply = message("see <#1>");
    reply.reference = Some(MessageReference { channel_id: Some(60), message_id: Some(51) });
    let (task, _) = format_message(reply, 2, false).resume(Reply::Begin);
    let (task, _) = task.resume(found(1, 10));
    let (task, _) = task.resume(found(60, 600));
    let (_, progress) = task.resume(found(51, 510));
    match progress {
        Progress::Done(formatted) => {
            assert_eq!(
                formatted.content,
                "[REPLY]\nhttps://discord.com/channels/2/600/510\n\nsee <#10>"
            );
            assert_eq!(formatted.message.id, 50);
            assert!(formatted.attachments.is_empty());
        }
        _ => panic!("the message is not ready"),
    }
}

#[test]
fn attachments_are_fetched_one_by_one() {
    let mut message = message("files");
    message.attachments = vec![
        Attachment { filename: "a.png".to_string(), url: "http://a".to_string() },
        Attachment { filename: "b.png".to_string(), url: "http://b".to_string() },
    ];
    let (task, progress) = format_message(message, 2, true).resume(Reply::Begin);
    assert!(matches!(progress, Progress::Perform(Action::Now)));
    let (task, progress) = task.resume(Reply::Time { secs: 1, subsec_nanos: 2_000_000 });
    assert!(matches!(progress, Progress::Perform(Action::Download(url)) if url == "http://a"));
    let (task, progress) = task.resume(Reply::Bytes(vec![1, 2]));
    assert!(matches!(progress, Progress::Perform(Action::Now)));
    let (task, progress) = task.resume(Reply::Time { secs: 2, subsec_nanos: 0 });
    assert!(matches!(progress, Progress::Perform(Action::Download(url)) if url == "http://b"));
    let (_, progress) = task.resume(Reply::Bytes(Vec::new()));
    match progress {
        Progress::Done(formatted) => {
            assert_eq!(formatted.attachments.len(), 2);
            assert_eq!(formatted.attachments[0].filename, "a.png");
            assert_eq!(formatted.attachments[0].bytes, vec![1, 2]);
            assert_eq!(formatted.attachments[0].id, 1002);
            assert_eq!(formatted.attachments[1].filename, "b.png");
            assert_eq!(formatted.attachments[1].id, 2000);
        }
        _ => panic!("the message is not ready"),
    }
}

#[test]
fn failed_download_ends_the_formatting() {
    let mut message = message("file");
    message.attachments =
        vec![Attachment { filename: "a".to_string(), url: "http://a".to_string() }];
    let (task, _) = format_message(message, 2, true).resume(Reply::Begin);
    let (task, _) = task.resume(Reply::Time { secs: 1, subsec_nanos: 0 });
    let (_, progress) = task.resume(Reply::Failed(Failure::ReqwestError("gone".to_string())));
    assert!(matches!(progress, Progress::Failed(HandlerError::ReqwestError(d)) if d == "gone"));
}

// Where a message goes

fn target(progress: Progress<Target, HandlerError>) -> (Option<u64>, bool) {
    match progress {
        Progress::Done(target) => (target.dest.map(|place| place.id), target.is_parent_forum),
        _ => panic!("the search has not ended"),
    }
}

#[test]
fn mirrored_channel_is_found() {
    let dest = channel(600, ChannelType::GuildText, None);
    let (task, progress) = get_or_create_thread(1, 2, 60, message("hi"), false).resume(Reply::Begin);
    assert!(matches!(progress, Progress::Perform(Action::FindMapping { orig_id: 60 })));
    let (task, progress) = task.resume(kept(60, &dest));
    assert!(matches!(progress, Progress::Perform(Action::DecodeMapping(_))));
    let (_, progress) = task.resume(decoded(dest));
    assert_eq!(target(progress), (Some(600), false));
}

#[test]
fn mapping_without_a_channel_leads_nowhere() {
    let (task, _) = get_or_create_thread(1, 2, 60, message("hi"), false).resume(Reply::Begin);
    let (task, _) = task.resume(found(60, 600));
    let (_, progress) = task.resume(Reply::Decoded { src: None, dest: None });
    assert_eq!(target(progress), (None, false));
}

#[test]
fn unknown_thread_is_created_and_registered() {
    let src = channel(60, ChannelType::PublicThread, Some(61));
    let parent = channel(610, ChannelType::GuildText, None);
    let made = channel(600, ChannelType::PublicThread, Some(610));
    let (task, _) = get_or_create_thread(1, 2, 60, message("hi"), false).resume(Reply::Begin);
    let (task, progress) = task.resume(Reply::Mapping(None));
    assert!(matches!(progress, Progress::Perform(Action::GetChannel(60))));
    let (task, progress) = task.resume(Reply::Channel(src));
    assert!(matches!(progress, Progress::Perform(Action::FindMapping { orig_id: 61 })));
    let (task, _) = task.resume(kept(61, &parent));
    let (task, progress) = task.resume(decoded(parent));
    match progress {
        Progress::Perform(Action::CreateThread(new)) => {
            assert_eq!(new.parent_id, 610);
            assert_eq!(new.name, "general");
            assert_eq!(new.kind, ChannelType::PublicThread);
            assert_eq!(new.auto_archive_duration, Some(60));
        }
        _ => panic!("no thread is created"),
    }
    let (task, progress) = task.resume(Reply::Thread(made));
    match progress {
        Progress::Perform(Action::RegisterMapping(mapping)) => {
            assert_eq!(mapping.orig_id(), 60);
            assert_eq!(mapping.ref_id(), 600);
            assert_eq!(mapping.orig_guild_id(), 1);
            assert_eq!(mapping.ref_guild_id(), 2);
            assert_eq!(mapping.src_mapping_data, Some(b"channel 60".to_vec()));
            assert_eq!(mapping.dest_mapping_data, Some(b"channel 600".to_vec()));
        }
        _ => panic!("the thread is not registered"),
    }
    let (_, progress) = task.resume(Reply::Done);
    assert_eq!(target(progress), (Some(600), false));
}

#[test]
fn forum_post_begins_with_the_message() {
    let src = channel(60, ChannelType::PublicThread, Some(61));
    let forum = channel(610, ChannelType::GuildForum, None);
    let (task, _) = get_or_create_thread(1, 2, 60, message("hi"), false).resume(Reply::Begin);
    let (task, _) = task.resume(Reply::Mapping(None));
    let (task, _) = task.resume(Reply::Channel(src));
    let (task, _) = task.resume(kept(61, &forum));
    let (task, progress) = task.resume(decoded(forum));
    match progress {
        Progress::Perform(Action::CreateForumPost(post)) => {
            assert_eq!(post.parent_id, 610);
            assert_eq!(post.content, "hi");
            assert_eq!(post.embeds, Some(vec![EMBED.to_string()]));
            assert_eq!(post.attachments.map(|list| list.len()), Some(0));
        }
        _ => panic!("no post is created"),
    }
    let made = channel(600, ChannelType::PublicThread, Some(610));
    let (task, _) = task.resume(Reply::Thread(made));
    let (_, progress) = task.resume(Reply::Done);
    assert_eq!(target(progress), (Some(600), true));
}

#[test]
fn other_channels_are_not_created_for_a_message() {
    for kind in [ChannelType::GuildText, ChannelType::PrivateThread, ChannelType::GuildForum] {
        let (task, _) = get_or_create_thread(1, 2, 60, message("hi"), false).resume(Reply::Begin);
        let (task, _) = task.resume(Reply::Mapping(None));
        let (_, progress) = task.resume(Reply::Channel(channel(60, kind, Some(61))));
        assert_eq!(target(progress), (None, false));
    }
    let (task, _) = get_or_create_thread(1, 2, 60, message("hi"), false).resume(Reply::Begin);
    let (task, _) = task.resume(Reply::Mapping(None));
    let (_, progress) = task.resume(Reply::Channel(channel(60, ChannelType::PublicThread, None)));
    assert_eq!(target(progress), (None, false));
}

#[test]
fn thread_that_cannot_be_kept_is_not_registered() {
    let src = channel(60, ChannelType::PublicThread, Some(61));
    let parent = channel(610, ChannelType::GuildText, None);
    let (task, _) = get_or_create_thread(1, 2, 60, message("hi"), false).resume(Reply::Begin);
    let (task, _) = task.resume(Reply::Mapping(None));
    let (task, _) = task.resume(Reply::Channel(src));
    let (task, _) = task.resume(kept(61, &parent));
    let (task, _) = task.resume(decoded(parent));
    let mut made = channel(600, ChannelType::PublicThread, Some(610));
    made.encoded = Err("no text".to_string());
    let (_, progress) = task.resume(Reply::Thread(made));
    match progress {
        Progress::Failed(error) => assert_eq!(
            error.to_string(),
            "Database action failed. Failed serializing data. no text"
        ),
        _ => panic!("the thread is registered"),
    }
}

// Mirroring

#[test]
fn message_is_written_and_registered() {
    let dest = channel(600, ChannelType::GuildText, None);
    let (task, _) = mirror_message(message("hi"), &settings()).resume(Reply::Begin);
    let (task, _) = task.resume(kept(60, &dest));
    let (task, progress) = task.resume(decoded(dest));
    assert!(matches!(progress, Progress::Perform(Action::GetWebhooks(600))));
    let (task, progress) = task.resume(Reply::Webhooks(vec![webhook()]));
    match progress {
        Progress::Perform(Action::ExecuteWebhook(written)) => {
            assert_eq!(written.webhook_id, 90);
            assert_eq!(written.token, "secret");
            assert_eq!(written.thread_id, None);
            assert_eq!(written.username, Some("Ann".to_string()));
            assert_eq!(
                written.avatar_url,
                Some("https://cdn.discordapp.com/avatars/70/a1.png".to_string())
            );
            assert!(written.attachments.is_none());
            assert_eq!(written.embeds, Some(vec![EMBED.to_string()]));
            assert_eq!(written.content, "hi");
        }
        _ => panic!("nothing is written"),
    }
    let (task, progress) = task.resume(Reply::Sent(500));
    match progress {
        Progress::Perform(Action::RegisterMapping(mapping)) => {
            assert_eq!(mapping.orig_id(), 50);
            assert_eq!(mapping.ref_id(), 500);
            assert!(mapping.src_mapping_data.is_none());
        }
        _ => panic!("the message is not registered"),
    }
    let (_, progress) = task.resume(Reply::Done);
    assert!(matches!(progress, Progress::Done(())));
}

#[test]
fn message_in_a_thread_goes_through_its_parent() {
    let dest = channel(600, ChannelType::AnnouncementThread, Some(610));
    let mut settings = settings();
    settings.message_settings.use_webhook_profile = true;
    let (task, _) = mirror_message(message("hi"), &settings).resume(Reply::Begin);
    let (task, _) = task.resume(kept(60, &dest));
    let (task, progress) = task.resume(decoded(dest));
    assert!(matches!(progress, Progress::Perform(Action::GetWebhooks(610))));
    let (task, progress) = task.resume(Reply::Webhooks(vec![webhook()]));
    match progress {
        Progress::Perform(Action::ExecuteWebhook(written)) => {
            assert_eq!(written.thread_id, Some(600));
            assert_eq!(written.username, None);
            assert_eq!(written.avatar_url, None);
        }
        _ => panic!("nothing is written"),
    }
    let (task, progress) = task.resume(Reply::Sent(500));
    assert!(matches!(
        progress,
        Progress::Perform(Action::CrosspostMessage { channel_id: 610, message_id: 500 })
    ));
    let (_, progress) = task.resume(Reply::Done);
    assert!(matches!(progress, Progress::Perform(Action::RegisterMapping(_))));
}

#[test]
fn message_that_stands_for_its_thread_is_not_registered() {
    let dest = channel(600, ChannelType::PublicThread, Some(610));
    let mut starter = message("hi");
    starter.id = 60;
    let (task, _) = mirror_message(starter, &settings()).resume(Reply::Begin);
    let (task, _) = task.resume(kept(60, &dest));
    let (task, _) = task.resume(decoded(dest));
    let (task, _) = task.resume(Reply::Webhooks(vec![webhook()]));
    let (_, progress) = task.resume(Reply::Sent(500));
    assert!(matches!(progress, Progress::Done(())));
}

#[test]
fn webhook_without_a_token_writes_nothing() {
    let dest = channel(600, ChannelType::GuildText, None);
    let (task, _) = mirror_message(message("hi"), &settings()).resume(Reply::Begin);
    let (task, _) = task.resume(kept(60, &dest));
    let (task, _) = task.resume(decoded(dest));
    let (_, progress) = task.resume(Reply::Webhooks(vec![Webhook { id: 90, token: None }]));
    assert!(matches!(progress, Progress::Done(())));
}

#[test]
fn orphaned_thread_gets_no_message() {
    let dest = channel(600, ChannelType::PublicThread, None);
    let (task, _) = mirror_message(message("hi"), &settings()).resume(Reply::Begin);
    let (task, _) = task.resume(kept(60, &dest));
    let (_, progress) = task.resume(decoded(dest));
    assert!(matches!(progress, Progress::Done(())));
}

// Edits

#[test]
fn edit_is_relayed_as_a_message() {
    let dest = channel(600, ChannelType::GuildAnnouncement, None);
    let (task, progress) = relay_edit(update(Some("new")), &settings()).resume(Reply::Begin);
    assert!(matches!(progress, Progress::Perform(Action::GetMapping { orig_id: 60 })));
    let (task, progress) = task.resume(found(60, 600));
    assert!(matches!(progress, Progress::Perform(Action::GetChannel(600))));
    let (task, progress) = task.resume(Reply::Channel(dest));
    assert!(matches!(progress, Progress::Perform(Action::Sleep(1))));
    let (task, progress) = task.resume(Reply::Done);
    assert!(matches!(progress, Progress::Perform(Action::GetWebhooks(600))));
    let (task, progress) = task.resume(Reply::Webhooks(vec![webhook()]));
    assert!(matches!(progress, Progress::Perform(Action::GetMapping { orig_id: 60 })));
    let (task, progress) = task.resume(found(60, 600));
    assert!(matches!(progress, Progress::Perform(Action::GetMapping { orig_id: 50 })));
    let (task, progress) = task.resume(found(50, 500));
    match progress {
        Progress::Perform(Action::ExecuteWebhook(written)) => {
            assert_eq!(
                written.content,
                "[EDITED]\nhttps://discord.com/channels/2/600/500\n\nnew"
            );
            assert_eq!(written.username, Some("Ann".to_string()));
            assert_eq!(written.thread_id, None);
            assert!(written.embeds.is_none());
        }
        _ => panic!("nothing is written"),
    }
    let (task, progress) = task.resume(Reply::Sent(501));
    assert!(matches!(
        progress,
        Progress::Perform(Action::CrosspostMessage { channel_id: 600, message_id: 501 })
    ));
    let (_, progress) = task.resume(Reply::Done);
    assert!(matches!(progress, Progress::Done(())));
}

fn edit_up_to_names(update: MessageUpdate) -> Progress<(), HandlerError> {
    let (task, _) = relay_edit(update, &settings()).resume(Reply::Begin);
    let (task, _) = task.resume(found(60, 600));
    let (task, _) = task.resume(Reply::Channel(channel(600, ChannelType::GuildText, None)));
    let (task, _) = task.resume(Reply::Done);
    task.resume(Reply::Webhooks(vec![webhook()])).1
}

#[test]
fn edit_of_an_unmirrored_message_has_no_link() {
    let (task, _) = relay_edit(update(Some("new")), &settings()).resume(Reply::Begin);
    let (task, _) = task.resume(found(60, 600));
    let (task, _) = task.resume(Reply::Channel(channel(600, ChannelType::GuildText, None)));
    let (task, _) = task.resume(Reply::Done);
    let (task, _) = task.resume(Reply::Webhooks(vec![webhook()]));
    let (task, _) = task.resume(found(60, 600));
    let (task, progress) = task.resume(Reply::Mapping(None));
    assert!(matches!(
        progress,
        Progress::Perform(Action::ExecuteWebhook(written)) if written.content == "[EDITED]\n\nnew"
    ));
    let (_, progress) = task.resume(Reply::Sent(501));
    assert!(matches!(progress, Progress::Done(())));
}

#[test]
fn edit_without_content_is_not_relayed() {
    assert!(matches!(edit_up_to_names(update(None)), Progress::Done(())));
    let mut without_roles = update(Some("new"));
    without_roles.mention_roles = None;
    assert!(matches!(edit_up_to_names(without_roles), Progress::Done(())));
}

#[test]
fn names_that_webhooks_cannot_have_are_refused() {
    let long = "x".repeat(81);
    for name in ["A", "clyde", long.as_str()] {
        let mut edit = update(Some("new"));
        edit.author = Some(User { name: name.to_string(), ..user() });
        match edit_up_to_names(edit) {
            Progress::Failed(error) => assert_eq!(
                error.to_string(),
                "Could not validate message when creating. webhook username is invalid"
            ),
            _ => panic!("the name is accepted"),
        }
    }
    let longest = "x".repeat(80);
    for name in ["Al", "Clyde", longest.as_str()] {
        let mut edit = update(Some("new"));
        edit.author = Some(User { name: name.to_string(), ..user() });
        assert!(matches!(
            edit_up_to_names(edit),
            Progress::Perform(Action::GetMapping { orig_id: 60 })
        ));
    }
}

#[test]
fn edit_in_an_unmirrored_channel_is_not_relayed() {
    let (task, _) = relay_edit(update(Some("new")), &settings()).resume(Reply::Begin);
    let (_, progress) = task.resume(Reply::Mapping(None));
    assert!(matches!(progress, Progress::Done(())));
}

#[test]
fn edit_of_an_unreadable_mapping_has_no_link_in_a_lost_channel() {
    let (task, _) = relay_edit(update(Some("new")), &settings()).resume(Reply::Begin);
    let (task, _) = task.resume(found(60, 600));
    let (task, _) = task.resume(Reply::Channel(channel(600, ChannelType::GuildText, None)));
    let (task, _) = task.resume(Reply::Done);
    let (task, _) = task.resume(Reply::Webhooks(vec![webhook()]));
    let (task, progress) = task.resume(Reply::Mapping(None));
    assert!(matches!(progress, Progress::Perform(Action::FindMapping { orig_id: 50 })));
    let (_, progress) = task.resume(found(50, 0));
    assert!(matches!(
        progress,
        Progress::Perform(Action::ExecuteWebhook(written)) if written.content == "[EDITED]\n\nnew"
    ));
}

// What the client refuses

fn refusal<T>(progress: Progress<T, HandlerError>) -> String {
    match progress {
        Progress::Failed(error) => error.to_string(),
        _ => panic!("nothing is refused"),
    }
}

#[test]
fn webhook_out_of_bounds_is_not_created() {
    for (name, reason) in [
        ("A", "provided username length is 1, but it must be at least 2 and at most 32"),
        ("clyde", "provided username cannot contain clyde"),
    ] {
        let (task, _) = get_or_create_webhook(5, name.to_string()).resume(Reply::Begin);
        let (_, progress) = task.resume(Reply::Webhooks(Vec::new()));
        assert_eq!(refusal(progress), format!("Client request validation failed. {reason}"));
        // The name does not matter where there is a webhook.
        let (task, _) = get_or_create_webhook(5, name.to_string()).resume(Reply::Begin);
        let (_, progress) = task.resume(Reply::Webhooks(vec![webhook()]));
        assert!(matches!(progress, Progress::Done(_)));
    }
}

fn write(message: Message, settings: &GuildSettings) -> Progress<(), HandlerError> {
    let dest = channel(600, ChannelType::GuildText, None);
    let (task, _) = mirror_message(message, settings).resume(Reply::Begin);
    let (task, _) = task.resume(kept(60, &dest));
    let (task, _) = task.resume(decoded(dest));
    task.resume(Reply::Webhooks(vec![webhook()])).1
}

#[test]
fn messages_out_of_bounds_are_not_written() {
    let told = "Could not validate message when creating. ";
    assert!(matches!(
        write(message(&"\u{e9}".repeat(2000)), &settings()),
        Progress::Perform(Action::ExecuteWebhook(_))
    ));
    let mut refused = message(&"x".repeat(2001));
    let progress = write(refused.clone(), &settings());
    assert_eq!(refusal(progress), format!("{told}message content is invalid"));
    refused.embeds = vec![EMBED.to_string(); 11];
    let progress = write(refused.clone(), &settings());
    assert_eq!(refusal(progress), format!("{told}message has too many embeds"));
    refused.author.name = "A".to_string();
    let progress = write(refused.clone(), &settings());
    assert_eq!(refusal(progress), format!("{told}webhook username is invalid"));
    // Under the name of the webhook the name of the author does not matter.
    let mut settings = settings();
    settings.message_settings.use_webhook_profile = true;
    assert_eq!(refusal(write(refused, &settings)), format!("{told}message has too many embeds"));
}

#[test]
fn post_out_of_bounds_is_not_created() {
    let src = channel(60, ChannelType::PublicThread, Some(61));
    let forum = channel(610, ChannelType::GuildForum, None);
    let starter = message(&"x".repeat(2001));
    let (task, _) = get_or_create_thread(1, 2, 60, starter, false).resume(Reply::Begin);
    let (task, _) = task.resume(Reply::Mapping(None));
    let (task, _) = task.resume(Reply::Channel(src));
    let (task, _) = task.resume(kept(61, &forum));
    let (_, progress) = task.resume(decoded(forum));
    assert_eq!(
        refusal(progress),
        "Could not validate message when creating. message content is invalid"
    );
}

#[test]
fn edits_out_of_bounds_are_not_written() {
    let mut embedded = update(Some("new"));
    embedded.embeds = Some(vec![EMBED.to_string(); 11]);
    let long = "x".repeat(1990);
    for (edit, reason) in [
        (update(Some(long.as_str())), "message content is invalid"),
        (embedded, "message has too many embeds"),
    ] {
        let (task, _) = relay_edit(edit, &settings()).resume(Reply::Begin);
        let (task, _) = task.resume(found(60, 600));
        let (task, _) = task.resume(Reply::Channel(channel(600, ChannelType::GuildText, None)));
        let (task, _) = task.resume(Reply::Done);
        let (task, _) = task.resume(Reply::Webhooks(vec![webhook()]));
        let (task, _) = task.resume(found(60, 600));
        let (_, progress) = task.resume(found(50, 500));
        assert_eq!(
            refusal(progress),
            format!("Could not validate message when creating. {reason}")
        );
    }
}
