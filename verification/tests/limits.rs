use guild_mirror::model::ChannelType;
use guild_mirror::operation::{NewForumPost, Upload, WebhookMessage};
use guild_mirror::validation::{
    check_embeds, check_message, check_name, check_post, check_thread, check_topic, check_uploads,
    check_username, check_webhook, first_refusal,
};

fn refused(reason: &str) -> Result<(), String> {
    Err(reason.to_string())
}

fn upload(filename: &str) -> Upload {
    Upload { filename: filename.to_string(), bytes: Vec::new(), id: 1 }
}

fn embed(title: &str) -> String {
    format!("{{\"type\":\"rich\",\"title\":\"{title}\"}}")
}

fn written(content: &str) -> WebhookMessage {
    WebhookMessage {
        webhook_id: 1,
        token: "secret".to_string(),
        thread_id: None,
        username: Some("Ann".to_string()),
        avatar_url: None,
        attachments: None,
        embeds: None,
        content: content.to_string(),
    }
}

fn post(content: &str) -> NewForumPost {
    NewForumPost {
        parent_id: 1,
        name: String::new(),
        auto_archive_duration: None,
        content: content.to_string(),
        embeds: None,
        attachments: None,
    }
}

#[test]
fn first_refusal_counts() {
    assert_eq!(first_refusal(Ok(()), Ok(())), Ok(()));
    assert_eq!(first_refusal(Ok(()), refused("b")), refused("b"));
    assert_eq!(first_refusal(refused("a"), Ok(())), refused("a"));
    assert_eq!(first_refusal(refused("a"), refused("b")), refused("a"));
}

#[test]
fn names_have_from_one_to_a_hundred_characters() {
    assert_eq!(check_name(&None), Ok(()));
    assert_eq!(check_name(&Some("\u{e9}".repeat(100))), Ok(()));
    let reason = refused("the length of the name is invalid");
    assert_eq!(check_name(&Some(String::new())), reason);
    assert_eq!(check_name(&Some("x".repeat(101))), reason);
}

#[test]
fn topics_have_up_to_1024_characters() {
    assert_eq!(check_topic(&None), Ok(()));
    assert_eq!(check_topic(&Some(String::new())), Ok(()));
    assert_eq!(check_topic(&Some("\u{e9}".repeat(1024))), Ok(()));
    assert_eq!(check_topic(&Some("x".repeat(1025))), refused("the topic is invalid"));
}

#[test]
fn threads_have_a_name_and_are_threads() {
    let name = "talk".to_string();
    for kind in [
        ChannelType::AnnouncementThread,
        ChannelType::PublicThread,
        ChannelType::PrivateThread,
    ] {
        assert_eq!(check_thread(&name, kind), Ok(()));
    }
    for (kind, reason) in [
        (ChannelType::GuildText, "GuildText is not a thread"),
        (ChannelType::Private, "Private is not a thread"),
        (ChannelType::GuildVoice, "GuildVoice is not a thread"),
        (ChannelType::Group, "Group is not a thread"),
        (ChannelType::GuildCategory, "GuildCategory is not a thread"),
        (ChannelType::GuildAnnouncement, "GuildAnnouncement is not a thread"),
        (ChannelType::GuildStageVoice, "GuildStageVoice is not a thread"),
        (ChannelType::GuildDirectory, "GuildDirectory is not a thread"),
        (ChannelType::GuildForum, "GuildForum is not a thread"),
        (ChannelType::Unknown(99), "Unknown is not a thread"),
    ] {
        assert_eq!(check_thread(&name, kind), refused(reason));
    }
    // The name is looked at first.
    assert_eq!(
        check_thread(&String::new(), ChannelType::GuildText),
        refused("the length of the name is invalid")
    );
}

#[test]
fn webhooks_have_from_two_to_eighty_characters() {
    for name in ["Al".to_string(), "Clyde".to_string(), "x".repeat(80)] {
        assert_eq!(check_webhook(&name), Ok(()));
        assert_eq!(check_username(&Some(name)), Ok(()));
    }
    assert_eq!(check_username(&None), Ok(()));
    for (name, reason) in [
        ("A".to_string(), "provided username length is 1, but it must be at least 2 and at most 32"),
        ("x".repeat(81), "provided username length is 81, but it must be at least 2 and at most 32"),
        ("clyde".to_string(), "provided username cannot contain clyde"),
    ] {
        assert_eq!(check_webhook(&name), refused(reason));
        assert_eq!(check_username(&Some(name)), refused("webhook username is invalid"));
    }
}

#[test]
fn files_have_plain_names() {
    assert_eq!(check_uploads(&None), Ok(()));
    assert_eq!(check_uploads(&Some(Vec::new())), Ok(()));
    assert_eq!(check_uploads(&Some(vec![upload("aZ09.-_"), upload("")])), Ok(()));
    // The first one that is refused counts.
    let uploads = vec![upload("a.png"), upload("a b.png"), upload("\u{e9}.png")];
    assert_eq!(
        check_uploads(&Some(uploads)),
        refused("attachment filename `a b.png`is invalid")
    );
}

#[test]
fn embeds_are_few_and_small() {
    assert_eq!(check_embeds(&None), Ok(()));
    assert_eq!(check_embeds(&Some(Vec::new())), Ok(()));
    assert_eq!(check_embeds(&Some(vec![embed("t"); 10])), Ok(()));
    assert_eq!(
        check_embeds(&Some(vec![embed("t"); 11])),
        refused("message has too many embeds")
    );
    let long = "x".repeat(257);
    assert_eq!(
        check_embeds(&Some(vec![embed("t"), embed(&long)])),
        refused("embed at index 1 is invalid")
    );
    assert!(check_embeds(&Some(vec!["no embed".to_string()])).is_err());
}

#[test]
fn messages_are_checked_in_order() {
    assert_eq!(check_message(&written(&"\u{e9}".repeat(2000))), Ok(()));
    let mut message = written(&"x".repeat(2001));
    assert_eq!(check_message(&message), refused("message content is invalid"));
    message.embeds = Some(vec![embed("t"); 11]);
    assert_eq!(check_message(&message), refused("message has too many embeds"));
    message.attachments = Some(vec![upload("?")]);
    assert_eq!(check_message(&message), refused("attachment filename `?`is invalid"));
    message.username = Some("A".to_string());
    assert_eq!(check_message(&message), refused("webhook username is invalid"));
}

#[test]
fn posts_are_checked_in_order() {
    // The name of a post is not looked at.
    assert_eq!(check_post(&post("_ _")), Ok(()));
    let mut new = post("hi");
    new.attachments = Some(vec![upload("?")]);
    assert_eq!(check_post(&new), refused("attachment filename `?`is invalid"));
    new.embeds = Some(vec![embed("t"); 11]);
    assert_eq!(check_post(&new), refused("message has too many embeds"));
    new.content = "x".repeat(2001);
    assert_eq!(check_post(&new), refused("message content is invalid"));
}
