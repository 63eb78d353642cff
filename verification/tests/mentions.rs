use guild_mirror::errors::{Failure, HandlerError};
use guild_mirror::handlers::rewrite::rewrite_mentions;
use guild_mirror::mention::{content_mentions, mentioned_channels, rewrite_mention, Mention};
use guild_mirror::model::IdMapping;
use guild_mirror::operation::{Action, Progress, Reply, Task};

fn mapping(orig: u64, reference: u64) -> Reply {
    Reply::Mapping(Some(IdMapping::new(&orig, &reference, &1, &2)))
}

#[test]
fn mentioned_channels_are_found_in_order() {
    assert_eq!(mentioned_channels("a <#12> b <#7>c<#><#x> <#12>"), vec![12, 7, 12]);
}

#[test]
fn plain_content_mentions_no_channel() {
    assert_eq!(mentioned_channels("nothing here"), Vec::<u64>::new());
    assert_eq!(mentioned_channels(""), Vec::<u64>::new());
}

#[test]
fn numbers_that_do_not_fit_are_passed_over() {
    let content = "<#18446744073709551615> <#18446744073709551616> <#0007>";
    assert_eq!(mentioned_channels(content), vec![u64::MAX, 7]);
}

#[test]
fn mention_can_begin_inside_a_broken_one() {
    assert_eq!(mentioned_channels("<#1<#2>"), vec![2]);
    assert_eq!(mentioned_channels("<#\u{0661}> <#3>"), vec![3]);
}

#[test]
fn channels_come_before_roles() {
    let found = content_mentions("<#5> <@&9>", &vec![9, 8]);
    assert_eq!(found, vec![Mention::Channel(5), Mention::Role(9), Mention::Role(8)]);
}

#[test]
fn every_occurrence_is_rewritten() {
    let content = rewrite_mention("<#1> and <#1>, not <#11>", Mention::Channel(1), 20);
    assert_eq!(content, "<#20> and <#20>, not <#11>");
    assert_eq!(rewrite_mention("<@&1> <#1>", Mention::Role(1), 2), "<@&2> <#1>");
}

#[test]
fn leading_zeros_are_looked_up_but_not_rewritten() {
    assert_eq!(rewrite_mention("<#007>", Mention::Channel(7), 9), "<#007>");
}

#[test]
fn mention_tells_itself() {
    assert_eq!(Mention::Channel(12).text(), "<#12>");
    assert_eq!(Mention::Role(12).text(), "<@&12>");
    assert_eq!(Mention::Role(12).with_id(3), Mention::Role(3));
    assert_eq!(Mention::Channel(12).id(), 12);
}

#[test]
fn content_is_rewritten_lookup_by_lookup() {
    let task = rewrite_mentions("<#1> <#2> <@&3>".to_string(), &vec![3]);
    let (task, progress) = task.resume(Reply::Begin);
    assert!(matches!(progress, Progress::Perform(Action::GetMapping { orig_id: 1 })));
    let (task, progress) = task.resume(mapping(1, 10));
    assert!(matches!(progress, Progress::Perform(Action::GetMapping { orig_id: 2 })));
    let (task, progress) = task.resume(Reply::Mapping(None));
    assert!(matches!(progress, Progress::Perform(Action::GetMapping { orig_id: 3 })));
    let (_, progress) = task.resume(mapping(3, 30));
    match progress {
        Progress::Done(content) => assert_eq!(content, "<#10> <#2> <@&30>"),
        _ => panic!("the content is not ready"),
    }
}

#[test]
fn rewritten_mention_can_be_rewritten_again() {
    let task = rewrite_mentions("<#1> <#2>".to_string(), &Vec::new());
    let (task, _) = task.resume(Reply::Begin);
    let (task, _) = task.resume(mapping(1, 2));
    let (_, progress) = task.resume(mapping(2, 3));
    match progress {
        Progress::Done(content) => assert_eq!(content, "<#3> <#3>"),
        _ => panic!("the content is not ready"),
    }
}

#[test]
fn content_without_mentions_is_ready_at_once() {
    let (_, progress) = rewrite_mentions("hello".to_string(), &Vec::new()).resume(Reply::Begin);
    assert!(matches!(progress, Progress::Done(content) if content == "hello"));
}

#[test]
fn failed_lookup_ends_the_rewriting() {
    let (task, _) = rewrite_mentions("<#1>".to_string(), &Vec::new()).resume(Reply::Begin);
    let (_, progress) = task.resume(Reply::Failed(Failure::Interact("gone".to_string())));
    assert!(matches!(progress, Progress::Failed(HandlerError::Interact(detail)) if detail == "gone"));
}
