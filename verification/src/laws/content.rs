//! What becomes of what content mentions.
use super::mirror_id;
use crate::errors::HandlerError;
use crate::handlers::rewrite::{RewriteMentions, RewriteStage};
use crate::mention::{digit_run, fitting_numbers, mention_at, mentions, mentions_from, mentions_of, rewritten, rewritten_once, Mention};
use crate::operation::{destination, Action, Progress, Reply, Task};
use crate::text::{decimal, decimal_round_trip, is_digit, is_number, number_value, occurs_at, replaced};
use vstd::prelude::*;

verus! {

/// The operations that a task asked for; nothing where it had ended.
pub open spec fn asked<T, E>(progress: Seq<Progress<T, E>>) -> Seq<Option<Action>> {
    Seq::new(
        progress.len(),
        |i: int|
            match progress[i] {
                Progress::Perform(action) => Some(action),
                _ => None,
            },
    )
}

/// The mention of a channel as it is written in content.
pub open spec fn channel_tag(id: u64) -> Seq<char> {
    "<#"@ + decimal(id as nat) + ">"@
}

/// The mention of a role as it is written in content.
pub open spec fn role_tag(id: u64) -> Seq<char> {
    "<@&"@ + decimal(id as nat) + ">"@
}

/// The channels that content mentions, in their order.
pub open spec fn channels_in(content: Seq<char>) -> Seq<u64> {
    fitting_numbers(mentions(content))
}

/// What is looked up for content: the channels that it mentions, and then the roles.
pub open spec fn looked_up(content: Seq<char>, roles: Seq<u64>) -> Seq<u64> {
    channels_in(content) + roles
}

/// Content in which each mention names the mirror that its lookup found. `replies` are the
/// answers to the lookups, of which the first `n` were given.
pub open spec fn carried_over(
    content: Seq<char>,
    roles: Seq<u64>,
    replies: Seq<Reply>,
    n: int,
) -> Seq<char>
    decreases n,
{
    if n <= 0 {
        content
    } else {
        let before = carried_over(content, roles, replies, n - 1);
        let channels = channels_in(content);
        match replies[n - 1] {
            Reply::Mapping(Some(found)) => if n - 1 < channels.len() {
                replaced(before, channel_tag(channels[n - 1]), channel_tag(mirror_id(found)))
            } else {
                let role = roles[n - 1 - channels.len()];
                replaced(before, role_tag(role), role_tag(mirror_id(found)))
            },
            _ => before,
        }
    }
}

/// Whether, from `start` on, everything that content mentions was looked up, one after the
/// other, and answered.
pub open spec fn is_looked_up(
    content: Seq<char>,
    roles: Seq<u64>,
    actions: Seq<Option<Action>>,
    replies: Seq<Reply>,
    start: int,
) -> bool {
    let ids = looked_up(content, roles);
    &&& 0 <= start
    &&& start + ids.len() < replies.len()
    &&& forall|j: int|
        #![trigger ids[j]]
        0 <= j < ids.len() ==> {
            &&& actions[start + j] == Some(Action::GetMapping { orig_id: ids[j] })
            &&& replies[start + j + 1] is Mapping
        }
}

/// What content that was looked up from `start` on becomes.
pub open spec fn result_of(
    content: Seq<char>,
    roles: Seq<u64>,
    replies: Seq<Reply>,
    start: int,
) -> Seq<char> {
    let n = looked_up(content, roles).len() as int;
    carried_over(content, roles, replies.subrange(start + 1, start + 1 + n), n)
}

// ---------------------------------------------------------------------------
// Everything that is mentioned is looked up
// ---------------------------------------------------------------------------

/// A row of digits that ends at a given place is as long as that.
proof fn digits_run(s: Seq<char>, i: int, digits: Seq<char>)
    requires
        0 <= i,
        i + digits.len() < s.len(),
        s.subrange(i, i + digits.len()) == digits,
        forall|j: int| 0 <= j < digits.len() ==> is_digit(#[trigger] digits[j]),
        !is_digit(s[i + digits.len()]),
    ensures
        digit_run(s, i) == digits.len(),
    decreases digits.len(),
{
    if digits.len() > 0 {
        assert(s.subrange(i, i + digits.len())[0] == s[i]);
        assert(is_digit(digits[0]));
        let rest = digits.drop_first();
        assert(s.subrange(i + 1, i + 1 + rest.len()) =~= rest) by {
            assert forall|j: int| 0 <= j < rest.len() implies s.subrange(
                i + 1,
                i + 1 + rest.len(),
            )[j] == rest[j] by {
                assert(s.subrange(i, i + digits.len())[j + 1] == digits[j + 1]);
            }
        }
        assert forall|j: int| 0 <= j < rest.len() implies is_digit(#[trigger] rest[j]) by {
            assert(rest[j] == digits[j + 1]);
        }
        digits_run(s, i + 1, rest);
    }
}

/// What stands somewhere is found from any place before it.
proof fn mentions_hold(s: Seq<char>, i: int, p: int)
    requires
        0 <= i <= p < s.len(),
        mention_at(s, p),
    ensures
        mentions_from(s, i).contains(s.subrange(p + 2, p + 2 + digit_run(s, p + 2))),
    decreases p - i,
{
    let row = s.subrange(p + 2, p + 2 + digit_run(s, p + 2));
    if i == p {
        assert(mentions_from(s, i)[0] == row);
    } else {
        mentions_hold(s, i + 1, p);
        let rest = mentions_from(s, i + 1);
        let k = choose|k: int| 0 <= k < rest.len() && rest[k] == row;
        if mention_at(s, i) {
            assert(mentions_from(s, i)[k + 1] == row);
        } else {
            assert(mentions_from(s, i)[k] == row);
        }
    }
}

/// The number of a row that fits is among the numbers.
proof fn numbers_hold(rows: Seq<Seq<char>>, row: Seq<char>)
    requires
        rows.contains(row),
        number_value(row) <= u64::MAX,
    ensures
        fitting_numbers(rows).contains(number_value(row) as u64),
    decreases rows.len(),
{
    let before = fitting_numbers(rows.drop_last());
    let all = fitting_numbers(rows);
    let k = choose|k: int| 0 <= k < rows.len() && rows[k] == row;
    if k == rows.len() - 1 {
        assert(all[before.len() as int] == number_value(row) as u64);
    } else {
        assert(rows.drop_last()[k] == row);
        numbers_hold(rows.drop_last(), row);
        let m = choose|m: int| 0 <= m < before.len() && before[m] == number_value(row) as u64;
        assert(all[m] == number_value(row) as u64);
    }
}

/// Wherever content holds the mention of a channel, that channel is looked up.
pub proof fn written_channels_are_mentioned(content: Seq<char>, p: int, id: u64)
    requires
        occurs_at(content, p, channel_tag(id)),
    ensures
        channels_in(content).contains(id),
{
    reveal_strlit("<#");
    reveal_strlit(">");
    decimal_round_trip(id as nat);
    let digits = decimal(id as nat);
    let tag = channel_tag(id);
    let here = content.subrange(p, p + tag.len());
    assert(here[0] == tag[0] && here[1] == tag[1] && here[tag.len() - 1] == tag[tag.len() - 1]);
    assert(content.subrange(p + 2, p + 2 + digits.len()) =~= digits) by {
        assert forall|j: int| 0 <= j < digits.len() implies content.subrange(
            p + 2,
            p + 2 + digits.len(),
        )[j] == digits[j] by {
            assert(here[j + 2] == tag[j + 2]);
        }
    }
    assert(is_number(digits));
    digits_run(content, p + 2, digits);
    assert(mention_at(content, p));
    mentions_hold(content, 0, p);
    numbers_hold(mentions(content), digits);
}

// ---------------------------------------------------------------------------
// Rewriting as a part of something else
// ---------------------------------------------------------------------------

/// Whether a rewriting that began after answer `start` waits for the answer after `k`.
pub open spec fn is_rewriting(
    task: RewriteMentions,
    content: Seq<char>,
    roles: Seq<u64>,
    actions: Seq<Option<Action>>,
    replies: Seq<Reply>,
    start: int,
    k: int,
) -> bool {
    let ids = looked_up(content, roles);
    &&& 0 <= start <= k
    &&& k - start < ids.len()
    &&& task.original@ == content
    &&& task.found@ == mentions_of(content, roles)
    &&& task.stage == RewriteStage::LookingUp((k - start) as usize)
    &&& task.dests@.len() == k - start
    &&& forall|j: int|
        0 <= j < k - start ==> {
            &&& replies[start + j + 1] is Mapping
            &&& (#[trigger] task.dests@[j]) == destination(replies[start + j + 1]->Mapping_0)
        }
    &&& forall|j: int|
        #![trigger ids[j]]
        0 <= j <= k - start ==> actions[start + j] == Some(Action::GetMapping { orig_id: ids[j] })
}

/// What is mentioned are the channels and then the roles.
pub(crate) proof fn mentions_are_looked_up(content: Seq<char>, roles: Seq<u64>)
    ensures
        mentions_of(content, roles).len() == looked_up(content, roles).len(),
        forall|j: int|
            0 <= j < looked_up(content, roles).len() ==> (#[trigger] mentions_of(
                content,
                roles,
            )[j]) == if j < channels_in(content).len() {
                Mention::Channel(channels_in(content)[j])
            } else {
                Mention::Role(roles[j - channels_in(content).len()])
            },
        forall|j: int|
            #![trigger looked_up(content, roles)[j]]
            0 <= j < looked_up(content, roles).len() ==> mentions_of(content, roles)[j].spec_id()
                == looked_up(content, roles)[j],
{
}

/// Content that was rewritten is the content in which each mention names its mirror.
proof fn rewritten_is_carried_over(
    content: Seq<char>,
    roles: Seq<u64>,
    replies: Seq<Reply>,
    dests: Seq<Option<u64>>,
    n: int,
)
    requires
        0 <= n <= looked_up(content, roles).len(),
        n <= replies.len(),
        n <= dests.len(),
        forall|j: int|
            0 <= j < n ==> replies[j] is Mapping && (#[trigger] dests[j]) == destination(
                replies[j]->Mapping_0,
            ),
    ensures
        rewritten(content, mentions_of(content, roles), dests.take(n)) == carried_over(
            content,
            roles,
            replies,
            n,
        ),
    decreases n,
{
    if n > 0 {
        rewritten_is_carried_over(content, roles, replies, dests, n - 1);
        mentions_are_looked_up(content, roles);
        assert(dests.take(n).drop_last() =~= dests.take(n - 1));
        assert(dests.take(n).last() == dests[n - 1]);
        let mention = mentions_of(content, roles)[n - 1];
        let before = carried_over(content, roles, replies, n - 1);
        if let Reply::Mapping(Some(found)) = replies[n - 1] {
            assert(dests[n - 1] == Some(mirror_id(found)));
            assert(rewritten_once(before, mention, Some(mirror_id(found))) == replaced(
                before,
                mention.token(),
                mention.spec_with_id(mirror_id(found)).token(),
            ));
        }
    }
}

/// The first step of a rewriting, which has the answer `k` of the whole.
pub(crate) proof fn rewriting_begins(
    task: RewriteMentions,
    content: Seq<char>,
    roles: Seq<u64>,
    next: RewriteMentions,
    progress: Progress<String, HandlerError>,
    actions: Seq<Option<Action>>,
    replies: Seq<Reply>,
    k: int,
)
    requires
        task.begins(content, roles),
        task.step(Reply::Begin, next, progress),
        0 <= k < replies.len(),
        progress matches Progress::Perform(action) ==> actions[k] == Some(action),
    ensures
        match progress {
            Progress::Perform(_) => is_rewriting(next, content, roles, actions, replies, k, k),
            Progress::Done(result) => {
                &&& is_looked_up(content, roles, actions, replies, k)
                &&& result@ == result_of(content, roles, replies, k)
            },
            Progress::Failed(_) => false,
        },
{
    mentions_are_looked_up(content, roles);
}

/// One step of a rewriting.
pub(crate) proof fn rewriting_goes_on(
    task: RewriteMentions,
    content: Seq<char>,
    roles: Seq<u64>,
    next: RewriteMentions,
    progress: Progress<String, HandlerError>,
    actions: Seq<Option<Action>>,
    replies: Seq<Reply>,
    start: int,
    k: int,
)
    requires
        is_rewriting(task, content, roles, actions, replies, start, k - 1),
        task.step(replies[k], next, progress),
        !(replies[k] is Begin),
        0 <= k < replies.len(),
        progress matches Progress::Perform(action) ==> actions[k] == Some(action),
    ensures
        match progress {
            Progress::Perform(_) => is_rewriting(next, content, roles, actions, replies, start, k),
            Progress::Done(result) => {
                &&& k == start + looked_up(content, roles).len()
                &&& is_looked_up(content, roles, actions, replies, start)
                &&& result@ == result_of(content, roles, replies, start)
            },
            Progress::Failed(_) => replies[k] is Failed,
        },
{
    mentions_are_looked_up(content, roles);
    if let Reply::Mapping(found) = replies[k] {
        let dests = task.dests@.push(destination(found));
        assert(task.found.len() == task.found@.len());
        if progress is Done {
            let n = looked_up(content, roles).len() as int;
            let answers = replies.subrange(start + 1, start + 1 + n);
            assert forall|j: int| 0 <= j < n implies answers[j] is Mapping && (#[trigger] dests[j])
                == destination(answers[j]->Mapping_0) by {
                assert(answers[j] == replies[start + 1 + j]);
                if j < n - 1 {
                    assert(task.dests@[j] == dests[j]);
                }
            }
            assert(dests.take(n) =~= dests);
            rewritten_is_carried_over(content, roles, answers, dests, n);
            assert forall|j: int|
                #![trigger looked_up(content, roles)[j]]
                0 <= j < n implies replies[start + j + 1] is Mapping by {
                if j < n - 1 {
                    assert(task.dests@[j] == dests[j]);
                }
            }
        } else {
            assert forall|j: int| 0 <= j < k - start implies {
                &&& replies[start + j + 1] is Mapping
                &&& (#[trigger] next.dests@[j]) == destination(replies[start + j + 1]->Mapping_0)
            } by {
                if j < k - start - 1 {
                    assert(task.dests@[j] == dests[j]);
                }
            }
        }
    }
}

} // verus!
