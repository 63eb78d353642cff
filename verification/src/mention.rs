//! Mentions of channels and roles inside message content, and how they are carried
//! over to the mirrored guild.
use crate::text::{
    decimal, decimal_injective, decimal_round_trip, decimal_text, is_digit, is_number,
    number_value, occurs_at, parse_number, replace, replaced, replaced_by_itself,
    replaced_whole, replaced_without_occurrence,
};
use vstd::prelude::*;

verus! {

// ---------------------------------------------------------------------------
// Finding channel mentions
// ---------------------------------------------------------------------------

/// How many digits stand in `s` from position `i` on, without a gap.
pub open spec fn digit_run(s: Seq<char>, i: int) -> nat
    decreases s.len() - i,
{
    if 0 <= i < s.len() && is_digit(s[i]) {
        1 + digit_run(s, i + 1)
    } else {
        0
    }
}

/// Whether `<#digits>`, with at least one digit, stands in `s` at position `i`.
pub open spec fn mention_at(s: Seq<char>, i: int) -> bool {
    let end = i + 2 + digit_run(s, i + 2);
    &&& 0 <= i
    &&& i + 2 < end < s.len()
    &&& s[i] == '<'
    &&& s[i + 1] == '#'
    &&& s[end] == '>'
}

/// The digits of each `<#digits>` in `s` from position `i` on, in order.
pub open spec fn mentions_from(s: Seq<char>, i: int) -> Seq<Seq<char>>
    decreases s.len() - i,
{
    if i < 0 || i >= s.len() {
        Seq::empty()
    } else if mention_at(s, i) {
        seq![s.subrange(i + 2, i + 2 + digit_run(s, i + 2))] + mentions_from(s, i + 1)
    } else {
        mentions_from(s, i + 1)
    }
}

/// The digits of each `<#digits>` in `s`, in order.
pub open spec fn mentions(s: Seq<char>) -> Seq<Seq<char>> {
    mentions_from(s, 0)
}

/// A run of digits holds digits.
proof fn digit_run_holds_digits(s: Seq<char>, i: int)
    requires
        0 <= i <= s.len(),
    ensures
        i + digit_run(s, i) <= s.len(),
        forall|j: int| i <= j < i + digit_run(s, i) ==> is_digit(#[trigger] s[j]),
    decreases s.len() - i,
{
    if i < s.len() && is_digit(s[i]) {
        digit_run_holds_digits(s, i + 1);
    }
}

/// What a mention holds is a number.
pub proof fn mentions_are_numbers(s: Seq<char>, i: int)
    requires
        0 <= i <= s.len(),
    ensures
        forall|k: int|
            0 <= k < mentions_from(s, i).len() ==> is_number(#[trigger] mentions_from(s, i)[k]),
    decreases s.len() - i,
{
    if i < s.len() {
        mentions_are_numbers(s, i + 1);
        if mention_at(s, i) {
            digit_run_holds_digits(s, i + 2);
            let first = s.subrange(i + 2, i + 2 + digit_run(s, i + 2));
            assert(is_number(first));
            assert forall|k: int| 0 <= k < mentions_from(s, i).len() implies is_number(
                #[trigger] mentions_from(s, i)[k],
            ) by {
                if k > 0 {
                    assert(mentions_from(s, i)[k] == mentions_from(s, i + 1)[k - 1]);
                }
            }
        } else {
            assert(mentions_from(s, i) == mentions_from(s, i + 1));
        }
    }
}

/// `regex::Regex::new` compiles the pattern, and `Regex::captures_iter` with
/// `Captures::extract` gives the one group of each successive match. For this pattern a
/// match is `<#digits>` and its group the digits; no two matches can overlap, since a
/// match holds a single `<`, so every occurrence is found, from left to right.
#[verifier::external_body]
fn captured_groups(pattern: &str, haystack: &str) -> (groups: Vec<String>)
    requires
        pattern@ == "<#([0-9]+)>"@,
    ensures
        groups@.len() == mentions(haystack@).len(),
        forall|k: int| 0 <= k < groups@.len() ==> (#[trigger] groups@[k])@ == mentions(haystack@)[k],
{
    let regex = regex::Regex::new(pattern).expect("Invalid channel regex");
    regex
        .captures_iter(haystack)
        .map(|captures| {
            let (_, [digits]) = captures.extract();
            digits.to_string()
        })
        .collect()
}

/// The numbers, of those that fit 64 bits, that some rows of digits denote.
pub open spec fn fitting_numbers(rows: Seq<Seq<char>>) -> Seq<u64>
    decreases rows.len(),
{
    if rows.len() == 0 {
        Seq::empty()
    } else {
        let before = fitting_numbers(rows.drop_last());
        let value = number_value(rows.last());
        if value <= u64::MAX {
            before.push(value as u64)
        } else {
            before
        }
    }
}

/// The channels that some content mentions, in order and with repetitions. A number
/// that does not fit an identifier is no channel.
pub fn mentioned_channels(content: &str) -> (channels: Vec<u64>)
    ensures
        channels@ == fitting_numbers(mentions(content@)),
{
    let groups = captured_groups("<#([0-9]+)>", content);
    let ghost rows = mentions(content@);
    proof {
        mentions_are_numbers(content@, 0);
    }
    let mut channels: Vec<u64> = Vec::new();
    for k in 0..groups.len()
        invariant
            rows == mentions(content@),
            groups@.len() == rows.len(),
            forall|j: int| 0 <= j < groups@.len() ==> (#[trigger] groups@[j])@ == rows[j],
            forall|j: int| 0 <= j < rows.len() ==> is_number(#[trigger] rows[j]),
            channels@ == fitting_numbers(rows.take(k as int)),
    {
        assert(is_number(rows[k as int]));
        assert(rows.take(k + 1).drop_last() == rows.take(k as int));
        assert(groups@[k as int]@ == rows[k as int]);
        match parse_number(groups[k].as_str()) {
            Some(id) => {
                channels.push(id);
            },
            None => {},
        }
    }
    assert(rows.take(rows.len() as int) == rows);
    channels
}

// ---------------------------------------------------------------------------
// Rewriting mentions
// ---------------------------------------------------------------------------

/// Something that content mentions by its identifier.
#[derive(Clone, Copy, Debug, PartialEq, Eq, Structural)]
pub enum Mention {
    Channel(u64),
    Role(u64),
}

impl Mention {
    /// The identifier that is mentioned.
    pub open spec fn spec_id(self) -> u64 {
        match self {
            Mention::Channel(id) => id,
            Mention::Role(id) => id,
        }
    }

    /// The same kind of mention, of another identifier.
    pub open spec fn spec_with_id(self, id: u64) -> Mention {
        match self {
            Mention::Channel(_) => Mention::Channel(id),
            Mention::Role(_) => Mention::Role(id),
        }
    }

    /// The mention as it is written in content.
    pub open spec fn token(self) -> Seq<char> {
        match self {
            Mention::Channel(id) => "<#"@ + decimal(id as nat) + ">"@,
            Mention::Role(id) => "<@&"@ + decimal(id as nat) + ">"@,
        }
    }

    /// The identifier that is mentioned.
    pub fn id(&self) -> (id: u64)
        ensures
            id == self.spec_id(),
    {
        match self {
            Mention::Channel(id) => *id,
            Mention::Role(id) => *id,
        }
    }

    /// The same kind of mention, of another identifier.
    pub fn with_id(&self, id: u64) -> (mention: Mention)
        ensures
            mention == self.spec_with_id(id),
    {
        match self {
            Mention::Channel(_) => Mention::Channel(id),
            Mention::Role(_) => Mention::Role(id),
        }
    }

    /// The mention as it is written in content.
    pub fn text(&self) -> (text: String)
        ensures
            text@ == self.token(),
            text@.len() > 0,
    {
        proof {
            reveal_strlit("<#");
            reveal_strlit("<@&");
        }
        match self {
            Mention::Channel(id) => "<#".to_string().concat(decimal_text(*id).as_str()).concat(">"),
            Mention::Role(id) => "<@&".to_string().concat(decimal_text(*id).as_str()).concat(">"),
        }
    }
}

/// Content once one mention has been looked up: where the lookup found `dest`, each
/// occurrence of the mention names `dest`; where it found nothing, nothing changes.
pub open spec fn rewritten_once(content: Seq<char>, mention: Mention, dest: Option<u64>) -> Seq<
    char,
> {
    match dest {
        Some(id) => replaced(content, mention.token(), mention.spec_with_id(id).token()),
        None => content,
    }
}

/// Content once some mentions have been looked up, one after the other.
pub open spec fn rewritten(
    content: Seq<char>,
    found: Seq<Mention>,
    dests: Seq<Option<u64>>,
) -> Seq<char>
    decreases dests.len(),
{
    if dests.len() == 0 {
        content
    } else {
        rewritten_once(
            rewritten(content, found, dests.drop_last()),
            found[dests.len() - 1],
            dests.last(),
        )
    }
}

/// Carries one mention over.
pub fn rewrite_mention(content: &str, mention: Mention, dest: u64) -> (result: String)
    ensures
        result@ == rewritten_once(content@, mention, Some(dest)),
{
    let from = mention.text();
    let to = mention.with_id(dest).text();
    replace(content, from.as_str(), to.as_str())
}

/// What content mentions: its channels in order, and then its roles.
pub open spec fn mentions_of(content: Seq<char>, roles: Seq<u64>) -> Seq<Mention> {
    fitting_numbers(mentions(content)).map_values(|id: u64| Mention::Channel(id))
        + roles.map_values(|id: u64| Mention::Role(id))
}

/// What content mentions: its channels in order, and then the roles.
pub fn content_mentions(content: &str, roles: &Vec<u64>) -> (found: Vec<Mention>)
    ensures
        found@ == mentions_of(content@, roles@),
{
    let channels = mentioned_channels(content);
    let mut found: Vec<Mention> = Vec::new();
    let ghost of_channels = channels@.map_values(|id: u64| Mention::Channel(id));
    let ghost of_roles = roles@.map_values(|id: u64| Mention::Role(id));
    for i in 0..channels.len()
        invariant
            of_channels == channels@.map_values(|id: u64| Mention::Channel(id)),
            found@ == of_channels.take(i as int),
    {
        found.push(Mention::Channel(channels[i]));
        assert(found@ == of_channels.take(i + 1));
    }
    assert(found@ == of_channels + of_roles.take(0));
    for i in 0..roles.len()
        invariant
            of_roles == roles@.map_values(|id: u64| Mention::Role(id)),
            found@ == of_channels + of_roles.take(i as int),
    {
        found.push(Mention::Role(roles[i]));
        assert(found@ == of_channels + of_roles.take(i + 1));
    }
    assert(of_roles.take(roles@.len() as int) == of_roles);
    found
}

// ---------------------------------------------------------------------------
// What rewriting keeps
// ---------------------------------------------------------------------------

/// Content stays as it is when no lookup finds anything.
pub proof fn nothing_found_changes_nothing(
    content: Seq<char>,
    found: Seq<Mention>,
    dests: Seq<Option<u64>>,
)
    requires
        forall|k: int| 0 <= k < dests.len() ==> (#[trigger] dests[k]) is None,
    ensures
        rewritten(content, found, dests) == content,
    decreases dests.len(),
{
    if dests.len() > 0 {
        assert(dests.last() is None);
        assert forall|k: int| 0 <= k < dests.drop_last().len() implies (
        #[trigger] dests.drop_last()[k]) is None by {
            assert(dests.drop_last()[k] == dests[k]);
        }
        nothing_found_changes_nothing(content, found, dests.drop_last());
    }
}

/// Content without a `<` mentions no channel.
pub proof fn plain_content_mentions_nothing(content: Seq<char>, i: int)
    requires
        0 <= i <= content.len(),
        forall|j: int| i <= j < content.len() ==> (#[trigger] content[j]) != '<',
    ensures
        mentions_from(content, i).len() == 0,
    decreases content.len() - i,
{
    if i < content.len() {
        assert(content[i] != '<');
        plain_content_mentions_nothing(content, i + 1);
    }
}

/// Content without a `<` stays as it is, whatever is looked up and found.
pub proof fn plain_content_is_kept(
    content: Seq<char>,
    found: Seq<Mention>,
    dests: Seq<Option<u64>>,
)
    requires
        forall|j: int| 0 <= j < content.len() ==> (#[trigger] content[j]) != '<',
    ensures
        rewritten(content, found, dests) == content,
    decreases dests.len(),
{
    if dests.len() > 0 {
        plain_content_is_kept(content, found, dests.drop_last());
        let mention = found[dests.len() - 1];
        match dests.last() {
            Some(id) => {
                let from = mention.token();
                let to = mention.spec_with_id(id).token();
                token_shape(mention);
                assert forall|j: int| 0 <= j < content.len() implies !occurs_at(
                    content,
                    j,
                    from,
                ) by {
                    if occurs_at(content, j, from) {
                        assert(content.subrange(j, j + from.len())[0] == from[0]);
                        assert(content[j] != '<');
                    }
                }
                replaced_without_occurrence(content, 0, from, to);
                assert(content.skip(0) == content);
            },
            None => {},
        }
    }
}

/// A mention is written with a `<` in front and is never empty.
pub proof fn token_shape(mention: Mention)
    ensures
        mention.token().len() >= 4,
        mention.token()[0] == '<',
        mention.token().last() == '>',
{
    reveal_strlit("<#");
    reveal_strlit("<@&");
    reveal_strlit(">");
    decimal_round_trip(mention.spec_id() as nat);
}

/// Content that is one mention becomes the mention of what was found for it.
pub proof fn lone_mention_is_carried_over(mention: Mention, dest: u64)
    ensures
        rewritten(mention.token(), seq![mention], seq![Some(dest)]) == mention.spec_with_id(
            dest,
        ).token(),
{
    token_shape(mention);
    let dests = seq![Some(dest)];
    assert(dests.drop_last() == Seq::<Option<u64>>::empty());
    assert(rewritten(mention.token(), seq![mention], dests.drop_last()) == mention.token());
    replaced_whole(mention.token(), mention.spec_with_id(dest).token());
}

/// Content stays as it is where a mention leads to itself.
pub proof fn mention_of_itself_changes_nothing(content: Seq<char>, mention: Mention)
    ensures
        rewritten_once(content, mention, Some(mention.spec_id())) == content,
{
    replaced_by_itself(content, 0, mention.token());
    assert(content.skip(0) == content);
}

/// Different mentions are written differently.
pub proof fn tokens_are_distinct(a: Mention, b: Mention)
    requires
        a.token() == b.token(),
    ensures
        a == b,
{
    reveal_strlit("<#");
    reveal_strlit("<@&");
    reveal_strlit(">");
    decimal_round_trip(a.spec_id() as nat);
    decimal_round_trip(b.spec_id() as nat);
    assert(a.token()[1] == b.token()[1]);
    let len = a.token().len();
    match a {
        Mention::Channel(m) => {
            assert(a.token()[1] == '#');
            assert(b is Channel);
            assert(decimal(m as nat) == a.token().subrange(2, len - 1));
            assert(decimal(b.spec_id() as nat) == b.token().subrange(2, len - 1));
        },
        Mention::Role(m) => {
            assert(a.token()[1] == '@');
            assert(b is Role);
            assert(decimal(m as nat) == a.token().subrange(3, len - 1));
            assert(decimal(b.spec_id() as nat) == b.token().subrange(3, len - 1));
        },
    }
    decimal_injective(a.spec_id() as nat, b.spec_id() as nat);
}

} // verus!
