use vstd::prelude::*;
use std::collections::VecDeque;
use crate::api::{
    assistant_message, entry_views, message_views, user_message, ChatLogEntry, EntryView, Message,
    MessageView,
};
use crate::text::{estimate_tokens, token_estimate};

verus! {

/// The transcript laid out as the messages of one conversation, oldest
/// first: each entry gives its prompt, then its reply.
pub open spec fn conversation(transcript: Seq<EntryView>) -> Seq<MessageView> {
    Seq::new(
        2 * transcript.len(),
        |i: int|
            if i % 2 == 0 {
                user_message(transcript[i / 2].message)
            } else {
                assistant_message(transcript[i / 2].response)
            },
    )
}

/// The token cost that the service reported for each message of
/// [`conversation`], in the same order.
pub open spec fn conversation_costs(transcript: Seq<EntryView>) -> Seq<nat> {
    Seq::new(
        2 * transcript.len(),
        |i: int|
            if i % 2 == 0 {
                transcript[i / 2].num_tokens_message
            } else {
                transcript[i / 2].num_tokens_response
            },
    )
}

/// How many of the newest items can be taken, newest first, before one
/// would push the running total `used` over `budget`. The scan stops at
/// the first item that does not fit, whatever lies behind it.
pub open spec fn affordable(costs: Seq<nat>, used: nat, budget: nat) -> nat
    decreases costs.len(),
{
    if costs.len() == 0 || used + costs.last() > budget {
        0
    } else {
        1 + affordable(costs.drop_last(), used + costs.last(), budget)
    }
}

/// How many messages of the transcript are replayed before a new message
/// `text` under `budget`.
pub open spec fn replayed(transcript: Seq<EntryView>, budget: nat, text: Seq<char>) -> nat {
    affordable(conversation_costs(transcript), token_estimate(text), budget)
}

/// The request window for a new message `text`: the newest `replayed`
/// messages of the conversation, in their order, and the new message last.
pub open spec fn window(transcript: Seq<EntryView>, budget: nat, text: Seq<char>) -> Seq<
    MessageView,
> {
    let past = conversation(transcript);
    past.subrange(past.len() - replayed(transcript, budget, text), past.len() as int).push(
        user_message(text),
    )
}

/// The sum of the newest `count` costs.
pub open spec fn newest_total(costs: Seq<nat>, count: nat) -> nat
    decreases count,
{
    if count == 0 || costs.len() == 0 {
        0
    } else {
        costs.last() + newest_total(costs.drop_last(), (count - 1) as nat)
    }
}

/// Whether message `index` of the conversation is replayed in the window
/// for `text` under `budget`. The prompt of entry `k` is message `2 * k`,
/// its reply is message `2 * k + 1`.
pub open spec fn replays(
    transcript: Seq<EntryView>,
    budget: nat,
    text: Seq<char>,
    index: int,
) -> bool {
    2 * transcript.len() - replayed(transcript, budget, text) <= index < 2 * transcript.len()
}

/// No more can be taken than there is.
pub proof fn lemma_affordable_bounded(costs: Seq<nat>, used: nat, budget: nat)
    ensures
        affordable(costs, used, budget) <= costs.len(),
    decreases costs.len(),
{
    if costs.len() > 0 && used + costs.last() <= budget {
        lemma_affordable_bounded(costs.drop_last(), used + costs.last(), budget);
    }
}

/// What is taken fits: once anything is taken, the running total with all
/// that is taken stays within the budget. And the scan takes all it can:
/// the next older item, if there is one, would not fit.
pub proof fn lemma_affordable_fits(costs: Seq<nat>, used: nat, budget: nat)
    ensures
        affordable(costs, used, budget) > 0 ==> used + newest_total(
            costs,
            affordable(costs, used, budget),
        ) <= budget,
        affordable(costs, used, budget) < costs.len() ==> used + newest_total(
            costs,
            affordable(costs, used, budget) + 1,
        ) > budget,
    decreases costs.len(),
{
    if costs.len() > 0 && used + costs.last() <= budget {
        let rest = costs.drop_last();
        let spent = used + costs.last();
        lemma_affordable_fits(rest, spent, budget);
        lemma_affordable_bounded(rest, spent, budget);
        let more = affordable(rest, spent, budget);
        assert(newest_total(costs, more + 1) == costs.last() + newest_total(rest, more));
        if more < rest.len() {
            assert(newest_total(costs, more + 2) == costs.last() + newest_total(
                rest,
                more + 1,
            ));
        }
    } else if costs.len() > 0 {
        assert(newest_total(costs.drop_last(), 0) == 0);
        assert(newest_total(costs, 1) == costs.last());
    }
}

/// A larger budget takes at least as many items.
pub proof fn lemma_affordable_monotonic(costs: Seq<nat>, used: nat, budget: nat, larger: nat)
    requires
        budget <= larger,
    ensures
        affordable(costs, used, budget) <= affordable(costs, used, larger),
    decreases costs.len(),
{
    if costs.len() > 0 && used + costs.last() <= budget {
        lemma_affordable_monotonic(costs.drop_last(), used + costs.last(), budget, larger);
    }
}

/// The shape of every window: the new message stands last, whatever the
/// budget, and before it stand the newest messages of the conversation, in
/// their order and without a gap.
pub proof fn lemma_window_shape(transcript: Seq<EntryView>, budget: nat, text: Seq<char>)
    ensures
        replayed(transcript, budget, text) <= 2 * transcript.len(),
        window(transcript, budget, text).len() == replayed(transcript, budget, text) + 1,
        window(transcript, budget, text).last() == user_message(text),
        forall|index: int| #[trigger]
            replays(transcript, budget, text, index) ==> window(transcript, budget, text)[index
                - (2 * transcript.len() - replayed(transcript, budget, text))] == conversation(
                transcript,
            )[index],
{
    lemma_affordable_bounded(conversation_costs(transcript), token_estimate(text), budget);
}

/// No prompt is replayed without its reply: in a window, only the oldest
/// replayed entry can be partial, and then it is its reply that is there
/// and its prompt that is not. Every newer entry is replayed whole, and
/// nothing of an older one.
pub proof fn lemma_prompt_only_with_reply(
    transcript: Seq<EntryView>,
    budget: nat,
    text: Seq<char>,
    entry: int,
)
    requires
        0 <= entry < transcript.len(),
    ensures
        replays(transcript, budget, text, 2 * entry) ==> replays(
            transcript,
            budget,
            text,
            2 * entry + 1,
        ),
        replays(transcript, budget, text, 2 * entry + 1) ==> forall|newer: int|
            entry < newer < transcript.len() ==> #[trigger] replays(
                transcript,
                budget,
                text,
                2 * newer,
            ) && replays(transcript, budget, text, 2 * newer + 1),
        !replays(transcript, budget, text, 2 * entry) ==> forall|older: int|
            0 <= older < entry ==> !#[trigger] replays(transcript, budget, text, 2 * older)
                && !replays(transcript, budget, text, 2 * older + 1),
{
    lemma_affordable_bounded(conversation_costs(transcript), token_estimate(text), budget);
}

/// Raising the budget drops nothing: whatever is replayed under `budget` is
/// replayed under any larger one.
pub proof fn lemma_window_monotonic(
    transcript: Seq<EntryView>,
    budget: nat,
    larger: nat,
    text: Seq<char>,
)
    requires
        budget <= larger,
    ensures
        replayed(transcript, budget, text) <= replayed(transcript, larger, text),
        forall|index: int| #[trigger]
            replays(transcript, budget, text, index) ==> replays(transcript, larger, text, index),
{
    lemma_affordable_monotonic(
        conversation_costs(transcript),
        token_estimate(text),
        budget,
        larger,
    );
}

/// With no transcript the window is the new message alone.
pub proof fn lemma_window_of_empty_transcript(budget: nat, text: Seq<char>)
    ensures
        window(Seq::<EntryView>::empty(), budget, text) == seq![user_message(text)],
{
    assert(window(Seq::<EntryView>::empty(), budget, text) =~= seq![user_message(text)]);
}

/// The replayed messages fit the budget together with the estimate of the
/// new one, whenever anything is replayed at all. And nothing more would
/// fit: with the next older message, if there is one, they would not.
pub proof fn lemma_window_within_budget(transcript: Seq<EntryView>, budget: nat, text: Seq<char>)
    ensures
        replayed(transcript, budget, text) > 0 ==> token_estimate(text) + newest_total(
            conversation_costs(transcript),
            replayed(transcript, budget, text),
        ) <= budget,
        replayed(transcript, budget, text) < 2 * transcript.len() ==> token_estimate(text)
            + newest_total(
            conversation_costs(transcript),
            replayed(transcript, budget, text) + 1,
        ) > budget,
{
    lemma_affordable_fits(conversation_costs(transcript), token_estimate(text), budget);
}

/// Builds the request window for a new message: walks the transcript from
/// its newest entry backwards, takes each reply and then its prompt while
/// the running token count stays within `max_tokens`, stops at the first
/// that does not fit, and puts the new message last.
pub fn build_window(chatlog: &Vec<ChatLogEntry>, max_tokens: u32, message: &str) -> (request: Vec<
    Message,
>)
    ensures
        message_views(request@) == window(entry_views(chatlog@), max_tokens as nat, message@),
{
    let ghost transcript = entry_views(chatlog@);
    let ghost costs = conversation_costs(transcript);
    let ghost past = conversation(transcript);
    let ghost seed = token_estimate(message@);
    let ghost budget = max_tokens as nat;
    let total: usize = chatlog.len();

    let mut messages: VecDeque<Message> = VecDeque::new();
    let mut used: u128 = estimate_tokens(message) as u128;
    proof {
        assert(message_views(messages@) =~= past.subrange(past.len() as int, past.len() as int));
        assert(costs.take(costs.len() as int) == costs);
        lemma_affordable_bounded(costs, seed, budget);
    }
    let mut i: usize = total;
    while i > 0
        invariant_except_break
            i <= total,
            message_views(messages@) == past.subrange(2 * i, 2 * total),
            affordable(costs, seed, budget) == 2 * (total - i) + affordable(
                costs.take(2 * i),
                used as nat,
                budget,
            ),
        invariant
            total == chatlog.len(),
            transcript == entry_views(chatlog@),
            costs == conversation_costs(transcript),
            past == conversation(transcript),
            budget == max_tokens,
            seed <= usize::MAX,
            used <= seed + budget,
            affordable(costs, seed, budget) <= 2 * total,
        ensures
            message_views(messages@) == past.subrange(
                2 * total - affordable(costs, seed, budget),
                2 * total,
            ),
        decreases i,
    {
        let entry = &chatlog[i - 1];
        let ghost older = messages@;
        let ghost reply_at = 2 * i - 1;
        let ghost prompt_at = 2 * i - 2;
        proof {
            assert(transcript[i - 1] == entry@);
            assert(past.len() == 2 * total && costs.len() == 2 * total);
            assert(reply_at / 2 == i - 1 && reply_at % 2 == 1);
            assert(prompt_at / 2 == i - 1 && prompt_at % 2 == 0);
            assert(message_views(older).len() == 2 * total - 2 * i);
            assert(costs.take(2 * i).last() == entry.num_tokens_response);
            assert(costs.take(2 * i).drop_last() == costs.take(reply_at));
            assert(costs.take(reply_at).last() == entry.num_tokens_message);
            assert(costs.take(reply_at).drop_last() == costs.take(prompt_at));
        }
        let reply_tokens = entry.num_tokens_response as u128;
        if used + reply_tokens > max_tokens as u128 {
            assert(affordable(costs.take(2 * i), used as nat, budget) == 0);
            break ;
        }
        messages.push_front(Message::new(entry.response.as_str(), "assistant"));
        let ghost with_reply = messages@;
        proof {
            assert(with_reply == seq![with_reply[0]] + older);
            assert forall|j: int| 0 <= j < with_reply.len() implies message_views(with_reply)[j]
                == past.subrange(reply_at, 2 * total)[j] by {
                if j > 0 {
                    assert(message_views(with_reply)[j] == message_views(older)[j - 1]);
                }
            }
            assert(message_views(with_reply) =~= past.subrange(reply_at, 2 * total));
            assert(affordable(costs.take(2 * i), used as nat, budget) == 1 + affordable(
                costs.take(reply_at),
                (used + reply_tokens) as nat,
                budget,
            ));
        }
        used = used + reply_tokens;
        let prompt_tokens = entry.num_tokens_message as u128;
        if used + prompt_tokens > max_tokens as u128 {
            assert(affordable(costs.take(reply_at), used as nat, budget) == 0);
            break ;
        }
        messages.push_front(Message::new(entry.message.as_str(), "user"));
        proof {
            let with_prompt = messages@;
            assert(with_prompt == seq![with_prompt[0]] + with_reply);
            assert forall|j: int| 0 <= j < with_prompt.len() implies message_views(with_prompt)[j]
                == past.subrange(prompt_at, 2 * total)[j] by {
                if j > 0 {
                    assert(message_views(with_prompt)[j] == message_views(with_reply)[j - 1]);
                }
            }
            assert(message_views(with_prompt) =~= past.subrange(prompt_at, 2 * total));
            assert(affordable(costs.take(reply_at), used as nat, budget) == 1 + affordable(
                costs.take(prompt_at),
                (used + prompt_tokens) as nat,
                budget,
            ));
        }
        used = used + prompt_tokens;
        i = i - 1;
    }
    messages.push_back(Message::new(message, "user"));
    assert(message_views(messages@) =~= window(transcript, budget, message@));

    let mut request: Vec<Message> = Vec::new();
    let ghost queued = messages@;
    while messages.len() > 0
        invariant
            request@ + messages@ == queued,
        decreases messages.len(),
    {
        match messages.pop_front() {
            Some(m) => {
                request.push(m);
            },
            None => {},
        }
        assert(request@ + messages@ =~= queued);
    }
    assert(request@ =~= queued);
    request
}

} // verus!
