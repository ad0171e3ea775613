//! The command service: reads chat lines and answers the `!first` command.
use vstd::prelude::*;
use crate::common::helpers::{current_timestamp, is_clock_timestamp};
use crate::common::types::{BroadcastMessage, IrcMessage, MessageContent, ServiceSender, Services};
use crate::state::{arrived, no_repeats, CommandsState};
use crate::text::{decimal, first_word, first_word_of};

verus! {

/// The command a chat line carries: its first word, when the line starts
/// with `!`.
pub open spec fn command_of(text: Seq<char>) -> Option<Seq<char>> {
    if text.len() > 0 && text[0] == '!' {
        first_word(text)
    } else {
        None
    }
}

/// The answer to `!first` for a chatter who is the `earlier + 1`-th to arrive.
pub open spec fn first_reply_text(login: Seq<char>, earlier: nat) -> Seq<char> {
    if earlier == 0 {
        "Valeu por chegar aqui cedo @"@ + login
    } else {
        "Foi por pouco @"@ + login + ", mas você foi o nº "@ + decimal(earlier + 1)
            + " a chegar PogChamp"@
    }
}

/// The arrival list after `login` answers `!first`.
pub open spec fn list_after_first(list: Seq<String>, login: String) -> Seq<String> {
    if arrived(list, login@) {
        list
    } else {
        list.push(login)
    }
}

/// The answer to `login`'s `!first`: none for a chatter already in the list.
pub open spec fn answer_to_first(list: Seq<String>, login: Seq<char>) -> Option<Seq<char>> {
    if arrived(list, login) {
        None
    } else {
        Some(first_reply_text(login, list.len()))
    }
}

/// The login of the chatter whose line in `data` is a `!first` command.
pub open spec fn first_command_login(data: BroadcastMessage) -> Option<String> {
    match data.raw_message {
        MessageContent::ServerMessage(IrcMessage::Privmsg(p)) => {
            if command_of(p.message_text@) == Some("!first"@) {
                Some(p.login)
            } else {
                None
            }
        },
        _ => None,
    }
}

/// The message that carries `text` from the command service to the chat,
/// stamped with a clock reading.
pub open spec fn is_chat_reply(m: BroadcastMessage, text: Seq<char>) -> bool {
    &&& is_clock_timestamp(m.timestamp)
    &&& m.sender == Services::Command
    &&& m.to == Some(Services::Irc)
    &&& m.raw_message matches MessageContent::String(t) && t@ == text
}

/// The message that `first` answers with, given the answer text.
pub open spec fn first_message_matches(reply: Option<BroadcastMessage>, answer: Option<Seq<char>>) -> bool {
    match answer {
        None => reply is None,
        Some(text) => reply matches Some(m) && is_chat_reply(m, text),
    }
}

/// A login counts as arrived exactly when some entry of the list equals it,
/// whatever the list's length.
pub proof fn lemma_arrived_means_listed(list: Seq<String>, login: Seq<char>)
    ensures
        arrived(list, login) <==> exists|i: int| 0 <= i < list.len() && list[i]@ == login,
{
}

/// Any login that is not in the arrival list is answered and appended at the
/// end, however long the list already is; the answer is the greeting when the
/// list is empty and otherwise carries the number `list.len() + 1`.
pub proof fn lemma_new_login_is_answered(list: Seq<String>, login: String)
    requires
        forall|i: int| 0 <= i < list.len() ==> (#[trigger] list[i])@ != login@,
    ensures
        list_after_first(list, login) == list.push(login),
        answer_to_first(list, login@) == Some(first_reply_text(login@, list.len())),
        list.len() == 0 ==> answer_to_first(list, login@) == Some(
            "Valeu por chegar aqui cedo @"@ + login@,
        ),
        list.len() > 0 ==> answer_to_first(list, login@) == Some(
            "Foi por pouco @"@ + login@ + ", mas você foi o nº "@ + decimal(list.len() + 1)
                + " a chegar PogChamp"@,
        ),
{
    if arrived(list, login@) {
        let i = choose|i: int| 0 <= i < list.len() && #[trigger] list[i]@ == login@;
        assert(list[i]@ != login@);
    }
}

/// A login already in the arrival list gets no answer, and the list stays as
/// it is.
pub proof fn lemma_listed_login_is_ignored(list: Seq<String>, login: String, i: int)
    requires
        0 <= i < list.len(),
        list[i]@ == login@,
    ensures
        answer_to_first(list, login@) is None,
        list_after_first(list, login) == list,
{
    assert(arrived(list, login@));
}

/// A line that starts with `!` is a command whatever its length, and its
/// command is its first white-space separated word.
pub proof fn lemma_bang_line_is_a_command(text: Seq<char>)
    requires
        text.len() > 0,
        text[0] == '!',
    ensures
        command_of(text) == first_word(text),
        command_of(text) is Some,
{
    assert(!crate::text::unicode_white_space(text[0]));
    crate::text::lemma_first_word_is_first_run(text, 0, 1);
}

/// `!first` on its own, or followed by a space and anything at all, is the
/// `!first` command.
pub proof fn lemma_first_command_with_any_tail(rest: Seq<char>)
    ensures
        command_of("!first"@) == Some("!first"@),
        command_of("!first"@ + " "@ + rest) == Some("!first"@),
{
    reveal_strlit("!first");
    reveal_strlit(" ");
    let w = "!first"@;
    let line = w + " "@ + rest;
    assert(line[6] == ' ');
    assert forall|t: int| 0 <= t < 6 implies !crate::text::unicode_white_space(#[trigger] line[t]) by {
        assert(line[t] == w[t]);
    }
    crate::text::lemma_first_word_is_first_run(line, 0, 6);
    assert(line.subrange(0, 6) =~= w);
    assert forall|t: int| 0 <= t < 6 implies !crate::text::unicode_white_space(#[trigger] w[t]) by {}
    crate::text::lemma_first_word_is_first_run(w, 0, 6);
    assert(w.subrange(0, 6) =~= w);
}

/// A chatter is answered only once: after `login` answers `!first`, a second
/// `!first` from the same login gets no answer and leaves the list as it is.
pub proof fn lemma_first_answers_once(list: Seq<String>, login: String)
    ensures
        arrived(list_after_first(list, login), login@),
        answer_to_first(list_after_first(list, login), login@) is None,
        list_after_first(list_after_first(list, login), login) == list_after_first(list, login),
{
    if !arrived(list, login@) {
        let after = list.push(login);
        assert(after[list.len() as int]@ == login@);
    }
}

/// Answering `!first` never puts a login twice in the arrival list.
pub proof fn lemma_first_keeps_logins_distinct(list: Seq<String>, login: String)
    requires
        no_repeats(list),
    ensures
        no_repeats(list_after_first(list, login)),
{
    if !arrived(list, login@) {
        let after = list.push(login);
        assert forall|a: int, b: int| 0 <= a < b < after.len() implies #[trigger] after[a]@
            != #[trigger] after[b]@ by {
            if b == list.len() {
                assert(after[a] == list[a]);
                if list[a]@ == login@ {
                    assert(arrived(list, login@));
                }
            } else {
                assert(after[a] == list[a] && after[b] == list[b]);
            }
        }
    }
}

/// The `n`-th chatter to arrive, for `n` at least two, is told its number `n`;
/// the first is greeted without a number.
pub proof fn lemma_first_reply_counts_arrivals(list: Seq<String>, login: String)
    requires
        !arrived(list, login@),
    ensures
        list.len() == 0 ==> answer_to_first(list, login@) == Some("Valeu por chegar aqui cedo @"@ + login@),
        list.len() > 0 ==> answer_to_first(list, login@) == Some(
            "Foi por pouco @"@ + login@ + ", mas você foi o nº "@ + decimal(
                list_after_first(list, login).len(),
            ) + " a chegar PogChamp"@,
        ),
{
}

/// The arrival list of a command service that started with an empty list and
/// took the messages `ms` in order: the logins it answered, in order.
pub open spec fn answered_logins(ms: Seq<BroadcastMessage>) -> Seq<String>
    decreases ms.len(),
{
    if ms.len() == 0 {
        Seq::empty()
    } else {
        let earlier = answered_logins(ms.drop_last());
        match first_command_login(ms.last()) {
            Some(login) => list_after_first(earlier, login),
            None => earlier,
        }
    }
}

/// The text the command service answers `ms[j]` with, in a run that started
/// with an empty list and took `ms` in order; `None` when it does not answer.
pub open spec fn run_answer(ms: Seq<BroadcastMessage>, j: int) -> Option<Seq<char>> {
    match first_command_login(ms[j]) {
        Some(login) => answer_to_first(answered_logins(ms.take(j)), login@),
        None => None,
    }
}

/// Taking one more message: a command service whose list is that of a run
/// `ms` and that handles `m` ends with the list of `ms` followed by `m`, and
/// answers `m` as `run_answer` says.
pub proof fn lemma_command_run_step(ms: Seq<BroadcastMessage>, m: BroadcastMessage)
    ensures
        answered_logins(ms.push(m)) == match first_command_login(m) {
            Some(login) => list_after_first(answered_logins(ms), login),
            None => answered_logins(ms),
        },
        run_answer(ms.push(m), ms.len() as int) == match first_command_login(m) {
            Some(login) => answer_to_first(answered_logins(ms), login@),
            None => None,
        },
{
    assert(ms.push(m).drop_last() == ms);
    assert(ms.push(m).take(ms.len() as int) == ms);
}

/// The logins answered by the end of a run are pairwise distinct.
pub proof fn lemma_command_run_logins_distinct(ms: Seq<BroadcastMessage>)
    ensures
        no_repeats(answered_logins(ms)),
    decreases ms.len(),
{
    if ms.len() > 0 {
        lemma_command_run_logins_distinct(ms.drop_last());
        if let Some(login) = first_command_login(ms.last()) {
            lemma_first_keeps_logins_distinct(answered_logins(ms.drop_last()), login);
        }
    }
}

/// What a run has answered after its first `j` messages stays at the front of
/// what it has answered at the end.
pub proof fn lemma_command_run_prefix(ms: Seq<BroadcastMessage>, j: int)
    requires
        0 <= j <= ms.len(),
    ensures
        answered_logins(ms.take(j)).len() <= answered_logins(ms).len(),
        answered_logins(ms).take(answered_logins(ms.take(j)).len() as int) == answered_logins(
            ms.take(j),
        ),
    decreases ms.len(),
{
    if j == ms.len() {
        assert(ms.take(j) == ms);
        assert(answered_logins(ms).take(answered_logins(ms).len() as int) == answered_logins(ms));
    } else {
        let earlier = ms.drop_last();
        lemma_command_run_prefix(earlier, j);
        assert(earlier.take(j) == ms.take(j));
        let a = answered_logins(ms.take(j));
        let e = answered_logins(earlier);
        assert(answered_logins(ms).take(a.len() as int) == e.take(a.len() as int));
    }
}

/// The numbering of `!first` over a run that starts with an empty list: the
/// command service answers `ms[j]` exactly when it is a `!first` from a login
/// not answered before. The answer then goes to the next place of the
/// answered list, and its text is the greeting for the first answer and the
/// number `k + 1` for the answer at place `k > 0`.
pub proof fn lemma_command_run_numbering(ms: Seq<BroadcastMessage>, j: int)
    requires
        0 <= j < ms.len(),
    ensures
        ({
            let before = answered_logins(ms.take(j));
            let all = answered_logins(ms);
            match first_command_login(ms[j]) {
                Some(login) => if arrived(before, login@) {
                    &&& run_answer(ms, j) is None
                    &&& answered_logins(ms.take(j + 1)) == before
                } else {
                    &&& run_answer(ms, j) == Some(first_reply_text(login@, before.len()))
                    &&& answered_logins(ms.take(j + 1)) == before.push(login)
                    &&& before.len() < all.len()
                    &&& all[before.len() as int] == login
                },
                None => {
                    &&& run_answer(ms, j) is None
                    &&& answered_logins(ms.take(j + 1)) == before
                },
            }
        }),
{
    assert(ms.take(j + 1) == ms.take(j).push(ms[j]));
    lemma_command_run_step(ms.take(j), ms[j]);
    assert(ms.take(j + 1).take(j) == ms.take(j));
    lemma_command_run_prefix(ms, j + 1);
    let before = answered_logins(ms.take(j));
    let all = answered_logins(ms);
    if let Some(login) = first_command_login(ms[j]) {
        if !arrived(before, login@) {
            let next = before.push(login);
            assert(all.take(next.len() as int) == next);
            assert(all[before.len() as int] == all.take(next.len() as int)[before.len() as int]);
        }
    }
}

/// The command word of a chat line that starts with `!`, as the command
/// service reads it. The line must not be empty.
pub fn command_name(text: &str) -> (c: Option<String>)
    requires
        text@.len() > 0,
    ensures
        match c {
            Some(w) => command_of(text@) == Some(w@),
            None => command_of(text@) is None,
        },
{
    if text.get_char(0) == '!' {
        first_word_of(text)
    } else {
        None
    }
}

/// Records `login` as arrived and gives the text to answer with, or `None`
/// when `login` had already arrived.
pub fn first_reply(state: &mut CommandsState, login: String) -> (r: Option<String>)
    ensures
        final(state).first_list@ == list_after_first(old(state).first_list@, login),
        match r {
            Some(t) => answer_to_first(old(state).first_list@, login@) == Some(t@),
            None => answer_to_first(old(state).first_list@, login@) is None,
        },
{
    let n = state.first_list.len();
    let mut i: usize = 0;
    while i < n
        invariant
            n == state.first_list@.len(),
            i <= n,
            forall|t: int| 0 <= t < i ==> state.first_list@[t]@ != login@,
        decreases n - i,
    {
        if state.first_list[i] == login {
            assert(state.first_list@[i as int]@ == login@);
            return None;
        }
        i = i + 1;
    }
    assert(!arrived(state.first_list@, login@));
    let text = if n == 0 {
        let mut t = String::from_str("Valeu por chegar aqui cedo @");
        t.append(login.as_str());
        t
    } else {
        let mut t = String::from_str("Foi por pouco @");
        t.append(login.as_str());
        t.append(", mas você foi o nº ");
        let number = decimal_string_of_count(n);
        t.append(number.as_str());
        t.append(" a chegar PogChamp");
        t
    };
    state.first_list.push(login);
    Some(text)
}

/// `count + 1` written in decimal.
fn decimal_string_of_count(count: usize) -> (s: String)
    ensures
        s@ == decimal(count as nat + 1),
{
    crate::text::decimal_string(count as u128 + 1)
}

/// Answers `login`'s `!first`: the chat message to send, or `None` when
/// `login` had already arrived. The arrival list records `login` either way.
pub fn first(state: &mut CommandsState, login: String) -> (reply: Option<BroadcastMessage>)
    ensures
        final(state).first_list@ == list_after_first(old(state).first_list@, login),
        first_message_matches(reply, answer_to_first(old(state).first_list@, login@)),
{
    match first_reply(state, login) {
        Some(text) => Some(
            BroadcastMessage {
                timestamp: current_timestamp(),
                sender: Services::Command,
                raw_message: MessageContent::String(text),
                to: Some(Services::Irc),
            },
        ),
        None => None,
    }
}

/// What the command service does with a message from the broadcaster: a chat
/// line whose command is `!first` is answered as `first` does; anything else
/// is ignored. A chat line must not be empty.
pub fn handle_message(state: &mut CommandsState, data: &BroadcastMessage) -> (reply: Option<BroadcastMessage>)
    requires
        data.raw_message matches MessageContent::ServerMessage(IrcMessage::Privmsg(p))
            ==> p.message_text@.len() > 0,
    ensures
        match first_command_login(*data) {
            Some(login) => {
                &&& final(state).first_list@ == list_after_first(old(state).first_list@, login)
                &&& first_message_matches(reply, answer_to_first(old(state).first_list@, login@))
            },
            None => reply is None && final(state).first_list@ == old(state).first_list@,
        },
{
    match &data.raw_message {
        MessageContent::ServerMessage(IrcMessage::Privmsg(p)) => {
            let command = command_name(p.message_text.as_str());
            match command {
                Some(word) => {
                    let expected = String::from_str("!first");
                    if word == expected {
                        first(state, p.login.clone())
                    } else {
                        None
                    }
                },
                None => None,
            }
        },
        _ => None,
    }
}

/// The message with which the command service registers the channel
/// `sender` with the broadcaster.
pub fn add_service(sender: u64) -> (m: BroadcastMessage)
    ensures
        is_clock_timestamp(m.timestamp),
        m.sender == Services::Command,
        m.raw_message == MessageContent::AddService(
            ServiceSender { service: Services::Command, sender },
        ),
        m.to == Some(Services::Broadcaster),
{
    BroadcastMessage {
        timestamp: current_timestamp(),
        sender: Services::Command,
        raw_message: MessageContent::AddService(ServiceSender { service: Services::Command, sender }),
        to: Some(Services::Broadcaster),
    }
}

} // verus!
