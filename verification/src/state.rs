//! The bot's state that outlives a run: who has already arrived in the chat.
use vstd::prelude::*;

verus! {

/// Everything the bot keeps between runs.
#[derive(Clone, Debug)]
pub struct BotState {
    pub commands: CommandsState,
}

/// The command service's state.
#[derive(Clone, Debug)]
pub struct CommandsState {
    /// Login names of the chatters who answered `!first`, in order of arrival.
    pub first_list: Vec<String>,
}

/// Whether `login` is in the arrival list `list`.
pub open spec fn arrived(list: Seq<String>, login: Seq<char>) -> bool {
    exists|i: int| 0 <= i < list.len() && #[trigger] list[i]@ == login
}

/// No login appears twice in the arrival list `list`.
pub open spec fn no_repeats(list: Seq<String>) -> bool {
    forall|a: int, b: int| 0 <= a < b < list.len() ==> #[trigger] list[a]@ != #[trigger] list[b]@
}

impl BotState {
    /// Appends `visitor` to the end of the arrival list, whether or not it is
    /// already there. Writing the state back to storage is the caller's part.
    pub fn add_visitor(&mut self, visitor: String)
        ensures
            final(self).commands.first_list@ == old(self).commands.first_list@.push(visitor),
    {
        self.commands.first_list.push(visitor);
    }
}

} // verus!
