//! The application messages of a group.
use vstd::prelude::*;

verus! {

/// A message with its author.
#[derive(Debug)]
pub struct ConversationMessage {
    pub message: String,
    pub author: String,
}

impl ConversationMessage {
    /// A message by an author.
    pub fn new(message: String, author: String) -> (r: Self)
        ensures
            r == (ConversationMessage { message, author }),
    {
        ConversationMessage { message, author }
    }
}

impl Clone for ConversationMessage {
    fn clone(&self) -> (r: Self)
        ensures
            r == *self,
    {
        ConversationMessage { message: self.message.clone(), author: self.author.clone() }
    }
}

/// The messages of a group in the order in which they arrived.
#[derive(Debug)]
pub struct Conversation {
    pub messages: Vec<ConversationMessage>,
}

impl View for Conversation {
    type V = Seq<ConversationMessage>;

    open spec fn view(&self) -> Seq<ConversationMessage> {
        self.messages@
    }
}

impl Default for Conversation {
    fn default() -> (r: Self)
        ensures
            r@ == Seq::<ConversationMessage>::empty(),
    {
        Conversation { messages: Vec::new() }
    }
}

/// The last `n` items of a sequence, or all of a shorter one.
pub open spec fn last_n<T>(s: Seq<T>, n: nat) -> Seq<T> {
    if n > s.len() {
        s
    } else {
        s.skip(s.len() - n)
    }
}

impl Conversation {
    /// Appends a message.
    pub fn add(&mut self, message: ConversationMessage)
        ensures
            final(self)@ == old(self)@.push(message),
    {
        self.messages.push(message);
    }

    /// Copies of the last `n` messages.
    pub fn get(&self, n: usize) -> (r: Option<Vec<ConversationMessage>>)
        ensures
            r matches Some(messages) && messages@ == last_n(self@, n as nat),
    {
        let len = self.messages.len();
        let start: usize = if n > len {
            0
        } else {
            len - n
        };
        let mut r: Vec<ConversationMessage> = Vec::new();
        let mut i: usize = start;
        while i < len
            invariant
                start <= i <= len,
                len == self.messages.len(),
                r.len() == i - start,
                forall|j: int| 0 <= j < r.len() ==> #[trigger] r@[j] == self.messages@[start + j],
            decreases len - i,
        {
            r.push(self.messages[i].clone());
            i += 1;
        }
        assert(r@ =~= last_n(self@, n as nat));
        Some(r)
    }
}

} // verus!
