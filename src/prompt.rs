use vstd::prelude::*;

use crate::chat_role::ChatRole;

verus! {

/// One message of a transcript: who said it and what was said.
#[derive(Clone, Debug, PartialEq, Eq)]
pub struct Prompt {
    pub role: ChatRole,
    pub content: String,
}

impl View for Prompt {
    type V = (ChatRole, Seq<char>);

    open spec fn view(&self) -> (ChatRole, Seq<char>) {
        (self.role, self.content@)
    }
}

/// A transcript as a sequence of (role, content) values.
pub open spec fn transcript_model(v: Seq<Prompt>) -> Seq<(ChatRole, Seq<char>)> {
    v.map_values(|p: Prompt| p@)
}

impl Prompt {
    pub fn new(role: ChatRole, content: String) -> (r: Prompt)
        ensures
            r@ == (role, content@),
    {
        Prompt { role, content }
    }
}

} // verus!
