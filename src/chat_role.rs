use vstd::prelude::*;

use crate::error::CodecError;
use crate::text::chars_of;

verus! {

/// The author of one message of a transcript.
#[derive(PartialEq, Eq, Structural, Clone, Copy, Debug)]
pub enum ChatRole {
    System,
    Assistant,
    User,
    Tool,
}

/// The wire tag of a role.
pub open spec fn role_tag(r: ChatRole) -> Seq<char> {
    match r {
        ChatRole::System => seq!['s', 'y', 's', 't', 'e', 'm'],
        ChatRole::Assistant => seq!['a', 's', 's', 'i', 's', 't', 'a', 'n', 't'],
        ChatRole::User => seq!['u', 's', 'e', 'r'],
        ChatRole::Tool => seq!['t', 'o', 'o', 'l'],
    }
}

/// The role whose wire tag is `t`, if any.
pub open spec fn role_of_tag(t: Seq<char>) -> Option<ChatRole> {
    if t == role_tag(ChatRole::System) {
        Some(ChatRole::System)
    } else if t == role_tag(ChatRole::Assistant) {
        Some(ChatRole::Assistant)
    } else if t == role_tag(ChatRole::User) {
        Some(ChatRole::User)
    } else if t == role_tag(ChatRole::Tool) {
        Some(ChatRole::Tool)
    } else {
        None
    }
}

/// Every role is read back from its own tag.
pub proof fn lemma_role_tag_inverse(r: ChatRole)
    ensures
        role_of_tag(role_tag(r)) == Some(r),
{
    assert(role_tag(ChatRole::System) != role_tag(ChatRole::Assistant)) by {
        assert(role_tag(ChatRole::System).len() != role_tag(ChatRole::Assistant).len());
    }
    assert(role_tag(ChatRole::System) != role_tag(ChatRole::User)) by {
        assert(role_tag(ChatRole::System).len() != role_tag(ChatRole::User).len());
    }
    assert(role_tag(ChatRole::System) != role_tag(ChatRole::Tool)) by {
        assert(role_tag(ChatRole::System).len() != role_tag(ChatRole::Tool).len());
    }
    assert(role_tag(ChatRole::Assistant) != role_tag(ChatRole::User)) by {
        assert(role_tag(ChatRole::Assistant).len() != role_tag(ChatRole::User).len());
    }
    assert(role_tag(ChatRole::Assistant) != role_tag(ChatRole::Tool)) by {
        assert(role_tag(ChatRole::Assistant).len() != role_tag(ChatRole::Tool).len());
    }
    assert(role_tag(ChatRole::User) != role_tag(ChatRole::Tool)) by {
        assert(role_tag(ChatRole::User)[0] != role_tag(ChatRole::Tool)[0]);
    }
}

/// Whether `a` holds exactly the characters of `b`.
fn chars_match(a: &Vec<char>, b: &str) -> (r: bool)
    ensures
        r == (a@ == b@),
{
    let n = b.unicode_len();
    if a.len() != n {
        return false;
    }
    let mut i: usize = 0;
    while i < n
        invariant
            n == a.len(),
            n == b@.len(),
            i <= n,
            a@.subrange(0, i as int) == b@.subrange(0, i as int),
        decreases n - i,
    {
        if a[i] != b.get_char(i) {
            return false;
        }
        assert(a@.subrange(0, i + 1) == a@.subrange(0, i as int).push(a@[i as int]));
        assert(b@.subrange(0, i + 1) == b@.subrange(0, i as int).push(b@[i as int]));
        i = i + 1;
    }
    assert(a@ == a@.subrange(0, n as int));
    assert(b@ == b@.subrange(0, n as int));
    true
}

impl ChatRole {
    /// The wire tag of this role.
    pub fn tag(&self) -> (r: &'static str)
        ensures
            r@ == role_tag(*self),
    {
        match self {
            ChatRole::System => {
                proof {
                    reveal_strlit("system");
                }
                "system"
            },
            ChatRole::Assistant => {
                proof {
                    reveal_strlit("assistant");
                }
                "assistant"
            },
            ChatRole::User => {
                proof {
                    reveal_strlit("user");
                }
                "user"
            },
            ChatRole::Tool => {
                proof {
                    reveal_strlit("tool");
                }
                "tool"
            },
        }
    }

    /// Reads a role from its wire tag; an unknown tag is an `InvalidRole`.
    pub fn from_tag(t: &str) -> (r: Result<ChatRole, CodecError>)
        ensures
            r == (match role_of_tag(t@) {
                Some(role) => Ok(role),
                None => Err(CodecError::InvalidRole),
            }),
    {
        ChatRole::from_tag_chars(&chars_of(t))
    }

    /// Reads a role from its wire tag, given as characters; an unknown tag is
    /// an `InvalidRole`.
    pub fn from_tag_chars(t: &Vec<char>) -> (r: Result<ChatRole, CodecError>)
        ensures
            r == (match role_of_tag(t@) {
                Some(role) => Ok(role),
                None => Err(CodecError::InvalidRole),
            }),
    {
        if chars_match(t, ChatRole::System.tag()) {
            Ok(ChatRole::System)
        } else if chars_match(t, ChatRole::Assistant.tag()) {
            Ok(ChatRole::Assistant)
        } else if chars_match(t, ChatRole::User.tag()) {
            Ok(ChatRole::User)
        } else if chars_match(t, ChatRole::Tool.tag()) {
            Ok(ChatRole::Tool)
        } else {
            Err(CodecError::InvalidRole)
        }
    }
}

} // verus!
