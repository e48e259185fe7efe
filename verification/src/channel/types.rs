//! Kinds of channels, and what is known of their subscribers.

use vstd::prelude::*;

use crate::json::{Json, JsonView};
use crate::model::{copy_option, opt_view, Duplicate};
use crate::table::Dict;
use crate::text::{same, split_once};

verus! {

/// The kind of a channel, which its name gives.
#[derive(Debug, Clone, Copy, PartialEq, Eq, Structural)]
pub enum ChannelType {
    Public,
    Private,
    Presence,
    PrivateEncrypted,
}

/// The kind of the channel with this name. A private or presence channel has the word before the
/// first hyphen; `private-encrypted`, as a whole name, is a kind of its own.
pub open spec fn channel_type(name: Seq<char>) -> ChannelType {
    if name == "private-encrypted"@ {
        ChannelType::PrivateEncrypted
    } else if "private-"@.is_prefix_of(name) {
        ChannelType::Private
    } else if "presence-"@.is_prefix_of(name) {
        ChannelType::Presence
    } else {
        ChannelType::Public
    }
}

/// Whether subscribers of the channel with this name have to be authenticated.
pub open spec fn restricted(name: Seq<char>) -> bool {
    channel_type(name) != ChannelType::Public
}

/// Subscribers have to be authenticated exactly on the channels whose names start with `private-`
/// or with `presence-`.
pub proof fn restricted_by_prefix(name: Seq<char>)
    ensures
        restricted(name) <==> "private-"@.is_prefix_of(name) || "presence-"@.is_prefix_of(name),
{
    reveal_strlit("private-");
    reveal_strlit("presence-");
    reveal_strlit("private-encrypted");
    assert("private-"@ =~= "private-encrypted"@.subrange(0, 8));
    assert("private-"@.is_prefix_of("private-encrypted"@));
}

impl ChannelType {
    /// The kind of the channel with this name.
    pub fn from_name(channel_name: &str) -> (r: Self)
        ensures
            r == channel_type(channel_name@),
    {
        proof {
            reveal_strlit("private");
            reveal_strlit("presence");
            reveal_strlit("encrypted");
            reveal_strlit("private-");
            reveal_strlit("presence-");
            reveal_strlit("private-encrypted");
        }
        match split_once(channel_name, '-') {
            Some((head, tail)) => {
                proof {
                    let name = channel_name@;
                    let n = head@.len() as int;
                    assert(name =~= head@ + seq!['-'] + tail@);
                    lemma_word_before_hyphen(name, head@, tail@, "private"@, "private-"@);
                    lemma_word_before_hyphen(name, head@, tail@, "presence"@, "presence-"@);
                    if head@ == "private"@ {
                        assert(name.subrange(8, name.len() as int) =~= tail@);
                        if tail@ == "encrypted"@ {
                            assert(name =~= "private-encrypted"@);
                        }
                        if name == "private-encrypted"@ {
                            assert(tail@ =~= "encrypted"@);
                        }
                    } else if name == "private-encrypted"@ {
                        assert("private-"@ =~= name.subrange(0, 8));
                        assert("private-"@.is_prefix_of(name));
                    }
                }
                if same(head.as_str(), "private") {
                    if same(tail.as_str(), "encrypted") {
                        ChannelType::PrivateEncrypted
                    } else {
                        ChannelType::Private
                    }
                } else if same(head.as_str(), "presence") {
                    ChannelType::Presence
                } else {
                    ChannelType::Public
                }
            },
            None => {
                proof {
                    let name = channel_name@;
                    if "private-"@.is_prefix_of(name) {
                        assert(name[7] == "private-"@[7]);
                        assert(name.contains('-'));
                    }
                    if "presence-"@.is_prefix_of(name) {
                        assert(name[8] == "presence-"@[8]);
                        assert(name.contains('-'));
                    }
                    if name == "private-encrypted"@ {
                        assert(name[7] == '-');
                        assert(name.contains('-'));
                    }
                }
                ChannelType::Public
            },
        }
    }

    /// Whether subscribers of such a channel have to be authenticated.
    pub fn requires_authentication(&self) -> (r: bool)
        ensures
            r == (*self != ChannelType::Public),
    {
        match self {
            ChannelType::Private | ChannelType::Presence | ChannelType::PrivateEncrypted => true,
            ChannelType::Public => false,
        }
    }
}

/// A name that is split at its first hyphen starts with a word and a hyphen exactly where the
/// first part is that word.
proof fn lemma_word_before_hyphen(
    name: Seq<char>,
    head: Seq<char>,
    tail: Seq<char>,
    word: Seq<char>,
    prefix: Seq<char>,
)
    requires
        name == head + seq!['-'] + tail,
        !head.contains('-'),
        prefix =~= word + seq!['-'],
        !word.contains('-'),
    ensures
        prefix.is_prefix_of(name) <==> head == word,
{
    let n = head.len() as int;
    let w = word.len() as int;
    assert(name[n] == '-');
    assert(prefix[w] == '-');
    if head == word {
        assert(prefix =~= name.subrange(0, prefix.len() as int));
    }
    if prefix.is_prefix_of(name) {
        assert(prefix =~= name.subrange(0, prefix.len() as int));
        assert(name[w] == prefix[w]);
        if n < w {
            assert(prefix[n] == name[n]);
            assert(word[n] == '-');
        }
        if w < n {
            assert(head[w] == name[w]);
        }
        assert forall|i: int| 0 <= i < n implies head[i] == word[i] by {
            assert(name[i] == prefix[i]);
        }
        assert(head =~= word);
    }
}

/// What is known of a member of a presence channel.
pub struct PresenceMemberInfo {
    pub user_id: String,
    pub user_info: Option<Json>,
}

/// What is known of a member, by its view.
#[verifier::ext_equal]
pub struct MemberView {
    pub user_id: Seq<char>,
    pub user_info: Option<JsonView>,
}

impl View for PresenceMemberInfo {
    type V = MemberView;

    open spec fn view(&self) -> MemberView {
        MemberView { user_id: self.user_id@, user_info: opt_view(self.user_info) }
    }
}

impl Duplicate for PresenceMemberInfo {
    fn duplicate(&self) -> (r: Self) {
        PresenceMemberInfo {
            user_id: self.user_id.clone(),
            user_info: copy_option(&self.user_info),
        }
    }
}

impl Clone for PresenceMemberInfo {
    fn clone(&self) -> (r: Self)
        ensures
            r@ == self@,
    {
        self.duplicate()
    }
}

/// A channel with its subscribers.
pub struct Channel {
    pub name: String,
    pub channel_type: ChannelType,
    pub subscribers: Dict<SubscriptionInfo>,
}

/// A subscriber of a channel.
pub struct SubscriptionInfo {
    pub socket_id: String,
    pub presence_info: Option<PresenceMemberInfo>,
}

/// The kind of a channel by its name: `private-encrypted` is of its own kind, other names that start
/// with `private-` are private, those that start with `presence-` are presence channels, and all others
/// are public.
pub proof fn kind_is_told_by_the_name(name: Seq<char>)
    ensures
        channel_type("private-encrypted"@) == ChannelType::PrivateEncrypted,
        "private-"@.is_prefix_of(name) && name != "private-encrypted"@ ==> channel_type(name)
            == ChannelType::Private,
        "presence-"@.is_prefix_of(name) ==> channel_type(name) == ChannelType::Presence,
        !"private-"@.is_prefix_of(name) && !"presence-"@.is_prefix_of(name) ==> channel_type(name)
            == ChannelType::Public,
{
    restricted_by_prefix(name);
    reveal_strlit("private-");
    reveal_strlit("presence-");
    reveal_strlit("private-encrypted");
    if "presence-"@.is_prefix_of(name) {
        assert(name[2] == "presence-"@[2]);
        assert("private-encrypted"@[2] == 'i');
        if "private-"@.is_prefix_of(name) {
            assert(name[2] == "private-"@[2]);
        }
    }
}

} // verus!
