//! Peer tags and feedback of the peer-to-peer layer, and the capabilities
//! that a transport offers.
use vstd::prelude::*;

use crate::text::{chars_of, text_is};

verus! {

/// Delivery priority of a message.
#[derive(Clone, Copy, Debug, PartialEq, Eq)]
pub enum Priority {
    High,
    Normal,
}

/// What a message handler reports about the peer that sent a message.
#[derive(Clone, Debug, PartialEq, Eq)]
pub enum TrustFeedback {
    Fatal(String),
    Worse(String),
    Bad(String),
    Neutral,
    Good,
}

/// A tag on a peer. Tags compare by their name alone.
#[derive(Clone, Debug)]
pub enum PeerTag {
    Consensus,
    AlwaysAllow,
    Ban { until: u64 },
    Custom(String),
}

pub open spec fn name_consensus() -> Seq<char> {
    seq!['c', 'o', 'n', 's', 'e', 'n', 's', 'u', 's']
}

pub open spec fn name_always_allow() -> Seq<char> {
    seq!['a', 'l', 'w', 'a', 'y', 's', '_', 'a', 'l', 'l', 'o', 'w']
}

pub open spec fn name_ban() -> Seq<char> {
    seq!['b', 'a', 'n']
}

/// A name that a custom tag may not take.
pub open spec fn reserved_name(s: Seq<char>) -> bool {
    s == name_consensus() || s == name_always_allow() || s == name_ban()
}

/// The name of a tag.
pub open spec fn tag_name(t: PeerTag) -> Seq<char> {
    match t {
        PeerTag::Consensus => name_consensus(),
        PeerTag::AlwaysAllow => name_always_allow(),
        PeerTag::Ban { .. } => name_ban(),
        PeerTag::Custom(s) => s@,
    }
}

impl PeerTag {
    pub fn ban(until: u64) -> (r: PeerTag)
        ensures
            r == (PeerTag::Ban { until }),
    {
        PeerTag::Ban { until }
    }

    /// The tag that stands for every ban when tags are compared.
    pub fn ban_key() -> (r: PeerTag)
        ensures
            r == (PeerTag::Ban { until: 0 }),
    {
        PeerTag::Ban { until: 0 }
    }

    /// A custom tag, unless the name is one of the built-in tags' names.
    pub fn custom(s: &str) -> (r: Option<PeerTag>)
        ensures
            reserved_name(s@) ==> r is None,
            !reserved_name(s@) ==> (r matches Some(PeerTag::Custom(c)) && c@ == s@),
    {
        let cs = chars_of(s);
        if text_is(&cs, vec!['c', 'o', 'n', 's', 'e', 'n', 's', 'u', 's']) || text_is(
            &cs,
            vec!['a', 'l', 'w', 'a', 'y', 's', '_', 'a', 'l', 'l', 'o', 'w'],
        ) || text_is(&cs, vec!['b', 'a', 'n']) {
            None
        } else {
            Some(PeerTag::Custom(s.to_owned()))
        }
    }

    /// The tag's name.
    pub fn str(&self) -> (r: &str)
        ensures
            r@ == tag_name(*self),
    {
        match self {
            PeerTag::Consensus => {
                proof {
                    reveal_strlit("consensus");
                    assert("consensus"@ =~= name_consensus());
                }
                "consensus"
            },
            PeerTag::AlwaysAllow => {
                proof {
                    reveal_strlit("always_allow");
                    assert("always_allow"@ =~= name_always_allow());
                }
                "always_allow"
            },
            PeerTag::Ban { .. } => {
                proof {
                    reveal_strlit("ban");
                    assert("ban"@ =~= name_ban());
                }
                "ban"
            },
            PeerTag::Custom(s) => s.as_str(),
        }
    }
}

impl PartialEq for PeerTag {
    fn eq(&self, other: &PeerTag) -> (r: bool) {
        let a = chars_of(self.str());
        let b = chars_of(other.str());
        text_is(&a, b)
    }
}

impl vstd::std_specs::cmp::PartialEqSpecImpl for PeerTag {
    open spec fn obeys_eq_spec() -> bool {
        true
    }

    open spec fn eq_spec(&self, other: &PeerTag) -> bool {
        tag_name(*self) == tag_name(*other)
    }
}

impl Eq for PeerTag {

}

/// Encoding of a message for the wire, and back.
pub trait MessageCodec: Sized {
    fn encode_msg(&mut self) -> Result<Vec<u8>, String>;

    fn decode_msg(bytes: Vec<u8>) -> Result<Self, String>;
}

/// Tagging and counting of peers.
pub trait Network {
    fn tag(&self, peer_id: Vec<u8>, tag: PeerTag) -> Result<(), String>;

    fn untag(&self, peer_id: Vec<u8>, tag: &PeerTag) -> Result<(), String>;

    fn tag_consensus(&self, peer_ids: Vec<Vec<u8>>) -> Result<(), String>;

    fn peer_count(&self) -> Result<usize, String>;
}

/// Where handlers report how a peer behaved.
pub trait PeerTrust {
    fn report(&self, feedback: TrustFeedback);
}

} // verus!
