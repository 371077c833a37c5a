//! The control-plane line protocol: how a request text is read, and the
//! texts that answer it.
//!
//! A request is a command name, optionally followed by `:` and one argument.
//! Every request is answered by exactly one response text.

use vstd::prelude::*;
use vstd::string::*;
use crate::registry::{records, Pair, PeerRecord};
use crate::text::{first_index, nth_segment, opt_text, segment, text_eq};

verus! {

/// Seconds after which a peer that has not announced itself again expires.
pub const DISCOVERY_TTL_SECS: u64 = 60;

/// Seconds that the handshake and multiplexer setup of a stream connection
/// may take together before the attempt counts as failed.
pub const HANDSHAKE_TIMEOUT_SECS: u64 = 20;

/// Seconds between two heartbeats of the broadcast layer.
pub const HEARTBEAT_SECS: u64 = 10;

/// The commands of the control plane.
#[derive(Clone, Copy, Debug, PartialEq, Eq)]
pub enum Command {
    /// `is_alive`: liveness probe.
    IsAlive,
    /// `get_peers`: list the peers that are online.
    GetPeers,
    /// `add_peer:<identifier>`: promote an online peer to trusted.
    AddPeer,
    /// `local_peer_id`: report this node's identifier.
    LocalPeerId,
    /// `get_peer_os:<identifier>`: look up a peer's operating system.
    GetPeerOs,
    /// Any other command name.
    Unrecognized,
}

/// A request as read from its text.
#[derive(Debug, PartialEq, Eq)]
pub struct ControlRequest {
    pub command: Command,
    pub argument: Option<String>,
}

/// The command name of a request text: everything before the first `:`.
pub open spec fn request_name(text: Seq<char>) -> Seq<char> {
    text.take(first_index(text, ':'))
}

/// The argument of a request text: what stands between the first `:` and
/// the second, or the end. `None` if the text holds no `:`.
pub open spec fn request_argument(text: Seq<char>) -> Option<Seq<char>> {
    nth_segment(text, ':', 1)
}

/// The command that a name stands for.
pub open spec fn command_named(name: Seq<char>) -> Command {
    if name == "is_alive"@ {
        Command::IsAlive
    } else if name == "get_peers"@ {
        Command::GetPeers
    } else if name == "add_peer"@ {
        Command::AddPeer
    } else if name == "local_peer_id"@ {
        Command::LocalPeerId
    } else if name == "get_peer_os"@ {
        Command::GetPeerOs
    } else {
        Command::Unrecognized
    }
}

/// The response to a liveness probe.
pub open spec fn alive_token() -> Seq<char> {
    "1"@
}

/// The response to a promotion that went through.
pub open spec fn ok_token() -> Seq<char> {
    "OK"@
}

/// The response to a command that is not recognized, or lacks its argument.
pub open spec fn incorrect_token() -> Seq<char> {
    "Incorrect request"@
}

/// The response to a command that names a peer which is not online.
pub open spec fn unknown_peer_token() -> Seq<char> {
    "Unknown peer"@
}

/// The response to a promotion that could not be persisted.
pub open spec fn not_saved_token() -> Seq<char> {
    "Failed to save peer"@
}

/// The directory key under which a peer's operating system is published.
pub open spec fn os_key(peer_id: Seq<char>) -> Seq<char> {
    peer_id + "_OS"@
}

/// The topic on which clipboard updates are broadcast.
pub open spec fn update_topic() -> Seq<char> {
    "resk-update"@
}

/// The entry of one peer in the response to `get_peers`: its identifier,
/// `:` and its address.
pub open spec fn peer_entry(peer: Pair) -> Seq<char> {
    peer.0 + seq![':'] + peer.1
}

/// The response to `get_peers`: the entries of the online peers, in order,
/// with a `,` between each two. With nobody online it is empty.
pub open spec fn peers_text(online: Seq<Pair>) -> Seq<char>
    decreases online.len(),
{
    if online.len() == 0 {
        Seq::empty()
    } else if online.len() == 1 {
        peer_entry(online[0])
    } else {
        peers_text(online.drop_last()) + seq![','] + peer_entry(online.last())
    }
}

/// Reads a request text.
pub fn parse_request(text: &str) -> (request: ControlRequest)
    ensures
        request.command == command_named(request_name(text@)),
        opt_text(request.argument) == request_argument(text@),
{
    let name = match segment(text, ':', 0) {
        Some(name) => name,
        None => String::new(),
    };
    let argument = segment(text, ':', 1);
    let command = if text_eq(name.as_str(), "is_alive") {
        Command::IsAlive
    } else if text_eq(name.as_str(), "get_peers") {
        Command::GetPeers
    } else if text_eq(name.as_str(), "add_peer") {
        Command::AddPeer
    } else if text_eq(name.as_str(), "local_peer_id") {
        Command::LocalPeerId
    } else if text_eq(name.as_str(), "get_peer_os") {
        Command::GetPeerOs
    } else {
        Command::Unrecognized
    };
    ControlRequest { command, argument }
}

/// The text that lists the given peers in a `get_peers` response.
pub fn render_peers(online: &Vec<PeerRecord>) -> (out: String)
    ensures
        out@ == peers_text(records(online@)),
{
    let mut out = String::new();
    let mut i: usize = 0;
    proof {
        reveal_strlit(":");
        reveal_strlit(",");
        assert(records(online@).take(0) =~= Seq::<Pair>::empty());
    }
    while i < online.len()
        invariant
            i <= online.len(),
            ":"@ == seq![':'],
            ","@ == seq![','],
            out@ == peers_text(records(online@).take(i as int)),
        decreases online.len() - i,
    {
        let ghost before = out@;
        let ghost shown = records(online@).take(i + 1);
        proof {
            assert(shown.drop_last() =~= records(online@).take(i as int));
            assert(shown.last() == online@[i as int]@);
        }
        if i > 0 {
            out.append(",");
        }
        out.append(online[i].peer_id.as_str());
        out.append(":");
        out.append(online[i].address.as_str());
        proof {
            if i == 0 {
                assert(before =~= Seq::<char>::empty());
                assert(shown[0] == online@[0]@);
                assert(out@ =~= peer_entry(shown[0]));
            } else {
                assert(out@ =~= before + seq![','] + peer_entry(shown.last()));
            }
        }
        i = i + 1;
    }
    assert(records(online@).take(online.len() as int) =~= records(online@));
    out
}

/// The directory key under which the operating system of `peer_id` is
/// published.
pub fn os_record_key(peer_id: &str) -> (key: String)
    ensures
        key@ == os_key(peer_id@),
{
    let mut key = peer_id.to_owned();
    key.append("_OS");
    key
}

/// The topic on which clipboard updates are broadcast.
pub fn update_topic_name() -> (topic: &'static str)
    ensures
        topic@ == update_topic(),
{
    "resk-update"
}

} // verus!
