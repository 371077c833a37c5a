//! The client side of the control plane: how a front-end finds the running
//! node, what it sends, and how it reads the answers.

use vstd::prelude::*;
use vstd::string::*;
use crate::control::{ok_token, peer_entry, peers_text};
use crate::document::{load_data_map, recorded_port};
use crate::registry::{records, Pair, PeerRecord};
use crate::text::{
    chars_of,
    joined,
    find_from,
    first_index,
    lemma_first_index_is,
    nth_segment,
    opt_str,
    segment,
    text_eq,
};

verus! {

/// Why a client could not talk to the node.
#[derive(Clone, Copy, Debug, PartialEq, Eq)]
pub enum ClientError {
    /// The data document records no port: the node is not running.
    NodeNotRunning,
    /// A response does not have the shape that the protocol gives it.
    IncorrectResponse,
}

/// What each error tells the user.
pub open spec fn message_of(error: ClientError) -> Seq<char> {
    match error {
        ClientError::NodeNotRunning => "Check if resk_node is running"@,
        ClientError::IncorrectResponse => "Incorrect response"@,
    }
}

impl ClientError {
    /// What to tell the user.
    pub fn describe(&self) -> (message: String)
        ensures
            message@ == message_of(*self),
    {
        match self {
            ClientError::NodeNotRunning => "Check if resk_node is running".to_owned(),
            ClientError::IncorrectResponse => "Incorrect response".to_owned(),
        }
    }
}

/// The request that a command name and an argument make.
pub open spec fn request_text(name: Seq<char>, argument: Seq<char>) -> Seq<char> {
    name + seq![':'] + argument
}

/// The address of the control socket that listens on `port`.
pub open spec fn backend_address_text(port: Seq<char>) -> Seq<char> {
    "127.0.0.1:"@ + port
}

/// The record that stands at the head of a `get_peers` response: the text
/// before the first `,`.
pub open spec fn head_record(response: Seq<char>) -> Seq<char> {
    response.take(first_index(response, ','))
}

/// The peers that a `get_peers` response lists. The response is cut at
/// every `,`; empty pieces are skipped; every other piece is an identifier,
/// `:` and an address. `None` if a piece holds no `:`.
pub open spec fn listed_peers(response: Seq<char>) -> Option<Seq<Pair>>
    decreases response.len(),
{
    let k = first_index(response, ',');
    let record = response.take(k);
    let rest = if 0 <= k < response.len() {
        listed_peers(response.skip(k + 1))
    } else {
        Some(Seq::empty())
    };
    if record.len() == 0 {
        rest
    } else {
        match (nth_segment(record, ':', 1), rest) {
            (Some(address), Some(others)) => Some(
                seq![(record.take(first_index(record, ':')), address)] + others,
            ),
            _ => None,
        }
    }
}

/// The view of the result of reading a peer list.
pub open spec fn peers_result(r: Result<Vec<PeerRecord>, ClientError>) -> Option<Seq<Pair>> {
    match r {
        Ok(list) => Some(records(list@)),
        Err(_) => None,
    }
}

/// The port of the running node's control socket, as the data document
/// records it. `content` is the content of the document, `None` standing
/// for a file that does not exist.
pub fn get_port(content: Option<&str>) -> (r: Result<String, ClientError>)
    ensures
        r is Ok <==> recorded_port(opt_str(content)) is Some,
        r is Ok ==> r->Ok_0@ == recorded_port(opt_str(content))->Some_0,
        r is Err ==> r->Err_0 == ClientError::NodeNotRunning,
{
    match load_data_map(content) {
        Ok(map) => match map.text("port") {
            Some(port) => Ok(port),
            None => Err(ClientError::NodeNotRunning),
        },
        Err(_) => Err(ClientError::NodeNotRunning),
    }
}

/// The address to send control requests to.
pub fn backend_address(port: &str) -> (address: String)
    ensures
        address@ == backend_address_text(port@),
{
    joined("127.0.0.1:", port)
}

/// The text of a request.
pub fn build_request(name: &str, argument: &str) -> (request: String)
    ensures
        request@ == request_text(name@, argument@),
{
    proof {
        reveal_strlit(":");
    }
    let mut request = name.to_owned();
    request.append(":");
    request.append(argument);
    request
}

/// Whether the response to `add_peer` reports success.
pub fn peer_added(response: &str) -> (added: bool)
    ensures
        added == (response@ == ok_token()),
{
    text_eq(response, "OK")
}

/// `front` followed by the peers of `rest`, if `rest` has a reading.
pub open spec fn prepend(front: Seq<Pair>, rest: Option<Seq<Pair>>) -> Option<Seq<Pair>> {
    match rest {
        Some(others) => Some(front + others),
        None => None,
    }
}

/// Reads the response to `get_peers`.
pub fn parse_peers(response: &str) -> (r: Result<Vec<PeerRecord>, ClientError>)
    ensures
        peers_result(r) == listed_peers(response@),
{
    let chars = chars_of(response);
    let mut list: Vec<PeerRecord> = Vec::new();
    let mut start: usize = 0;
    proof {
        assert(response@.skip(0) =~= response@);
        assert(records(list@) =~= Seq::<Pair>::empty());
        if listed_peers(response@) is Some {
            assert(records(list@) + listed_peers(response@)->Some_0 =~= listed_peers(
                response@,
            )->Some_0);
        }
    }
    loop
        invariant
            chars@ == response@,
            start <= chars.len(),
            listed_peers(response@) == prepend(
                records(list@),
                listed_peers(response@.skip(start as int)),
            ),
        decreases chars.len() - start,
    {
        let end = find_from(&chars, start, ',');
        let ghost tail = response@.skip(start as int);
        let ghost rest = if end < chars.len() {
            listed_peers(tail.skip(end - start + 1))
        } else {
            Some(Seq::<Pair>::empty())
        };
        let ghost front = records(list@);
        let record = response.substring_char(start, end);
        assert(record@ =~= tail.take(end - start));
        if end > start {
            match segment(record, ':', 1) {
                Some(address) => {
                    let peer_id = match segment(record, ':', 0) {
                        Some(peer_id) => peer_id,
                        None => String::new(),
                    };
                    list.push(PeerRecord { peer_id, address });
                    proof {
                        let pair = (record@.take(first_index(record@, ':')), address@);
                        assert(records(list@) =~= front.push(pair));
                        if rest is Some {
                            assert(front + (seq![pair] + rest->Some_0) =~= front.push(pair)
                                + rest->Some_0);
                        }
                    }
                },
                None => {
                    return Err(ClientError::IncorrectResponse);
                },
            }
        }
        assert(listed_peers(response@) == prepend(records(list@), rest));
        if end == chars.len() {
            assert(records(list@) + Seq::<Pair>::empty() =~= records(list@));
            return Ok(list);
        }
        assert(tail.skip(end - start + 1) =~= response@.skip(end + 1));
        start = end + 1;
    }
}

/// A text that holds neither `:` nor `,`, so that it can stand in a peer
/// list without being cut.
pub open spec fn plain(text: Seq<char>) -> bool {
    !text.contains(':') && !text.contains(',')
}

/// Every identifier and every address is plain.
pub open spec fn all_plain(peers: Seq<Pair>) -> bool {
    forall|i: int| 0 <= i < peers.len() ==> plain((#[trigger] peers[i]).0) && plain(peers[i].1)
}

/// In `a` followed by `c` and anything else, the first `c` stands right
/// after `a` if `a` holds none.
pub proof fn lemma_first_index_after(a: Seq<char>, c: char, b: Seq<char>)
    requires
        !a.contains(c),
    ensures
        first_index(a + seq![c] + b, c) == a.len(),
{
    let s = a + seq![c] + b;
    assert forall|j: int| 0 <= j < a.len() implies s[j] != c by {
        assert(s[j] == a[j]);
        assert(a.contains(a[j]));
    }
    assert(s[a.len() as int] == c);
    lemma_first_index_is(s, c, a.len() as int);
}

/// A text without `c` is a single piece.
pub proof fn lemma_first_index_none(a: Seq<char>, c: char)
    requires
        !a.contains(c),
    ensures
        first_index(a, c) == a.len(),
{
    assert forall|j: int| 0 <= j < a.len() implies a[j] != c by {
        assert(a.contains(a[j]));
    }
    lemma_first_index_is(a, c, a.len() as int);
}

/// The response for a list of two or more peers is the entry of the first
/// peer, a `,`, and the response for the others.
pub proof fn lemma_peers_text_front(peer: Pair, rest: Seq<Pair>)
    requires
        rest.len() > 0,
    ensures
        peers_text(seq![peer] + rest) == peer_entry(peer) + seq![','] + peers_text(rest),
    decreases rest.len(),
{
    let all = seq![peer] + rest;
    assert(all.last() == rest.last());
    if rest.len() == 1 {
        assert(all.drop_last() =~= seq![peer]);
        assert(peers_text(all.drop_last()) == peer_entry(peer));
        assert(rest[0] == rest.last());
    } else {
        lemma_peers_text_front(peer, rest.drop_last());
        assert(all.drop_last() =~= seq![peer] + rest.drop_last());
        assert(peers_text(all) =~= peer_entry(peer) + seq![','] + peers_text(rest));
    }
}

/// An entry made of a plain identifier and a plain address holds no `,`,
/// and is read as that identifier and that address.
pub proof fn lemma_entry_read(peer: Pair)
    requires
        plain(peer.0),
        plain(peer.1),
    ensures
        !peer_entry(peer).contains(','),
        peer_entry(peer).len() > 0,
        peer_entry(peer).take(first_index(peer_entry(peer), ':')) == peer.0,
        nth_segment(peer_entry(peer), ':', 1) == Some(peer.1),
{
    let record = peer_entry(peer);
    if record.contains(',') {
        let j = choose|j: int| 0 <= j < record.len() && record[j] == ',';
        if j < peer.0.len() {
            assert(peer.0.contains(peer.0[j]));
        } else if j > peer.0.len() {
            assert(record[j] == peer.1[j - peer.0.len() - 1]);
            assert(peer.1.contains(peer.1[j - peer.0.len() - 1]));
        }
    }
    lemma_first_index_after(peer.0, ':', peer.1);
    let c = first_index(record, ':');
    assert(record.take(c) =~= peer.0);
    assert(record.skip(c + 1) =~= peer.1);
    lemma_first_index_none(peer.1, ':');
    assert(peer.1.take(peer.1.len() as int) =~= peer.1);
    assert(nth_segment(peer.1, ':', 0) == Some(peer.1));
}

/// A response that starts with the entry of a peer and a `,` lists that
/// peer first, and then what the remainder lists.
pub proof fn lemma_listed_peers_front(peer: Pair, remainder: Seq<char>)
    requires
        plain(peer.0),
        plain(peer.1),
    ensures
        listed_peers(peer_entry(peer) + seq![','] + remainder) == prepend(
            seq![peer],
            listed_peers(remainder),
        ),
{
    let record = peer_entry(peer);
    let response = record + seq![','] + remainder;
    lemma_entry_read(peer);
    lemma_first_index_after(record, ',', remainder);
    let k = first_index(response, ',');
    assert(response.take(k) =~= record);
    assert(response.skip(k + 1) =~= remainder);
}

/// A response that is the entry of one peer lists that peer.
pub proof fn lemma_listed_peers_single(peer: Pair)
    requires
        plain(peer.0),
        plain(peer.1),
    ensures
        listed_peers(peer_entry(peer)) == Some(seq![peer]),
{
    let record = peer_entry(peer);
    lemma_entry_read(peer);
    lemma_first_index_none(record, ',');
    assert(record.take(record.len() as int) =~= record);
    assert(seq![peer] + Seq::<Pair>::empty() =~= seq![peer]);
}

/// What the node lists, the client reads: the response to `get_peers` for
/// the online peers is read back as those peers, in order, provided that
/// no identifier and no address holds `:` or `,`.
pub proof fn lemma_peer_list_round_trip(online: Seq<Pair>)
    requires
        all_plain(online),
    ensures
        listed_peers(peers_text(online)) == Some(online),
    decreases online.len(),
{
    if online.len() == 0 {
        assert(listed_peers(Seq::<char>::empty()) =~= Some(Seq::<Pair>::empty()));
        assert(online =~= Seq::<Pair>::empty());
    } else if online.len() == 1 {
        lemma_listed_peers_single(online[0]);
        assert(online =~= seq![online[0]]);
    } else {
        let peer = online[0];
        let rest = online.drop_first();
        assert(online =~= seq![peer] + rest);
        assert(all_plain(rest)) by {
            assert forall|i: int| 0 <= i < rest.len() implies plain((#[trigger] rest[i]).0)
                && plain(rest[i].1) by {
                assert(rest[i] == online[i + 1]);
            }
        }
        lemma_peer_list_round_trip(rest);
        lemma_peers_text_front(peer, rest);
        lemma_listed_peers_front(peer, peers_text(rest));
    }
}

} // verus!
