//! The node coordinator: the decisions of the control loop.
//!
//! The loop itself waits on the control socket and on the protocol stack and
//! belongs to the program around this library. What it decides on each event
//! is computed here: the coordinator takes the event, updates the registry
//! and answers with the response to send and the effects to carry out.

use vstd::prelude::*;
use vstd::string::*;
use crate::control::{
    alive_token,
    command_named,
    incorrect_token,
    not_saved_token,
    ok_token,
    os_key,
    os_record_key,
    parse_request,
    peers_text,
    render_peers,
    request_argument,
    request_name,
    unknown_peer_token,
    update_topic,
    update_topic_name,
    Command,
};
use crate::registry::{
    discovered_changes,
    expired_changes,
    has_id,
    host_of,
    lemma_replay_concat,
    lemma_replay_online,
    lemma_replay_unique,
    lemma_resolved_contains,
    lemma_seen_extends,
    lemma_seen_online,
    pairs,
    recorded_and_kept,
    records,
    replay,
    resolve_addresses,
    resolved,
    unique_ids,
    with_trusted,
    Pair,
    PeerChange,
    PeerRecord,
    PeerRegistry,
};
use crate::text::{text_eq, texts};

verus! {

/// Something the program around the coordinator has to carry out.
#[derive(Debug, PartialEq, Eq)]
pub enum Effect {
    /// Make the peer an explicit relay target of the broadcast layer.
    AddExplicitPeer(String),
    /// Tell the directory that the peer can be reached at the multiaddress.
    AddAddress(String, String),
    /// Publish this node's operating system under the directory key, and
    /// announce this node as a provider of the key.
    PublishOs(String),
    /// Ask the directory for the record under the key. The answer arrives
    /// later as a directory event and is not tied to any request.
    LookupRecord(String),
    /// Put the text on the local clipboard.
    SetClipboard(String),
}

/// An effect as the contracts see it.
pub enum EffectView {
    AddExplicitPeer(Seq<char>),
    AddAddress(Seq<char>, Seq<char>),
    PublishOs(Seq<char>),
    LookupRecord(Seq<char>),
    SetClipboard(Seq<char>),
}

impl View for Effect {
    type V = EffectView;

    open spec fn view(&self) -> EffectView {
        match self {
            Effect::AddExplicitPeer(id) => EffectView::AddExplicitPeer(id@),
            Effect::AddAddress(id, multiaddr) => EffectView::AddAddress(id@, multiaddr@),
            Effect::PublishOs(key) => EffectView::PublishOs(key@),
            Effect::LookupRecord(key) => EffectView::LookupRecord(key@),
            Effect::SetClipboard(text) => EffectView::SetClipboard(text@),
        }
    }
}

/// The views of a sequence of effects, element by element.
pub open spec fn effects_of(v: Seq<Effect>) -> Seq<EffectView> {
    Seq::new(v.len(), |i: int| v[i]@)
}

/// What the coordinator asks for in answer to a control request.
#[derive(Debug, PartialEq, Eq)]
pub enum Reaction {
    /// Send `response` to the requester and carry out `effects`.
    Reply { response: String, effects: Vec<Effect> },
    /// Persist `peer_id` as trusted, then report the outcome to
    /// `Coordinator::complete_promotion`, which gives the reply.
    Persist { peer_id: String },
}

/// A reaction as the contracts see it.
pub enum ReactionView {
    Reply(Seq<char>, Seq<EffectView>),
    Persist(Seq<char>),
}

impl View for Reaction {
    type V = ReactionView;

    open spec fn view(&self) -> ReactionView {
        match self {
            Reaction::Reply { response, effects } => ReactionView::Reply(
                response@,
                effects_of(effects@),
            ),
            Reaction::Persist { peer_id } => ReactionView::Persist(peer_id@),
        }
    }
}

/// A reply without effects.
pub open spec fn plain_reply(response: Seq<char>) -> ReactionView {
    ReactionView::Reply(response, Seq::empty())
}

/// The reaction to the request `text` of a node with the identifier
/// `local_id` while the peers `online` are online.
pub open spec fn react(online: Seq<Pair>, local_id: Seq<char>, text: Seq<char>) -> ReactionView {
    match command_named(request_name(text)) {
        Command::IsAlive => plain_reply(alive_token()),
        Command::GetPeers => plain_reply(peers_text(online)),
        Command::AddPeer => match request_argument(text) {
            Some(id) => if has_id(online, id) {
                ReactionView::Persist(id)
            } else {
                plain_reply(unknown_peer_token())
            },
            None => plain_reply(incorrect_token()),
        },
        Command::LocalPeerId => plain_reply(local_id),
        Command::GetPeerOs => match request_argument(text) {
            Some(id) => ReactionView::Reply(
                Seq::empty(),
                seq![EffectView::LookupRecord(os_key(id))],
            ),
            None => plain_reply(incorrect_token()),
        },
        Command::Unrecognized => plain_reply(incorrect_token()),
    }
}

/// The reply that ends a promotion: `OK` and the relay registration if the
/// peer is online and the trusted list was persisted, an error text otherwise.
pub open spec fn promotion_reply(online: Seq<Pair>, id: Seq<char>, persisted: bool) -> ReactionView {
    if !persisted {
        plain_reply(not_saved_token())
    } else if has_id(online, id) {
        ReactionView::Reply(ok_token(), seq![EffectView::AddExplicitPeer(id)])
    } else {
        plain_reply(unknown_peer_token())
    }
}

/// The trusted list after a promotion has ended: the peer is added if it is
/// online and the list was persisted, else the list stays as it is.
pub open spec fn promotion_trust(
    online: Seq<Pair>,
    trusted: Seq<Seq<char>>,
    id: Seq<char>,
    persisted: bool,
) -> Seq<Seq<char>> {
    if persisted && has_id(online, id) {
        with_trusted(trusted, id)
    } else {
        trusted
    }
}

/// One directory registration for each entry of a discovery batch.
pub open spec fn address_effects(batch: Seq<Pair>) -> Seq<EffectView> {
    Seq::new(batch.len(), |i: int| EffectView::AddAddress(batch[i].0, batch[i].1))
}

/// The publication of this node's operating system, once for a batch that
/// is not empty.
pub open spec fn publish_effects(batch: Seq<Pair>, local_id: Seq<char>) -> Seq<EffectView> {
    if batch.len() == 0 {
        Seq::empty()
    } else {
        seq![EffectView::PublishOs(os_key(local_id))]
    }
}

/// A relay registration for each of the new peers that is trusted, in order.
pub open spec fn repromotions(fresh: Seq<Pair>, trusted: Seq<Seq<char>>) -> Seq<EffectView>
    decreases fresh.len(),
{
    if fresh.len() == 0 {
        Seq::empty()
    } else {
        let head = repromotions(fresh.drop_last(), trusted);
        if trusted.contains(fresh.last().0) {
            head.push(EffectView::AddExplicitPeer(fresh.last().0))
        } else {
            head
        }
    }
}

/// The peers that a discovery batch adds to the online set.
pub open spec fn newly_online(online: Seq<Pair>, batch: Seq<Pair>) -> Seq<Pair> {
    replay(online, discovered_changes(batch)).skip(online.len() as int)
}

/// The effects of a discovery batch: the directory registrations, the
/// publication of this node's operating system, and a relay registration
/// for each new peer that is trusted.
pub open spec fn discovered_effects(
    online: Seq<Pair>,
    trusted: Seq<Seq<char>>,
    local_id: Seq<char>,
    batch: Seq<Pair>,
) -> Seq<EffectView> {
    address_effects(batch) + publish_effects(batch, local_id) + repromotions(
        newly_online(online, batch),
        trusted,
    )
}

/// The effect of a broadcast message: its payload goes to the clipboard if
/// it came on the update topic, and nowhere otherwise.
pub open spec fn message_effect(topic: Seq<char>, payload: Seq<char>) -> Option<EffectView> {
    if topic == update_topic() {
        Some(EffectView::SetClipboard(payload))
    } else {
        None
    }
}

/// The view of an optional effect.
pub open spec fn opt_effect(e: Option<Effect>) -> Option<EffectView> {
    match e {
        Some(e) => Some(e@),
        None => None,
    }
}

/// The state of the control loop: this node's identifier and the registry.
pub struct Coordinator {
    local_peer_id: String,
    registry: PeerRegistry,
}

impl Coordinator {
    /// This node's identifier.
    pub closed spec fn local_id(self) -> Seq<char> {
        self.local_peer_id@
    }

    /// The peers that are online.
    pub closed spec fn online(self) -> Seq<Pair> {
        self.registry.online()
    }

    /// The identifiers that are trusted.
    pub closed spec fn trusted(self) -> Seq<Seq<char>> {
        self.registry.trusted()
    }

    /// A coordinator for the node `local_peer_id` that starts with nobody
    /// online and trusts the identifiers persisted by earlier runs.
    pub fn new(local_peer_id: String, known_peers: Vec<String>) -> (c: Self)
        ensures
            c.local_id() == local_peer_id@,
            c.online() == Seq::<Pair>::empty(),
            c.trusted() == texts(known_peers@),
    {
        Coordinator { local_peer_id, registry: PeerRegistry::new(known_peers) }
    }

    /// A coordinator for the node `local_peer_id` that takes over a
    /// registry as it stands.
    pub fn from_registry(local_peer_id: String, registry: PeerRegistry) -> (c: Self)
        ensures
            c.local_id() == local_peer_id@,
            c.online() == registry.online(),
            c.trusted() == registry.trusted(),
    {
        Coordinator { local_peer_id, registry }
    }

    /// This node's identifier.
    pub fn local_peer_id(&self) -> (id: &str)
        ensures
            id@ == self.local_id(),
    {
        self.local_peer_id.as_str()
    }

    /// The peers that are online.
    pub fn online_peers(&self) -> (list: Vec<PeerRecord>)
        ensures
            records(list@) == self.online(),
    {
        self.registry.online_peers()
    }

    /// The identifiers that are trusted.
    pub fn trusted_peers(&self) -> (list: Vec<String>)
        ensures
            texts(list@) == self.trusted(),
    {
        self.registry.trusted_peers()
    }

    /// Decides what a control request is answered with. The state does not
    /// change: a promotion takes effect in `complete_promotion`.
    pub fn handle_request(&self, text: &str) -> (reaction: Reaction)
        ensures
            reaction@ == react(self.online(), self.local_id(), text@),
    {
        let request = parse_request(text);
        match request.command {
            Command::IsAlive => reply("1"),
            Command::GetPeers => {
                let online = self.registry.online_peers();
                let response = render_peers(&online);
                let effects: Vec<Effect> = Vec::new();
                assert(effects_of(effects@) =~= Seq::empty());
                Reaction::Reply { response, effects }
            },
            Command::AddPeer => match request.argument {
                Some(peer_id) => {
                    if self.registry.is_online(peer_id.as_str()) {
                        Reaction::Persist { peer_id }
                    } else {
                        reply("Unknown peer")
                    }
                },
                None => reply("Incorrect request"),
            },
            Command::LocalPeerId => reply(self.local_peer_id.as_str()),
            Command::GetPeerOs => match request.argument {
                Some(peer_id) => {
                    let key = os_record_key(peer_id.as_str());
                    let mut effects: Vec<Effect> = Vec::new();
                    effects.push(Effect::LookupRecord(key));
                    assert(effects_of(effects@) =~= seq![EffectView::LookupRecord(os_key(peer_id@))]);
                    Reaction::Reply { response: String::new(), effects }
                },
                None => reply("Incorrect request"),
            },
            Command::Unrecognized => reply("Incorrect request"),
        }
    }

    /// Ends a promotion that `handle_request` asked to persist. If the
    /// trusted list was persisted and the peer is still online, the peer
    /// becomes trusted and is registered as a relay target; otherwise
    /// nothing changes and the reply names the failure.
    pub fn complete_promotion(&mut self, peer_id: &str, persisted: bool) -> (reaction: Reaction)
        ensures
            reaction@ == promotion_reply(old(self).online(), peer_id@, persisted),
            final(self).trusted() == promotion_trust(
                old(self).online(),
                old(self).trusted(),
                peer_id@,
                persisted,
            ),
            final(self).online() == old(self).online(),
            final(self).local_id() == old(self).local_id(),
    {
        if !persisted {
            return reply("Failed to save peer");
        }
        match self.registry.promote_trusted(peer_id) {
            Ok(()) => {
                let mut effects: Vec<Effect> = Vec::new();
                effects.push(Effect::AddExplicitPeer(peer_id.to_owned()));
                assert(effects_of(effects@) =~= seq![EffectView::AddExplicitPeer(peer_id@)]);
                Reaction::Reply { response: "OK".to_owned(), effects }
            },
            Err(_) => reply("Unknown peer"),
        }
    }

    /// Takes in a batch of announcements, each an identifier with a
    /// multiaddress. New peers go online; the ones among them that are
    /// trusted are registered as relay targets again.
    pub fn handle_discovered(&mut self, batch: &Vec<(String, String)>) -> (effects: Vec<Effect>)
        ensures
            final(self).online() == replay(old(self).online(), discovered_changes(pairs(batch@))),
            final(self).trusted() == old(self).trusted(),
            final(self).local_id() == old(self).local_id(),
            effects_of(effects@) == discovered_effects(
                old(self).online(),
                old(self).trusted(),
                old(self).local_id(),
                pairs(batch@),
            ),
    {
        let ghost online = self.online();
        let ghost trusted = self.trusted();
        let fresh = self.registry.record_discovered_batch(batch);
        assert(newly_online(online, pairs(batch@)) =~= records(fresh@));
        let mut effects: Vec<Effect> = Vec::new();
        let mut i: usize = 0;
        assert(effects_of(effects@) =~= address_effects(pairs(batch@)).take(0));
        while i < batch.len()
            invariant
                i <= batch.len(),
                effects_of(effects@) == address_effects(pairs(batch@)).take(i as int),
            decreases batch.len() - i,
        {
            let ghost before = effects_of(effects@);
            effects.push(Effect::AddAddress(batch[i].0.clone(), batch[i].1.clone()));
            assert(effects_of(effects@) =~= before.push(
                EffectView::AddAddress(batch@[i as int].0@, batch@[i as int].1@),
            ));
            assert(effects_of(effects@) =~= address_effects(pairs(batch@)).take(i + 1));
            i = i + 1;
        }
        assert(address_effects(pairs(batch@)).take(batch.len() as int) =~= address_effects(
            pairs(batch@),
        ));
        if batch.len() > 0 {
            let ghost before = effects_of(effects@);
            effects.push(Effect::PublishOs(os_record_key(self.local_peer_id.as_str())));
            assert(effects_of(effects@) =~= before.push(
                EffectView::PublishOs(os_key(self.local_peer_id@)),
            ));
        }
        let ghost base = address_effects(pairs(batch@)) + publish_effects(
            pairs(batch@),
            self.local_peer_id@,
        );
        assert(effects_of(effects@) =~= base);
        let mut k: usize = 0;
        assert(records(fresh@).take(0) =~= Seq::<Pair>::empty());
        assert(effects_of(effects@) =~= base + repromotions(records(fresh@).take(0), trusted));
        while k < fresh.len()
            invariant
                k <= fresh.len(),
                trusted == self.registry.trusted(),
                effects_of(effects@) == base + repromotions(records(fresh@).take(k as int), trusted),
            decreases fresh.len() - k,
        {
            proof {
                assert(records(fresh@).take(k + 1).drop_last() =~= records(fresh@).take(k as int));
            }
            if self.registry.is_known_trusted(fresh[k].peer_id.as_str()) {
                let ghost before = effects_of(effects@);
                effects.push(Effect::AddExplicitPeer(fresh[k].peer_id.clone()));
                assert(effects_of(effects@) =~= before.push(
                    EffectView::AddExplicitPeer(fresh@[k as int].peer_id@),
                ));
            }
            k = k + 1;
        }
        assert(records(fresh@).take(fresh.len() as int) =~= records(fresh@));
        effects
    }

    /// Takes in a batch of expiries, each an identifier with a multiaddress.
    /// The online entries that match one of them in identifier and address
    /// go offline; nothing else changes.
    pub fn handle_expired(&mut self, batch: &Vec<(String, String)>)
        ensures
            final(self).online() == replay(old(self).online(), expired_changes(pairs(batch@))),
            final(self).trusted() == old(self).trusted(),
            final(self).local_id() == old(self).local_id(),
    {
        let gone = resolve_addresses(batch);
        self.registry.record_expired(&gone);
    }

    /// Decides what becomes of a broadcast message.
    pub fn handle_message(&self, topic: &str, payload: String) -> (effect: Option<Effect>)
        ensures
            opt_effect(effect) == message_effect(topic@, payload@),
    {
        if text_eq(topic, update_topic_name()) {
            Some(Effect::SetClipboard(payload))
        } else {
            None
        }
    }
}

/// A reply with the given response and no effects.
fn reply(response: &str) -> (reaction: Reaction)
    ensures
        reaction@ == plain_reply(response@),
{
    let effects: Vec<Effect> = Vec::new();
    assert(effects_of(effects@) =~= Seq::empty());
    Reaction::Reply { response: response.to_owned(), effects }
}

/// A discovery event as the contracts see it: a batch of identifiers with
/// multiaddresses that were announced, or one whose announcements ran out.
pub enum DiscoveryEvent {
    Discovered(Seq<Pair>),
    Expired(Seq<Pair>),
}

/// What a discovery event means for the online set.
pub open spec fn event_changes(event: DiscoveryEvent) -> Seq<PeerChange> {
    match event {
        DiscoveryEvent::Discovered(batch) => discovered_changes(batch),
        DiscoveryEvent::Expired(batch) => expired_changes(batch),
    }
}

/// The online set after the coordinator has handled `events` in order,
/// each with `handle_discovered` or `handle_expired`.
pub open spec fn online_after(online: Seq<Pair>, events: Seq<DiscoveryEvent>) -> Seq<Pair>
    decreases events.len(),
{
    if events.len() == 0 {
        online
    } else {
        replay(online_after(online, events.drop_last()), event_changes(events.last()))
    }
}

/// The observations that a sequence of discovery events amounts to.
pub open spec fn all_changes(events: Seq<DiscoveryEvent>) -> Seq<PeerChange>
    decreases events.len(),
{
    if events.len() == 0 {
        Seq::empty()
    } else {
        all_changes(events.drop_last()) + event_changes(events.last())
    }
}

/// Handling events one by one is replaying all their observations.
pub proof fn lemma_events_replay(online: Seq<Pair>, events: Seq<DiscoveryEvent>)
    ensures
        online_after(online, events) == replay(online, all_changes(events)),
    decreases events.len(),
{
    if events.len() != 0 {
        lemma_events_replay(online, events.drop_last());
        lemma_replay_concat(online, all_changes(events.drop_last()), event_changes(events.last()));
    }
}

/// For every sequence of discovery events, starting with nobody online:
/// a peer is online at an address afterwards exactly if one of the
/// observations recorded it there and no later one reports it gone from
/// there.
pub proof fn lemma_online_after_events(events: Seq<DiscoveryEvent>, p: Pair)
    ensures
        online_after(Seq::empty(), events).contains(p) <==> exists|i: int| #[trigger]
            recorded_and_kept(Seq::empty(), all_changes(events), i, p),
        unique_ids(online_after(Seq::empty(), events)),
{
    lemma_events_replay(Seq::empty(), events);
    lemma_replay_online(all_changes(events), p);
    lemma_replay_unique(Seq::empty(), all_changes(events));
}

/// The liveness probe is answered with `1` whatever the state.
pub proof fn lemma_alive_always(online: Seq<Pair>, local_id: Seq<char>, text: Seq<char>)
    requires
        request_name(text) == "is_alive"@,
    ensures
        react(online, local_id, text) == plain_reply("1"@),
{
}

/// With nobody online, the list of peers is empty.
pub proof fn lemma_no_peers_listed(local_id: Seq<char>, text: Seq<char>)
    requires
        request_name(text) == "get_peers"@,
    ensures
        react(Seq::empty(), local_id, text) == plain_reply(Seq::empty()),
{
    reveal_strlit("is_alive");
    reveal_strlit("get_peers");
    assert("is_alive"@.len() != "get_peers"@.len());
}

/// A request to promote a peer that is not online is answered with the
/// error text for an unknown peer, and asks for nothing else.
pub proof fn lemma_unknown_peer_answered(
    online: Seq<Pair>,
    local_id: Seq<char>,
    text: Seq<char>,
    id: Seq<char>,
)
    requires
        request_name(text) == "add_peer"@,
        request_argument(text) == Some(id),
        !has_id(online, id),
    ensures
        react(online, local_id, text) == plain_reply("Unknown peer"@),
{
    reveal_strlit("is_alive");
    reveal_strlit("get_peers");
    reveal_strlit("add_peer");
    assert("add_peer"@[0] != "is_alive"@[0]);
    assert("add_peer"@.len() != "get_peers"@.len());
}

/// A request to promote a peer that is online asks to persist it, and
/// once that is done, the peer is trusted and registered as relay target.
pub proof fn lemma_online_peer_promoted(
    online: Seq<Pair>,
    local_id: Seq<char>,
    text: Seq<char>,
    id: Seq<char>,
)
    requires
        request_name(text) == "add_peer"@,
        request_argument(text) == Some(id),
        has_id(online, id),
    ensures
        react(online, local_id, text) == ReactionView::Persist(id),
        promotion_reply(online, id, true) == ReactionView::Reply(
            "OK"@,
            seq![EffectView::AddExplicitPeer(id)],
        ),
{
    reveal_strlit("is_alive");
    reveal_strlit("get_peers");
    reveal_strlit("add_peer");
    assert("add_peer"@[0] != "is_alive"@[0]);
    assert("add_peer"@.len() != "get_peers"@.len());
}

/// Each new peer that is trusted gets its relay registration.
pub proof fn lemma_repromotions_contain(fresh: Seq<Pair>, trusted: Seq<Seq<char>>, j: int)
    requires
        0 <= j < fresh.len(),
        trusted.contains(fresh[j].0),
    ensures
        repromotions(fresh, trusted).contains(EffectView::AddExplicitPeer(fresh[j].0)),
    decreases fresh.len(),
{
    let head = repromotions(fresh.drop_last(), trusted);
    let out = repromotions(fresh, trusted);
    let wanted = EffectView::AddExplicitPeer(fresh[j].0);
    if j < fresh.len() - 1 {
        lemma_repromotions_contain(fresh.drop_last(), trusted, j);
        let i = choose|i: int| 0 <= i < head.len() && head[i] == wanted;
        assert(out[i] == wanted);
    } else {
        assert(out[head.len() as int] == wanted);
    }
}

/// Trust survives a restart: a coordinator that trusts `id`, as one
/// started from the persisted list does, registers `id` as relay target
/// again as soon as a discovery batch announces it at an address with a
/// host part while it is not online.
pub proof fn lemma_trusted_peer_repromoted(
    online: Seq<Pair>,
    trusted: Seq<Seq<char>>,
    local_id: Seq<char>,
    batch: Seq<Pair>,
    k: int,
)
    requires
        0 <= k < batch.len(),
        host_of(batch[k].1) is Some,
        trusted.contains(batch[k].0),
        !has_id(online, batch[k].0),
    ensures
        discovered_effects(online, trusted, local_id, batch).contains(
            EffectView::AddExplicitPeer(batch[k].0),
        ),
        has_id(replay(online, discovered_changes(batch)), batch[k].0),
{
    let id = batch[k].0;
    let entries = resolved(batch);
    let after = replay(online, discovered_changes(batch));
    let fresh = newly_online(online, batch);
    lemma_resolved_contains(batch, k);
    let e = choose|e: int| 0 <= e < entries.len() && entries[e] == (id, host_of(batch[k].1)->Some_0);
    lemma_seen_online(online, entries, e);
    lemma_seen_extends(online, entries);
    let i = choose|i: int| 0 <= i < after.len() && (#[trigger] after[i]).0 == id;
    if i < online.len() {
        assert(after.take(online.len() as int)[i] == after[i]);
        assert(online[i].0 == id);
    }
    assert(fresh[i - online.len()] == after[i]);
    lemma_repromotions_contain(fresh, trusted, i - online.len());
    let wanted = EffectView::AddExplicitPeer(id);
    let tail = repromotions(fresh, trusted);
    let j = choose|j: int| 0 <= j < tail.len() && tail[j] == wanted;
    let front = address_effects(batch) + publish_effects(batch, local_id);
    assert((front + tail)[front.len() + j] == wanted);
}

} // verus!
