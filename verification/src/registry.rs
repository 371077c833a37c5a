//! The peer registry: which peers are reachable right now, and which ones
//! the user has promoted to trusted relay targets.
//!
//! The online set is volatile and changes only through discovery events; the
//! trusted list is what gets persisted. Both are modelled as sequences so
//! that the order in which peers are reported is part of the contract.

use vstd::prelude::*;
use crate::text::{nth_segment, opt_text, segment, text_eq, texts};

verus! {

/// A peer as the contracts see it: identifier first, address second.
pub type Pair = (Seq<char>, Seq<char>);

/// A peer that discovery has reported, with the address it was seen at.
#[derive(Debug, PartialEq, Eq)]
pub struct PeerRecord {
    pub peer_id: String,
    pub address: String,
}

impl View for PeerRecord {
    type V = Pair;

    open spec fn view(&self) -> Pair {
        (self.peer_id@, self.address@)
    }
}

/// What the registry knows of a peer that is online.
#[derive(Debug, PartialEq, Eq)]
pub struct PeerStatus {
    pub peer_id: String,
    pub address: String,
    /// Whether the peer has been promoted to a trusted relay target.
    pub trusted: bool,
}

/// Why a peer could not be promoted.
#[derive(Clone, Copy, Debug, PartialEq, Eq)]
pub enum PeerLookupError {
    /// The identifier is not among the peers that are online.
    UnknownPeer,
}

/// One observation made by discovery, as replayed against the online set.
pub enum PeerChange {
    /// The peer announced itself at the address.
    Seen(Seq<char>, Seq<char>),
    /// The announcement of the peer at the address ran out.
    Gone(Seq<char>, Seq<char>),
}

/// The views of a sequence of records, element by element.
pub open spec fn records(v: Seq<PeerRecord>) -> Seq<Pair> {
    Seq::new(v.len(), |i: int| v[i]@)
}

/// The views of a sequence of identifier and address texts, element by element.
pub open spec fn pairs(v: Seq<(String, String)>) -> Seq<Pair> {
    Seq::new(v.len(), |i: int| (v[i].0@, v[i].1@))
}

/// Whether some entry of `s` carries the identifier `id`.
pub open spec fn has_id(s: Seq<Pair>, id: Seq<char>) -> bool {
    exists|i: int| 0 <= i < s.len() && (#[trigger] s[i]).0 == id
}

/// No identifier occurs twice in `s`.
pub open spec fn unique_ids(s: Seq<Pair>) -> bool {
    forall|i: int, j: int| 0 <= i < j < s.len() ==> (#[trigger] s[i]).0 != (#[trigger] s[j]).0
}

/// The online set after `id` was seen at `address`: a peer that is already
/// online keeps its entry, a new one is added at the end.
pub open spec fn with_seen(s: Seq<Pair>, id: Seq<char>, address: Seq<char>) -> Seq<Pair> {
    if has_id(s, id) {
        s
    } else {
        s.push((id, address))
    }
}

/// `s` without the entries equal to `gone`, the others in their order.
pub open spec fn without(s: Seq<Pair>, gone: Pair) -> Seq<Pair>
    decreases s.len(),
{
    if s.len() == 0 {
        s
    } else if s.last() == gone {
        without(s.drop_last(), gone)
    } else {
        without(s.drop_last(), gone).push(s.last())
    }
}

/// The online set after one observation.
pub open spec fn apply_change(s: Seq<Pair>, change: PeerChange) -> Seq<Pair> {
    match change {
        PeerChange::Seen(id, address) => with_seen(s, id, address),
        PeerChange::Gone(id, address) => without(s, (id, address)),
    }
}

/// The online set after the observations `changes`, taken in order.
pub open spec fn replay(s: Seq<Pair>, changes: Seq<PeerChange>) -> Seq<Pair>
    decreases changes.len(),
{
    if changes.len() == 0 {
        s
    } else {
        apply_change(replay(s, changes.drop_last()), changes.last())
    }
}

/// The trusted list after `id` was promoted: it is added unless already there.
pub open spec fn with_trusted(t: Seq<Seq<char>>, id: Seq<char>) -> Seq<Seq<char>> {
    if t.contains(id) {
        t
    } else {
        t.push(id)
    }
}

/// The host part of a multiaddress text such as `/ip4/10.0.0.5/tcp/4001`:
/// its third piece when cut at `/`, or `None` if it has fewer pieces.
pub open spec fn host_of(multiaddr: Seq<char>) -> Option<Seq<char>> {
    nth_segment(multiaddr, '/', 2)
}

/// The entries of a batch of identifier and multiaddress texts whose
/// multiaddress has a host part, each with that host as its address; the
/// others are skipped.
pub open spec fn resolved(batch: Seq<Pair>) -> Seq<Pair>
    decreases batch.len(),
{
    if batch.len() == 0 {
        Seq::empty()
    } else {
        let head = resolved(batch.drop_last());
        match host_of(batch.last().1) {
            Some(host) => head.push((batch.last().0, host)),
            None => head,
        }
    }
}

/// Each entry as a sighting.
pub open spec fn seen_changes(entries: Seq<Pair>) -> Seq<PeerChange> {
    Seq::new(entries.len(), |i: int| PeerChange::Seen(entries[i].0, entries[i].1))
}

/// Each entry as an expiry.
pub open spec fn gone_changes(entries: Seq<Pair>) -> Seq<PeerChange> {
    Seq::new(entries.len(), |i: int| PeerChange::Gone(entries[i].0, entries[i].1))
}

/// What a batch of announcements, given with multiaddresses, means for the
/// online set.
pub open spec fn discovered_changes(batch: Seq<Pair>) -> Seq<PeerChange> {
    seen_changes(resolved(batch))
}

/// What a batch of expiries, given with multiaddresses, means for the
/// online set.
pub open spec fn expired_changes(batch: Seq<Pair>) -> Seq<PeerChange> {
    gone_changes(resolved(batch))
}

/// Replaying one more observation is one more step.
pub proof fn lemma_replay_push(s: Seq<Pair>, changes: Seq<PeerChange>, change: PeerChange)
    ensures
        replay(s, changes.push(change)) == apply_change(replay(s, changes), change),
{
    assert(changes.push(change).drop_last() =~= changes);
}

/// Replaying `a` and then `b` is replaying their concatenation.
pub proof fn lemma_replay_concat(s: Seq<Pair>, a: Seq<PeerChange>, b: Seq<PeerChange>)
    ensures
        replay(s, a + b) == replay(replay(s, a), b),
    decreases b.len(),
{
    if b.len() == 0 {
        assert(a + b =~= a);
    } else {
        lemma_replay_concat(s, a, b.drop_last());
        assert((a + b).drop_last() =~= a + b.drop_last());
        assert((a + b).last() == b.last());
    }
}

/// An entry is in `without(s, gone)` exactly if it is in `s` and differs
/// from `gone`.
pub proof fn lemma_without_contains(s: Seq<Pair>, gone: Pair, p: Pair)
    ensures
        without(s, gone).contains(p) <==> s.contains(p) && p != gone,
    decreases s.len(),
{
    if s.len() == 0 {
    } else {
        let head = s.drop_last();
        lemma_without_contains(head, gone, p);
        if s.contains(p) {
            let i = choose|i: int| 0 <= i < s.len() && s[i] == p;
            if i < s.len() - 1 {
                assert(head[i] == p);
            }
        }
        if head.contains(p) {
            let i = choose|i: int| 0 <= i < head.len() && head[i] == p;
            assert(s[i] == p);
        }
        if s.last() == gone {
        } else {
            let w = without(head, gone);
            if w.push(s.last()).contains(p) {
                let i = choose|i: int| 0 <= i < w.push(s.last()).len() && w.push(s.last())[i] == p;
                if i < w.len() {
                    assert(w[i] == p);
                } else {
                    assert(s[s.len() - 1] == p);
                }
            }
            if w.contains(p) {
                let i = choose|i: int| 0 <= i < w.len() && w[i] == p;
                assert(w.push(s.last())[i] == p);
            }
            if p == s.last() {
                assert(w.push(s.last())[w.len() as int] == p);
                assert(s[s.len() - 1] == p);
            }
        }
    }
}

/// Taking entries out keeps identifiers unique.
pub proof fn lemma_without_unique(s: Seq<Pair>, gone: Pair)
    requires
        unique_ids(s),
    ensures
        unique_ids(without(s, gone)),
    decreases s.len(),
{
    if s.len() != 0 {
        let head = s.drop_last();
        assert(unique_ids(head)) by {
            assert forall|i: int, j: int| 0 <= i < j < head.len() implies (#[trigger] head[i]).0
                != (#[trigger] head[j]).0 by {
                assert(head[i] == s[i] && head[j] == s[j]);
            }
        }
        lemma_without_unique(head, gone);
        if s.last() != gone {
            let w = without(head, gone);
            let out = w.push(s.last());
            assert forall|i: int, j: int| 0 <= i < j < out.len() implies (#[trigger] out[i]).0 != (
            #[trigger] out[j]).0 by {
                if j == w.len() {
                    assert(out[i] == w[i]);
                    assert(w.contains(w[i]));
                    lemma_without_contains(head, gone, w[i]);
                    let k = choose|k: int| 0 <= k < head.len() && head[k] == w[i];
                    assert(s[k] == w[i]);
                    assert(s[k].0 != s[s.len() - 1].0);
                } else {
                    assert(out[i] == w[i] && out[j] == w[j]);
                }
            }
        }
    }
}

/// Recording a sighting keeps identifiers unique.
pub proof fn lemma_with_seen_unique(s: Seq<Pair>, id: Seq<char>, address: Seq<char>)
    requires
        unique_ids(s),
    ensures
        unique_ids(with_seen(s, id, address)),
{
    if !has_id(s, id) {
        let out = s.push((id, address));
        assert forall|i: int, j: int| 0 <= i < j < out.len() implies (#[trigger] out[i]).0 != (
        #[trigger] out[j]).0 by {
            if j == s.len() {
                assert(out[i] == s[i]);
            } else {
                assert(out[i] == s[i] && out[j] == s[j]);
            }
        }
    }
}

/// Replaying any observations keeps identifiers unique.
pub proof fn lemma_replay_unique(s: Seq<Pair>, changes: Seq<PeerChange>)
    requires
        unique_ids(s),
    ensures
        unique_ids(replay(s, changes)),
    decreases changes.len(),
{
    if changes.len() != 0 {
        let before = replay(s, changes.drop_last());
        lemma_replay_unique(s, changes.drop_last());
        match changes.last() {
            PeerChange::Seen(id, address) => lemma_with_seen_unique(before, id, address),
            PeerChange::Gone(id, address) => lemma_without_unique(before, (id, address)),
        }
    }
}

/// The part of a multiaddress text that names the host, if it has one.
pub fn address_host(multiaddr: &str) -> (host: Option<String>)
    ensures
        opt_text(host) == host_of(multiaddr@),
{
    segment(multiaddr, '/', 2)
}

/// A copy of a record.
pub fn copy_record(record: &PeerRecord) -> (c: PeerRecord)
    ensures
        c@ == record@,
{
    PeerRecord { peer_id: record.peer_id.clone(), address: record.address.clone() }
}

/// Whether some record in `list` carries the identifier `id`.
pub fn contains_id(list: &Vec<PeerRecord>, id: &str) -> (found: bool)
    ensures
        found == has_id(records(list@), id@),
{
    let mut i: usize = 0;
    while i < list.len()
        invariant
            i <= list.len(),
            forall|j: int| 0 <= j < i ==> (#[trigger] records(list@)[j]).0 != id@,
        decreases list.len() - i,
    {
        if text_eq(list[i].peer_id.as_str(), id) {
            assert(records(list@)[i as int].0 == id@);
            return true;
        }
        i = i + 1;
    }
    false
}

/// Whether `list` holds the text `id`.
pub fn contains_text(list: &Vec<String>, id: &str) -> (found: bool)
    ensures
        found == texts(list@).contains(id@),
{
    let mut i: usize = 0;
    while i < list.len()
        invariant
            i <= list.len(),
            forall|j: int| 0 <= j < i ==> (#[trigger] texts(list@)[j]) != id@,
        decreases list.len() - i,
    {
        if text_eq(list[i].as_str(), id) {
            assert(texts(list@)[i as int] == id@);
            return true;
        }
        i = i + 1;
    }
    false
}

/// The entries of `batch` that can be recorded, each with the host part of
/// its multiaddress as the address.
pub fn resolve_addresses(batch: &Vec<(String, String)>) -> (out: Vec<(String, String)>)
    ensures
        pairs(out@) == resolved(pairs(batch@)),
{
    let mut out: Vec<(String, String)> = Vec::new();
    let mut i: usize = 0;
    while i < batch.len()
        invariant
            i <= batch.len(),
            pairs(out@) == resolved(pairs(batch@).take(i as int)),
        decreases batch.len() - i,
    {
        let ghost before = pairs(out@);
        proof {
            assert(pairs(batch@).take(i + 1).drop_last() =~= pairs(batch@).take(i as int));
        }
        match address_host(batch[i].1.as_str()) {
            Some(host) => {
                out.push((batch[i].0.clone(), host));
                assert(pairs(out@) =~= before.push((batch@[i as int].0@, host@)));
            },
            None => {},
        }
        i = i + 1;
    }
    assert(pairs(batch@).take(batch.len() as int) =~= pairs(batch@));
    out
}

/// The peers of a discovery batch that are new: those that can be recorded,
/// are not in `online` and were not named earlier in the batch, in the
/// order of the batch.
pub fn filter_incoming_peers(online: &Vec<PeerRecord>, incoming: &Vec<(String, String)>) -> (fresh:
    Vec<PeerRecord>)
    ensures
        records(online@) + records(fresh@) == replay(
            records(online@),
            discovered_changes(pairs(incoming@)),
        ),
{
    let entries = resolve_addresses(incoming);
    let ghost base = records(online@);
    let ghost changes = seen_changes(pairs(entries@));
    let mut fresh: Vec<PeerRecord> = Vec::new();
    let mut i: usize = 0;
    assert(base + records(fresh@) =~= base);
    assert(changes.take(0) =~= Seq::<PeerChange>::empty());
    while i < entries.len()
        invariant
            i <= entries.len(),
            base == records(online@),
            changes == seen_changes(pairs(entries@)),
            base + records(fresh@) == replay(base, changes.take(i as int)),
        decreases entries.len() - i,
    {
        let ghost before = records(fresh@);
        let ghost so_far = base + before;
        let known = contains_id(online, entries[i].0.as_str());
        let repeated = contains_id(&fresh, entries[i].0.as_str());
        proof {
            let id = entries@[i as int].0@;
            assert(changes.take(i + 1) =~= changes.take(i as int).push(changes[i as int]));
            lemma_replay_push(base, changes.take(i as int), changes[i as int]);
            lemma_has_id_concat(base, before, id);
        }
        if !known && !repeated {
            fresh.push(PeerRecord { peer_id: entries[i].0.clone(), address: entries[i].1.clone() });
            assert(base + records(fresh@) =~= so_far.push(
                (entries@[i as int].0@, entries@[i as int].1@),
            ));
        }
        i = i + 1;
    }
    assert(changes.take(entries.len() as int) =~= changes);
    fresh
}

/// The registry of online and trusted peers.
pub struct PeerRegistry {
    online: Vec<PeerRecord>,
    trusted: Vec<String>,
}

impl PeerRegistry {
    #[verifier::type_invariant]
    spec fn well_formed(self) -> bool {
        unique_ids(records(self.online@))
    }

    /// The peers that are online, in the order in which they were recorded.
    pub closed spec fn online(self) -> Seq<Pair> {
        records(self.online@)
    }

    /// The identifiers that are trusted, in the order in which they were added.
    pub closed spec fn trusted(self) -> Seq<Seq<char>> {
        texts(self.trusted@)
    }

    /// A registry with nobody online and the given trusted identifiers.
    pub fn new(known: Vec<String>) -> (registry: Self)
        ensures
            registry.online() == Seq::<Pair>::empty(),
            registry.trusted() == texts(known@),
    {
        let registry = PeerRegistry { online: Vec::new(), trusted: known };
        assert(registry.online() =~= Seq::<Pair>::empty());
        registry
    }

    /// The peers that are online. No identifier occurs twice among them.
    pub fn online_peers(&self) -> (list: Vec<PeerRecord>)
        ensures
            records(list@) == self.online(),
            unique_ids(self.online()),
    {
        proof {
            use_type_invariant(self);
        }
        let mut list: Vec<PeerRecord> = Vec::new();
        let mut i: usize = 0;
        while i < self.online.len()
            invariant
                i <= self.online.len(),
                records(list@) == records(self.online@).take(i as int),
            decreases self.online.len() - i,
        {
            let ghost before = records(list@);
            list.push(copy_record(&self.online[i]));
            assert(records(list@) =~= before.push(self.online@[i as int]@));
            assert(records(list@) =~= records(self.online@).take(i + 1));
            i = i + 1;
        }
        assert(records(self.online@).take(self.online.len() as int) =~= records(self.online@));
        list
    }

    /// The identifiers that are trusted.
    pub fn trusted_peers(&self) -> (list: Vec<String>)
        ensures
            texts(list@) == self.trusted(),
    {
        let mut list: Vec<String> = Vec::new();
        let mut i: usize = 0;
        while i < self.trusted.len()
            invariant
                i <= self.trusted.len(),
                texts(list@) == texts(self.trusted@).take(i as int),
            decreases self.trusted.len() - i,
        {
            let ghost before = texts(list@);
            list.push(self.trusted[i].clone());
            assert(texts(list@) =~= before.push(self.trusted@[i as int]@));
            assert(texts(list@) =~= texts(self.trusted@).take(i + 1));
            i = i + 1;
        }
        assert(texts(self.trusted@).take(self.trusted.len() as int) =~= texts(self.trusted@));
        list
    }

    /// Whether the peer `id` is online.
    pub fn is_online(&self, id: &str) -> (found: bool)
        ensures
            found == has_id(self.online(), id@),
    {
        contains_id(&self.online, id)
    }

    /// What is known of the peer `id`: its address and whether it is
    /// trusted, or `None` if it is not online.
    pub fn status(&self, id: &str) -> (found: Option<PeerStatus>)
        ensures
            found is Some <==> has_id(self.online(), id@),
            found is Some ==> found->Some_0.peer_id@ == id@ && self.online().contains(
                (id@, found->Some_0.address@),
            ) && found->Some_0.trusted == self.trusted().contains(id@),
    {
        let mut i: usize = 0;
        while i < self.online.len()
            invariant
                i <= self.online.len(),
                forall|j: int| 0 <= j < i ==> (#[trigger] records(self.online@)[j]).0 != id@,
            decreases self.online.len() - i,
        {
            if text_eq(self.online[i].peer_id.as_str(), id) {
                assert(records(self.online@)[i as int] == (id@, self.online@[i as int].address@));
                return Some(
                    PeerStatus {
                        peer_id: self.online[i].peer_id.clone(),
                        address: self.online[i].address.clone(),
                        trusted: contains_text(&self.trusted, id),
                    },
                );
            }
            i = i + 1;
        }
        None
    }

    /// Whether the peer `id` is trusted.
    pub fn is_known_trusted(&self, id: &str) -> (found: bool)
        ensures
            found == self.trusted().contains(id@),
    {
        contains_text(&self.trusted, id)
    }

    /// Records that `id` was seen at `address`. A peer that is already online
    /// keeps its entry; the result says whether the peer is new.
    pub fn record_discovered(&mut self, id: String, address: String) -> (fresh: bool)
        ensures
            fresh == !has_id(old(self).online(), id@),
            final(self).online() == with_seen(old(self).online(), id@, address@),
            final(self).trusted() == old(self).trusted(),
    {
        proof {
            use_type_invariant(&*self);
        }
        if contains_id(&self.online, id.as_str()) {
            return false;
        }
        let ghost before = records(self.online@);
        let mut online: Vec<PeerRecord> = Vec::new();
        std::mem::swap(&mut online, &mut self.online);
        online.push(PeerRecord { peer_id: id, address });
        proof {
            assert(records(online@) =~= before.push((id@, address@)));
            lemma_with_seen_unique(before, id@, address@);
        }
        self.online = online;
        true
    }

    /// Records a whole discovery batch, given with multiaddresses, and
    /// returns the peers that are new, in the order of the batch.
    pub fn record_discovered_batch(&mut self, incoming: &Vec<(String, String)>) -> (fresh: Vec<
        PeerRecord,
    >)
        ensures
            final(self).online() == replay(
                old(self).online(),
                discovered_changes(pairs(incoming@)),
            ),
            final(self).online() == old(self).online() + records(fresh@),
            final(self).trusted() == old(self).trusted(),
    {
        proof {
            use_type_invariant(&*self);
        }
        let fresh = filter_incoming_peers(&self.online, incoming);
        let ghost before = records(self.online@);
        let mut online: Vec<PeerRecord> = Vec::new();
        std::mem::swap(&mut online, &mut self.online);
        let mut i: usize = 0;
        assert(before + records(fresh@).take(0) =~= before);
        while i < fresh.len()
            invariant
                i <= fresh.len(),
                records(online@) == before + records(fresh@).take(i as int),
            decreases fresh.len() - i,
        {
            let ghost so_far = records(online@);
            online.push(copy_record(&fresh[i]));
            assert(records(online@) =~= so_far.push(fresh@[i as int]@));
            assert(records(online@) =~= before + records(fresh@).take(i + 1));
            i = i + 1;
        }
        proof {
            assert(records(fresh@).take(fresh.len() as int) =~= records(fresh@));
            lemma_replay_unique(before, discovered_changes(pairs(incoming@)));
        }
        self.online = online;
        fresh
    }

    /// Takes out of the online set every entry that equals one of `gone`
    /// in both identifier and address. Nothing else changes.
    pub fn record_expired(&mut self, gone: &Vec<(String, String)>)
        ensures
            final(self).online() == replay(old(self).online(), gone_changes(pairs(gone@))),
            final(self).trusted() == old(self).trusted(),
    {
        proof {
            use_type_invariant(&*self);
        }
        let ghost before = records(self.online@);
        let ghost changes = gone_changes(pairs(gone@));
        let mut online: Vec<PeerRecord> = Vec::new();
        std::mem::swap(&mut online, &mut self.online);
        let mut i: usize = 0;
        assert(changes.take(0) =~= Seq::<PeerChange>::empty());
        while i < gone.len()
            invariant
                i <= gone.len(),
                changes == gone_changes(pairs(gone@)),
                records(online@) == replay(before, changes.take(i as int)),
            decreases gone.len() - i,
        {
            proof {
                assert(changes.take(i + 1) =~= changes.take(i as int).push(changes[i as int]));
                lemma_replay_push(before, changes.take(i as int), changes[i as int]);
            }
            online = remove_pair(online, gone[i].0.as_str(), gone[i].1.as_str());
            i = i + 1;
        }
        proof {
            assert(changes.take(gone.len() as int) =~= changes);
            lemma_replay_unique(before, changes);
        }
        self.online = online;
    }

    /// Promotes the peer `id` to trusted. Only a peer that is online can be
    /// promoted; one that is trusted already stays listed once.
    pub fn promote_trusted(&mut self, id: &str) -> (outcome: Result<(), PeerLookupError>)
        ensures
            outcome is Ok <==> has_id(old(self).online(), id@),
            outcome is Ok ==> final(self).trusted() == with_trusted(old(self).trusted(), id@),
            outcome is Err ==> final(self).trusted() == old(self).trusted(),
            final(self).online() == old(self).online(),
    {
        proof {
            use_type_invariant(&*self);
        }
        if !contains_id(&self.online, id) {
            return Err(PeerLookupError::UnknownPeer);
        }
        if !contains_text(&self.trusted, id) {
            let ghost before = texts(self.trusted@);
            let mut trusted: Vec<String> = Vec::new();
            std::mem::swap(&mut trusted, &mut self.trusted);
            trusted.push(id.to_owned());
            assert(texts(trusted@) =~= before.push(id@));
            self.trusted = trusted;
        }
        Ok(())
    }
}

/// `list` without the records that equal the given identifier and address.
fn remove_pair(list: Vec<PeerRecord>, id: &str, address: &str) -> (kept: Vec<PeerRecord>)
    ensures
        records(kept@) == without(records(list@), (id@, address@)),
{
    let mut kept: Vec<PeerRecord> = Vec::new();
    let mut i: usize = 0;
    assert(records(list@).take(0) =~= Seq::<Pair>::empty());
    while i < list.len()
        invariant
            i <= list.len(),
            records(kept@) == without(records(list@).take(i as int), (id@, address@)),
        decreases list.len() - i,
    {
        proof {
            assert(records(list@).take(i + 1).drop_last() =~= records(list@).take(i as int));
        }
        let ghost before = records(kept@);
        let matches = text_eq(list[i].peer_id.as_str(), id) && text_eq(
            list[i].address.as_str(),
            address,
        );
        if !matches {
            kept.push(copy_record(&list[i]));
            assert(records(kept@) =~= before.push(list@[i as int]@));
        }
        i = i + 1;
    }
    assert(records(list@).take(list.len() as int) =~= records(list@));
    kept
}

/// An identifier occurs in a concatenation exactly if it occurs in a part.
pub proof fn lemma_has_id_concat(a: Seq<Pair>, b: Seq<Pair>, id: Seq<char>)
    ensures
        has_id(a + b, id) <==> has_id(a, id) || has_id(b, id),
{
    let s = a + b;
    if has_id(s, id) {
        let i = choose|i: int| 0 <= i < s.len() && (#[trigger] s[i]).0 == id;
        if i < a.len() {
            assert(a[i].0 == id);
        } else {
            assert(b[i - a.len()].0 == id);
        }
    }
    if has_id(a, id) {
        let i = choose|i: int| 0 <= i < a.len() && (#[trigger] a[i]).0 == id;
        assert(s[i].0 == id);
    }
    if has_id(b, id) {
        let i = choose|i: int| 0 <= i < b.len() && (#[trigger] b[i]).0 == id;
        assert(s[a.len() + i].0 == id);
    }
}

/// No observation after position `i` reports `p` gone.
pub open spec fn kept_after(changes: Seq<PeerChange>, i: int, p: Pair) -> bool {
    forall|j: int|
        0 <= j && i < j < changes.len() ==> #[trigger] changes[j] != PeerChange::Gone(p.0, p.1)
}

/// Observation `i` is a sighting of `p` made while its identifier was not
/// online, so that it was recorded.
pub open spec fn recorded_at(s: Seq<Pair>, changes: Seq<PeerChange>, i: int, p: Pair) -> bool {
    &&& 0 <= i < changes.len()
    &&& changes[i] == PeerChange::Seen(p.0, p.1)
    &&& !has_id(replay(s, changes.take(i)), p.0)
}

/// Observation `i` recorded `p`, and nothing after it reports `p` gone.
pub open spec fn recorded_and_kept(s: Seq<Pair>, changes: Seq<PeerChange>, i: int, p: Pair) -> bool {
    recorded_at(s, changes, i, p) && kept_after(changes, i, p)
}

/// What is online after a replay: an entry `p` is online exactly if it was
/// online at the start and never reported gone, or some sighting recorded
/// it and no later observation reports it gone.
pub proof fn lemma_replay_contains(s: Seq<Pair>, changes: Seq<PeerChange>, p: Pair)
    ensures
        replay(s, changes).contains(p) <==> (s.contains(p) && kept_after(changes, -1, p)) || (
        exists|i: int| #[trigger] recorded_and_kept(s, changes, i, p)),
    decreases changes.len(),
{
    if changes.len() != 0 {
        let n = changes.len() - 1;
        let head = changes.drop_last();
        let last = changes.last();
        let before = replay(s, head);
        let after = replay(s, changes);
        lemma_replay_contains(s, head, p);
        assert(changes.take(n) =~= head);
        assert forall|i: int| 0 <= i < n implies #[trigger] changes.take(i) == head.take(i) by {
            assert(changes.take(i) =~= head.take(i));
        }
        assert forall|i: int| i < n implies (kept_after(changes, i, p) <==> kept_after(head, i, p)
            && last != PeerChange::Gone(p.0, p.1)) by {
            if kept_after(changes, i, p) {
                assert(changes[n] != PeerChange::Gone(p.0, p.1));
                assert forall|j: int| 0 <= j && i < j < head.len() implies #[trigger] head[j]
                    != PeerChange::Gone(p.0, p.1) by {
                    assert(head[j] == changes[j]);
                }
            }
            if kept_after(head, i, p) && last != PeerChange::Gone(p.0, p.1) {
                assert forall|j: int| 0 <= j && i < j < changes.len() implies #[trigger] changes[j]
                    != PeerChange::Gone(p.0, p.1) by {
                    if j < n {
                        assert(head[j] == changes[j]);
                    }
                }
            }
        }
        assert forall|i: int| 0 <= i < n implies (recorded_at(s, changes, i, p) <==> recorded_at(
            s,
            head,
            i,
            p,
        )) by {
            assert(changes.take(i) == head.take(i));
            assert(changes[i] == head[i]);
        }
        match last {
            PeerChange::Seen(id, address) => {
                assert(after.contains(p) <==> before.contains(p) || (!has_id(before, id) && p == (
                    id,
                    address,
                ))) by {
                    if has_id(before, id) {
                    } else {
                        let grown = before.push((id, address));
                        if before.contains(p) {
                            let k = choose|k: int| 0 <= k < before.len() && before[k] == p;
                            assert(grown[k] == p);
                        }
                        if p == (id, address) {
                            assert(grown[before.len() as int] == p);
                        }
                        if grown.contains(p) {
                            let k = choose|k: int| 0 <= k < grown.len() && grown[k] == p;
                            if k < before.len() {
                                assert(before[k] == p);
                            }
                        }
                    }
                }
                if after.contains(p) {
                    if before.contains(p) {
                        if s.contains(p) && kept_after(head, -1, p) {
                            assert(kept_after(changes, -1, p));
                        } else {
                            let i = choose|i: int| #[trigger] recorded_and_kept(s, head, i, p);
                            assert(recorded_and_kept(s, changes, i, p));
                        }
                    } else {
                        assert(kept_after(changes, n, p));
                        assert(recorded_and_kept(s, changes, n, p));
                    }
                }
                if s.contains(p) && kept_after(changes, -1, p) {
                    assert(kept_after(head, -1, p));
                }
                if exists|i: int| #[trigger] recorded_and_kept(s, changes, i, p) {
                    let i = choose|i: int| #[trigger] recorded_and_kept(s, changes, i, p);
                    if i < n {
                        assert(recorded_and_kept(s, head, i, p));
                    }
                }
            },
            PeerChange::Gone(id, address) => {
                lemma_without_contains(before, (id, address), p);
                if after.contains(p) {
                    if s.contains(p) && kept_after(head, -1, p) {
                        assert(kept_after(changes, -1, p));
                    } else {
                        let i = choose|i: int| #[trigger] recorded_and_kept(s, head, i, p);
                        assert(recorded_and_kept(s, changes, i, p));
                    }
                }
                if s.contains(p) && kept_after(changes, -1, p) {
                    assert(kept_after(head, -1, p));
                }
                if exists|i: int| #[trigger] recorded_and_kept(s, changes, i, p) {
                    let i = choose|i: int| #[trigger] recorded_and_kept(s, changes, i, p);
                    assert(i < n);
                    assert(recorded_and_kept(s, head, i, p));
                }
            },
        }
    } else {
        assert(kept_after(changes, -1, p));
    }
}

/// Starting with nobody online, the online set after any observations is
/// the set of recorded sightings minus those later reported gone at the
/// same identifier and address: `p` is online exactly if some sighting of
/// `p` was recorded and no later observation reports `p` gone.
pub proof fn lemma_replay_online(changes: Seq<PeerChange>, p: Pair)
    ensures
        replay(Seq::empty(), changes).contains(p) <==> exists|i: int| #[trigger]
            recorded_and_kept(Seq::empty(), changes, i, p),
{
    lemma_replay_contains(Seq::empty(), changes, p);
}

/// Promotion is a union: afterwards the trusted identifiers are those
/// trusted before and the promoted one, and nothing else.
pub proof fn lemma_with_trusted_union(t: Seq<Seq<char>>, id: Seq<char>, x: Seq<char>)
    ensures
        with_trusted(t, id).contains(x) <==> t.contains(x) || x == id,
{
    if !t.contains(id) {
        let grown = t.push(id);
        if t.contains(x) {
            let i = choose|i: int| 0 <= i < t.len() && t[i] == x;
            assert(grown[i] == x);
        }
        if x == id {
            assert(grown[t.len() as int] == x);
        }
        if grown.contains(x) {
            let i = choose|i: int| 0 <= i < grown.len() && grown[i] == x;
            if i < t.len() {
                assert(t[i] == x);
            }
        }
    }
}

/// Sightings only add to the online set: what was online stays, in place.
pub proof fn lemma_seen_extends(s: Seq<Pair>, entries: Seq<Pair>)
    ensures
        replay(s, seen_changes(entries)).len() >= s.len(),
        replay(s, seen_changes(entries)).take(s.len() as int) == s,
    decreases entries.len(),
{
    let changes = seen_changes(entries);
    if entries.len() == 0 {
        assert(s.take(s.len() as int) =~= s);
    } else {
        assert(changes.drop_last() =~= seen_changes(entries.drop_last()));
        lemma_seen_extends(s, entries.drop_last());
        let before = replay(s, seen_changes(entries.drop_last()));
        let after = replay(s, changes);
        assert(after.take(s.len() as int) =~= before.take(s.len() as int));
    }
}

/// After a batch of sightings every peer of the batch is online.
pub proof fn lemma_seen_online(s: Seq<Pair>, entries: Seq<Pair>, k: int)
    requires
        0 <= k < entries.len(),
    ensures
        has_id(replay(s, seen_changes(entries)), entries[k].0),
    decreases entries.len(),
{
    let changes = seen_changes(entries);
    assert(changes.drop_last() =~= seen_changes(entries.drop_last()));
    let before = replay(s, seen_changes(entries.drop_last()));
    let after = replay(s, changes);
    let last = entries.last();
    assert(after == with_seen(before, last.0, last.1));
    if k < entries.len() - 1 {
        lemma_seen_online(s, entries.drop_last(), k);
        let id = entries[k].0;
        let i = choose|i: int| 0 <= i < before.len() && (#[trigger] before[i]).0 == id;
        if !has_id(before, last.0) {
            assert(after[i] == before[i]);
        }
    } else {
        if !has_id(before, last.0) {
            assert(after[before.len() as int].0 == last.0);
        }
    }
}

/// An entry whose multiaddress has a host part is among the resolved
/// entries, with that host as its address.
pub proof fn lemma_resolved_contains(batch: Seq<Pair>, k: int)
    requires
        0 <= k < batch.len(),
        host_of(batch[k].1) is Some,
    ensures
        resolved(batch).contains((batch[k].0, host_of(batch[k].1)->Some_0)),
    decreases batch.len(),
{
    let head = resolved(batch.drop_last());
    let out = resolved(batch);
    let pair = (batch[k].0, host_of(batch[k].1)->Some_0);
    if k < batch.len() - 1 {
        lemma_resolved_contains(batch.drop_last(), k);
        let i = choose|i: int| 0 <= i < head.len() && head[i] == pair;
        assert(out[i] == pair);
    } else {
        assert(out[head.len() as int] == pair);
    }
}

/// Observation `i` is a sighting of `p`, and nothing after it reports `p`
/// gone.
pub open spec fn seen_and_kept(changes: Seq<PeerChange>, i: int, p: Pair) -> bool {
    &&& 0 <= i < changes.len()
    &&& changes[i] == PeerChange::Seen(p.0, p.1)
    &&& kept_after(changes, i, p)
}

/// If observation `i` is a sighting of a peer that is online, it gives the
/// address at which the peer is online.
pub open spec fn steady_at(s: Seq<Pair>, changes: Seq<PeerChange>, i: int) -> bool {
    match changes[i] {
        PeerChange::Seen(id, address) => has_id(replay(s, changes.take(i)), id) ==> replay(
            s,
            changes.take(i),
        ).contains((id, address)),
        PeerChange::Gone(_, _) => true,
    }
}

/// Whenever a peer that is online is sighted, it is sighted at the address
/// at which it is online.
pub open spec fn steady_addresses(s: Seq<Pair>, changes: Seq<PeerChange>) -> bool {
    forall|i: int| 0 <= i < changes.len() ==> #[trigger] steady_at(s, changes, i)
}

/// Starting with nobody online and with peers that keep their addresses
/// while they are online, the online set after any observations is the set
/// of peers seen minus those reported gone afterwards: `p` is online
/// exactly if it was seen and no later observation reports it gone at the
/// same identifier and address.
pub proof fn lemma_replay_seen_minus_gone(changes: Seq<PeerChange>, p: Pair)
    requires
        steady_addresses(Seq::empty(), changes),
    ensures
        replay(Seq::empty(), changes).contains(p) <==> exists|i: int| #[trigger]
            seen_and_kept(changes, i, p),
{
    let start = Seq::<Pair>::empty();
    lemma_replay_online(changes, p);
    if replay(start, changes).contains(p) {
        let i = choose|i: int| #[trigger] recorded_and_kept(start, changes, i, p);
        assert(seen_and_kept(changes, i, p));
    }
    if exists|i: int| #[trigger] seen_and_kept(changes, i, p) {
        let i = choose|i: int| #[trigger] seen_and_kept(changes, i, p);
        let before = replay(start, changes.take(i));
        if has_id(before, p.0) {
            assert(steady_at(start, changes, i));
            assert(before.contains(p));
            let rest = changes.skip(i);
            assert(changes.take(i) + rest =~= changes);
            lemma_replay_concat(start, changes.take(i), rest);
            assert(kept_after(rest, -1, p)) by {
                assert forall|j: int| 0 <= j && -1 < j < rest.len() implies #[trigger] rest[j]
                    != PeerChange::Gone(p.0, p.1) by {
                    assert(rest[j] == changes[i + j]);
                }
            }
            lemma_replay_contains(before, rest, p);
        } else {
            assert(recorded_and_kept(start, changes, i, p));
        }
    }
}

} // verus!
