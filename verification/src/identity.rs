//! The identity store: the node's keypair and the identifier derived from it.
//!
//! The keypair lives in a key file as the protobuf encoding that `libp2p`
//! defines. This module decides what happens with the content of that file:
//! an existing key is decoded and never replaced, a missing one is generated.
//! Reading and writing the file is left to the caller.

use vstd::prelude::*;
use crate::json::{pretty_text, Json};
use crate::document::{load_data_map, loaded, DataMap};
use crate::text::opt_str;

verus! {

/// `libp2p::identity::DecodingError`: why key material could not be
/// decoded. Nothing is read from it.
#[verifier::external_type_specification]
#[verifier::external_body]
pub struct ExDecodingError(libp2p::identity::DecodingError);

/// The identifier of the keypair that `libp2p` decodes from `encoding`, as
/// text, or `None` where it reports that the encoding is not a keypair.
pub uninterp spec fn encoded_key_peer_id(encoding: Seq<u8>) -> Option<Seq<char>>;

/// Whether `libp2p` accepts `text` as a peer identifier.
pub uninterp spec fn valid_peer_id(text: Seq<char>) -> bool;

/// `Keypair::generate_ed25519`, handed out in the encoding that
/// `Keypair::to_protobuf_encoding` gives it. The key is random: nothing is
/// claimed of it.
#[verifier::external_body]
pub(crate) fn generate_key_encoding() -> (r: Result<Vec<u8>, libp2p::identity::DecodingError>) {
    libp2p::identity::Keypair::generate_ed25519().to_protobuf_encoding()
}

/// `Keypair::from_protobuf_encoding`, followed by the derivation of the
/// identifier from the public half (`public`, `to_peer_id`) and its text
/// form. The outcome is a function of the encoding alone; it is named by
/// `encoded_key_peer_id`.
#[verifier::external_body]
pub(crate) fn peer_id_of_encoding(encoding: &[u8]) -> (r: Result<
    String,
    libp2p::identity::DecodingError,
>)
    ensures
        r is Ok ==> encoded_key_peer_id(encoding@) == Some(r->Ok_0@),
        r is Err ==> encoded_key_peer_id(encoding@) is None,
{
    let key = libp2p::identity::Keypair::from_protobuf_encoding(encoding)?;
    Ok(key.public().to_peer_id().to_string())
}

/// `PeerId::from_str`, asked only whether it accepts the text. The answer
/// is a function of the text alone; it is named by `valid_peer_id`.
#[verifier::external_body]
pub(crate) fn peer_id_parses(text: &str) -> (valid: bool)
    ensures
        valid == valid_peer_id(text@),
{
    text.parse::<libp2p::PeerId>().is_ok()
}

/// Why no identity could be had.
#[derive(Clone, Copy, Debug, PartialEq, Eq)]
pub enum IdentityError {
    /// The key file holds something that is not a keypair.
    Decode,
    /// No usable keypair could be generated.
    Generate,
}

/// A node's keypair, in its protobuf encoding, and the identifier derived
/// from its public half.
#[derive(Debug, PartialEq, Eq)]
pub struct NodeIdentity {
    pub key_encoding: Vec<u8>,
    pub peer_id: String,
}

impl NodeIdentity {
    /// The identifier is the one that the encoded keypair has.
    pub open spec fn well_formed(self) -> bool {
        encoded_key_peer_id(self.key_encoding@) == Some(self.peer_id@)
    }
}

/// What `get_keys` found or made.
#[derive(Debug, PartialEq, Eq)]
pub struct KeyOutcome {
    /// The node's identity.
    pub identity: NodeIdentity,
    /// Whether the keypair is new. A new keypair has to be written to the
    /// key file before it is used.
    pub created: bool,
    /// With a new keypair, the data document that records the identifier
    /// under `local_peer_id`, if one could be made. Writing it is best
    /// effort.
    pub document: Option<String>,
}

/// An outcome as the contracts see it.
pub struct KeyOutcomeView {
    pub key_encoding: Seq<u8>,
    pub peer_id: Seq<char>,
    pub created: bool,
    pub document: Option<Seq<char>>,
}

impl View for KeyOutcome {
    type V = KeyOutcomeView;

    open spec fn view(&self) -> KeyOutcomeView {
        KeyOutcomeView {
            key_encoding: self.identity.key_encoding@,
            peer_id: self.identity.peer_id@,
            created: self.created,
            document: match self.document {
                Some(d) => Some(d@),
                None => None,
            },
        }
    }
}

/// The view of the result of an identity operation.
pub open spec fn outcome_view(r: Result<KeyOutcome, IdentityError>) -> Result<
    KeyOutcomeView,
    IdentityError,
> {
    match r {
        Ok(o) => Ok(o@),
        Err(e) => Err(e),
    }
}

/// The data document that records `peer_id` under `local_peer_id`: the
/// members of the present document, or none if there is no document, with
/// that one member set. `None` if the present document cannot be read or
/// the new one cannot be printed.
pub open spec fn initial_document(content: Option<Seq<char>>, peer_id: Seq<char>) -> Option<
    Seq<char>,
> {
    match loaded(content) {
        Some(members) => pretty_text(members.insert("local_peer_id"@, Json::Text(peer_id))),
        None => None,
    }
}

/// The identity that a stored key file gives: its keypair, unchanged, or
/// the error `Decode` if it holds no keypair.
pub open spec fn restored(stored: Seq<u8>) -> Result<KeyOutcomeView, IdentityError> {
    match encoded_key_peer_id(stored) {
        Some(peer_id) => Ok(
            KeyOutcomeView { key_encoding: stored, peer_id, created: false, document: None },
        ),
        None => Err(IdentityError::Decode),
    }
}

/// The identity that a freshly generated keypair gives, together with the
/// data document that records it; the error `Generate` if the generator
/// gave nothing that can be used.
pub open spec fn adopted(generated: Option<Seq<u8>>, content: Option<Seq<char>>) -> Result<
    KeyOutcomeView,
    IdentityError,
> {
    match generated {
        Some(encoding) => match encoded_key_peer_id(encoding) {
            Some(peer_id) => Ok(
                KeyOutcomeView {
                    key_encoding: encoding,
                    peer_id,
                    created: true,
                    document: initial_document(content, peer_id),
                },
            ),
            None => Err(IdentityError::Generate),
        },
        None => Err(IdentityError::Generate),
    }
}

/// The view of optional bytes.
pub open spec fn opt_bytes(o: Option<Vec<u8>>) -> Option<Seq<u8>> {
    match o {
        Some(b) => Some(b@),
        None => None,
    }
}

/// Takes the content of an existing key file as the node's identity.
pub fn restore_identity(stored: Vec<u8>) -> (r: Result<KeyOutcome, IdentityError>)
    ensures
        outcome_view(r) == restored(stored@),
        r is Ok ==> r->Ok_0.identity.well_formed(),
{
    match peer_id_of_encoding(stored.as_slice()) {
        Ok(peer_id) => Ok(
            KeyOutcome {
                identity: NodeIdentity { key_encoding: stored, peer_id },
                created: false,
                document: None,
            },
        ),
        Err(_) => Err(IdentityError::Decode),
    }
}

/// Takes a freshly generated keypair as the node's identity and prepares
/// the data document that records its identifier. `document` is the content
/// of the present data document, if there is one.
pub fn adopt_identity(generated: Option<Vec<u8>>, document: Option<&str>) -> (r: Result<
    KeyOutcome,
    IdentityError,
>)
    ensures
        outcome_view(r) == adopted(opt_bytes(generated), opt_str(document)),
        r is Ok ==> r->Ok_0.identity.well_formed(),
{
    let encoding = match generated {
        Some(encoding) => encoding,
        None => {
            return Err(IdentityError::Generate);
        },
    };
    let peer_id = match peer_id_of_encoding(encoding.as_slice()) {
        Ok(peer_id) => peer_id,
        Err(_) => {
            return Err(IdentityError::Generate);
        },
    };
    let document = match load_data_map(document) {
        Ok(map) => {
            let mut map: DataMap = map;
            map.set_text("local_peer_id", peer_id.clone());
            match map.render() {
                Ok(text) => Some(text),
                Err(_) => None,
            }
        },
        Err(_) => None,
    };
    Ok(
        KeyOutcome {
            identity: NodeIdentity { key_encoding: encoding, peer_id },
            created: true,
            document,
        },
    )
}

/// Loads the node's identity, or creates it on first use. `stored_key` is
/// the content of the key file, if there is one, and `document` that of the
/// data document. An existing key file is decoded and never replaced: if it
/// holds no keypair the result is the error `Decode`. Without a key file a
/// keypair is generated.
pub fn get_keys(stored_key: Option<Vec<u8>>, document: Option<&str>) -> (r: Result<
    KeyOutcome,
    IdentityError,
>)
    ensures
        stored_key is Some ==> outcome_view(r) == restored(stored_key->Some_0@),
        stored_key is None ==> exists|generated: Option<Seq<u8>>|
            outcome_view(r) == #[trigger] adopted(generated, opt_str(document)),
        r is Ok ==> r->Ok_0.identity.well_formed(),
{
    match stored_key {
        Some(stored) => restore_identity(stored),
        None => {
            let generated = match generate_key_encoding() {
                Ok(encoding) => Some(encoding),
                Err(_) => None,
            };
            let ghost g = opt_bytes(generated);
            let r = adopt_identity(generated, document);
            assert(outcome_view(r) == adopted(g, opt_str(document)));
            r
        },
    }
}

/// Loading twice gives the same identity: the key file written after a
/// first run that generated `generated` is, on the next run, restored to
/// the same identifier and the same keypair.
pub proof fn lemma_identity_round_trip(generated: Option<Seq<u8>>, content: Option<Seq<char>>)
    requires
        adopted(generated, content) is Ok,
    ensures
        restored(adopted(generated, content)->Ok_0.key_encoding) is Ok,
        restored(adopted(generated, content)->Ok_0.key_encoding)->Ok_0.peer_id == adopted(
            generated,
            content,
        )->Ok_0.peer_id,
        restored(adopted(generated, content)->Ok_0.key_encoding)->Ok_0.key_encoding == adopted(
            generated,
            content,
        )->Ok_0.key_encoding,
{
}

/// An identity that was restored once is restored again unchanged.
pub proof fn lemma_identity_stable(stored: Seq<u8>)
    requires
        restored(stored) is Ok,
    ensures
        restored(restored(stored)->Ok_0.key_encoding) == restored(stored),
{
}

/// A key file that holds no keypair is never replaced by a new identity:
/// it is rejected, exactly then, and the error is `Decode`.
pub proof fn lemma_corrupt_key_rejected(stored: Seq<u8>)
    ensures
        restored(stored) is Err <==> encoded_key_peer_id(stored) is None,
        restored(stored) is Err ==> restored(stored)->Err_0 == IdentityError::Decode,
{
}

} // verus!
