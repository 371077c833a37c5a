//! The persisted data document: one JSON object per installation that holds
//! the node's identifier (`local_peer_id`), the port of its control socket
//! (`port`) and the trusted peers (`peers`).
//!
//! Every change rewrites the whole document: the functions here take the
//! present content of the file and give back the content to write. Members
//! that this library does not know are carried through unchanged.

use vstd::prelude::*;
use crate::identity::{peer_id_parses, valid_peer_id};
use crate::json::{
    clone_value,
    empty_object,
    list_value,
    models_of,
    no_entries,
    object_entries,
    object_get,
    object_insert,
    parse_object,
    parsed_object,
    pretty_text,
    render_pretty,
    text_value,
    value_as_array,
    value_as_str,
    Json,
};
use crate::registry::with_trusted;
use crate::text::{decimal_string, decimal_text, opt_str, opt_text, text_eq, texts};

verus! {

/// The members of a document, by key.
pub type Members = Map<Seq<char>, Json>;

/// Why a document could not be read or written.
#[derive(Clone, Copy, Debug, PartialEq, Eq)]
pub enum DocumentError {
    /// The content is not a JSON object.
    Decode,
    /// A member does not have the shape that this library gives it.
    Malformed,
    /// A text that should be a peer identifier is none.
    InvalidPeerId,
    /// The document could not be printed.
    Encode,
}

/// The members of the document with the given content. A document that
/// does not exist (`None`) has no members; one whose content is not a JSON
/// object has no reading.
pub open spec fn loaded(content: Option<Seq<char>>) -> Option<Members> {
    match content {
        None => Some(no_entries()),
        Some(text) => parsed_object(text),
    }
}

/// The content to write for the given members.
pub open spec fn rendered(members: Members) -> Result<Seq<char>, DocumentError> {
    match pretty_text(members) {
        Some(text) => Ok(text),
        None => Err(DocumentError::Encode),
    }
}

/// The text bound to `key`, if `key` is bound to a text.
pub open spec fn text_member(members: Members, key: Seq<char>) -> Option<Seq<char>> {
    if members.contains_key(key) && members[key] is Text {
        Some(members[key]->Text_0)
    } else {
        None
    }
}

/// The texts of a list whose elements are all texts, in order; `None` if
/// some element is not a text.
pub open spec fn listed_texts(items: Seq<Json>) -> Option<Seq<Seq<char>>>
    decreases items.len(),
{
    if items.len() == 0 {
        Some(Seq::empty())
    } else {
        match (listed_texts(items.drop_last()), items.last()) {
            (Some(head), Json::Text(t)) => Some(head.push(t)),
            _ => None,
        }
    }
}

/// Every text is a peer identifier.
pub open spec fn all_valid(ids: Seq<Seq<char>>) -> bool {
    forall|i: int| 0 <= i < ids.len() ==> valid_peer_id(#[trigger] ids[i])
}

/// The trusted peers that a document lists under `peers`: none if it has
/// no such member, else the elements of the list, which must all be texts
/// and peer identifiers.
pub open spec fn known_peers(members: Members) -> Result<Seq<Seq<char>>, DocumentError> {
    if !members.contains_key("peers"@) {
        Ok(Seq::empty())
    } else {
        match members["peers"@] {
            Json::List(items) => match listed_texts(items) {
                Some(ids) => if all_valid(ids) {
                    Ok(ids)
                } else {
                    Err(DocumentError::InvalidPeerId)
                },
                None => Err(DocumentError::Malformed),
            },
            _ => Err(DocumentError::Malformed),
        }
    }
}

/// The members after `peer_id` was added to the list under `peers`. The
/// list is created if the document has none; an identifier that is listed
/// already is not listed twice.
pub open spec fn with_peer(members: Members, peer_id: Seq<char>) -> Result<Members, DocumentError> {
    if !valid_peer_id(peer_id) {
        Err(DocumentError::InvalidPeerId)
    } else if !members.contains_key("peers"@) {
        Ok(members.insert("peers"@, Json::List(seq![Json::Text(peer_id)])))
    } else {
        match members["peers"@] {
            Json::List(items) => if items.contains(Json::Text(peer_id)) {
                Ok(members)
            } else {
                Ok(members.insert("peers"@, Json::List(items.push(Json::Text(peer_id)))))
            },
            _ => Err(DocumentError::Malformed),
        }
    }
}

/// The port that a document with the given content records, if it records
/// one.
pub open spec fn recorded_port(content: Option<Seq<char>>) -> Option<Seq<char>> {
    match loaded(content) {
        Some(members) => text_member(members, "port"@),
        None => None,
    }
}

/// The content to write after the control socket was bound to `port`.
pub open spec fn saved_port(content: Option<Seq<char>>, port: u16) -> Result<
    Seq<char>,
    DocumentError,
> {
    match loaded(content) {
        Some(members) => rendered(members.insert("port"@, Json::Text(decimal_text(port as nat)))),
        None => Err(DocumentError::Decode),
    }
}

/// The content to write after `peer_id` became trusted.
pub open spec fn saved_peer(content: Option<Seq<char>>, peer_id: Seq<char>) -> Result<
    Seq<char>,
    DocumentError,
> {
    match loaded(content) {
        Some(members) => match with_peer(members, peer_id) {
            Ok(changed) => rendered(changed),
            Err(e) => Err(e),
        },
        None => Err(DocumentError::Decode),
    }
}

/// The trusted peers that a document with the given content lists.
pub open spec fn loaded_peers(content: Option<Seq<char>>) -> Result<
    Seq<Seq<char>>,
    DocumentError,
> {
    match loaded(content) {
        Some(members) => known_peers(members),
        None => Err(DocumentError::Decode),
    }
}

/// The view of a result that holds a text.
pub open spec fn text_result(r: Result<String, DocumentError>) -> Result<Seq<char>, DocumentError> {
    match r {
        Ok(text) => Ok(text@),
        Err(e) => Err(e),
    }
}

/// The view of a result that holds a list of texts.
pub open spec fn list_result(r: Result<Vec<String>, DocumentError>) -> Result<
    Seq<Seq<char>>,
    DocumentError,
> {
    match r {
        Ok(list) => Ok(texts(list@)),
        Err(e) => Err(e),
    }
}

/// A data document, read into memory.
pub struct DataMap {
    members: serde_json::Map<String, serde_json::Value>,
}

impl View for DataMap {
    type V = Members;

    closed spec fn view(&self) -> Members {
        object_entries(self.members)
    }
}

impl DataMap {
    /// A document without members.
    pub fn new() -> (map: Self)
        ensures
            map@ == no_entries(),
    {
        DataMap { members: empty_object() }
    }

    /// The text bound to `key`: `None` if the document has no such member
    /// or the member is not a text.
    pub fn text(&self, key: &str) -> (found: Option<String>)
        ensures
            opt_text(found) == text_member(self@, key@),
    {
        match object_get(&self.members, key) {
            Some(value) => match value_as_str(value) {
                Some(text) => Some(text.to_owned()),
                None => None,
            },
            None => None,
        }
    }

    /// Binds `key` to the text `value`. Every other member stays as it is.
    pub fn set_text(&mut self, key: &str, value: String)
        ensures
            final(self)@ == old(self)@.insert(key@, Json::Text(value@)),
    {
        object_insert(&mut self.members, key.to_owned(), text_value(value));
    }

    /// The trusted peers that the document lists.
    pub fn known_peers(&self) -> (r: Result<Vec<String>, DocumentError>)
        ensures
            list_result(r) == known_peers(self@),
    {
        let value = match object_get(&self.members, "peers") {
            Some(value) => value,
            None => {
                let none: Vec<String> = Vec::new();
                assert(texts(none@) =~= Seq::empty());
                return Ok(none);
            },
        };
        let items = match value_as_array(value) {
            Some(items) => items,
            None => {
                return Err(DocumentError::Malformed);
            },
        };
        let ghost models = models_of(items@);
        let mut ids: Vec<String> = Vec::new();
        let mut i: usize = 0;
        assert(models.take(0) =~= Seq::<Json>::empty());
        assert(texts(ids@) =~= Seq::empty());
        while i < items.len()
            invariant
                i <= items.len(),
                models == models_of(items@),
                self@.contains_key("peers"@),
                self@["peers"@] == Json::List(models),
                listed_texts(models.take(i as int)) == Some(texts(ids@)),
            decreases items.len() - i,
        {
            proof {
                assert(models.take(i + 1).drop_last() =~= models.take(i as int));
                assert(models.take(i + 1).last() == models[i as int]);
                lemma_listed_texts_prefix(models, i + 1);
            }
            match value_as_str(&items[i]) {
                Some(text) => {
                    let ghost before = texts(ids@);
                    ids.push(text.to_owned());
                    assert(texts(ids@) =~= before.push(text@));
                },
                None => {
                    return Err(DocumentError::Malformed);
                },
            }
            i = i + 1;
        }
        assert(models.take(items.len() as int) =~= models);
        let mut k: usize = 0;
        while k < ids.len()
            invariant
                k <= ids.len(),
                self@.contains_key("peers"@),
                self@["peers"@] == Json::List(models),
                listed_texts(models) == Some(texts(ids@)),
                forall|j: int| 0 <= j < k ==> valid_peer_id(#[trigger] texts(ids@)[j]),
            decreases ids.len() - k,
        {
            if !peer_id_parses(ids[k].as_str()) {
                assert(!valid_peer_id(texts(ids@)[k as int]));
                return Err(DocumentError::InvalidPeerId);
            }
            k = k + 1;
        }
        Ok(ids)
    }

    /// Adds `peer_id` to the trusted peers that the document lists. On an
    /// error the document is unchanged.
    pub fn add_peer(&mut self, peer_id: &str) -> (r: Result<(), DocumentError>)
        ensures
            with_peer(old(self)@, peer_id@) is Ok ==> r is Ok && final(self)@ == with_peer(
                old(self)@,
                peer_id@,
            )->Ok_0,
            with_peer(old(self)@, peer_id@) is Err ==> r is Err && r->Err_0 == with_peer(
                old(self)@,
                peer_id@,
            )->Err_0 && final(self)@ == old(self)@,
    {
        if !peer_id_parses(peer_id) {
            return Err(DocumentError::InvalidPeerId);
        }
        let mut list: Vec<serde_json::Value> = Vec::new();
        match object_get(&self.members, "peers") {
            Some(value) => {
                let items = match value_as_array(value) {
                    Some(items) => items,
                    None => {
                        return Err(DocumentError::Malformed);
                    },
                };
                let ghost models = models_of(items@);
                let mut i: usize = 0;
                assert(models_of(list@) =~= models.take(0));
                while i < items.len()
                    invariant
                        i <= items.len(),
                        models == models_of(items@),
                        valid_peer_id(peer_id@),
                        self@ == old(self)@,
                        self@.contains_key("peers"@),
                        self@["peers"@] == Json::List(models),
                        models_of(list@) == models.take(i as int),
                        forall|j: int| 0 <= j < i ==> #[trigger] models[j] != Json::Text(peer_id@),
                    decreases items.len() - i,
                {
                    let listed = match value_as_str(&items[i]) {
                        Some(text) => text_eq(text, peer_id),
                        None => false,
                    };
                    if listed {
                        assert(models[i as int] == Json::Text(peer_id@));
                        return Ok(());
                    }
                    let ghost before = models_of(list@);
                    list.push(clone_value(&items[i]));
                    assert(models_of(list@) =~= before.push(models[i as int]));
                    assert(models_of(list@) =~= models.take(i + 1));
                    i = i + 1;
                }
                assert(models.take(items.len() as int) =~= models);
            },
            None => {
                assert(models_of(list@) =~= Seq::<Json>::empty());
            },
        }
        let ghost before = models_of(list@);
        list.push(text_value(peer_id.to_owned()));
        assert(models_of(list@) =~= before.push(Json::Text(peer_id@)));
        assert(Seq::<Json>::empty().push(Json::Text(peer_id@)) =~= seq![Json::Text(peer_id@)]);
        object_insert(&mut self.members, "peers".to_owned(), list_value(list));
        Ok(())
    }

    /// The content to write for this document.
    pub fn render(&self) -> (r: Result<String, DocumentError>)
        ensures
            text_result(r) == rendered(self@),
    {
        match render_pretty(&self.members) {
            Ok(text) => Ok(text),
            Err(_) => Err(DocumentError::Encode),
        }
    }
}

/// Reads a data document from the content of its file, `None` standing
/// for a file that does not exist.
pub fn load_data_map(content: Option<&str>) -> (r: Result<DataMap, DocumentError>)
    ensures
        loaded(opt_str(content)) is Some ==> r is Ok && r->Ok_0@ == loaded(opt_str(content))->Some_0,
        loaded(opt_str(content)) is None ==> r is Err && r->Err_0 == DocumentError::Decode,
{
    match content {
        None => Ok(DataMap::new()),
        Some(text) => match parse_object(text) {
            Ok(members) => Ok(DataMap { members }),
            Err(_) => Err(DocumentError::Decode),
        },
    }
}

/// Records the port that the control socket was bound to. Gives the
/// content to write.
pub fn save_port(content: Option<&str>, port: u16) -> (r: Result<String, DocumentError>)
    ensures
        text_result(r) == saved_port(opt_str(content), port),
{
    match load_data_map(content) {
        Ok(map) => {
            let mut map: DataMap = map;
            map.set_text("port", decimal_string(port));
            map.render()
        },
        Err(_) => Err(DocumentError::Decode),
    }
}

/// Records `peer_id` as trusted. Gives the content to write.
pub fn save_peer(content: Option<&str>, peer_id: &str) -> (r: Result<String, DocumentError>)
    ensures
        text_result(r) == saved_peer(opt_str(content), peer_id@),
{
    match load_data_map(content) {
        Ok(map) => {
            let mut map: DataMap = map;
            match map.add_peer(peer_id) {
                Ok(()) => map.render(),
                Err(e) => Err(e),
            }
        },
        Err(_) => Err(DocumentError::Decode),
    }
}

/// The trusted peers that earlier runs have recorded.
pub fn load_known_peers(content: Option<&str>) -> (r: Result<Vec<String>, DocumentError>)
    ensures
        list_result(r) == loaded_peers(opt_str(content)),
{
    match load_data_map(content) {
        Ok(map) => map.known_peers(),
        Err(_) => Err(DocumentError::Decode),
    }
}

/// A list whose elements are all texts has prefixes whose elements are
/// all texts.
pub proof fn lemma_listed_texts_prefix(items: Seq<Json>, n: int)
    requires
        0 <= n <= items.len(),
    ensures
        listed_texts(items) is Some ==> listed_texts(items.take(n)) is Some,
    decreases items.len(),
{
    if n < items.len() {
        assert(items.drop_last().take(n) =~= items.take(n));
        lemma_listed_texts_prefix(items.drop_last(), n);
    } else {
        assert(items.take(n) =~= items);
    }
}

/// In a list of texts, the text `id` is an element exactly if it is among
/// the listed texts.
pub proof fn lemma_listed_texts_contains(items: Seq<Json>, id: Seq<char>)
    requires
        listed_texts(items) is Some,
    ensures
        items.contains(Json::Text(id)) <==> listed_texts(items)->Some_0.contains(id),
        listed_texts(items)->Some_0.len() == items.len(),
    decreases items.len(),
{
    if items.len() != 0 {
        let head = items.drop_last();
        let ids = listed_texts(items)->Some_0;
        let head_ids = listed_texts(head)->Some_0;
        lemma_listed_texts_contains(head, id);
        if items.contains(Json::Text(id)) {
            let i = choose|i: int| 0 <= i < items.len() && items[i] == Json::Text(id);
            if i < head.len() {
                assert(head[i] == Json::Text(id));
                let k = choose|k: int| 0 <= k < head_ids.len() && head_ids[k] == id;
                assert(ids[k] == id);
            } else {
                assert(ids[head_ids.len() as int] == id);
            }
        }
        if ids.contains(id) {
            let k = choose|k: int| 0 <= k < ids.len() && ids[k] == id;
            if k < head_ids.len() {
                assert(head_ids[k] == id);
                let i = choose|i: int| 0 <= i < head.len() && head[i] == Json::Text(id);
                assert(items[i] == Json::Text(id));
            } else {
                assert(items[items.len() - 1] == Json::Text(id));
            }
        }
    }
}

/// What is persisted on a promotion is read back by the next run: if a
/// document lists the trusted peers `known_peers(members)`, then after
/// `peer_id` was added it lists those and `peer_id`, each once.
pub proof fn lemma_added_peer_is_known(members: Members, peer_id: Seq<char>)
    requires
        known_peers(members) is Ok,
        with_peer(members, peer_id) is Ok,
    ensures
        known_peers(with_peer(members, peer_id)->Ok_0) is Ok,
        known_peers(with_peer(members, peer_id)->Ok_0)->Ok_0 == with_trusted(
            known_peers(members)->Ok_0,
            peer_id,
        ),
{
    let changed = with_peer(members, peer_id)->Ok_0;
    let known = known_peers(members)->Ok_0;
    if !members.contains_key("peers"@) {
        let items = seq![Json::Text(peer_id)];
        assert(items.drop_last() =~= Seq::<Json>::empty());
        assert(items.last() == Json::Text(peer_id));
        assert(listed_texts(items.drop_last()) == Some(Seq::<Seq<char>>::empty()));
        assert(listed_texts(items) == Some(Seq::<Seq<char>>::empty().push(peer_id)));
        assert(known =~= Seq::empty());
        assert(!known.contains(peer_id));
    } else {
        let items = members["peers"@]->List_0;
        lemma_listed_texts_contains(items, peer_id);
        if !items.contains(Json::Text(peer_id)) {
            let grown = items.push(Json::Text(peer_id));
            assert(grown.drop_last() =~= items);
            assert(listed_texts(grown) == Some(known.push(peer_id)));
            assert forall|i: int| 0 <= i < known.push(peer_id).len() implies valid_peer_id(
                #[trigger] known.push(peer_id)[i],
            ) by {
                if i < known.len() {
                    assert(known.push(peer_id)[i] == known[i]);
                }
            }
        }
    }
}

} // verus!
