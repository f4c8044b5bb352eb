use vstd::prelude::*;

use crate::text_map::TextMap;

verus! {

/// Why an indexer operation was refused.
#[derive(Clone, Copy, Debug, PartialEq, Eq, PartialOrd, Ord, Hash, Structural)]
pub enum IndexerError {
    InvalidCallback,
    Unauthorized,
    RateLimitExceeded,
}

/// An external service subscribed to the game's events.
#[derive(Clone, Debug, PartialEq, Eq)]
pub struct IndexerCallback {
    pub id: String,
    /// `Active` or `Inactive`.
    pub status: String,
}

impl View for IndexerCallback {
    type V = (Seq<char>, Seq<char>);

    /// The callback's id and status as text.
    open spec fn view(&self) -> (Seq<char>, Seq<char>) {
        (self.id@, self.status@)
    }
}

/// The callbacks the game stores, keyed by callback id.
pub struct IndexerRegistry {
    pub callbacks: TextMap<IndexerCallback>,
}

impl IndexerRegistry {
    /// Each callback id appears once.
    pub open spec fn wf(&self) -> bool {
        self.callbacks.wf()
    }

    /// No callback is registered yet.
    pub fn new() -> (r: Self)
        ensures
            r.wf(),
            r@ == Map::<Seq<char>, (Seq<char>, Seq<char>)>::empty(),
    {
        let r = IndexerRegistry { callbacks: TextMap::new() };
        assert(r@ =~= Map::<Seq<char>, (Seq<char>, Seq<char>)>::empty());
        r
    }
}

impl View for IndexerRegistry {
    type V = Map<Seq<char>, (Seq<char>, Seq<char>)>;

    /// The stored id and status of each registered callback id.
    open spec fn view(&self) -> Map<Seq<char>, (Seq<char>, Seq<char>)> {
        self.callbacks.as_map().map_values(|c: IndexerCallback| c@)
    }
}

/// Effect of registering `callback_id`: it is stored as `Active`.
pub open spec fn register_spec(m: Map<Seq<char>, (Seq<char>, Seq<char>)>, callback_id: Seq<char>) -> Map<Seq<char>, (Seq<char>, Seq<char>)> {
    m.insert(callback_id, (callback_id, "Active"@))
}

/// Subscribe `callback_id`: store it with status `Active`, replacing any
/// earlier record of the same id.  It is never refused.
pub fn register_indexer_callback(registry: &mut IndexerRegistry, callback_id: &String) -> (r: Result<(), IndexerError>)
    requires
        old(registry).wf(),
    ensures
        r == Ok::<(), IndexerError>(()),
        final(registry).wf(),
        final(registry)@ == register_spec(old(registry)@, callback_id@),
{
    let callback = IndexerCallback { id: callback_id.clone(), status: "Active".to_owned() };
    let ghost before = registry@;
    registry.callbacks.insert(callback_id.clone(), callback);
    assert(registry@ =~= register_spec(before, callback_id@));
    Ok(())
}

/// The stored record of `callback_id`, if it was registered.
pub fn get_callback_status(registry: &IndexerRegistry, callback_id: &String) -> (r: Option<IndexerCallback>)
    requires
        registry.wf(),
    ensures
        match r {
            Some(c) => registry@.contains_key(callback_id@) && c@ == registry@[callback_id@],
            None => !registry@.contains_key(callback_id@),
        },
{
    match registry.callbacks.get(callback_id) {
        Some(c) => Some(IndexerCallback { id: c.id.clone(), status: c.status.clone() }),
        None => None,
    }
}

/// What a registration gives back: right after `callback_id` is registered,
/// reading it yields an `Active` record of that id, and every other id
/// reads as before.
pub proof fn lemma_register_then_read(m: Map<Seq<char>, (Seq<char>, Seq<char>)>, callback_id: Seq<char>, other: Seq<char>)
    ensures
        register_spec(m, callback_id).contains_key(callback_id),
        register_spec(m, callback_id)[callback_id] == (callback_id, "Active"@),
        other != callback_id ==> register_spec(m, callback_id).contains_key(other) == m.contains_key(other),
        other != callback_id && m.contains_key(other) ==> register_spec(m, callback_id)[other] == m[other],
{
}

} // verus!
