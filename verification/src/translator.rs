//! The identity translator, client side: a bidirectional map between server
//! entity handles and this client's own local handles. Incoming component
//! messages name server handles and need the local handle; an outgoing
//! interaction request names an item picked on screen by local handle and
//! needs the server handle. Both lookups are constant-time, through the
//! `bimap` crate's `BiHashMap`; its calls stand behind the trusted items
//! below, whose contracts follow that crate's documented overwrite and
//! removal semantics.

use vstd::prelude::*;

verus! {

#[verifier::external_type_specification]
#[verifier::external_body]
#[verifier::reject_recursive_types(L)]
#[verifier::reject_recursive_types(R)]
#[verifier::reject_recursive_types(LS)]
#[verifier::reject_recursive_types(RS)]
pub struct ExBiHashMap<L, R, LS, RS>(bimap::BiHashMap<L, R, LS, RS>);

/// The concrete bimap type the translator uses: server handle on the left,
/// local handle on the right.
pub type HandleBimap = bimap::BiMap<u32, u32>;

/// What a handle bimap holds: the partial map from left (server handle) to
/// right (local handle).
pub uninterp spec fn bimap_pairs(m: HandleBimap) -> Map<u32, u32>;

/// The map after recording (server -> local): any pair naming either handle
/// is dropped first, then the new pair is added.
pub open spec fn overwrite_insert(m: Map<u32, u32>, server: u32, local: u32) -> Map<u32, u32> {
    Map::new(
        |k: u32| k == server || (m.dom().contains(k) && k != server && m[k] != local),
        |k: u32|
            if k == server {
                local
            } else {
                m[k]
            },
    )
}

/// Relies on bimap::BiHashMap::insert: inserting a pair first removes any
/// pair sharing its left value and any pair sharing its right value, then
/// adds the pair.
#[verifier::external_body]
fn bimap_insert(m: &mut HandleBimap, left: u32, right: u32)
    ensures
        bimap_pairs(*final(m)) == overwrite_insert(bimap_pairs(*old(m)), left, right),
{
    let _ = m.insert(left, right);
}

/// Relies on bimap::BiHashMap::get_by_left: the right value of the pair with
/// the given left value, if present.
#[verifier::external_body]
fn bimap_get_by_left(m: &HandleBimap, left: u32) -> (r: Option<u32>)
    ensures
        r == (if bimap_pairs(*m).dom().contains(left) {
            Some(bimap_pairs(*m)[left])
        } else {
            Option::<u32>::None
        }),
{
    m.get_by_left(&left).copied()
}

/// Relies on bimap::BiHashMap::get_by_right: the left value of the pair with
/// the given right value; the bimap holds at most one such pair.
#[verifier::external_body]
fn bimap_get_by_right(m: &HandleBimap, right: u32) -> (r: Option<u32>)
    ensures
        match r {
            Some(l) => bimap_pairs(*m).dom().contains(l) && bimap_pairs(*m)[l] == right,
            None => forall|k: u32|
                bimap_pairs(*m).dom().contains(k) ==> bimap_pairs(*m)[k] != right,
        },
{
    m.get_by_right(&right).copied()
}

/// Relies on bimap::BiHashMap::remove_by_right: removes and returns the pair
/// with the given right value, if present.
#[verifier::external_body]
fn bimap_remove_by_right(m: &mut HandleBimap, right: u32) -> (r: Option<(u32, u32)>)
    ensures
        match r {
            Some(pair) => pair.1 == right && bimap_pairs(*old(m)).dom().contains(pair.0)
                && bimap_pairs(*old(m))[pair.0] == right && bimap_pairs(*final(m)) == bimap_pairs(
                *old(m),
            ).remove(pair.0),
            None => (forall|k: u32|
                bimap_pairs(*old(m)).dom().contains(k) ==> bimap_pairs(*old(m))[k] != right)
                && bimap_pairs(*final(m)) == bimap_pairs(*old(m)),
        },
{
    m.remove_by_right(&right)
}

/// The empty translation map.
pub open spec fn empty_ids() -> Map<u32, u32> {
    Map::empty()
}

/// No two server handles share a local handle.
pub open spec fn injective(m: Map<u32, u32>) -> bool {
    forall|k1: u32, k2: u32|
        m.dom().contains(k1) && m.dom().contains(k2) && m[k1] == m[k2] ==> k1 == k2
}

/// The map from server entity handles to this client's local entity handles,
/// 1:1 while entries live, resolvable in both directions.
pub struct ServerToLocalIds {
    map: HandleBimap,
}

impl View for ServerToLocalIds {
    type V = Map<u32, u32>;

    closed spec fn view(&self) -> Map<u32, u32> {
        bimap_pairs(self.map)
    }
}

impl ServerToLocalIds {
    /// Relies on bimap::BiHashMap::new: a fresh bimap holds no pairs.
    #[verifier::external_body]
    fn empty_table() -> (r: ServerToLocalIds)
        ensures
            r@ == empty_ids(),
    {
        ServerToLocalIds { map: bimap::BiMap::new() }
    }

    /// An empty translation table.
    pub fn new() -> (r: ServerToLocalIds)
        ensures
            r@ == empty_ids(),
            injective(r@),
    {
        ServerToLocalIds::empty_table()
    }

    /// Record that the server's `server` is this client's `local`. Any stale
    /// pair naming either handle is dropped, keeping the mapping 1:1.
    pub fn insert(&mut self, server: u32, local: u32)
        requires
            injective(old(self)@),
        ensures
            final(self)@ == overwrite_insert(old(self)@, server, local),
            injective(final(self)@),
            final(self)@.dom().contains(server),
            final(self)@[server] == local,
            forall|s: u32|
                s != server ==> (final(self)@.dom().contains(s) <==> (old(
                    self,
                )@.dom().contains(s) && old(self)@[s] != local)),
            forall|s: u32|
                s != server && final(self)@.dom().contains(s) ==> final(self)@[s] == old(
                    self,
                )@[s],
    {
        bimap_insert(&mut self.map, server, local);
    }

    /// The local handle standing for the given server handle.
    pub fn get_by_server(&self, server: u32) -> (r: Option<u32>)
        ensures
            r == (if self@.dom().contains(server) {
                Some(self@[server])
            } else {
                Option::<u32>::None
            }),
    {
        bimap_get_by_left(&self.map, server)
    }

    /// The server handle that the given local handle stands for.
    pub fn get_by_local(&self, local: u32) -> (r: Option<u32>)
        ensures
            match r {
                Some(s) => self@.dom().contains(s) && self@[s] == local,
                None => forall|s: u32| self@.dom().contains(s) ==> self@[s] != local,
            },
    {
        bimap_get_by_right(&self.map, local)
    }

    /// Drop the entry for a local entity that has been deleted, so a stale
    /// server handle can no longer resolve to it.
    pub fn remove_by_local(&mut self, local: u32) -> (r: Option<(u32, u32)>)
        requires
            injective(old(self)@),
        ensures
            injective(final(self)@),
            match r {
                Some(pair) => pair.1 == local && old(self)@.dom().contains(pair.0) && old(
                    self,
                )@[pair.0] == local && final(self)@ == old(self)@.remove(pair.0),
                None => (forall|s: u32| old(self)@.dom().contains(s) ==> old(self)@[s] != local)
                    && final(self)@ == old(self)@,
            },
    {
        bimap_remove_by_right(&mut self.map, local)
    }
}

} // verus!
