//! The set of idle sockets of one router registration, held in a `DashSet`.
use vstd::prelude::*;
use dashmap::DashSet;

verus! {

#[verifier::external_type_specification]
#[verifier::external_body]
#[verifier::reject_recursive_types(K)]
#[verifier::reject_recursive_types(S)]
pub struct ExDashSet<K, S>(dashmap::DashSet<K, S>);

/// The identifiers that a `DashSet` of socket identifiers holds.
pub uninterp spec fn id_set_contents(set: DashSet<String>) -> Set<Seq<char>>;

/// `DashSet::new`: an empty set.
#[verifier::external_body]
fn id_set_new() -> (set: DashSet<String>)
    ensures
        id_set_contents(set) == Set::<Seq<char>>::empty(),
{
    DashSet::new()
}

/// `DashSet::insert`: adds `id`; returns whether it was absent.
#[verifier::external_body]
fn id_set_insert(set: &mut DashSet<String>, id: String) -> (added: bool)
    ensures
        id_set_contents(*final(set)) == id_set_contents(*old(set)).insert(id@),
        added == !id_set_contents(*old(set)).contains(id@),
{
    set.insert(id)
}

/// `DashSet::remove`: takes `id` out; returns the stored key where it was there.
#[verifier::external_body]
fn id_set_remove(set: &mut DashSet<String>, id: &str) -> (removed: Option<String>)
    ensures
        id_set_contents(*final(set)) == id_set_contents(*old(set)).remove(id@),
        removed is Some <==> id_set_contents(*old(set)).contains(id@),
        removed matches Some(k) ==> k@ == id@,
{
    set.remove(id)
}

/// `DashSet::len`: the number of identifiers held.
#[verifier::external_body]
fn id_set_len(set: &DashSet<String>) -> (n: usize)
    ensures
        n == id_set_contents(*set).len(),
{
    set.len()
}

/// The identifiers of the sockets that wait, open, for a request.
pub struct IdleSockets {
    set: DashSet<String>,
}

impl View for IdleSockets {
    type V = Set<Seq<char>>;

    closed spec fn view(&self) -> Set<Seq<char>> {
        id_set_contents(self.set)
    }
}

impl IdleSockets {
    /// Holds only finitely many identifiers.
    pub open spec fn wf(&self) -> bool {
        self@.finite()
    }

    /// No idle socket.
    pub fn new() -> (s: Self)
        ensures
            s@ == Set::<Seq<char>>::empty(),
            s.wf(),
    {
        IdleSockets { set: id_set_new() }
    }

    /// Adds `id`; returns whether it was absent.
    pub fn insert(&mut self, id: String) -> (added: bool)
        requires
            old(self).wf(),
        ensures
            final(self)@ == old(self)@.insert(id@),
            final(self).wf(),
            added == !old(self)@.contains(id@),
    {
        id_set_insert(&mut self.set, id)
    }

    /// Takes `id` out; returns whether it was there.
    pub fn remove(&mut self, id: &str) -> (removed: bool)
        requires
            old(self).wf(),
        ensures
            final(self)@ == old(self)@.remove(id@),
            final(self).wf(),
            removed == old(self)@.contains(id@),
    {
        match id_set_remove(&mut self.set, id) {
            Some(_) => true,
            None => false,
        }
    }

    /// The number of idle sockets.
    pub fn len(&self) -> (n: usize)
        ensures
            n == self@.len(),
    {
        id_set_len(&self.set)
    }
}

} // verus!
