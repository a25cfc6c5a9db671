//! One open room as the registry records it.

use vstd::prelude::*;

verus! {

/// An open room. The room's id is the sharer's peer id.
#[derive(Debug, PartialEq, Eq)]
pub struct Session {
    pub sharer: String,
    /// The viewers in the order in which they joined, each at most once.
    pub viewers: Vec<String>,
    /// Reading of the caller's clock when the room was opened.
    pub start_time: u64,
    /// Remote address of the connection that opened the room, as text.
    pub sharer_socket_addr: String,
}

/// The texts of a list of ids, in order.
pub open spec fn id_views(ids: Seq<String>) -> Seq<Seq<char>> {
    ids.map_values(|v: String| v@)
}

/// The test "is another id than `id`".
pub open spec fn other_than(id: Seq<char>) -> spec_fn(Seq<char>) -> bool {
    |v: Seq<char>| v != id
}

/// What a `Session` stands for in contracts.
pub struct SessionView {
    pub sharer: Seq<char>,
    pub viewers: Seq<Seq<char>>,
    pub start_time: u64,
    pub sharer_socket_addr: Seq<char>,
}

impl View for Session {
    type V = SessionView;

    open spec fn view(&self) -> SessionView {
        SessionView {
            sharer: self.sharer@,
            viewers: id_views(self.viewers@),
            start_time: self.start_time,
            sharer_socket_addr: self.sharer_socket_addr@,
        }
    }
}

impl Session {
    /// A room without viewers, opened at `start_time` from `sharer_socket_addr`.
    pub fn new(sharer: String, sharer_socket_addr: String, start_time: u64) -> (session: Self)
        ensures
            session@ == (SessionView {
                sharer: sharer@,
                viewers: Seq::empty(),
                start_time,
                sharer_socket_addr: sharer_socket_addr@,
            }),
    {
        let session = Session { sharer, viewers: Vec::new(), start_time, sharer_socket_addr };
        assert(id_views(session.viewers@) =~= Seq::<Seq<char>>::empty());
        session
    }
}

impl Clone for Session {
    fn clone(&self) -> (copy: Self)
        ensures
            copy@ == self@,
    {
        Session {
            sharer: self.sharer.clone(),
            viewers: clone_ids(&self.viewers),
            start_time: self.start_time,
            sharer_socket_addr: self.sharer_socket_addr.clone(),
        }
    }
}

/// A copy of a list of ids.
pub fn clone_ids(ids: &Vec<String>) -> (copy: Vec<String>)
    ensures
        copy@ == ids@,
{
    let mut copy: Vec<String> = Vec::new();
    let mut i: usize = 0;
    while i < ids.len()
        invariant
            i <= ids.len(),
            copy@ == ids@.take(i as int),
        decreases ids.len() - i,
    {
        copy.push(ids[i].clone());
        assert(ids@.take(i + 1) =~= ids@.take(i as int).push(ids@[i as int]));
        i += 1;
    }
    assert(ids@.take(ids@.len() as int) =~= ids@);
    copy
}

/// Whether `id` is in the list.
pub fn contains_id(ids: &Vec<String>, id: &String) -> (found: bool)
    ensures
        found == id_views(ids@).contains(id@),
{
    let mut i: usize = 0;
    while i < ids.len()
        invariant
            i <= ids.len(),
            forall|j: int| 0 <= j < i ==> id_views(ids@)[j] != id@,
        decreases ids.len() - i,
    {
        if ids[i] == *id {
            assert(id_views(ids@)[i as int] == id@);
            return true;
        }
        i += 1;
    }
    false
}

/// The list without every mention of `id`, the rest in its order.
pub fn without_id(ids: &Vec<String>, id: &String) -> (kept: Vec<String>)
    ensures
        id_views(kept@) == id_views(ids@).filter(other_than(id@)),
{
    let mut kept: Vec<String> = Vec::new();
    let mut i: usize = 0;
    assert(id_views(ids@).take(0) =~= Seq::<Seq<char>>::empty());
    assert(id_views(kept@) =~= Seq::<Seq<char>>::empty());
    proof {
        reveal(Seq::filter);
    }
    assert(Seq::<Seq<char>>::empty().filter(other_than(id@)) =~= Seq::<Seq<char>>::empty());
    while i < ids.len()
        invariant
            i <= ids.len(),
            id_views(kept@) == id_views(ids@).take(i as int).filter(other_than(id@)),
        decreases ids.len() - i,
    {
        let ghost seen = id_views(ids@).take(i as int);
        proof {
            seen.lemma_filter_push(ids@[i as int]@, other_than(id@));
            assert(id_views(ids@).take(i + 1) =~= seen.push(ids@[i as int]@));
        }
        if ids[i] != *id {
            let ghost before = id_views(kept@);
            kept.push(ids[i].clone());
            assert(id_views(kept@) =~= before.push(ids@[i as int]@));
        }
        i += 1;
    }
    assert(id_views(ids@).take(ids@.len() as int) =~= id_views(ids@));
    kept
}

} // verus!
