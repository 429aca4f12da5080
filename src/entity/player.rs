use vstd::prelude::*;

verus! {

/// Identifier that a client chooses at login.
pub type PlayerId = String;

/// A member of a room: its identifier and the sink through which the room
/// reaches the owning session.
#[derive(Clone, Debug)]
pub struct Player<S> {
    pub id: PlayerId,
    pub sender: S,
}

/// The identifiers of a sequence of players, as character sequences.
pub open spec fn ids_of<S>(players: Seq<Player<S>>) -> Seq<Seq<char>> {
    players.map_values(|p: Player<S>| p.id@)
}

impl<S> Player<S> {
    pub fn new(id: PlayerId, sender: S) -> (r: Self)
        ensures
            r.id == id,
            r.sender == sender,
    {
        Player { id, sender }
    }
}

/// `b` reaches the same session as `a`: same identifier, and a sink that
/// is `a`'s sink or a clone of it.
pub open spec fn is_copy_of<S: Clone>(a: Player<S>, b: Player<S>) -> bool {
    &&& b.id == a.id
    &&& vstd::pervasive::cloned(a.sender, b.sender)
}

/// `dst` reaches the players of `src`, one for one and in the same order.
pub open spec fn copies<S: Clone>(src: Seq<Player<S>>, dst: Seq<Player<S>>) -> bool {
    &&& dst.len() == src.len()
    &&& forall|i: int| 0 <= i < src.len() ==> #[trigger] is_copy_of(src[i], dst[i])
}

impl<S: Clone> Player<S> {
    /// A second handle on the same player: same identifier, cloned sink.
    pub fn copy_handle(&self) -> (r: Self)
        ensures
            is_copy_of(*self, r),
    {
        Player { id: self.id.clone(), sender: self.sender.clone() }
    }
}

} // verus!
