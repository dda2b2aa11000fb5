//! The source of session ids: a random generator, together with the record of every
//! id drawn from it so far.

use rand::Rng;
use rand::StdRng;
use vstd::prelude::*;

verus! {

#[verifier::external_type_specification]
#[verifier::external_body]
pub struct ExStdRng(StdRng);

/// `rand::Rng::next_u64` on `StdRng`: the next random 64-bit value. It is random, so
/// nothing is claimed of it.
#[verifier::external_body]
fn draw_session(rng: &mut StdRng) -> u64 {
    rng.next_u64()
}

/// A random generator of session ids. Only drawing adds to its record, so the record
/// is exactly the ids the generator handed out, in order.
pub struct SessionIds {
    rng: StdRng,
    drawn: Ghost<Seq<u64>>,
}

impl SessionIds {
    /// Every id drawn so far, oldest first.
    pub closed spec fn history(&self) -> Seq<u64> {
        self.drawn@
    }

    /// A source that draws from `rng` and has drawn nothing yet.
    pub fn new(rng: StdRng) -> (s: SessionIds)
        ensures
            s.history() == Seq::<u64>::empty(),
    {
        SessionIds { rng, drawn: Ghost(Seq::empty()) }
    }

    /// Draws the next id and records it.
    pub fn draw(&mut self) -> (id: u64)
        ensures
            final(self).history() == old(self).history().push(id),
    {
        let id = draw_session(&mut self.rng);
        self.drawn = Ghost(self.drawn@.push(id));
        id
    }
}

} // verus!
