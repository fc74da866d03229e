//! Where the ports come from that a search for a local port tries.
use vstd::prelude::*;

verus! {

/// A port that was drawn, and the inclusive range that it was drawn from.
pub struct Draw {
    pub low: u16,
    pub high: u16,
    pub port: u16,
}

/// A source of ports.
pub trait PortSource {
    /// Draws a port from an inclusive range.
    fn draw(&mut self, low: u16, high: u16) -> (port: u16)
        requires
            low <= high,
        ensures
            low <= port <= high,
    ;
}

/// `rand::random_range` on an inclusive range: it returns some value of the range,
/// and panics on an empty one. Which value, and how they are distributed, is left
/// unsaid: it rests on chance.
#[verifier::external_body]
fn random_range(low: u16, high: u16) -> (port: u16)
    requires
        low <= high,
    ensures
        low <= port <= high,
{
    rand::random_range(low..=high)
}

/// The source of random ports.
#[derive(Clone, Copy, Debug)]
pub struct RandomPorts;

impl PortSource for RandomPorts {
    fn draw(&mut self, low: u16, high: u16) -> (port: u16) {
        random_range(low, high)
    }
}

/// A source of ports with an account of what was drawn from it.
pub struct PortDraws<S> {
    source: S,
    drawn: Ghost<Seq<Draw>>,
}

impl<S> View for PortDraws<S> {
    type V = Seq<Draw>;

    closed spec fn view(&self) -> Seq<Draw> {
        self.drawn@
    }
}

impl<S: PortSource> PortDraws<S> {
    /// Opens an account of what is drawn from `source`.
    pub fn new(source: S) -> (draws: Self)
        ensures
            draws@ == Seq::<Draw>::empty(),
    {
        PortDraws { source, drawn: Ghost(Seq::empty()) }
    }

    /// Draws a port from an inclusive range.
    pub fn draw(&mut self, low: u16, high: u16) -> (port: u16)
        requires
            low <= high,
        ensures
            low <= port <= high,
            final(self)@ == old(self)@.push(Draw { low, high, port }),
    {
        let port: u16 = self.source.draw(low, high);
        self.drawn = Ghost(self.drawn@.push(Draw { low, high, port }));
        port
    }
}

} // verus!
