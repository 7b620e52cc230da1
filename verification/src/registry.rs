//! The component registry: which kinds of component were declared.

use vstd::prelude::*;
use crate::components::ComponentKind;

verus! {

/// The set of component kinds that were registered. A kind is registered
/// once and stays registered.
#[derive(Clone, Copy, Debug)]
pub struct Registry {
    position: bool,
    renderable: bool,
    left_mover: bool,
    player: bool,
}

impl View for Registry {
    type V = Set<ComponentKind>;

    closed spec fn view(&self) -> Set<ComponentKind> {
        Set::new(
            |k: ComponentKind|
                match k {
                    ComponentKind::Position => self.position,
                    ComponentKind::Renderable => self.renderable,
                    ComponentKind::LeftMover => self.left_mover,
                    ComponentKind::Player => self.player,
                },
        )
    }
}

impl Registry {
    /// The registry in which nothing is registered.
    pub fn new() -> (r: Registry)
        ensures
            r@ == Set::<ComponentKind>::empty(),
    {
        let r = Registry { position: false, renderable: false, left_mover: false, player: false };
        assert(r@ =~= Set::<ComponentKind>::empty());
        r
    }

    /// Whether `kind` is registered.
    pub fn contains(&self, kind: ComponentKind) -> (found: bool)
        ensures
            found == self@.contains(kind),
    {
        match kind {
            ComponentKind::Position => self.position,
            ComponentKind::Renderable => self.renderable,
            ComponentKind::LeftMover => self.left_mover,
            ComponentKind::Player => self.player,
        }
    }

    /// Registers `kind`. Registering a kind again changes nothing.
    pub fn register(&mut self, kind: ComponentKind)
        ensures
            final(self)@ == old(self)@.insert(kind),
    {
        match kind {
            ComponentKind::Position => {
                self.position = true;
            },
            ComponentKind::Renderable => {
                self.renderable = true;
            },
            ComponentKind::LeftMover => {
                self.left_mover = true;
            },
            ComponentKind::Player => {
                self.player = true;
            },
        }
        assert(self@ =~= old(self)@.insert(kind));
    }
}

} // verus!
