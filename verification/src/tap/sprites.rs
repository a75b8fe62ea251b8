//! The sprite visual that each blur graph mounted, by its background rectangle.
//!
//! Taking down a visual whose brush still samples the backdrop deadlocks the UI thread
//! against the render thread. So the brush is nulled first, which needs the sprite, which
//! is what this table is for.

use std::collections::HashMap;

use vstd::prelude::*;

verus! {

/// The table: shape to sprite.
pub struct BlurSprites {
    pub sprites: HashMap<u64, usize>,
}

/// One call of taking a blur down.
#[derive(Clone, Copy, Debug, PartialEq, Eq, Structural)]
pub enum DetachCall {
    /// Null the brush of this sprite, and let go of it.
    NullBrush(usize),
    /// Take the child visual off this shape.
    ClearChildVisual(u64),
}

/// The calls that take down the blur of a shape: the brush of its sprite, if one is known,
/// before the visual.
pub open spec fn detach_calls(sprites: Map<u64, usize>, shape: u64) -> Seq<DetachCall> {
    (if sprites.dom().contains(shape) {
        seq![DetachCall::NullBrush(sprites[shape])]
    } else {
        Seq::<DetachCall>::empty()
    }).push(DetachCall::ClearChildVisual(shape))
}

impl BlurSprites {
    pub fn new() -> (r: BlurSprites)
        ensures
            r.sprites@ == Map::<u64, usize>::empty(),
    {
        BlurSprites { sprites: HashMap::new() }
    }

    /// Remember the sprite of a blur that was mounted. The sprite that was remembered for
    /// the shape before, if there was one, is let go.
    pub fn remember(&mut self, shape: u64, sprite: usize) -> (r: Option<usize>)
        ensures
            final(self).sprites@ == old(self).sprites@.insert(shape, sprite),
            r == (if old(self).sprites@.dom().contains(shape) {
                Some(old(self).sprites@[shape])
            } else {
                None
            }),
    {
        broadcast use vstd::std_specs::hash::group_hash_axioms;

        self.sprites.insert(shape, sprite)
    }

    /// Take down the blur of a shape.
    pub fn detach(&mut self, shape: u64) -> (calls: Vec<DetachCall>)
        ensures
            final(self).sprites@ == old(self).sprites@.remove(shape),
            calls@ == detach_calls(old(self).sprites@, shape),
    {
        broadcast use vstd::std_specs::hash::group_hash_axioms;

        let mut calls: Vec<DetachCall> = Vec::new();
        match self.sprites.remove(&shape) {
            Some(sprite) => {
                calls.push(DetachCall::NullBrush(sprite));
            },
            None => {},
        }
        calls.push(DetachCall::ClearChildVisual(shape));
        assert(calls@ =~= detach_calls(old(self).sprites@, shape));
        calls
    }
}

/// A blur that was mounted is taken down brush first, once: taking it down again finds no
/// sprite.
pub proof fn a_mounted_blur_is_taken_down_brush_first(
    sprites: Map<u64, usize>,
    shape: u64,
    sprite: usize,
)
    ensures
        detach_calls(sprites.insert(shape, sprite), shape) == seq![
            DetachCall::NullBrush(sprite),
            DetachCall::ClearChildVisual(shape),
        ],
        detach_calls(sprites.insert(shape, sprite).remove(shape), shape) == seq![
            DetachCall::ClearChildVisual(shape),
        ],
{
}

} // verus!
