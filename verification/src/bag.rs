//! The tile pools: each player's bag of unplaced tiles, drawn from at random
//! without replacement, and a discard pile for captured tiles.

use rand::rngs::StdRng;
use vstd::prelude::*;

use crate::rng::random_below;
use crate::tile::Tile;

verus! {

#[derive(Debug, Clone, PartialEq, Eq)]
pub struct TileBag {
    bag: Vec<Tile>,
}

impl TileBag {
    /// The tiles left in the bag, in storage order.
    pub closed spec fn spec_tiles(self) -> Seq<Tile> {
        self.bag@
    }

    pub open spec fn wf(self) -> bool {
        forall|i: int| 0 <= i < self.spec_tiles().len() ==> (#[trigger] self.spec_tiles()[i]).wf()
    }

    pub fn empty() -> (r: TileBag)
        ensures
            r.spec_tiles().len() == 0,
            r.wf(),
    {
        TileBag { bag: Vec::new() }
    }

    pub fn new(bag: Vec<Tile>) -> (r: TileBag)
        requires
            forall|i: int| 0 <= i < bag@.len() ==> (#[trigger] bag@[i]).wf(),
        ensures
            r.spec_tiles() == bag@,
            r.wf(),
    {
        TileBag { bag }
    }

    /// Draws a uniformly random tile, if the bag holds any.
    pub fn pull(&mut self, rng: &mut StdRng) -> (r: Option<Tile>)
        ensures
            old(self).spec_tiles().len() == 0 ==> r is None && final(self).spec_tiles() == old(
                self,
            ).spec_tiles(),
            old(self).spec_tiles().len() > 0 ==> match r {
                Some(t) => exists|i: int|
                    0 <= i < old(self).spec_tiles().len() && t == old(self).spec_tiles()[i]
                        && final(self).spec_tiles() == old(self).spec_tiles().remove(i),
                None => false,
            },
    {
        if self.bag.is_empty() {
            None
        } else {
            let i = random_below(rng, self.bag.len());
            Some(self.bag.remove(i))
        }
    }

    pub fn remaining(&self) -> (r: &Vec<Tile>)
        ensures
            r@ == self.spec_tiles(),
    {
        &self.bag
    }

    pub fn is_empty(&self) -> (r: bool)
        ensures
            r == (self.spec_tiles().len() == 0),
    {
        self.bag.len() == 0
    }

    pub fn non_empty(&self) -> (r: bool)
        ensures
            r == (self.spec_tiles().len() > 0),
    {
        !self.is_empty()
    }

    /// Returns a tile to the bag; used when a placement is undone.
    pub fn push(&mut self, t: Tile)
        ensures
            final(self).spec_tiles() == old(self).spec_tiles().push(t),
    {
        self.bag.push(t);
    }
}

#[derive(Debug, Clone, PartialEq, Eq)]
pub struct DiscardBag {
    bag: Vec<Tile>,
}

impl DiscardBag {
    /// The discarded tiles, in the order they were captured.
    pub closed spec fn spec_tiles(self) -> Seq<Tile> {
        self.bag@
    }

    pub fn empty() -> (r: DiscardBag)
        ensures
            r.spec_tiles().len() == 0,
    {
        DiscardBag { bag: Vec::new() }
    }

    pub fn add(&mut self, t: Tile)
        ensures
            final(self).spec_tiles() == old(self).spec_tiles().push(t),
    {
        self.bag.push(t);
    }

    pub fn existing(&self) -> (r: &Vec<Tile>)
        ensures
            r@ == self.spec_tiles(),
    {
        &self.bag
    }

    pub fn len(&self) -> (r: usize)
        ensures
            r == self.spec_tiles().len(),
    {
        self.bag.len()
    }
}


impl TileBag {
    /// A copy of this bag holding tiles with the same content.
    pub fn duplicate(&self) -> (r: TileBag)
        requires
            forall|i: int| 0 <= i < self.spec_tiles().len() ==> (#[trigger] self.spec_tiles()[i]).wf(),
        ensures
            r.spec_tiles().len() == self.spec_tiles().len(),
            forall|i: int|
                0 <= i < r.spec_tiles().len() ==> {
                    &&& (#[trigger] r.spec_tiles()[i]).wf()
                    &&& r.spec_tiles()[i]@ == self.spec_tiles()[i]@
                    &&& r.spec_tiles()[i].spec_name() == self.spec_tiles()[i].spec_name()
                },
    {
        let mut bag: Vec<Tile> = Vec::new();
        let mut i: usize = 0;
        while i < self.bag.len()
            invariant
                forall|j: int|
                    0 <= j < self.spec_tiles().len() ==> (#[trigger] self.spec_tiles()[j]).wf(),
                i <= self.bag@.len(),
                self.bag@ == self.spec_tiles(),
                bag@.len() == i,
                forall|j: int|
                    0 <= j < i ==> {
                        &&& (#[trigger] bag@[j]).wf()
                        &&& bag@[j]@ == self.spec_tiles()[j]@
                        &&& bag@[j].spec_name() == self.spec_tiles()[j].spec_name()
                    },
            decreases self.bag@.len() - i,
        {
            bag.push(self.bag[i].duplicate());
            i = i + 1;
        }
        TileBag { bag }
    }
}


impl DiscardBag {
    /// A copy of this discard pile with the same number of tiles.
    pub fn duplicate(&self) -> (r: DiscardBag)
        ensures
            r.spec_tiles().len() == self.spec_tiles().len(),
    {
        let mut bag: Vec<Tile> = Vec::new();
        let mut i: usize = 0;
        while i < self.bag.len()
            invariant
                i <= self.bag@.len(),
                bag@.len() == i,
            decreases self.bag@.len() - i,
        {
            bag.push(self.bag[i].clone());
            i = i + 1;
        }
        DiscardBag { bag }
    }
}

} // verus!
