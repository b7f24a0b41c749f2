use vstd::prelude::*;

verus! {

/// A zero-argument scalar producer, injected into layer construction.
///
/// Construction draws one value per weight slot and one per bias slot, in a
/// fixed unit-by-unit, weights-then-bias order. `produced` is the history of
/// values handed out so far, oldest first; the construction contracts are
/// stated over it, so a scripted producer yields fully reproducible weights
/// while a randomized one (implemented outside the verified core) promises
/// nothing about the drawn values.
pub trait Initializer<T>: Sized {
    /// All values handed out so far, oldest first.
    spec fn produced(&self) -> Seq<T>;

    fn next_value(&mut self) -> (r: T)
        ensures
            final(self).produced() == old(self).produced().push(r),
    ;
}

/// An initializer that hands out the same value forever.
pub struct ConstInitializer<T> {
    pub value: T,
    pub handed_out: Ghost<Seq<T>>,
}

impl<T: Copy> ConstInitializer<T> {
    pub fn new(value: T) -> (r: Self)
        ensures
            r.value == value,
            r.produced() == Seq::<T>::empty(),
    {
        ConstInitializer { value, handed_out: Ghost(Seq::empty()) }
    }
}

impl<T: Copy> Initializer<T> for ConstInitializer<T> {
    open spec fn produced(&self) -> Seq<T> {
        self.handed_out@
    }

    fn next_value(&mut self) -> (r: T)
        ensures
            r == old(self).value,
            final(self).value == old(self).value,
    {
        let r = self.value;
        proof {
            self.handed_out@ = self.handed_out@.push(r);
        }
        r
    }
}

/// An initializer that replays a fixed script of values in order, then hands
/// out a fallback value once the script is exhausted. A layer built from it
/// is fully reproducible.
pub struct ScriptedInitializer<T> {
    pub values: Vec<T>,
    pub pos: usize,
    pub fallback: T,
    pub handed_out: Ghost<Seq<T>>,
}

impl<T: Copy> ScriptedInitializer<T> {
    pub fn new(values: Vec<T>, fallback: T) -> (r: Self)
        ensures
            r.values == values,
            r.pos == 0,
            r.fallback == fallback,
            r.produced() == Seq::<T>::empty(),
    {
        ScriptedInitializer { values, pos: 0, fallback, handed_out: Ghost(Seq::empty()) }
    }
}

impl<T: Copy> Initializer<T> for ScriptedInitializer<T> {
    open spec fn produced(&self) -> Seq<T> {
        self.handed_out@
    }

    fn next_value(&mut self) -> (r: T)
        ensures
            r == if old(self).pos < old(self).values@.len() {
                old(self).values@[old(self).pos as int]
            } else {
                old(self).fallback
            },
            final(self).values == old(self).values,
            final(self).fallback == old(self).fallback,
            final(self).pos == if old(self).pos < old(self).values@.len() {
                old(self).pos + 1
            } else {
                old(self).pos as int
            },
    {
        let r = if self.pos < self.values.len() {
            let v = self.values[self.pos];
            self.pos = self.pos + 1;
            v
        } else {
            self.fallback
        };
        proof {
            self.handed_out@ = self.handed_out@.push(r);
        }
        r
    }
}

} // verus!
