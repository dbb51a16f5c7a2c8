//! A lab that keeps boxed animals and can copy all of them at once.
use vstd::prelude::*;

verus! {

/// What every animal of the lab can do.
pub trait Mammal {
    fn walk(&self);

    fn run(&self);
}

/// Animals that the lab can clone.
pub trait NewTrait: Mammal + Clone {

}

/// The animals of a cloning lab.
pub struct CloningLab<T: NewTrait> {
    pub subjects: Vec<Box<T>>,
}

impl<T: NewTrait> CloningLab<T> {
    /// A fresh vector with a clone of every subject, in the same order.
    pub fn clone_subjects(&self) -> (r: Vec<Box<T>>)
        ensures
            r@.len() == self.subjects@.len(),
            forall|i: int| 0 <= i < r@.len() ==> cloned(self.subjects@[i], #[trigger] r@[i]),
    {
        self.subjects.clone()
    }
}

} // verus!
