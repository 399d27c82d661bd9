use vstd::prelude::*;

verus! {

/// The ordered list of objects that make up a scene.
pub struct Hittables<T> {
    objects: Vec<T>,
}

impl<T> View for Hittables<T> {
    type V = Seq<T>;

    closed spec fn view(&self) -> Seq<T> {
        self.objects@
    }
}

impl<T> Hittables<T> {
    /// A scene that holds one object.
    pub fn new(object: T) -> (s: Self)
        ensures
            s@ == seq![object],
    {
        let mut objects: Vec<T> = Vec::new();
        objects.push(object);
        assert(objects@ =~= seq![object]);
        Hittables { objects }
    }

    /// Appends an object after the others.
    pub fn add(&mut self, object: T)
        ensures
            final(self)@ == old(self)@.push(object),
    {
        self.objects.push(object);
    }

    /// Removes every object.
    pub fn clear(&mut self)
        ensures
            final(self)@ == Seq::<T>::empty(),
    {
        self.objects.clear();
    }

    /// The number of objects.
    pub fn len(&self) -> (n: usize)
        ensures
            n == self@.len(),
    {
        self.objects.len()
    }

    /// The objects, in the order in which they were added.
    pub fn objects(&self) -> (v: &Vec<T>)
        ensures
            v@ == self@,
    {
        &self.objects
    }
}

} // verus!
