use vstd::prelude::*;

verus! {

/// Storage of the elements of an array, read as one contiguous run.
pub trait Data {
    type Elem;

    /// The stored elements, in memory order.
    spec fn elems(&self) -> Seq<Self::Elem>;

    /// The storage can give a view the place of its first element (owned storage
    /// cannot when it holds no element).
    spec fn addressable(&self) -> bool;

    /// The stored elements as a slice.
    fn as_slice(&self) -> (s: &[Self::Elem])
        ensures
            s@ == self.elems(),
    ;

    /// Number of stored elements.
    fn len(&self) -> (n: usize)
        ensures
            n == self.elems().len(),
    ;
}

/// Storage whose elements can be written in place.
pub trait DataMut: Data {
    /// The borrow through which the storage writes elements it does not own
    /// (`None` for storage that owns its elements).
    spec fn borrowed(&self) -> Option<&mut [Self::Elem]>;

    /// The stored elements as a mutable slice; what is written through it is
    /// what the storage holds afterwards, and storage that writes through a
    /// borrow keeps writing to the same place.
    fn as_mut_slice(&mut self) -> (s: &mut [Self::Elem])
        ensures
            s@ == old(self).elems(),
            final(s)@ == final(self).elems(),
            old(self).borrowed() is None ==> final(self).borrowed() is None,
            old(self).borrowed() is Some ==> final(self).borrowed() is Some && final(final(self).borrowed().unwrap())@
                == final(old(self).borrowed().unwrap())@,
    ;
}

/// Storage that owns its elements.
pub struct OwnedRepr<T> {
    data: Vec<T>,
}

impl<T> OwnedRepr<T> {
    pub fn new(data: Vec<T>) -> (r: Self)
        ensures
            r.elems() == data@,
    {
        Self { data }
    }

    pub fn into_vec(self) -> (v: Vec<T>)
        ensures
            v@ == self.elems(),
    {
        self.data
    }
}

impl<T: Clone> Clone for OwnedRepr<T> {
    /// Clones each element.
    fn clone(&self) -> (r: Self)
        ensures
            r.elems().len() == self.elems().len(),
            forall|i: int| 0 <= i < self.elems().len() ==> cloned(self.elems()[i], #[trigger] r.elems()[i]),
    {
        OwnedRepr::new(self.data.clone())
    }
}

impl<T> Data for OwnedRepr<T> {
    type Elem = T;

    closed spec fn elems(&self) -> Seq<T> {
        self.data@
    }

    open spec fn addressable(&self) -> bool {
        self.elems().len() > 0
    }

    fn as_slice(&self) -> (s: &[T]) {
        self.data.as_slice()
    }

    fn len(&self) -> (n: usize) {
        self.data.len()
    }
}

impl<T> DataMut for OwnedRepr<T> {
    closed spec fn borrowed(&self) -> Option<&mut [T]> {
        None
    }

    fn as_mut_slice(&mut self) -> (s: &mut [T]) {
        self.data.as_mut_slice()
    }
}

/// Storage that borrows the elements of another array for reading.
pub struct ViewRepr<'a, T> {
    data: &'a [T],
}

impl<'a, T> ViewRepr<'a, T> {
    pub fn new(data: &'a [T]) -> (r: Self)
        ensures
            r.elems() == data@,
    {
        Self { data }
    }
}

impl<'a, T> Clone for ViewRepr<'a, T> {
    /// Copies the borrow: both views read the same elements.
    fn clone(&self) -> (r: Self)
        ensures
            r.elems() == self.elems(),
    {
        Self { data: self.data }
    }
}

impl<'a, T> Data for ViewRepr<'a, T> {
    type Elem = T;

    closed spec fn elems(&self) -> Seq<T> {
        self.data@
    }

    open spec fn addressable(&self) -> bool {
        true
    }

    fn as_slice(&self) -> (s: &[T]) {
        self.data
    }

    fn len(&self) -> (n: usize) {
        self.data.len()
    }
}

/// Storage that borrows the elements of another array for writing.
pub struct ViewMutRepr<'a, T> {
    data: &'a mut [T],
}

impl<'a, T> ViewMutRepr<'a, T> {
    /// A view writing through `data`: whatever the view holds when it is done is
    /// what `data` holds.
    pub fn new(data: &'a mut [T]) -> (r: Self)
        ensures
            r.elems() == old(data)@,
            r.borrowed() is Some,
            final(r.borrowed().unwrap())@ == final(data)@,
    {
        Self { data }
    }

    /// Once the view is no longer used, what it holds is what its borrow leaves behind.
    pub proof fn lemma_done(self)
        requires
            has_resolved(self),
        ensures
            self.elems() == final(self.borrowed().unwrap())@,
    {
    }
}

impl<'a, T> Data for ViewMutRepr<'a, T> {
    type Elem = T;

    closed spec fn elems(&self) -> Seq<T> {
        self.data@
    }

    open spec fn addressable(&self) -> bool {
        true
    }

    fn as_slice(&self) -> (s: &[T]) {
        self.data
    }

    fn len(&self) -> (n: usize) {
        self.data.len()
    }
}

impl<'a, T> DataMut for ViewMutRepr<'a, T> {
    closed spec fn borrowed(&self) -> Option<&mut [T]> {
        Some(self.data)
    }

    fn as_mut_slice(&mut self) -> (s: &mut [T]) {
        self.data
    }
}

} // verus!
