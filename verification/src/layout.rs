use vstd::prelude::*;

verus! {

/// Order in which the elements of an array are laid out in memory.
#[derive(Debug, Clone, Copy, PartialEq, Eq, Structural)]
pub enum Layout {
    RowMajor,
    ColMajor,
}

/// A borrowed pair of a layout and the strides that go with it.
#[derive(Debug, Clone, Copy)]
pub struct LayoutRef<'a> {
    layout: Layout,
    strides: &'a [usize],
}

impl<'a> LayoutRef<'a> {
    /// The layout that was recorded.
    pub closed spec fn spec_layout(&self) -> Layout {
        self.layout
    }

    /// The strides that were recorded.
    pub closed spec fn spec_strides(&self) -> Seq<usize> {
        self.strides@
    }

    pub fn new(layout: Layout, strides: &'a [usize]) -> (r: Self)
        ensures
            r.spec_layout() == layout,
            r.spec_strides() == strides@,
    {
        Self { layout, strides }
    }

    pub fn layout(&self) -> (l: Layout)
        ensures
            l == self.spec_layout(),
    {
        self.layout
    }

    pub fn strides(&self) -> (s: &[usize])
        ensures
            s@ == self.spec_strides(),
    {
        self.strides
    }
}

} // verus!
