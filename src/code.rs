use vstd::prelude::*;

verus! {

/// Every entry of `s` names one of the first `num_colors` colors.
pub open spec fn colors_below(s: Seq<usize>, num_colors: nat) -> bool {
    forall|i: int| 0 <= i < s.len() ==> #[trigger] s[i] < num_colors
}

/// A row of color indices: the hidden solution, a submitted guess, or the
/// guess that the player is still filling in.
#[derive(Debug, Clone, Default)]
pub struct Guess(pub Vec<usize>);

impl View for Guess {
    type V = Seq<usize>;

    open spec fn view(&self) -> Seq<usize> {
        self.0@
    }
}

impl Guess {
    /// An empty row.
    pub fn new() -> (r: Guess)
        ensures
            r@ == Seq::<usize>::empty(),
    {
        Guess(Vec::new())
    }

    /// Number of colors placed in the row.
    pub fn len(&self) -> (r: usize)
        ensures
            r == self@.len(),
    {
        self.0.len()
    }

    /// Whether no color is placed yet.
    pub fn is_empty(&self) -> (r: bool)
        ensures
            r == (self@.len() == 0),
    {
        self.0.len() == 0
    }

    /// The colors, in order.
    pub fn colors(&self) -> (r: &[usize])
        ensures
            r@ == self@,
    {
        self.0.as_slice()
    }
}

} // verus!
