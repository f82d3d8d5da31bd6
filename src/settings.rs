use vstd::prelude::*;

verus! {

/// A kernel configuration: its side length and its weights, row-major, one
/// per cell of the `area_size * area_size` grid.
#[derive(Clone, Debug)]
pub struct Settings {
    pub area_size: usize,
    pub values: Vec<i32>,
}

/// `len` weights of one.
pub open spec fn all_ones(len: nat) -> Seq<i32> {
    Seq::new(len, |i: int| 1i32)
}

fn ones(len: usize) -> (r: Vec<i32>)
    ensures
        r@ == all_ones(len as nat),
{
    let mut r: Vec<i32> = Vec::new();
    let mut i: usize = 0;
    while i < len
        invariant
            i <= len,
            r@ == all_ones(i as nat),
        decreases len - i,
    {
        r.push(1);
        i = i + 1;
        assert(r@ =~= all_ones(i as nat));
    }
    r
}

impl Settings {
    /// The side length is positive and there is one weight per cell.
    pub open spec fn wf(&self) -> bool {
        &&& 1 <= self.area_size
        &&& self.values@.len() == self.area_size as int * self.area_size as int
    }

    /// A kernel of side `area_size` whose weights are all one.
    pub fn new(area_size: usize) -> (r: Settings)
        requires
            1 <= area_size,
            area_size as int * area_size as int <= usize::MAX,
        ensures
            r.wf(),
            r.area_size == area_size,
            r.values@ == all_ones(area_size as nat * area_size as nat),
    {
        Settings { area_size, values: ones(area_size * area_size) }
    }

    /// Sets the side length; a new side length brings a fresh grid of ones,
    /// an unchanged one keeps the weights.
    pub fn set_area_size(&mut self, area_size: usize)
        requires
            1 <= area_size,
            area_size as int * area_size as int <= usize::MAX,
        ensures
            final(self).area_size == area_size,
            area_size == old(self).area_size ==> final(self).values@ == old(self).values@,
            area_size != old(self).area_size ==> final(self).values@ == all_ones(
                area_size as nat * area_size as nat,
            ),
    {
        if area_size != self.area_size {
            self.values = ones(area_size * area_size);
            self.area_size = area_size;
        }
    }

    /// Sets the weight of the cell at column `x` and row `y`.
    pub fn set_weight(&mut self, x: usize, y: usize, value: i32)
        requires
            old(self).wf(),
            x < old(self).area_size,
            y < old(self).area_size,
        ensures
            final(self).wf(),
            final(self).area_size == old(self).area_size,
            final(self).values@ == old(self).values@.update(
                y * old(self).area_size + x,
                value,
            ),
    {
        let len = self.values.len();
        proof {
            crate::raster::lemma_index_in_grid(
                x as int,
                y as int,
                self.area_size as int,
                self.area_size as int,
            );
        }
        let i = y * self.area_size + x;
        self.values.set(i, value);
    }

    /// Whether this snapshot differs from `previous`, which asks for the
    /// convolution to be computed again.
    pub fn changed(&self, previous: &Settings) -> (r: bool)
        ensures
            r == !(self.area_size == previous.area_size && self.values@ == previous.values@),
    {
        !self.eq(previous)
    }
}

impl PartialEq for Settings {
    fn eq(&self, other: &Settings) -> (r: bool) {
        if self.area_size != other.area_size || self.values.len() != other.values.len() {
            return false;
        }
        let mut i: usize = 0;
        while i < self.values.len()
            invariant
                i <= self.values@.len(),
                self.values@.len() == other.values@.len(),
                self.values@.take(i as int) == other.values@.take(i as int),
            decreases self.values@.len() - i,
        {
            if self.values[i] != other.values[i] {
                return false;
            }
            assert(self.values@.take(i as int + 1) =~= self.values@.take(i as int).push(self.values@[i as int]));
            assert(other.values@.take(i as int + 1) =~= other.values@.take(i as int).push(other.values@[i as int]));
            i = i + 1;
        }
        assert(self.values@ =~= self.values@.take(i as int));
        assert(other.values@ =~= other.values@.take(i as int));
        true
    }
}

impl vstd::std_specs::cmp::PartialEqSpecImpl for Settings {
    open spec fn obeys_eq_spec() -> bool {
        true
    }

    open spec fn eq_spec(&self, other: &Settings) -> bool {
        self.area_size == other.area_size && self.values@ == other.values@
    }
}

} // verus!
