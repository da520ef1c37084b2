use vstd::prelude::*;

verus! {

/// The pointer value after one step forward, wrapping at the top of `isize`.
pub open spec fn step_forward(p: int) -> int {
    if p == isize::MAX {
        isize::MIN as int
    } else {
        p + 1
    }
}

/// The pointer value after one step backward, wrapping at the bottom of `isize`.
pub open spec fn step_backward(p: int) -> int {
    if p == isize::MIN {
        isize::MAX as int
    } else {
        p - 1
    }
}

/// Where position `p` lives inside its side of the tape.
pub open spec fn side_index(p: int) -> int {
    if p >= 0 {
        p
    } else {
        -p - 1
    }
}

/// `s` extended with zero cells up to length `n`, or `s` itself if it is long enough.
pub open spec fn grown(s: Seq<u8>, n: int) -> Seq<u8> {
    if s.len() >= n {
        s
    } else {
        s + Seq::new((n - s.len()) as nat, |i: int| 0u8)
    }
}

/// The value of a position in one side: a cell never materialized reads as zero.
pub open spec fn side_value(s: Seq<u8>, k: int) -> u8 {
    if 0 <= k < s.len() {
        s[k]
    } else {
        0
    }
}

#[derive(Debug, Default, Clone, Copy)]
struct CellPointer(isize);

impl CellPointer {
    fn increment(&mut self)
        ensures
            final(self).0 as int == step_forward(old(self).0 as int),
    {
        self.0 = self.0.wrapping_add(1);
    }

    fn decrement(&mut self)
        ensures
            final(self).0 as int == step_backward(old(self).0 as int),
    {
        self.0 = self.0.wrapping_sub(1);
    }

    fn val(&self) -> (r: isize)
        ensures
            r == self.0,
    {
        self.0
    }

    fn index(&self) -> (r: usize)
        ensures
            r as int == side_index(self.0 as int),
    {
        if self.val() >= 0 {
            self.val() as usize
        } else {
            (-(self.val() + 1)) as usize
        }
    }
}

/// A tape of byte cells, unbounded in both directions and materialized lazily.
///
/// Positions `p >= 0` live in `positive[p]`, positions `p < 0` in
/// `negative[-p - 1]`.
#[derive(Debug)]
pub struct Cells {
    pointer: CellPointer,
    negative: Vec<u8>,
    positive: Vec<u8>,
}

impl Cells {
    /// The current pointer position.
    pub closed spec fn ptr(&self) -> int {
        self.pointer.0 as int
    }

    /// The materialized cells at non-negative positions.
    pub closed spec fn pos_side(&self) -> Seq<u8> {
        self.positive@
    }

    /// The materialized cells at negative positions, nearest to zero first.
    pub closed spec fn neg_side(&self) -> Seq<u8> {
        self.negative@
    }

    /// The cell under the pointer has been materialized.
    pub open spec fn wf(&self) -> bool {
        &&& isize::MIN <= self.ptr() <= isize::MAX
        &&& self.ptr() >= 0 ==> self.ptr() < self.pos_side().len()
        &&& self.ptr() < 0 ==> side_index(self.ptr()) < self.neg_side().len()
    }

    /// The value of the cell at position `q`.
    pub open spec fn cell(&self, q: int) -> u8 {
        if q >= 0 {
            side_value(self.pos_side(), q)
        } else {
            side_value(self.neg_side(), side_index(q))
        }
    }

    /// The value of the cell under the pointer.
    pub open spec fn current(&self) -> u8 {
        self.cell(self.ptr())
    }

    /// `next` is this tape with the pointer moved to `p`, and the cell there
    /// materialized if it never was.
    pub open spec fn moved_to(&self, next: Cells, p: int) -> bool {
        &&& next.wf()
        &&& next.ptr() == p
        &&& next.pos_side() == (if p >= 0 {
            grown(self.pos_side(), p + 1)
        } else {
            self.pos_side()
        })
        &&& next.neg_side() == (if p < 0 {
            grown(self.neg_side(), side_index(p) + 1)
        } else {
            self.neg_side()
        })
    }

    /// `next` is this tape with the cell under the pointer set to `val`.
    pub open spec fn written(&self, next: Cells, val: u8) -> bool {
        &&& next.wf()
        &&& next.ptr() == self.ptr()
        &&& next.pos_side() == (if self.ptr() >= 0 {
            self.pos_side().update(self.ptr(), val)
        } else {
            self.pos_side()
        })
        &&& next.neg_side() == (if self.ptr() < 0 {
            self.neg_side().update(side_index(self.ptr()), val)
        } else {
            self.neg_side()
        })
    }

    /// The value of the cell under the pointer.
    pub fn get_cell(&self) -> (r: u8)
        requires
            self.wf(),
        ensures
            r == self.current(),
    {
        if self.pointer.val() >= 0 {
            self.positive[self.pointer.index()]
        } else {
            self.negative[self.pointer.index()]
        }
    }

    /// Stores `val` in the cell under the pointer.
    pub fn set_cell(&mut self, val: u8)
        requires
            old(self).wf(),
        ensures
            old(self).written(*final(self), val),
            forall|q: int| #[trigger]
                final(self).cell(q) == (if q == old(self).ptr() {
                    val
                } else {
                    old(self).cell(q)
                }),
    {
        if self.pointer.val() >= 0 {
            let i = self.pointer.index();
            self.positive.set(i, val);
        } else {
            let i = self.pointer.index();
            self.negative.set(i, val);
        }
    }

    /// Moves the pointer one cell forward, wrapping at the top of `isize`.
    pub fn increment_pointer(&mut self)
        requires
            old(self).wf(),
        ensures
            old(self).moved_to(*final(self), step_forward(old(self).ptr())),
            forall|q: int| #[trigger] final(self).cell(q) == old(self).cell(q),
    {
        self.pointer.increment();
        self.gaurentee_cell_pointer();
    }

    /// Moves the pointer one cell backward, wrapping at the bottom of `isize`.
    pub fn decrement_pointer(&mut self)
        requires
            old(self).wf(),
        ensures
            old(self).moved_to(*final(self), step_backward(old(self).ptr())),
            forall|q: int| #[trigger] final(self).cell(q) == old(self).cell(q),
    {
        self.pointer.decrement();
        self.gaurentee_cell_pointer();
    }

    /// Adds one to the cell under the pointer, wrapping from 255 to 0.
    pub fn increment_cell(&mut self)
        requires
            old(self).wf(),
        ensures
            old(self).written(*final(self), old(self).current().wrapping_add(1)),
            final(self).current() == old(self).current().wrapping_add(1),
            forall|q: int|
                q != old(self).ptr() ==> #[trigger] final(self).cell(q) == old(self).cell(q),
    {
        self.set_cell(self.get_cell().wrapping_add(1));
    }

    /// Takes one from the cell under the pointer, wrapping from 0 to 255.
    pub fn decrement_cell(&mut self)
        requires
            old(self).wf(),
        ensures
            old(self).written(*final(self), old(self).current().wrapping_sub(1)),
            final(self).current() == old(self).current().wrapping_sub(1),
            forall|q: int|
                q != old(self).ptr() ==> #[trigger] final(self).cell(q) == old(self).cell(q),
    {
        self.set_cell(self.get_cell().wrapping_sub(1));
    }

    /// Materializes zero cells on the pointer's side until the cell under it exists.
    fn gaurentee_cell_pointer(&mut self)
        ensures
            old(self).moved_to(*final(self), old(self).ptr()),
            forall|q: int| #[trigger] final(self).cell(q) == old(self).cell(q),
    {
        let needed = self.pointer.index();
        let ghost old_pos = self.positive@;
        let ghost old_neg = self.negative@;
        if self.pointer.val() >= 0 {
            while self.positive.len() <= needed
                invariant
                    self.pointer.0 == old(self).pointer.0,
                    needed as int == side_index(self.pointer.0 as int),
                    self.negative@ == old_neg,
                    self.positive@.len() >= old_pos.len(),
                    self.positive@.subrange(0, old_pos.len() as int) == old_pos,
                    forall|k: int|
                        old_pos.len() <= k < self.positive@.len() ==> self.positive@[k] == 0,
                    self.positive@.len() <= old_pos.len() || self.positive@.len() <= needed
                        + 1,
                decreases needed + 1 - self.positive.len(),
            {
                self.positive.push(0);
            }
            assert(self.positive@ =~= grown(old_pos, needed + 1));
        } else {
            while self.negative.len() <= needed
                invariant
                    self.pointer.0 == old(self).pointer.0,
                    needed as int == side_index(self.pointer.0 as int),
                    self.positive@ == old_pos,
                    self.negative@.len() >= old_neg.len(),
                    self.negative@.subrange(0, old_neg.len() as int) == old_neg,
                    forall|k: int|
                        old_neg.len() <= k < self.negative@.len() ==> self.negative@[k] == 0,
                    self.negative@.len() <= old_neg.len() || self.negative@.len() <= needed
                        + 1,
                decreases needed + 1 - self.negative.len(),
            {
                self.negative.push(0);
            }
            assert(self.negative@ =~= grown(old_neg, needed + 1));
        }
    }

    /// The current pointer position.
    pub fn pointer(&self) -> (r: isize)
        ensures
            r as int == self.ptr(),
    {
        self.pointer.val()
    }

    /// The materialized cells at non-negative positions.
    pub fn positive_cells(&self) -> (r: &Vec<u8>)
        ensures
            r@ == self.pos_side(),
    {
        &self.positive
    }

    /// The materialized cells at negative positions, nearest to zero first.
    pub fn negative_cells(&self) -> (r: &Vec<u8>)
        ensures
            r@ == self.neg_side(),
    {
        &self.negative
    }
}

impl Default for Cells {
    /// A tape with one zero cell materialized at position zero.
    fn default() -> (r: Self)
        ensures
            r.wf(),
            r.ptr() == 0,
            r.pos_side() == seq![0u8],
            r.neg_side() == Seq::<u8>::empty(),
    {
        let mut positive: Vec<u8> = Vec::new();
        positive.push(0);
        Cells { pointer: CellPointer(0), negative: Vec::new(), positive }
    }
}

} // verus!
