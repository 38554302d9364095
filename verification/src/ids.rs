//! The pool of window ids: a bitmap of 1024 bits.

use vstd::prelude::*;

verus! {

/// The number of window ids in the pool; every id is below it.
pub const MAX_WINDOW_ID: usize = 1024;

/// The number of ids that one row of the bitmap tracks.
pub const IDS_PER_ROW: usize = 128;

/// A window id.
pub type WinID = u16;

/// Whether bit `col` of `row` is set.
pub open spec fn bit_is_set(row: u128, col: u128) -> bool {
    (row >> col) & 1 == 1
}

proof fn lemma_bit_after_set(row: u128, col: u128, other: u128)
    by (bit_vector)
    requires
        col < 128,
        other < 128,
    ensures
        bit_is_set(row | (1u128 << col), other) == (other == col || bit_is_set(row, other)),
{
}

proof fn lemma_bit_after_clear(row: u128, col: u128, other: u128)
    by (bit_vector)
    requires
        col < 128,
        other < 128,
    ensures
        bit_is_set(row & !(1u128 << col), other) == (other != col && bit_is_set(row, other)),
{
}

proof fn lemma_no_bit_in_zero(col: u128)
    by (bit_vector)
    requires
        col < 128,
    ensures
        !bit_is_set(0u128, col),
{
}

/// The ids that are in use, kept as one bit per id in eight rows of 128 bits.
pub struct WindowIds {
    rows: [u128; 8],
}

impl WindowIds {
    /// Whether the bitmap marks `id` as in use.
    pub closed spec fn marks(&self, id: u16) -> bool {
        id < 1024 && bit_is_set(self.rows[id as int / 128], (id % 128) as u128)
    }

    /// The set of ids in use.
    pub open spec fn view(&self) -> Set<u16> {
        Set::new(|id: u16| self.marks(id))
    }

    /// Every id in use is below [`MAX_WINDOW_ID`].
    pub proof fn lemma_ids_in_range(&self, id: u16)
        requires
            self@.contains(id),
        ensures
            id < MAX_WINDOW_ID,
    {
    }

    /// A pool in which no id is in use.
    pub fn new() -> (pool: Self)
        ensures
            pool@ == Set::<u16>::empty(),
    {
        let pool = Self { rows: [0u128; 8] };
        proof {
            assert forall|id: u16| !pool.marks(id) by {
                if id < 1024 {
                    lemma_no_bit_in_zero((id % 128) as u128);
                }
            }
            assert(pool@ =~= Set::<u16>::empty());
        }
        pool
    }

    /// Whether `id` is in use.
    pub fn contains(&self, id: WinID) -> (found: bool)
        ensures
            found == self@.contains(id),
    {
        if id as usize >= MAX_WINDOW_ID {
            return false;
        }
        let row: usize = id as usize / IDS_PER_ROW;
        let col: usize = id as usize % IDS_PER_ROW;
        ((self.rows[row] >> col) & 1) == 1
    }

    /// Takes the lowest id that is not in use and marks it as in use.
    /// Returns `None`, and changes nothing, when all 1024 ids are in use.
    pub fn add_id(&mut self) -> (id: Option<WinID>)
        ensures
            match id {
                Some(id) => {
                    &&& id < MAX_WINDOW_ID
                    &&& !old(self)@.contains(id)
                    &&& forall|lower: u16| lower < id ==> old(self)@.contains(lower)
                    &&& final(self)@ == old(self)@.insert(id)
                },
                None => {
                    &&& forall|any: u16| any < MAX_WINDOW_ID ==> old(self)@.contains(any)
                    &&& final(self)@ == old(self)@
                },
            },
    {
        let mut row: usize = 0;
        while row < 8
            invariant
                row <= 8,
                *self == *old(self),
                forall|lower: u16| lower < row * 128 ==> self.marks(lower),
            decreases 8 - row,
        {
            let mut col: usize = 0;
            while col < IDS_PER_ROW
                invariant
                    row < 8,
                    col <= 128,
                    *self == *old(self),
                    forall|lower: u16| lower < row * 128 + col ==> self.marks(lower),
                decreases 128 - col,
            {
                let bits: u128 = self.rows[row];
                let bit: bool = ((bits >> col) & 1) == 1;
                if !bit {
                    let id: WinID = (col + row * IDS_PER_ROW) as WinID;
                    self.rows[row] = bits | (1u128 << col);
                    proof {
                        assert(id as int / 128 == row && id % 128 == col);
                        assert forall|other: u16| self.marks(other) == (other == id || old(
                            self,
                        ).marks(other)) by {
                            if other < 1024 {
                                if other as int / 128 == row {
                                    lemma_bit_after_set(bits, col as u128, (other % 128) as u128);
                                }
                            }
                        }
                        assert(self@ =~= old(self)@.insert(id));
                    }
                    return Some(id);
                }
                col += 1;
            }
            row += 1;
        }
        None
    }

    /// Marks `id` as free. Returns whether it was in use.
    pub fn remove_id(&mut self, id: WinID) -> (was_used: bool)
        ensures
            was_used == old(self)@.contains(id),
            final(self)@ == old(self)@.remove(id),
    {
        if id as usize >= MAX_WINDOW_ID {
            assert(self@ =~= old(self)@.remove(id));
            return false;
        }
        let row: usize = id as usize / IDS_PER_ROW;
        let col: usize = id as usize % IDS_PER_ROW;
        let bits: u128 = self.rows[row];
        let was_used: bool = ((bits >> col) & 1) == 1;
        if was_used {
            self.rows[row] = bits & !(1u128 << col);
            proof {
                assert forall|other: u16| self.marks(other) == (other != id && old(self).marks(
                    other,
                )) by {
                    if other < 1024 {
                        if other as int / 128 == row {
                            lemma_bit_after_clear(bits, col as u128, (other % 128) as u128);
                        }
                    }
                }
            }
        }
        assert(self@ =~= old(self)@.remove(id));
        was_used
    }
}

} // verus!
