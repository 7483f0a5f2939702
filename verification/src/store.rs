//! The entity store: typed tables whose rows obey declared uniqueness
//! constraints and, where a row type has one, an autoincrement column.

use vstd::prelude::*;

verus! {

/// The value an autoincrement column holds in a row that asks the table to
/// assign one.
pub const UNASSIGNED: u64 = 0;

/// A row type, with the constraints that its table enforces.
pub trait Row: View + Sized {
    /// Whether two rows agree on some column that is declared unique.
    spec fn collides(a: Self::V, b: Self::V) -> bool;

    /// The value in the autoincrement column; `None` for a row type that has
    /// no such column.
    spec fn auto_value(row: Self::V) -> Option<u64>;

    /// The row with its autoincrement column set to `value`.
    spec fn with_auto_value(row: Self::V, value: u64) -> Self::V;

    /// Two rows collide whichever of them is named first.
    proof fn lemma_collides_symmetric(a: Self::V, b: Self::V)
        ensures
            Self::collides(a, b) == Self::collides(b, a),
    ;

    /// The autoincrement column holds what was put into it.
    proof fn lemma_auto_value_assigned(row: Self::V, value: u64)
        ensures
            Self::auto_value(row) is Some ==> Self::auto_value(Self::with_auto_value(row, value))
                == Some(value),
    ;

    /// Whether this row and `other` agree on some unique column.
    fn collides_with(&self, other: &Self) -> (hit: bool)
        ensures
            hit == Self::collides(self@, other@),
    ;

    /// The value in the autoincrement column, if the row type has one.
    fn auto_column(&self) -> (value: Option<u64>)
        ensures
            value == Self::auto_value(self@),
    ;

    /// Puts `value` into the autoincrement column; for a row type without
    /// one the row stays as it is.
    fn set_auto_column(&mut self, value: u64)
        ensures
            final(self)@ == Self::with_auto_value(old(self)@, value),
    ;

    /// A copy of this row.
    fn replica(&self) -> (copy: Self)
        ensures
            copy@ == self@,
    ;
}

/// A column of `R` that is declared unique, by which a row can be found.
pub trait Column<R: Row> {
    /// What a caller hands over to name a row by this column.
    type Key: View;

    /// The value of this column in a row.
    spec fn key(row: R::V) -> <Self::Key as View>::V;

    /// Rows that agree on this column collide.
    proof fn lemma_declared_unique(a: R::V, b: R::V)
        requires
            Self::key(a) == Self::key(b),
        ensures
            R::collides(a, b),
    ;

    /// Whether `row` holds `key` in this column.
    fn holds(row: &R, key: &Self::Key) -> (hit: bool)
        ensures
            hit == (Self::key(row@) == key@),
    ;
}

/// No two rows collide.
pub open spec fn unique<R: Row>(rows: Seq<R::V>) -> bool {
    forall|i: int, j: int|
        0 <= i < rows.len() && 0 <= j < rows.len() && i != j ==> !R::collides(
            #[trigger] rows[i],
            #[trigger] rows[j],
        )
}

/// No row holds a value in its autoincrement column that is beyond
/// `sequence`.
pub open spec fn bounded<R: Row>(rows: Seq<R::V>, sequence: u64) -> bool {
    forall|i: int|
        0 <= i < rows.len() ==> match R::auto_value(#[trigger] rows[i]) {
            Some(value) => value <= sequence,
            None => true,
        }
}

/// Some row of `rows` collides with `row`.
pub open spec fn occupied<R: Row>(rows: Seq<R::V>, row: R::V) -> bool {
    exists|i: int| 0 <= i < rows.len() && R::collides(#[trigger] rows[i], row)
}

/// The row as a table stores it whose last assigned autoincrement value is
/// `sequence`: a row that holds `UNASSIGNED` gets the next value.
pub open spec fn stamped<R: Row>(row: R::V, sequence: u64) -> R::V {
    if R::auto_value(row) == Some(UNASSIGNED) && sequence < u64::MAX {
        R::with_auto_value(row, (sequence + 1) as u64)
    } else {
        row
    }
}

/// The last assigned autoincrement value once `row` is stored.
pub open spec fn advanced<R: Row>(row: R::V, sequence: u64) -> u64 {
    match R::auto_value(row) {
        Some(value) => if value > sequence { value } else { sequence },
        None => sequence,
    }
}

/// Some row of `rows` holds `key` in the column `C`.
pub open spec fn has_key<R: Row, C: Column<R>>(rows: Seq<R::V>, key: <C::Key as View>::V) -> bool {
    exists|i: int| 0 <= i < rows.len() && C::key(#[trigger] rows[i]) == key
}

/// Where a row that holds `key` in the column `C` stands.
pub open spec fn position<R: Row, C: Column<R>>(rows: Seq<R::V>, key: <C::Key as View>::V) -> int {
    choose|i: int| 0 <= i < rows.len() && C::key(#[trigger] rows[i]) == key
}

/// The row that holds `key` in the column `C`, if there is one.
pub open spec fn find<R: Row, C: Column<R>>(rows: Seq<R::V>, key: <C::Key as View>::V) -> Option<
    R::V,
> {
    if has_key::<R, C>(rows, key) {
        Some(rows[position::<R, C>(rows, key)])
    } else {
        None
    }
}

/// Among rows that obey the constraints, a key of a unique column is held
/// by one row at most.
pub proof fn lemma_found_at<R: Row, C: Column<R>>(
    rows: Seq<R::V>,
    key: <C::Key as View>::V,
    i: int,
)
    requires
        unique::<R>(rows),
        0 <= i < rows.len(),
        C::key(rows[i]) == key,
    ensures
        has_key::<R, C>(rows, key),
        position::<R, C>(rows, key) == i,
        find::<R, C>(rows, key) == Some(rows[i]),
{
    let at = position::<R, C>(rows, key);
    if at != i {
        C::lemma_declared_unique(rows[at], rows[i]);
    }
}

/// A further row adds its key to those that the rows hold in a column.
pub proof fn lemma_has_key_pushed<R: Row, C: Column<R>>(
    rows: Seq<R::V>,
    row: R::V,
    key: <C::Key as View>::V,
)
    ensures
        has_key::<R, C>(rows.push(row), key) == (has_key::<R, C>(rows, key) || C::key(row) == key),
{
    let after = rows.push(row);
    if has_key::<R, C>(rows, key) {
        let i = position::<R, C>(rows, key);
        assert(C::key(after[i]) == key);
    }
    if C::key(row) == key {
        assert(C::key(after[rows.len() as int]) == key);
    }
    if has_key::<R, C>(after, key) {
        let j = position::<R, C>(after, key);
        if j < rows.len() {
            assert(C::key(rows[j]) == key);
        }
    }
}

/// A row that takes the place of one with the same key leaves the keys
/// that the rows hold in that column as they were.
pub proof fn lemma_has_key_updated<R: Row, C: Column<R>>(
    rows: Seq<R::V>,
    at: int,
    row: R::V,
    key: <C::Key as View>::V,
)
    requires
        0 <= at < rows.len(),
        C::key(row) == C::key(rows[at]),
    ensures
        has_key::<R, C>(rows.update(at, row), key) == has_key::<R, C>(rows, key),
{
    let after = rows.update(at, row);
    if has_key::<R, C>(rows, key) {
        let i = position::<R, C>(rows, key);
        assert(C::key(after[i]) == key);
    }
    if has_key::<R, C>(after, key) {
        let j = position::<R, C>(after, key);
        assert(C::key(rows[j]) == key);
    }
}

/// Some row other than the one at `at` collides with `row`.
pub open spec fn occupied_elsewhere<R: Row>(rows: Seq<R::V>, at: int, row: R::V) -> bool {
    exists|j: int| 0 <= j < rows.len() && j != at && R::collides(#[trigger] rows[j], row)
}

/// Why `Table::update_by_key` changed nothing.
#[derive(Clone, Copy, Debug, PartialEq, Eq, Structural)]
pub enum UpdateError {
    /// No row holds the key.
    NotFound,
    /// The new row collides with a row other than the one it replaces.
    DuplicateKey,
}

/// What `Table::update_by_key` makes of the rows `rows`.
pub open spec fn update_outcome<R: Row, C: Column<R>>(
    rows: Seq<R::V>,
    key: <C::Key as View>::V,
    row: R::V,
) -> Result<Seq<R::V>, UpdateError> {
    if !has_key::<R, C>(rows, key) {
        Err(UpdateError::NotFound)
    } else if occupied_elsewhere::<R>(rows, position::<R, C>(rows, key), row) {
        Err(UpdateError::DuplicateKey)
    } else {
        Ok(rows.update(position::<R, C>(rows, key), row))
    }
}

/// Why `Table::insert` stored nothing.
#[derive(Clone, Copy, Debug, PartialEq, Eq, Structural)]
pub enum ConstraintViolation {
    /// The row collides with a stored row on a unique column.
    DuplicateKey,
    /// The autoincrement column has given out its largest value.
    SequenceExhausted,
}

/// What `Table::insert` does to the rows `rows` of a table whose last
/// assigned autoincrement value is `sequence`.
pub open spec fn insert_outcome<R: Row>(rows: Seq<R::V>, sequence: u64, row: R::V) -> Result<
    R::V,
    ConstraintViolation,
> {
    if R::auto_value(row) == Some(UNASSIGNED) && sequence == u64::MAX {
        Err(ConstraintViolation::SequenceExhausted)
    } else if occupied::<R>(rows, stamped::<R>(row, sequence)) {
        Err(ConstraintViolation::DuplicateKey)
    } else {
        Ok(stamped::<R>(row, sequence))
    }
}

/// A table of rows of type `R`, in the order of their insertion.
pub struct Table<R: Row> {
    rows: Vec<R>,
    last_auto: u64,
}

impl<R: Row> View for Table<R> {
    type V = Seq<R::V>;

    closed spec fn view(&self) -> Seq<R::V> {
        Seq::new(self.rows.len() as nat, |i: int| self.rows[i]@)
    }
}

impl<R: Row> Table<R> {
    /// The largest autoincrement value that the table has assigned or seen.
    pub closed spec fn sequence(&self) -> u64 {
        self.last_auto
    }

    /// The rows obey the declared constraints.
    pub open spec fn wf(&self) -> bool {
        &&& unique::<R>(self@)
        &&& bounded::<R>(self@, self.sequence())
    }

    /// A table without rows, which has assigned no value yet.
    pub fn new() -> (table: Self)
        ensures
            table.wf(),
            table@ == Seq::<R::V>::empty(),
            table.sequence() == 0,
    {
        let table = Table { rows: Vec::new(), last_auto: 0 };
        assert(table@ =~= Seq::<R::V>::empty());
        table
    }

    /// How many rows the table holds.
    pub fn len(&self) -> (n: usize)
        ensures
            n == self@.len(),
    {
        self.rows.len()
    }

    /// Whether a stored row collides with `row`.
    fn is_occupied(&self, row: &R) -> (hit: bool)
        ensures
            hit == occupied::<R>(self@, row@),
    {
        let mut i: usize = 0;
        while i < self.rows.len()
            invariant
                i <= self.rows.len(),
                forall|k: int| 0 <= k < i ==> !R::collides(#[trigger] self@[k], row@),
            decreases self.rows.len() - i,
        {
            if self.rows[i].collides_with(row) {
                assert(R::collides(self@[i as int], row@));
                return true;
            }
            i += 1;
        }
        false
    }

    /// Stores `row`. A row whose autoincrement column holds `UNASSIGNED` is
    /// given the value after the last one assigned; the row as stored is
    /// returned. Nothing is stored where the row collides with a stored row
    /// on a unique column, or where no value is left to assign.
    pub fn insert(&mut self, row: R) -> (outcome: Result<R, ConstraintViolation>)
        requires
            old(self).wf(),
        ensures
            final(self).wf(),
            match outcome {
                Ok(stored) => {
                    &&& insert_outcome::<R>(old(self)@, old(self).sequence(), row@) == Ok::<
                        R::V,
                        ConstraintViolation,
                    >(stored@)
                    &&& final(self)@ == old(self)@.push(stored@)
                    &&& final(self).sequence() == advanced::<R>(stored@, old(self).sequence())
                },
                Err(violation) => {
                    &&& insert_outcome::<R>(old(self)@, old(self).sequence(), row@) == Err::<
                        R::V,
                        ConstraintViolation,
                    >(violation)
                    &&& final(self)@ == old(self)@
                    &&& final(self).sequence() == old(self).sequence()
                },
            },
    {
        let mut row = row;
        let given = row.auto_column();
        if given == Some(UNASSIGNED) {
            if self.last_auto == u64::MAX {
                return Err(ConstraintViolation::SequenceExhausted);
            }
            proof {
                R::lemma_auto_value_assigned(row@, (self.last_auto + 1) as u64);
            }
            row.set_auto_column(self.last_auto + 1);
        }
        if self.is_occupied(&row) {
            return Err(ConstraintViolation::DuplicateKey);
        }
        let stored = row.replica();
        let value = row.auto_column();
        match value {
            Some(v) => {
                if v > self.last_auto {
                    self.last_auto = v;
                }
            },
            None => {},
        }
        self.rows.push(row);
        proof {
            assert(self@ =~= old(self)@.push(stored@));
            assert forall|i: int, j: int|
                0 <= i < self@.len() && 0 <= j < self@.len() && i != j implies !R::collides(
                #[trigger] self@[i],
                #[trigger] self@[j],
            ) by {
                R::lemma_collides_symmetric(self@[i], self@[j]);
            }
        }
        Ok(stored)
    }
    /// The rows, in the order of their insertion.
    pub fn iterate(&self) -> (rows: &[R])
        ensures
            rows@.len() == self@.len(),
            forall|i: int| 0 <= i < rows@.len() ==> (#[trigger] rows@[i])@ == self@[i],
    {
        self.rows.as_slice()
    }

    /// Where the row that holds `key` in the column `C` stands.
    fn index_of<C: Column<R>>(&self, key: &C::Key) -> (at: Option<usize>)
        requires
            self.wf(),
        ensures
            match at {
                Some(i) => i < self@.len() && has_key::<R, C>(self@, key@) && position::<R, C>(
                    self@,
                    key@,
                ) == i,
                None => !has_key::<R, C>(self@, key@),
            },
    {
        let mut i: usize = 0;
        while i < self.rows.len()
            invariant
                i <= self.rows.len(),
                self.wf(),
                forall|k: int| 0 <= k < i ==> C::key(#[trigger] self@[k]) != key@,
            decreases self.rows.len() - i,
        {
            if C::holds(&self.rows[i], key) {
                proof {
                    lemma_found_at::<R, C>(self@, key@, i as int);
                }
                return Some(i);
            }
            i += 1;
        }
        None
    }

    /// The row that holds `key` in the unique column `C`.
    pub fn lookup_by_unique<C: Column<R>>(&self, key: &C::Key) -> (found: Option<&R>)
        requires
            self.wf(),
        ensures
            match found {
                Some(row) => find::<R, C>(self@, key@) == Some(row@),
                None => find::<R, C>(self@, key@) is None,
            },
    {
        match self.index_of::<C>(key) {
            Some(i) => Some(&self.rows[i]),
            None => None,
        }
    }

    /// Whether a stored row other than the one at `at` collides with `row`.
    fn is_occupied_elsewhere(&self, at: usize, row: &R) -> (hit: bool)
        ensures
            hit == occupied_elsewhere::<R>(self@, at as int, row@),
    {
        let mut i: usize = 0;
        while i < self.rows.len()
            invariant
                i <= self.rows.len(),
                forall|k: int| 0 <= k < i && k != at ==> !R::collides(#[trigger] self@[k], row@),
            decreases self.rows.len() - i,
        {
            if i != at && self.rows[i].collides_with(row) {
                assert(R::collides(self@[i as int], row@));
                return true;
            }
            i += 1;
        }
        false
    }

    /// Puts `row` in the place of the row that holds `key` in the unique
    /// column `C`. Nothing changes where no row holds the key, or where
    /// `row` collides with another stored row.
    pub fn update_by_key<C: Column<R>>(&mut self, key: &C::Key, row: R) -> (outcome: Result<
        (),
        UpdateError,
    >)
        requires
            old(self).wf(),
        ensures
            final(self).wf(),
            match outcome {
                Ok(()) => {
                    &&& update_outcome::<R, C>(old(self)@, key@, row@) == Ok::<
                        Seq<R::V>,
                        UpdateError,
                    >(final(self)@)
                    &&& final(self).sequence() == advanced::<R>(row@, old(self).sequence())
                },
                Err(error) => {
                    &&& update_outcome::<R, C>(old(self)@, key@, row@) == Err::<
                        Seq<R::V>,
                        UpdateError,
                    >(error)
                    &&& final(self)@ == old(self)@
                    &&& final(self).sequence() == old(self).sequence()
                },
            },
    {
        let at = match self.index_of::<C>(key) {
            Some(i) => i,
            None => {
                return Err(UpdateError::NotFound);
            },
        };
        if self.is_occupied_elsewhere(at, &row) {
            return Err(UpdateError::DuplicateKey);
        }
        match row.auto_column() {
            Some(v) => {
                if v > self.last_auto {
                    self.last_auto = v;
                }
            },
            None => {},
        }
        let ghost new_row = row@;
        self.rows[at] = row;
        proof {
            assert(self@ =~= old(self)@.update(at as int, new_row));
            assert forall|i: int, j: int|
                0 <= i < self@.len() && 0 <= j < self@.len() && i != j implies !R::collides(
                #[trigger] self@[i],
                #[trigger] self@[j],
            ) by {
                R::lemma_collides_symmetric(self@[i], self@[j]);
                if i != at && j != at {
                    assert(!R::collides(old(self)@[i], old(self)@[j]));
                } else if i == at {
                    assert(!R::collides(old(self)@[j], new_row));
                } else {
                    assert(!R::collides(old(self)@[i], new_row));
                }
            }
        }
        Ok(())
    }

    /// Takes out the row that holds `key` in the unique column `C`, and
    /// returns it; the rows behind it move up.
    pub fn delete_by_key<C: Column<R>>(&mut self, key: &C::Key) -> (removed: Option<R>)
        requires
            old(self).wf(),
        ensures
            final(self).wf(),
            final(self).sequence() == old(self).sequence(),
            match removed {
                Some(row) => {
                    &&& find::<R, C>(old(self)@, key@) == Some(row@)
                    &&& final(self)@ == old(self)@.remove(position::<R, C>(old(self)@, key@))
                },
                None => {
                    &&& find::<R, C>(old(self)@, key@) is None
                    &&& final(self)@ == old(self)@
                },
            },
    {
        match self.index_of::<C>(key) {
            Some(at) => {
                let row = self.rows.remove(at);
                proof {
                    assert(self@ =~= old(self)@.remove(at as int));
                    assert forall|i: int, j: int|
                        0 <= i < self@.len() && 0 <= j < self@.len() && i != j implies !R::collides(
                        #[trigger] self@[i],
                        #[trigger] self@[j],
                    ) by {
                        let oi = if i < at { i } else { i + 1 };
                        let oj = if j < at { j } else { j + 1 };
                        assert(!R::collides(old(self)@[oi], old(self)@[oj]));
                    }
                    assert forall|i: int| 0 <= i < self@.len() implies match R::auto_value(
                        #[trigger] self@[i],
                    ) {
                        Some(value) => value <= self.sequence(),
                        None => true,
                    } by {
                        let oi = if i < at { i } else { i + 1 };
                        assert(self@[i] == old(self)@[oi]);
                    }
                }
                Some(row)
            },
            None => None,
        }
    }
}

} // verus!
