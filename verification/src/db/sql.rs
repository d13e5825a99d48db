use vstd::prelude::*;
use crate::db::plain::Plain;
use crate::db::plain::lemma_models_push;
use crate::db::plain::models;

verus! {

/// A row of a table: it has a key, by which the table finds it, and a time, by which the
/// table orders it.
pub trait Record: Plain {
    spec fn key_of(row: Self::Model) -> Seq<char>;

    spec fn stamp_of(row: Self::Model) -> int;

    fn key(&self) -> (key: &String)
        ensures
            key@ == Self::key_of(self.model()),
    ;

    fn stamp(&self) -> (stamp: u128)
        ensures
            stamp as int == Self::stamp_of(self.model()),
    ;
}

/// A condition on the rows of a table, as a `WHERE` clause states one.
pub trait Filter<R: Record> {
    spec fn condition(&self) -> spec_fn(R::Model) -> bool;

    fn test(&self, row: &R) -> (admitted: bool)
        ensures
            admitted == (self.condition())(row.model()),
    ;
}

/// A change to a row that leaves its key and its time as they are, as an `UPDATE` of
/// another column does.
pub trait Patch<R: Record> {
    spec fn change(&self) -> spec_fn(R::Model) -> R::Model;

    proof fn keeps_place(&self, row: R::Model)
        ensures
            R::key_of((self.change())(row)) == R::key_of(row),
            R::stamp_of((self.change())(row)) == R::stamp_of(row),
    ;

    fn patched(&self, row: &R) -> (out: R)
        ensures
            out.model() == (self.change())(row.model()),
    ;
}

/// Why the store refused a statement.
#[derive(Clone, Copy, Debug, PartialEq, Eq)]
pub enum StoreError {
    /// A row with the same key is in the table already.
    DuplicateKey,
    /// A query for one row found none.
    RowNotFound,
}

/// The words of this store for a row that it refuses because its key is taken.
pub open spec fn duplicate_key_words() -> Seq<char> {
    "A row with this key exists already"@
}

/// The words of this store for a query for one row that finds none.
pub open spec fn row_not_found_words() -> Seq<char> {
    "No row was found"@
}

impl StoreError {
    /// The words of this store for the error.
    pub fn to_string(&self) -> (text: String)
        ensures
            text@ == match *self {
                StoreError::DuplicateKey => duplicate_key_words(),
                StoreError::RowNotFound => row_not_found_words(),
            },
    {
        match self {
            StoreError::DuplicateKey => String::from_str("A row with this key exists already"),
            StoreError::RowNotFound => String::from_str("No row was found"),
        }
    }
}

/// No two rows have the same key.
pub open spec fn keys_unique<R: Record>(rows: Seq<R::Model>) -> bool {
    forall|i: int, j: int|
        0 <= i < rows.len() && 0 <= j < rows.len() && R::key_of(rows[i]) == R::key_of(rows[j])
            ==> i == j
}

/// The rows stand newest first.
pub open spec fn newest_first<R: Record>(rows: Seq<R::Model>) -> bool {
    forall|i: int, j: int|
        0 <= i <= j < rows.len() ==> R::stamp_of(rows[i]) >= R::stamp_of(rows[j])
}

/// Some row has the key.
pub open spec fn has_key<R: Record>(rows: Seq<R::Model>, key: Seq<char>) -> bool {
    exists|i: int| 0 <= i < rows.len() && R::key_of(#[trigger] rows[i]) == key
}

/// The place at which a row of time `stamp` goes: behind the rows that are as new or newer.
pub open spec fn place_of<R: Record>(rows: Seq<R::Model>, stamp: int) -> int
    decreases rows.len(),
{
    if rows.len() == 0 || R::stamp_of(rows[0]) < stamp {
        0
    } else {
        1 + place_of::<R>(rows.drop_first(), stamp)
    }
}

/// The first item of `rows` that `admits` holds of.
pub open spec fn first_admitted<M>(rows: Seq<M>, admits: spec_fn(M) -> bool) -> Option<M>
    decreases rows.len(),
{
    if rows.len() == 0 {
        None
    } else if admits(rows[0]) {
        Some(rows[0])
    } else {
        first_admitted(rows.drop_first(), admits)
    }
}

/// The part of `rows` that a query with `LIMIT limit OFFSET offset` hands out. An offset
/// below zero counts as zero.
pub open spec fn window<M>(rows: Seq<M>, offset: int, limit: int) -> Seq<M> {
    let from = if offset < 0 {
        0
    } else if offset > rows.len() {
        rows.len() as int
    } else {
        offset
    };
    let to = if limit < 0 {
        from
    } else if from + limit > rows.len() {
        rows.len() as int
    } else {
        from + limit
    };
    rows.subrange(from, to)
}

/// The index of a row with the key, where there is one.
pub open spec fn position_of<R: Record>(rows: Seq<R::Model>, key: Seq<char>) -> int {
    choose|i: int| 0 <= i < rows.len() && R::key_of(#[trigger] rows[i]) == key
}

/// The row with the key.
pub open spec fn find_key<R: Record>(rows: Seq<R::Model>, key: Seq<char>) -> Option<R::Model> {
    if has_key::<R>(rows, key) {
        Some(rows[position_of::<R>(rows, key)])
    } else {
        None
    }
}

/// The rows with the row of the key changed by `change`.
pub open spec fn rewritten<R: Record>(
    rows: Seq<R::Model>,
    key: Seq<char>,
    change: spec_fn(R::Model) -> R::Model,
) -> Seq<R::Model> {
    if has_key::<R>(rows, key) {
        let at = position_of::<R>(rows, key);
        rows.update(at, change(rows[at]))
    } else {
        rows
    }
}

/// The rows without the row of the key.
pub open spec fn without_key<R: Record>(rows: Seq<R::Model>, key: Seq<char>) -> Seq<R::Model> {
    if has_key::<R>(rows, key) {
        rows.remove(position_of::<R>(rows, key))
    } else {
        rows
    }
}

/// The rows with one more, at the place of its time.
pub open spec fn with_row<R: Record>(rows: Seq<R::Model>, row: R::Model) -> Seq<R::Model> {
    rows.insert(place_of::<R>(rows, R::stamp_of(row)), row)
}

pub proof fn lemma_first_admitted<M>(rows: Seq<M>, admits: spec_fn(M) -> bool, at: int)
    requires
        0 <= at < rows.len(),
        admits(rows[at]),
        forall|k: int| 0 <= k < at ==> !admits(#[trigger] rows[k]),
    ensures
        first_admitted(rows, admits) == Some(rows[at]),
    decreases rows.len(),
{
    if at > 0 {
        assert(!admits(rows[0]));
        let rest = rows.drop_first();
        assert forall|k: int| 0 <= k < at - 1 implies !admits(#[trigger] rest[k]) by {
            assert(rest[k] == rows[k + 1]);
        }
        lemma_first_admitted(rest, admits, at - 1);
    }
}

pub proof fn lemma_first_admitted_none<M>(rows: Seq<M>, admits: spec_fn(M) -> bool)
    requires
        forall|k: int| 0 <= k < rows.len() ==> !admits(#[trigger] rows[k]),
    ensures
        first_admitted(rows, admits) is None,
    decreases rows.len(),
{
    if rows.len() > 0 {
        let rest = rows.drop_first();
        assert(!admits(rows[0]));
        assert forall|k: int| 0 <= k < rest.len() implies !admits(#[trigger] rest[k]) by {
            assert(rest[k] == rows[k + 1]);
        }
        lemma_first_admitted_none(rest, admits);
    }
}

/// What `first_admitted` finds is a row of the sequence that the condition holds of, and
/// it finds one whenever there is one.
pub proof fn lemma_first_admitted_is_a_row<M>(rows: Seq<M>, admits: spec_fn(M) -> bool)
    ensures
        match first_admitted(rows, admits) {
            Some(row) => admits(row) && rows.contains(row),
            None => forall|k: int| 0 <= k < rows.len() ==> !admits(#[trigger] rows[k]),
        },
    decreases rows.len(),
{
    if rows.len() > 0 {
        if admits(rows[0]) {
            assert(rows.contains(rows[0]));
        } else {
            let rest = rows.drop_first();
            lemma_first_admitted_is_a_row(rest, admits);
            match first_admitted(rest, admits) {
                Some(row) => {
                    let k = choose|k: int| 0 <= k < rest.len() && rest[k] == row;
                    assert(rows[k + 1] == row);
                },
                None => {
                    assert forall|k: int| 0 <= k < rows.len() implies !admits(
                        #[trigger] rows[k],
                    ) by {
                        if k > 0 {
                            assert(rest[k - 1] == rows[k]);
                        }
                    }
                },
            }
        }
    }
}

/// In rows that stand newest first, the place of a time is behind the rows as new or newer
/// and before the older ones.
pub proof fn lemma_place_of<R: Record>(rows: Seq<R::Model>, stamp: int)
    requires
        newest_first::<R>(rows),
    ensures
        0 <= place_of::<R>(rows, stamp) <= rows.len(),
        forall|k: int|
            0 <= k < place_of::<R>(rows, stamp) ==> R::stamp_of(#[trigger] rows[k]) >= stamp,
        forall|k: int|
            place_of::<R>(rows, stamp) <= k < rows.len() ==> R::stamp_of(#[trigger] rows[k])
                < stamp,
    decreases rows.len(),
{
    if rows.len() == 0 || R::stamp_of(rows[0]) < stamp {
        assert forall|k: int| 0 <= k < rows.len() implies R::stamp_of(#[trigger] rows[k])
            < stamp by {
            assert(R::stamp_of(rows[0]) >= R::stamp_of(rows[k]));
        }
    } else {
        let rest = rows.drop_first();
        assert forall|i: int, j: int| 0 <= i <= j < rest.len() implies R::stamp_of(rest[i])
            >= R::stamp_of(rest[j]) by {
            assert(rest[i] == rows[i + 1]);
            assert(rest[j] == rows[j + 1]);
        }
        lemma_place_of::<R>(rest, stamp);
        let place = place_of::<R>(rows, stamp);
        assert forall|k: int| 0 <= k < place implies R::stamp_of(#[trigger] rows[k])
            >= stamp by {
            if k > 0 {
                assert(rest[k - 1] == rows[k]);
            }
        }
        assert forall|k: int| place <= k < rows.len() implies R::stamp_of(#[trigger] rows[k])
            < stamp by {
            assert(rest[k - 1] == rows[k]);
        }
    }
}

/// In rows with unique keys, the row at an index is the row that its key finds.
pub proof fn lemma_find_at<R: Record>(rows: Seq<R::Model>, at: int)
    requires
        keys_unique::<R>(rows),
        0 <= at < rows.len(),
    ensures
        has_key::<R>(rows, R::key_of(rows[at])),
        position_of::<R>(rows, R::key_of(rows[at])) == at,
        find_key::<R>(rows, R::key_of(rows[at])) == Some(rows[at]),
{
    let key = R::key_of(rows[at]);
    assert(has_key::<R>(rows, key));
    let found = position_of::<R>(rows, key);
    assert(R::key_of(rows[found]) == key);
}

/// A row with a new key goes in without disturbing the table: keys stay unique, rows stay
/// newest first, the new key finds the new row and every other key what it found before.
pub proof fn lemma_with_row<R: Record>(rows: Seq<R::Model>, row: R::Model)
    requires
        keys_unique::<R>(rows),
        newest_first::<R>(rows),
        !has_key::<R>(rows, R::key_of(row)),
    ensures
        keys_unique::<R>(with_row::<R>(rows, row)),
        newest_first::<R>(with_row::<R>(rows, row)),
        forall|key: Seq<char>| #[trigger]
            find_key::<R>(with_row::<R>(rows, row), key) == if key == R::key_of(row) {
                Some(row)
            } else {
                find_key::<R>(rows, key)
            },
        forall|key: Seq<char>| #[trigger]
            has_key::<R>(with_row::<R>(rows, row), key) == (key == R::key_of(row) || has_key::<R>(
                rows,
                key,
            )),
{
    let place = place_of::<R>(rows, R::stamp_of(row));
    lemma_place_of::<R>(rows, R::stamp_of(row));
    let after = with_row::<R>(rows, row);
    assert forall|i: int| 0 <= i < after.len() implies #[trigger] after[i] == (if i < place {
        rows[i]
    } else if i == place {
        row
    } else {
        rows[i - 1]
    }) by {}
    assert forall|i: int, j: int|
        0 <= i < after.len() && 0 <= j < after.len() && R::key_of(after[i]) == R::key_of(
            after[j],
        ) implies i == j by {
        let bi = if i < place { i } else { i - 1 };
        let bj = if j < place { j } else { j - 1 };
        if i != place {
            assert(after[i] == rows[bi]);
        }
        if j != place {
            assert(after[j] == rows[bj]);
        }
    }
    assert forall|i: int, j: int| 0 <= i <= j < after.len() implies R::stamp_of(after[i])
        >= R::stamp_of(after[j]) by {
        let bi = if i < place { i } else { i - 1 };
        let bj = if j < place { j } else { j - 1 };
        if i != place {
            assert(after[i] == rows[bi]);
        }
        if j != place {
            assert(after[j] == rows[bj]);
        }
    }
    assert forall|key: Seq<char>| #[trigger]
        has_key::<R>(after, key) == (key == R::key_of(row) || has_key::<R>(rows, key)) by {
        if has_key::<R>(rows, key) {
            let at = position_of::<R>(rows, key);
            let to = if at < place { at } else { at + 1 };
            assert(after[to] == rows[at]);
        }
        if key == R::key_of(row) {
            assert(after[place] == row);
        }
        if has_key::<R>(after, key) {
            let to = position_of::<R>(after, key);
            if to != place {
                let at = if to < place { to } else { to - 1 };
                assert(after[to] == rows[at]);
            }
        }
    }
    assert forall|key: Seq<char>| #[trigger]
        find_key::<R>(after, key) == if key == R::key_of(row) {
            Some(row)
        } else {
            find_key::<R>(rows, key)
        } by {
        if key == R::key_of(row) {
            assert(after[place] == row);
            lemma_find_at::<R>(after, place);
        } else if has_key::<R>(rows, key) {
            let at = position_of::<R>(rows, key);
            let to = if at < place { at } else { at + 1 };
            assert(after[to] == rows[at]);
            lemma_find_at::<R>(after, to);
        }
    }
}

/// A change that keeps key and time leaves the table in order: the changed key finds the
/// changed row, every other key what it found before.
pub proof fn lemma_rewritten<R: Record>(
    rows: Seq<R::Model>,
    key: Seq<char>,
    change: spec_fn(R::Model) -> R::Model,
)
    requires
        keys_unique::<R>(rows),
        newest_first::<R>(rows),
        forall|row: R::Model|
            R::key_of(#[trigger] change(row)) == R::key_of(row) && R::stamp_of(change(row))
                == R::stamp_of(row),
    ensures
        keys_unique::<R>(rewritten::<R>(rows, key, change)),
        newest_first::<R>(rewritten::<R>(rows, key, change)),
        rewritten::<R>(rows, key, change).len() == rows.len(),
        forall|other: Seq<char>| #[trigger]
            find_key::<R>(rewritten::<R>(rows, key, change), other) == if other == key {
                match find_key::<R>(rows, key) {
                    Some(row) => Some(change(row)),
                    None => None,
                }
            } else {
                find_key::<R>(rows, other)
            },
        forall|other: Seq<char>| #[trigger]
            has_key::<R>(rewritten::<R>(rows, key, change), other) == has_key::<R>(rows, other),
{
    let after = rewritten::<R>(rows, key, change);
    if has_key::<R>(rows, key) {
        let at = position_of::<R>(rows, key);
        assert forall|i: int| 0 <= i < after.len() implies R::key_of(#[trigger] after[i])
            == R::key_of(rows[i]) && R::stamp_of(after[i]) == R::stamp_of(rows[i]) by {}
        assert forall|other: Seq<char>| #[trigger]
            has_key::<R>(after, other) == has_key::<R>(rows, other) by {
            if has_key::<R>(rows, other) {
                let i = position_of::<R>(rows, other);
                assert(R::key_of(after[i]) == other);
            }
            if has_key::<R>(after, other) {
                let i = position_of::<R>(after, other);
                assert(R::key_of(rows[i]) == other);
            }
        }
        assert forall|other: Seq<char>| #[trigger]
            find_key::<R>(after, other) == if other == key {
                match find_key::<R>(rows, key) {
                    Some(row) => Some(change(row)),
                    None => None,
                }
            } else {
                find_key::<R>(rows, other)
            } by {
            if has_key::<R>(rows, other) {
                let i = position_of::<R>(rows, other);
                assert(R::key_of(after[i]) == other);
                lemma_find_at::<R>(after, i);
                lemma_find_at::<R>(rows, i);
            }
        }
    }
}

/// Taking out the row of a key leaves the table in order: the key finds nothing, every
/// other key what it found before.
pub proof fn lemma_without_key<R: Record>(rows: Seq<R::Model>, key: Seq<char>)
    requires
        keys_unique::<R>(rows),
        newest_first::<R>(rows),
    ensures
        keys_unique::<R>(without_key::<R>(rows, key)),
        newest_first::<R>(without_key::<R>(rows, key)),
        forall|other: Seq<char>| #[trigger]
            find_key::<R>(without_key::<R>(rows, key), other) == if other == key {
                None
            } else {
                find_key::<R>(rows, other)
            },
        forall|other: Seq<char>| #[trigger]
            has_key::<R>(without_key::<R>(rows, key), other) == (other != key && has_key::<R>(
                rows,
                other,
            )),
{
    let after = without_key::<R>(rows, key);
    if has_key::<R>(rows, key) {
        let at = position_of::<R>(rows, key);
        assert forall|i: int| 0 <= i < after.len() implies #[trigger] after[i] == rows[if i
            < at {
            i
        } else {
            i + 1
        }] by {}
        assert forall|i: int, j: int|
            0 <= i < after.len() && 0 <= j < after.len() && R::key_of(after[i]) == R::key_of(
                after[j],
            ) implies i == j by {
            assert(after[i] == rows[if i < at { i } else { i + 1 }]);
            assert(after[j] == rows[if j < at { j } else { j + 1 }]);
        }
        assert forall|i: int, j: int| 0 <= i <= j < after.len() implies R::stamp_of(after[i])
            >= R::stamp_of(after[j]) by {
            assert(after[i] == rows[if i < at { i } else { i + 1 }]);
            assert(after[j] == rows[if j < at { j } else { j + 1 }]);
        }
        assert forall|other: Seq<char>| #[trigger]
            has_key::<R>(after, other) == (other != key && has_key::<R>(rows, other)) by {
            if other != key && has_key::<R>(rows, other) {
                let i = position_of::<R>(rows, other);
                let to = if i < at { i } else { i - 1 };
                assert(after[to] == rows[i]);
            }
            if has_key::<R>(after, other) {
                let to = position_of::<R>(after, other);
                let i = if to < at { to } else { to + 1 };
                assert(after[to] == rows[i]);
            }
        }
        assert forall|other: Seq<char>| #[trigger]
            find_key::<R>(after, other) == if other == key {
                None
            } else {
                find_key::<R>(rows, other)
            } by {
            if other != key && has_key::<R>(rows, other) {
                let i = position_of::<R>(rows, other);
                let to = if i < at { i } else { i - 1 };
                assert(after[to] == rows[i]);
                lemma_find_at::<R>(after, to);
            }
        }
    }
}

/// A new row that a condition admits is the first admitted row, where the condition
/// admitted none before.
pub proof fn lemma_first_is_new_row<R: Record>(
    rows: Seq<R::Model>,
    row: R::Model,
    admits: spec_fn(R::Model) -> bool,
)
    requires
        newest_first::<R>(rows),
        first_admitted(rows, admits) is None,
        admits(row),
    ensures
        first_admitted(with_row::<R>(rows, row), admits) == Some(row),
{
    let place = place_of::<R>(rows, R::stamp_of(row));
    lemma_place_of::<R>(rows, R::stamp_of(row));
    lemma_first_admitted_is_a_row(rows, admits);
    let after = with_row::<R>(rows, row);
    assert(after[place] == row);
    assert forall|k: int| 0 <= k < place implies !admits(#[trigger] after[k]) by {
        assert(after[k] == rows[k]);
    }
    lemma_first_admitted(after, admits, place);
}

/// Taking out a row that was just added gives back the rows as they were.
pub proof fn lemma_without_new_row<R: Record>(rows: Seq<R::Model>, row: R::Model)
    requires
        keys_unique::<R>(rows),
        newest_first::<R>(rows),
        !has_key::<R>(rows, R::key_of(row)),
    ensures
        without_key::<R>(with_row::<R>(rows, row), R::key_of(row)) == rows,
{
    let place = place_of::<R>(rows, R::stamp_of(row));
    lemma_place_of::<R>(rows, R::stamp_of(row));
    lemma_with_row::<R>(rows, row);
    let after = with_row::<R>(rows, row);
    assert(after[place] == row);
    lemma_find_at::<R>(after, place);
    assert(after.remove(place) =~= rows);
}

/// The rows that a condition admits are rows of the table, in the table's order: their
/// keys are unique and they stand newest first.
pub proof fn lemma_filter_keeps_order<R: Record>(
    rows: Seq<R::Model>,
    admits: spec_fn(R::Model) -> bool,
)
    requires
        keys_unique::<R>(rows),
        newest_first::<R>(rows),
    ensures
        keys_unique::<R>(rows.filter(admits)),
        newest_first::<R>(rows.filter(admits)),
        forall|i: int|
            0 <= i < rows.filter(admits).len() ==> rows.contains(#[trigger] rows.filter(admits)[i]),
    decreases rows.len(),
{
    reveal(Seq::filter);
    if rows.len() > 0 {
        let rest = rows.drop_last();
        let last = rows.last();
        assert forall|i: int, j: int|
            0 <= i < rest.len() && 0 <= j < rest.len() && R::key_of(rest[i]) == R::key_of(
                rest[j],
            ) implies i == j by {
            assert(rest[i] == rows[i]);
            assert(rest[j] == rows[j]);
        }
        assert forall|i: int, j: int| 0 <= i <= j < rest.len() implies R::stamp_of(rest[i])
            >= R::stamp_of(rest[j]) by {
            assert(rest[i] == rows[i]);
            assert(rest[j] == rows[j]);
        }
        lemma_filter_keeps_order::<R>(rest, admits);
        let kept = rest.filter(admits);
        let out = rows.filter(admits);
        assert forall|i: int| 0 <= i < kept.len() implies exists|a: int|
            0 <= a < rows.len() - 1 && rows[a] == #[trigger] kept[i] by {
            assert(rest.contains(kept[i]));
            let a = choose|a: int| 0 <= a < rest.len() && rest[a] == kept[i];
            assert(rows[a] == kept[i]);
        }
        assert forall|i: int| 0 <= i < out.len() implies rows.contains(#[trigger] out[i]) by {
            if i < kept.len() {
                assert(out[i] == kept[i]);
                let a = choose|a: int| 0 <= a < rows.len() - 1 && rows[a] == kept[i];
                assert(rows[a] == out[i]);
            } else {
                assert(out[i] == last);
                assert(rows[rows.len() - 1] == last);
            }
        }
        if admits(last) {
            assert(out == kept.push(last));
            assert forall|i: int, j: int|
                0 <= i < out.len() && 0 <= j < out.len() && R::key_of(out[i]) == R::key_of(
                    out[j],
                ) implies i == j by {
                if i < kept.len() && j == kept.len() {
                    let a = choose|a: int| 0 <= a < rows.len() - 1 && rows[a] == kept[i];
                    assert(R::key_of(rows[a]) == R::key_of(rows[rows.len() - 1]));
                }
                if j < kept.len() && i == kept.len() {
                    let a = choose|a: int| 0 <= a < rows.len() - 1 && rows[a] == kept[j];
                    assert(R::key_of(rows[a]) == R::key_of(rows[rows.len() - 1]));
                }
                if i < kept.len() && j < kept.len() {
                    assert(out[i] == kept[i] && out[j] == kept[j]);
                }
            }
            assert forall|i: int, j: int| 0 <= i <= j < out.len() implies R::stamp_of(out[i])
                >= R::stamp_of(out[j]) by {
                if j == kept.len() && i < kept.len() {
                    let a = choose|a: int| 0 <= a < rows.len() - 1 && rows[a] == kept[i];
                    assert(R::stamp_of(rows[a]) >= R::stamp_of(rows[rows.len() - 1]));
                }
                if j < kept.len() {
                    assert(out[i] == kept[i] && out[j] == kept[j]);
                }
            }
        }
    }
}

/// How many rows a condition admits of one row alone.
pub open spec fn one_if(admitted: bool) -> int {
    if admitted {
        1
    } else {
        0
    }
}

/// A condition admits of the rows with one more as many as before, and the new row where
/// it admits it.
pub proof fn lemma_count_with_row<R: Record>(
    rows: Seq<R::Model>,
    row: R::Model,
    admits: spec_fn(R::Model) -> bool,
)
    requires
        newest_first::<R>(rows),
    ensures
        with_row::<R>(rows, row).filter(admits).len() == rows.filter(admits).len() + one_if(
            admits(row),
        ),
{
    let place = place_of::<R>(rows, R::stamp_of(row));
    lemma_place_of::<R>(rows, R::stamp_of(row));
    let head = rows.take(place);
    let tail = rows.skip(place);
    let one = seq![row];
    assert(rows =~= head + tail);
    assert(with_row::<R>(rows, row) =~= head + one + tail);
    Seq::filter_distributes_over_add(head, tail, admits);
    Seq::filter_distributes_over_add(head, one, admits);
    Seq::filter_distributes_over_add(head + one, tail, admits);
    reveal_with_fuel(Seq::filter, 2);
    assert(one.drop_last() =~= Seq::<R::Model>::empty());
    assert(one.filter(admits).len() == one_if(admits(row)));
}

/// A condition admits of the rows without the row of a key as many as before, less that
/// row where it admitted it.
pub proof fn lemma_count_without_key<R: Record>(
    rows: Seq<R::Model>,
    key: Seq<char>,
    admits: spec_fn(R::Model) -> bool,
)
    requires
        has_key::<R>(rows, key),
    ensures
        rows.filter(admits).len() == without_key::<R>(rows, key).filter(admits).len() + one_if(
            admits(rows[position_of::<R>(rows, key)]),
        ),
{
    let at = position_of::<R>(rows, key);
    let head = rows.take(at);
    let tail = rows.skip(at + 1);
    let one = seq![rows[at]];
    assert(rows =~= head + one + tail);
    assert(without_key::<R>(rows, key) =~= head + tail);
    Seq::filter_distributes_over_add(head, tail, admits);
    Seq::filter_distributes_over_add(head, one, admits);
    Seq::filter_distributes_over_add(head + one, tail, admits);
    reveal_with_fuel(Seq::filter, 2);
    assert(one.drop_last() =~= Seq::<R::Model>::empty());
    assert(one.filter(admits).len() == one_if(admits(rows[at])));
}

/// A condition admits of the rows with one more what it admitted before, where it does
/// not admit the new row.
pub proof fn lemma_filter_with_row<R: Record>(
    rows: Seq<R::Model>,
    row: R::Model,
    admits: spec_fn(R::Model) -> bool,
)
    requires
        newest_first::<R>(rows),
        !admits(row),
    ensures
        with_row::<R>(rows, row).filter(admits) == rows.filter(admits),
{
    let place = place_of::<R>(rows, R::stamp_of(row));
    lemma_place_of::<R>(rows, R::stamp_of(row));
    let head = rows.take(place);
    let tail = rows.skip(place);
    let one = seq![row];
    assert(rows =~= head + tail);
    assert(with_row::<R>(rows, row) =~= head + one + tail);
    Seq::filter_distributes_over_add(head, tail, admits);
    Seq::filter_distributes_over_add(head, one, admits);
    Seq::filter_distributes_over_add(head + one, tail, admits);
    reveal_with_fuel(Seq::filter, 2);
    assert(one.drop_last() =~= Seq::<R::Model>::empty());
    assert(one.filter(admits) =~= Seq::<R::Model>::empty());
    assert(with_row::<R>(rows, row).filter(admits) =~= rows.filter(admits));
}

/// A condition admits of the rows without the row of a key what it admitted before, where
/// it did not admit that row.
pub proof fn lemma_filter_without_key<R: Record>(
    rows: Seq<R::Model>,
    key: Seq<char>,
    admits: spec_fn(R::Model) -> bool,
)
    requires
        has_key::<R>(rows, key) ==> !admits(rows[position_of::<R>(rows, key)]),
    ensures
        without_key::<R>(rows, key).filter(admits) == rows.filter(admits),
{
    if has_key::<R>(rows, key) {
        let at = position_of::<R>(rows, key);
        let head = rows.take(at);
        let tail = rows.skip(at + 1);
        let one = seq![rows[at]];
        assert(rows =~= head + one + tail);
        assert(without_key::<R>(rows, key) =~= head + tail);
        Seq::filter_distributes_over_add(head, tail, admits);
        Seq::filter_distributes_over_add(head, one, admits);
        Seq::filter_distributes_over_add(head + one, tail, admits);
        reveal_with_fuel(Seq::filter, 2);
        assert(one.drop_last() =~= Seq::<R::Model>::empty());
        assert(one.filter(admits) =~= Seq::<R::Model>::empty());
        assert(without_key::<R>(rows, key).filter(admits) =~= rows.filter(admits));
    }
}

/// A table of the relational store, held in memory: rows with a unique key, newest first.
/// Rows of one time stand in the order in which they came. Which of them a query hands out
/// first is the table's own choice: nothing should lean on it.
pub struct Table<R: Record> {
    rows: Vec<R>,
}

impl<R: Record> Table<R> {
    /// The rows, in the order in which the table hands them out.
    pub closed spec fn view(&self) -> Seq<R::Model> {
        models(self.rows@)
    }

    /// What the table keeps true of its rows.
    pub open spec fn wf(&self) -> bool {
        &&& keys_unique::<R>(self@)
        &&& newest_first::<R>(self@)
    }

    /// An empty table.
    pub fn new() -> (table: Table<R>)
        ensures
            table@ == Seq::<R::Model>::empty(),
            table.wf(),
    {
        let table = Table { rows: Vec::new() };
        assert(table@ =~= Seq::<R::Model>::empty());
        table
    }

    /// The number of rows.
    pub fn len(&self) -> (n: usize)
        ensures
            n == self@.len(),
    {
        self.rows.len()
    }

    /// The first row that the filter admits.
    pub fn first<F: Filter<R>>(&self, filter: &F) -> (found: Option<R>)
        ensures
            found.model() == first_admitted(self@, filter.condition()),
    {
        let mut i: usize = 0;
        while i < self.rows.len()
            invariant
                i <= self.rows@.len(),
                forall|k: int| 0 <= k < i ==> !(filter.condition())(#[trigger] self@[k]),
            decreases self.rows@.len() - i,
        {
            if filter.test(&self.rows[i]) {
                proof {
                    lemma_first_admitted(self@, filter.condition(), i as int);
                }
                return Some(self.rows[i].replica());
            }
            i += 1;
        }
        proof {
            lemma_first_admitted_none(self@, filter.condition());
        }
        None
    }

    /// The rows that the filter admits, from the `offset`-th of them on, at most `limit`.
    pub fn page<F: Filter<R>>(&self, filter: &F, limit: usize, offset: i32) -> (out: Vec<R>)
        ensures
            out.model() == window(
                self@.filter(filter.condition()),
                offset as int,
                limit as int,
            ),
    {
        let ghost admits = filter.condition();
        let mut out: Vec<R> = Vec::new();
        let mut skip: i32 = if offset < 0 { 0 } else { offset };
        let ghost from: int = skip as int;
        let mut i: usize = 0;
        let mut seen: Ghost<int> = Ghost(0);
        proof {
            assert(self@.take(0) =~= Seq::<R::Model>::empty());
            reveal(Seq::filter);
        }
        while i < self.rows.len()
            invariant
                i <= self.rows@.len(),
                admits == filter.condition(),
                0 <= skip <= from,
                from == if offset < 0 { 0int } else { offset as int },
                seen@ == self@.take(i as int).filter(admits).len(),
                skip == if seen@ < from { from - seen@ } else { 0 },
                out@.len() <= limit,
                out.model() == window(self@.take(i as int).filter(admits), offset as int, limit as int),
            decreases self.rows@.len() - i,
        {
            let ghost before = self@.take(i as int);
            let ghost after = self@.take(i + 1);
            proof {
                assert(after =~= before.push(self@[i as int]));
                before.lemma_filter_push(self@[i as int], admits);
                before.lemma_filter_len(admits);
            }
            if filter.test(&self.rows[i]) {
                if skip > 0 {
                    skip = skip - 1;
                } else if out.len() < limit {
                    let ghost held = out@;
                    let row = self.rows[i].replica();
                    proof {
                        lemma_models_push(held, row);
                    }
                    out.push(row);
                    assert(out.model() =~= window(after.filter(admits), offset as int, limit as int));
                } else {
                    assert(out.model() =~= window(after.filter(admits), offset as int, limit as int));
                }
                proof {
                    seen@ = seen@ + 1;
                    assert(out.model() =~= window(after.filter(admits), offset as int, limit as int));
                }
            }
            i += 1;
        }
        assert(self@.take(i as int) =~= self@);
        out
    }

    /// The index of the row with the key.
    fn locate(&self, key: &String) -> (at: Option<usize>)
        requires
            self.wf(),
        ensures
            match at {
                Some(i) => has_key::<R>(self@, key@) && i == position_of::<R>(self@, key@),
                None => !has_key::<R>(self@, key@),
            },
    {
        let mut i: usize = 0;
        while i < self.rows.len()
            invariant
                self.wf(),
                i <= self.rows@.len(),
                forall|k: int| 0 <= k < i ==> R::key_of(#[trigger] self@[k]) != key@,
            decreases self.rows@.len() - i,
        {
            if *self.rows[i].key() == *key {
                proof {
                    assert(R::key_of(self@[i as int]) == key@);
                    let at = position_of::<R>(self@, key@);
                    assert(R::key_of(self@[at]) == key@);
                }
                return Some(i);
            }
            i += 1;
        }
        None
    }

    /// The row with the key.
    pub fn get(&self, key: &String) -> (found: Option<R>)
        requires
            self.wf(),
        ensures
            found.model() == find_key::<R>(self@, key@),
    {
        match self.locate(key) {
            Some(i) => Some(self.rows[i].replica()),
            None => None,
        }
    }

    /// Adds a row, unless a row with its key is there.
    pub fn insert(&mut self, row: R) -> (res: Result<(), StoreError>)
        requires
            old(self).wf(),
        ensures
            final(self).wf(),
            res is Err <==> has_key::<R>(old(self)@, R::key_of(row.model())),
            res is Err ==> res == Err::<(), StoreError>(StoreError::DuplicateKey),
            res is Err ==> final(self)@ == old(self)@,
            res is Ok ==> final(self)@ == with_row::<R>(old(self)@, row.model()),
    {
        if self.locate(row.key()).is_some() {
            return Err(StoreError::DuplicateKey);
        }
        let stamp: u128 = row.stamp();
        let mut place: usize = 0;
        while place < self.rows.len() && self.rows[place].stamp() >= stamp
            invariant
                place <= self.rows@.len(),
                forall|k: int| 0 <= k < place ==> R::stamp_of(#[trigger] self@[k]) >= stamp,
            decreases self.rows@.len() - place,
        {
            place += 1;
        }
        proof {
            lemma_place_of::<R>(self@, stamp as int);
            let spot = place_of::<R>(self@, stamp as int);
            if spot < place {
                assert(R::stamp_of(self@[spot]) >= stamp);
            }
            if place < spot {
                assert(R::stamp_of(self@[place as int]) >= stamp);
            }
            assert(models(self.rows@.insert(place as int, row)) =~= self@.insert(
                place as int,
                row.model(),
            ));
        }
        let ghost before = self@;
        self.rows.insert(place, row);
        proof {
            let after = self@;
            assert forall|i: int, j: int|
                0 <= i < after.len() && 0 <= j < after.len() && R::key_of(after[i]) == R::key_of(
                    after[j],
                ) implies i == j by {
                let bi = if i < place { i } else { i - 1 };
                let bj = if j < place { j } else { j - 1 };
                if i != place as int {
                    assert(after[i] == before[bi]);
                }
                if j != place as int {
                    assert(after[j] == before[bj]);
                }
            }
            assert forall|i: int, j: int| 0 <= i <= j < after.len() implies R::stamp_of(after[i])
                >= R::stamp_of(after[j]) by {
                let bi = if i < place { i } else { i - 1 };
                let bj = if j < place { j } else { j - 1 };
                if i != place as int {
                    assert(after[i] == before[bi]);
                }
                if j != place as int {
                    assert(after[j] == before[bj]);
                }
            }
        }
        Ok(())
    }

    /// Changes the row with the key, where there is one.
    pub fn amend<P: Patch<R>>(&mut self, key: &String, patch: &P)
        requires
            old(self).wf(),
        ensures
            final(self).wf(),
            final(self)@ == rewritten::<R>(old(self)@, key@, patch.change()),
    {
        match self.locate(key) {
            Some(i) => {
                let ghost before = self@;
                let row = patch.patched(&self.rows[i]);
                proof {
                    patch.keeps_place(before[i as int]);
                    assert(models(self.rows@.update(i as int, row)) =~= before.update(
                        i as int,
                        row.model(),
                    ));
                }
                self.rows.set(i, row);
                proof {
                    let after = self@;
                    assert forall|a: int, b: int|
                        0 <= a < after.len() && 0 <= b < after.len() && R::key_of(after[a])
                            == R::key_of(after[b]) implies a == b by {
                        assert(R::key_of(after[a]) == R::key_of(before[a]));
                        assert(R::key_of(after[b]) == R::key_of(before[b]));
                    }
                    assert forall|a: int, b: int| 0 <= a <= b < after.len() implies R::stamp_of(
                        after[a],
                    ) >= R::stamp_of(after[b]) by {
                        assert(R::stamp_of(after[a]) == R::stamp_of(before[a]));
                        assert(R::stamp_of(after[b]) == R::stamp_of(before[b]));
                    }
                }
            },
            None => {},
        }
    }

    /// Takes out the row with the key, where there is one.
    pub fn delete(&mut self, key: &String)
        requires
            old(self).wf(),
        ensures
            final(self).wf(),
            final(self)@ == without_key::<R>(old(self)@, key@),
    {
        match self.locate(key) {
            Some(i) => {
                let ghost before = self@;
                proof {
                    assert(models(self.rows@.remove(i as int)) =~= before.remove(i as int));
                }
                self.rows.remove(i);
                proof {
                    let after = self@;
                    assert forall|a: int, b: int|
                        0 <= a < after.len() && 0 <= b < after.len() && R::key_of(after[a])
                            == R::key_of(after[b]) implies a == b by {
                        let ba = if a < i { a } else { a + 1 };
                        let bb = if b < i { b } else { b + 1 };
                        assert(after[a] == before[ba]);
                        assert(after[b] == before[bb]);
                    }
                    assert forall|a: int, b: int| 0 <= a <= b < after.len() implies R::stamp_of(
                        after[a],
                    ) >= R::stamp_of(after[b]) by {
                        let ba = if a < i { a } else { a + 1 };
                        let bb = if b < i { b } else { b + 1 };
                        assert(after[a] == before[ba]);
                        assert(after[b] == before[bb]);
                    }
                }
            },
            None => {},
        }
    }

    /// The number of rows that the filter admits.
    pub fn count<F: Filter<R>>(&self, filter: &F) -> (n: usize)
        ensures
            n == self@.filter(filter.condition()).len(),
    {
        let ghost admits = filter.condition();
        let mut n: usize = 0;
        let mut i: usize = 0;
        proof {
            assert(self@.take(0) =~= Seq::<R::Model>::empty());
            reveal(Seq::filter);
        }
        while i < self.rows.len()
            invariant
                i <= self.rows@.len(),
                admits == filter.condition(),
                n <= i,
                n == self@.take(i as int).filter(admits).len(),
            decreases self.rows@.len() - i,
        {
            proof {
                let before = self@.take(i as int);
                assert(self@.take(i + 1) =~= before.push(self@[i as int]));
                before.lemma_filter_push(self@[i as int], admits);
            }
            if filter.test(&self.rows[i]) {
                n += 1;
            }
            i += 1;
        }
        assert(self@.take(i as int) =~= self@);
        n
    }
}

} // verus!
