//! The local mirror table: rows keyed by project id, kept in ascending id
//! order, written idempotently.
//!
//! The type below is the table's contents; the surrounding application keeps
//! the durable SQLite file equal to exactly this state after every
//! operation.  All reconcile semantics — replace on equal id, never
//! duplicate, list in ascending id order — are decided and proved here.

use vstd::prelude::*;

use crate::error::SyncError;
use crate::project::Project;

verus! {

/// Rows stand in strictly ascending id order; in particular, ids are unique.
pub open spec fn sorted_by_id(s: Seq<Project>) -> bool {
    forall|i: int, j: int| 0 <= i < j < s.len() ==> s[i].id < s[j].id
}

/// The row with the given id, if any (the first one, where ids repeat).
pub open spec fn row_with_id(s: Seq<Project>, id: u32) -> Option<Project>
    decreases s.len(),
{
    if s.len() == 0 {
        None
    } else if s.first().id == id {
        Some(s.first())
    } else {
        row_with_id(s.drop_first(), id)
    }
}

/// Inserting-or-replacing one record into rows in ascending id order: the
/// row with the record's id, if present, is fully replaced; otherwise the
/// record enters at its ordered position.
pub open spec fn upsert_one(s: Seq<Project>, p: Project) -> Seq<Project>
    decreases s.len(),
{
    if s.len() == 0 {
        seq![p]
    } else if s.first().id < p.id {
        seq![s.first()] + upsert_one(s.drop_first(), p)
    } else if s.first().id == p.id {
        seq![p] + s.drop_first()
    } else {
        seq![p] + s
    }
}

/// Upserting a whole sequence of records, in order: a later record with the
/// same id wins over an earlier one.
pub open spec fn upsert_all(s: Seq<Project>, records: Seq<Project>) -> Seq<Project>
    decreases records.len(),
{
    if records.len() == 0 {
        s
    } else {
        upsert_one(upsert_all(s, records.drop_last()), records.last())
    }
}

/// The last record in `records` carrying the given id, if any.
pub open spec fn last_with_id(records: Seq<Project>, id: u32) -> Option<Project>
    decreases records.len(),
{
    if records.len() == 0 {
        None
    } else if records.last().id == id {
        Some(records.last())
    } else {
        last_with_id(records.drop_last(), id)
    }
}

proof fn lemma_upsert_one_sorted(s: Seq<Project>, p: Project)
    requires
        sorted_by_id(s),
    ensures
        sorted_by_id(upsert_one(s, p)),
    decreases s.len(),
{
    if s.len() == 0 {
    } else if s.first().id < p.id {
        assert(sorted_by_id(s.drop_first()));
        lemma_upsert_one_sorted(s.drop_first(), p);
        let t = seq![s.first()] + upsert_one(s.drop_first(), p);
        lemma_upsert_one_ids(s.drop_first(), p);
        assert forall|i: int, j: int| 0 <= i < j < t.len() implies t[i].id < t[j].id by {
            let u = upsert_one(s.drop_first(), p);
            if i == 0 {
                assert(t[j] == u[j - 1]);
                if t[j].id != p.id {
                    assert(row_with_id(s.drop_first(), t[j].id) is Some);
                    lemma_row_id_bound(s.drop_first(), t[j].id);
                    assert(s.drop_first()[0] == s[1]);
                }
            } else {
                assert(t[i] == u[i - 1]);
                assert(t[j] == u[j - 1]);
            }
        }
    } else if s.first().id == p.id {
    } else {
    }
}

/// Every id in the upserted rows is either the record's or one from the rows.
proof fn lemma_upsert_one_ids(s: Seq<Project>, p: Project)
    ensures
        forall|i: int|
            0 <= i < upsert_one(s, p).len() ==> (#[trigger] upsert_one(s, p)[i].id == p.id
                || row_with_id(s, upsert_one(s, p)[i].id) is Some),
    decreases s.len(),
{
    if s.len() == 0 {
    } else if s.first().id < p.id {
        lemma_upsert_one_ids(s.drop_first(), p);
        let t = seq![s.first()] + upsert_one(s.drop_first(), p);
        assert forall|i: int|
            0 <= i < t.len() && !(#[trigger] t[i].id == p.id) implies row_with_id(s, t[i].id)
            is Some by {
            if i == 0 {
                assert(row_with_id(s, s.first().id) == Some(s.first()));
            } else {
                assert(t[i] == upsert_one(s.drop_first(), p)[i - 1]);
                assert(row_with_id(s.drop_first(), t[i].id) is Some);
                assert(s.first().id != t[i].id ==> row_with_id(s, t[i].id) == row_with_id(
                    s.drop_first(),
                    t[i].id,
                ));
            }
        }
    } else if s.first().id == p.id {
        let t = seq![p] + s.drop_first();
        assert forall|i: int|
            0 <= i < t.len() && !(#[trigger] t[i].id == p.id) implies row_with_id(s, t[i].id)
            is Some by {
            assert(t[i] == s.drop_first()[i - 1]);
            lemma_row_at_index(s.drop_first(), i - 1);
            assert(row_with_id(s.drop_first(), t[i].id) is Some);
        }
    } else {
        let t = seq![p] + s;
        assert forall|i: int|
            0 <= i < t.len() && !(#[trigger] t[i].id == p.id) implies row_with_id(s, t[i].id)
            is Some by {
            assert(t[i] == s[i - 1]);
            lemma_row_at_index(s, i - 1);
        }
    }
}

/// An id found at some index is found by `row_with_id`.
proof fn lemma_row_at_index(s: Seq<Project>, i: int)
    requires
        0 <= i < s.len(),
    ensures
        row_with_id(s, s[i].id) is Some,
    decreases s.len(),
{
    if s.first().id == s[i].id {
    } else {
        assert(s.drop_first()[i - 1] == s[i]);
        lemma_row_at_index(s.drop_first(), i - 1);
    }
}

/// In ordered rows, a found id is at least the first row's id.
proof fn lemma_row_id_bound(s: Seq<Project>, id: u32)
    requires
        sorted_by_id(s),
        row_with_id(s, id) is Some,
    ensures
        s.len() > 0,
        s.first().id <= id,
    decreases s.len(),
{
    if s.first().id == id {
    } else {
        assert(sorted_by_id(s.drop_first()));
        lemma_row_id_bound(s.drop_first(), id);
        assert(s.drop_first()[0] == s[1]);
    }
}

/// Upserting one record rewrites exactly the row with its id.
proof fn lemma_upsert_one_row(s: Seq<Project>, p: Project, id: u32)
    ensures
        row_with_id(upsert_one(s, p), id) == if id == p.id {
            Some(p)
        } else {
            row_with_id(s, id)
        },
    decreases s.len(),
{
    if s.len() == 0 {
        let t = seq![p];
        assert(t.first() == p);
        assert(t.drop_first() =~= s);
    } else if s.first().id < p.id {
        lemma_upsert_one_row(s.drop_first(), p, id);
        let t = seq![s.first()] + upsert_one(s.drop_first(), p);
        assert(t.first() == s.first());
        assert(t.drop_first() =~= upsert_one(s.drop_first(), p));
    } else if s.first().id == p.id {
        let t = seq![p] + s.drop_first();
        assert(t.first() == p);
        assert(t.drop_first() =~= s.drop_first());
    } else {
        let t = seq![p] + s;
        assert(t.first() == p);
        assert(t.drop_first() =~= s);
    }
}

/// Upserting grows the table by one row for a fresh id and not at all for a
/// known one.
proof fn lemma_upsert_one_len(s: Seq<Project>, p: Project)
    requires
        sorted_by_id(s),
    ensures
        upsert_one(s, p).len() == if row_with_id(s, p.id) is Some {
            s.len()
        } else {
            s.len() + 1
        },
    decreases s.len(),
{
    if s.len() == 0 {
    } else if s.first().id < p.id {
        assert(sorted_by_id(s.drop_first()));
        lemma_upsert_one_len(s.drop_first(), p);
    } else if s.first().id == p.id {
    } else {
        if row_with_id(s, p.id) is Some {
            lemma_row_id_bound(s, p.id);
            assert(false);
        }
    }
}

proof fn lemma_upsert_all_sorted(s: Seq<Project>, records: Seq<Project>)
    requires
        sorted_by_id(s),
    ensures
        sorted_by_id(upsert_all(s, records)),
    decreases records.len(),
{
    if records.len() == 0 {
    } else {
        lemma_upsert_all_sorted(s, records.drop_last());
        lemma_upsert_one_sorted(upsert_all(s, records.drop_last()), records.last());
    }
}

/// After a batch upsert, each id maps to the last record of the batch that
/// carried it, and to its old row where the batch never mentioned it.
proof fn lemma_upsert_all_row(s: Seq<Project>, records: Seq<Project>, id: u32)
    ensures
        row_with_id(upsert_all(s, records), id) == match last_with_id(records, id) {
            Some(p) => Some(p),
            None => row_with_id(s, id),
        },
    decreases records.len(),
{
    if records.len() == 0 {
    } else {
        lemma_upsert_all_row(s, records.drop_last(), id);
        lemma_upsert_one_row(upsert_all(s, records.drop_last()), records.last(), id);
    }
}

/// Two tables in ascending id order that agree on the row of every id are
/// the same table.
proof fn lemma_sorted_rows_unique(s: Seq<Project>, t: Seq<Project>)
    requires
        sorted_by_id(s),
        sorted_by_id(t),
        forall|id: u32| #[trigger] row_with_id(s, id) == row_with_id(t, id),
    ensures
        s == t,
    decreases s.len(),
{
    if s.len() == 0 && t.len() == 0 {
        assert(s =~= t);
    } else if s.len() == 0 {
        assert(row_with_id(t, t.first().id) == Some(t.first()));
        assert(row_with_id(s, t.first().id) is None);
    } else if t.len() == 0 {
        assert(row_with_id(s, s.first().id) == Some(s.first()));
        assert(row_with_id(t, s.first().id) is None);
    } else {
        let s0 = s.first();
        let t0 = t.first();
        assert(row_with_id(s, s0.id) == Some(s0));
        assert(row_with_id(t, t0.id) == Some(t0));
        if t0.id < s0.id {
            assert(row_with_id(s, t0.id) == Some(t0));
            lemma_row_id_bound(s, t0.id);
            assert(false);
        }
        if s0.id < t0.id {
            assert(row_with_id(t, s0.id) == Some(s0));
            lemma_row_id_bound(t, s0.id);
            assert(false);
        }
        assert(s0 == t0);
        assert(sorted_by_id(s.drop_first()));
        assert(sorted_by_id(t.drop_first()));
        assert forall|id: u32| #[trigger]
            row_with_id(s.drop_first(), id) == row_with_id(t.drop_first(), id) by {
            if id == s0.id {
                assert forall|i: int| 0 <= i < s.drop_first().len() implies (
                #[trigger] s.drop_first()[i].id) != id by {
                    assert(s.drop_first()[i] == s[i + 1]);
                }
                assert forall|i: int| 0 <= i < t.drop_first().len() implies (
                #[trigger] t.drop_first()[i].id) != id by {
                    assert(t.drop_first()[i] == t[i + 1]);
                }
                lemma_row_none_when_absent(s.drop_first(), id);
                lemma_row_none_when_absent(t.drop_first(), id);
            } else {
                assert(row_with_id(s, id) == row_with_id(s.drop_first(), id));
                assert(row_with_id(t, id) == row_with_id(t.drop_first(), id));
            }
        }
        lemma_sorted_rows_unique(s.drop_first(), t.drop_first());
        assert forall|i: int| 0 <= i < s.len() implies s[i] == t[i] by {
            if i > 0 {
                assert(s.drop_first()[i - 1] == s[i]);
                assert(t.drop_first()[i - 1] == t[i]);
            }
        }
        assert(s =~= t);
    }
}

/// An id that no row carries is not found.
proof fn lemma_row_none_when_absent(s: Seq<Project>, id: u32)
    requires
        forall|i: int| 0 <= i < s.len() ==> (#[trigger] s[i].id) != id,
    ensures
        row_with_id(s, id) is None,
    decreases s.len(),
{
    if s.len() == 0 {
    } else {
        assert forall|i: int| 0 <= i < s.drop_first().len() implies (#[trigger] s.drop_first()[i].id)
            != id by {
            assert(s.drop_first()[i] == s[i + 1]);
        }
        lemma_row_none_when_absent(s.drop_first(), id);
    }
}

/// Upserting the same records a second time changes nothing: the rows after
/// two identical batch upserts equal the rows after one.
pub proof fn lemma_upsert_idempotent(s: Seq<Project>, records: Seq<Project>)
    requires
        sorted_by_id(s),
    ensures
        upsert_all(upsert_all(s, records), records) == upsert_all(s, records),
{
    let once = upsert_all(s, records);
    let twice = upsert_all(once, records);
    lemma_upsert_all_sorted(s, records);
    lemma_upsert_all_sorted(once, records);
    assert forall|id: u32| #[trigger] row_with_id(twice, id) == row_with_id(once, id) by {
        lemma_upsert_all_row(s, records, id);
        lemma_upsert_all_row(once, records, id);
    }
    lemma_sorted_rows_unique(twice, once);
}

/// Upserting a record whose id the table already holds replaces that row in
/// place: the new record is what the id now maps to, every other row stands
/// unchanged, and the row count does not grow.
pub proof fn lemma_upsert_replaces(s: Seq<Project>, p: Project)
    requires
        sorted_by_id(s),
        row_with_id(s, p.id) is Some,
    ensures
        upsert_one(s, p).len() == s.len(),
        row_with_id(upsert_one(s, p), p.id) == Some(p),
        forall|id: u32| id != p.id ==> #[trigger] row_with_id(upsert_one(s, p), id) == row_with_id(
            s,
            id,
        ),
        sorted_by_id(upsert_one(s, p)),
{
    lemma_upsert_one_len(s, p);
    lemma_upsert_one_sorted(s, p);
    assert forall|id: u32| id != p.id implies #[trigger] row_with_id(upsert_one(s, p), id)
        == row_with_id(s, id) by {
        lemma_upsert_one_row(s, p, id);
    }
    lemma_upsert_one_row(s, p, p.id);
}

/// The mirror table, rows in ascending id order.
pub struct SQLiteDatabase {
    rows: Vec<Project>,
}

impl View for SQLiteDatabase {
    type V = Seq<Project>;

    closed spec fn view(&self) -> Seq<Project> {
        self.rows@
    }
}

impl SQLiteDatabase {
    /// The table keeps its rows in strictly ascending id order.
    pub open spec fn wf(&self) -> bool {
        sorted_by_id(self@)
    }

    /// A fresh, empty table.
    pub fn try_new() -> (r: Result<SQLiteDatabase, SyncError>)
        ensures
            r matches Ok(db) && db.wf() && db@ == Seq::<Project>::empty(),
    {
        Ok(SQLiteDatabase { rows: Vec::new() })
    }

    fn upsert_row(&mut self, p: Project)
        requires
            old(self).wf(),
        ensures
            final(self).wf(),
            final(self)@ == upsert_one(old(self)@, p),
    {
        let ghost s = self.rows@;
        let mut j: usize = 0;
        while j < self.rows.len() && self.rows[j].id < p.id
            invariant
                0 <= j <= s.len(),
                self.rows@ == s,
                forall|i: int| 0 <= i < j ==> (#[trigger] s[i].id) < p.id,
            decreases s.len() - j,
        {
            j = j + 1;
        }
        proof {
            lemma_upsert_one_split(s, p, j as int);
            lemma_upsert_one_sorted(s, p);
        }
        if j < self.rows.len() && self.rows[j].id == p.id {
            self.rows.remove(j);
            self.rows.insert(j, p);
            proof {
                assert(upsert_one(s.skip(j as int), p) =~= seq![p] + s.skip(j as int).drop_first());
                assert(self.rows@ =~= s.take(j as int) + upsert_one(s.skip(j as int), p));
            }
        } else {
            self.rows.insert(j, p);
            proof {
                if j == s.len() {
                    assert(upsert_one(s.skip(j as int), p) =~= seq![p]);
                } else {
                    assert(s.skip(j as int).first() == s[j as int]);
                    assert(upsert_one(s.skip(j as int), p) =~= seq![p] + s.skip(j as int));
                }
                assert(self.rows@ =~= s.take(j as int) + upsert_one(s.skip(j as int), p));
            }
        }
    }

    /// Writes each record in order; a row with a matching id is fully
    /// replaced, never duplicated.  Re-running the same batch is a no-op.
    pub fn insert_projects(&mut self, projects: &[Project]) -> (r: Result<(), SyncError>)
        requires
            old(self).wf(),
        ensures
            r is Ok,
            final(self).wf(),
            final(self)@ == upsert_all(old(self)@, projects@),
    {
        let ghost s = self.rows@;
        let n: usize = projects.len();
        let mut i: usize = 0;
        while i < n
            invariant
                0 <= i <= n,
                n == projects@.len(),
                self.wf(),
                self@ == upsert_all(s, projects@.take(i as int)),
            decreases n - i,
        {
            let p = slice_ref(projects, i).duplicate();
            self.upsert_row(p);
            proof {
                assert(projects@.take(i + 1).drop_last() =~= projects@.take(i as int));
                assert(projects@.take(i + 1).last() == projects@[i as int]);
            }
            i = i + 1;
        }
        proof {
            assert(projects@.take(n as int) =~= projects@);
        }
        Ok(())
    }

    /// Every row, in ascending id order.
    pub fn get_projects(&self) -> (r: Result<Vec<Project>, SyncError>)
        ensures
            r matches Ok(v) && v@ == self@,
    {
        let mut out: Vec<Project> = Vec::new();
        let mut i: usize = 0;
        while i < self.rows.len()
            invariant
                0 <= i <= self.rows@.len(),
                self@ == self.rows@,
                out@ == self.rows@.take(i as int),
            decreases self.rows@.len() - i,
        {
            out.push(self.rows[i].duplicate());
            proof {
                assert(self.rows@.take(i + 1) =~= self.rows@.take(i as int).push(
                    self.rows@[i as int],
                ));
            }
            i = i + 1;
        }
        proof {
            assert(self.rows@.take(self.rows@.len() as int) =~= self.rows@);
        }
        Ok(out)
    }

    /// The number of rows.
    pub fn count_projects(&self) -> (r: Result<u64, SyncError>)
        ensures
            r matches Ok(n) && n == self@.len(),
    {
        Ok(self.rows.len() as u64)
    }
}

/// `upsert_one` only touches rows past the ones already known to order
/// before the record.
proof fn lemma_upsert_one_split(s: Seq<Project>, p: Project, k: int)
    requires
        0 <= k <= s.len(),
        forall|i: int| 0 <= i < k ==> (#[trigger] s[i].id) < p.id,
    ensures
        upsert_one(s, p) == s.take(k) + upsert_one(s.skip(k), p),
    decreases k,
{
    if k == 0 {
        assert(s.skip(0) =~= s);
        assert(s.take(0) + upsert_one(s, p) =~= upsert_one(s, p));
    } else {
        assert(s[0].id < p.id);
        let rest = s.drop_first();
        assert forall|i: int| 0 <= i < k - 1 implies (#[trigger] rest[i].id) < p.id by {
            assert(rest[i] == s[i + 1]);
        }
        lemma_upsert_one_split(rest, p, k - 1);
        assert(rest.skip(k - 1) =~= s.skip(k));
        assert(seq![s.first()] + (rest.take(k - 1) + upsert_one(s.skip(k), p)) =~= s.take(k)
            + upsert_one(s.skip(k), p));
    }
}

fn slice_ref(s: &[Project], i: usize) -> (r: &Project)
    requires
        i < s@.len(),
    ensures
        *r == s@[i as int],
{
    &s[i]
}

} // verus!
