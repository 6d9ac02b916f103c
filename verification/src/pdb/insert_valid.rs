//! Inserting rows keeps a valid database valid.
use super::database::{
    db_wf, ec_page_ok, find_table, fits, insert_spec, lemma_find_table, lemma_promote_facts,
    link_free_space, link_page, page_at, promote_spec, store_on_last, stored, with_page,
    fresh_page, insert_ready,
    DatabaseView, heap_size, lemma_insert_wf, lemma_wf_insert_ready, Database,
};
use super::types::{
    free_space_header, is_free_space_flags, FreeSpacePageHeader, PageContentView, PageHeader,
    PageIndex, PageView, PdbError, Row, RowView, Table, DATA_PAGE_FLAGS, rows_view,
};
use super::validation::{
    header_errors, is_ec, page_errors, page_errors_at, table_errors, table_errors_at,
    validate_spec,
};
use super::iter::{
    lemma_walk_pages_present, lemma_rows_frame, lemma_walk_frame, lemma_walk_shape, next_spec, page_rows, rows_on_pages,
    table_walk_start, walk, PageIterator,
};
use vstd::prelude::*;

verus! {

/// Two optional pages agree on everything the page checks look at.
pub open spec fn same_checked(p: Option<PageView>, q: Option<PageView>) -> bool {
    match (p, q) {
        (None, None) => true,
        (Some(a), Some(b)) => {
            &&& a.header.page_index == b.header.page_index
            &&& a.header.unknown2 == b.header.unknown2
            &&& a.header.page_flags == b.header.page_flags
            &&& match (free_space_header(a), free_space_header(b)) {
                (Some(x), Some(y)) => x.page_index == y.page_index,
                (None, None) => true,
                _ => false,
            }
        },
        _ => false,
    }
}

proof fn lemma_page_errors_all(db: DatabaseView, n: int, pos: u32)
    requires
        page_errors(db, n).len() == 0,
        1 <= pos < n,
    ensures
        page_errors_at(db, pos).len() == 0,
    decreases n,
{
    if pos < n - 1 {
        lemma_page_errors_all(db, n - 1, pos);
    }
}

proof fn lemma_table_errors_all(db: DatabaseView, k: int, ti: int)
    requires
        table_errors(db, k).len() == 0,
        0 <= ti < k,
    ensures
        table_errors_at(db, ti).len() == 0,
    decreases k,
{
    if ti < k - 1 {
        lemma_table_errors_all(db, k - 1, ti);
    }
}

proof fn lemma_page_errors_none(db: DatabaseView, n: int)
    requires
        n <= u32::MAX + 1,
        forall|pos: u32| 1 <= pos < n ==> (#[trigger] page_errors_at(db, pos)).len() == 0,
    ensures
        page_errors(db, n).len() == 0,
    decreases n,
{
    if n > 1 {
        lemma_page_errors_none(db, n - 1);
        assert(page_errors_at(db, (n - 1) as u32).len() == 0);
    }
}

proof fn lemma_table_errors_none(db: DatabaseView, k: int)
    requires
        forall|ti: int| 0 <= ti < k ==> (#[trigger] table_errors_at(db, ti)).len() == 0,
    ensures
        table_errors(db, k).len() == 0,
    decreases k,
{
    if k > 0 {
        lemma_table_errors_none(db, k - 1);
        assert(table_errors_at(db, k - 1).len() == 0);
    }
}

/// Pages that agree on what the checks look at, at a position that is an empty candidate in
/// both databases or in neither, have the same errors.
proof fn lemma_same_page_errors(d: DatabaseView, db: DatabaseView, pos: u32)
    requires
        is_ec(d, pos) == is_ec(db, pos),
        same_checked(page_at(d, pos), page_at(db, pos)),
        1 <= pos <= db.pages.len() <= d.pages.len(),
    ensures
        page_errors_at(d, pos) == page_errors_at(db, pos),
{
}

/// The page checks of a database after an insertion. `promoted` tells whether the table's
/// empty candidate `ec` became a data page, in which case a new empty candidate follows the
/// last page.
proof fn lemma_pages_after(db: DatabaseView, d: DatabaseView, ti: int, ec: u32, promoted: bool)
    requires
        db_wf(db),
        0 <= ti < db.header.tables.len(),
        ec == db.header.tables[ti].empty_candidate,
        d.header.tables.len() == db.header.tables.len(),
        forall|j: int| 0 <= j < db.header.tables.len() && j != ti ==> d.header.tables[j] == db.header.tables[j],
        promoted ==> d.header.tables[ti].empty_candidate == db.pages.len() + 1,
        !promoted ==> d.header.tables[ti].empty_candidate == ec,
        d.pages.len() == db.pages.len() + if promoted {
            1int
        } else {
            0int
        },
        d.header.next_unused_page.0 == d.pages.len() + 1,
        forall|pos: u32| 1 <= pos <= db.pages.len() && !(promoted && pos == ec) ==> same_checked(
            #[trigger] page_at(d, pos),
            page_at(db, pos),
        ),
        promoted ==> (page_at(d, ec) matches Some(p) && p.header.page_index.0 == ec && p.header.unknown2 == 0 && p.header.page_flags == DATA_PAGE_FLAGS),
        forall|pos: u32| 1 <= pos <= db.pages.len() ==> (#[trigger] page_errors_at(db, pos)).len() == 0,
    ensures
        forall|pos: u32| 1 <= pos <= d.pages.len() ==> (#[trigger] page_errors_at(d, pos)).len() == 0,
{
    let n = db.pages.len();
    let ts = db.header.tables;
    let ds = d.header.tables;
    assert(!is_free_space_flags(DATA_PAGE_FLAGS)) by (bit_vector);
    assert forall|pos: u32| 1 <= pos <= d.pages.len() implies (#[trigger] page_errors_at(d, pos)).len() == 0 by {
        if promoted && pos == n + 1 {
            assert(ds[ti].empty_candidate == pos);
            assert(is_ec(d, pos));
        } else if promoted && pos == ec {
            assert(!is_ec(d, pos)) by {
                assert forall|j: int| 0 <= j < ds.len() implies #[trigger] ds[j].empty_candidate != pos by {
                    if j != ti {
                        assert(ds[j] == ts[j]);
                        assert(ts[j].empty_candidate != ts[ti].empty_candidate);
                    }
                }
            }
        } else {
            assert(1 <= pos <= n);
            assert(is_ec(d, pos) == is_ec(db, pos)) by {
                if is_ec(db, pos) {
                    let j = choose|j: int| 0 <= j < ts.len() && #[trigger] ts[j].empty_candidate == pos;
                    if j != ti {
                        assert(ds[j] == ts[j]);
                    } else {
                        assert(!promoted);
                    }
                    assert(ds[j].empty_candidate == pos);
                }
                if is_ec(d, pos) {
                    let j = choose|j: int| 0 <= j < ds.len() && #[trigger] ds[j].empty_candidate == pos;
                    if j != ti {
                        assert(ds[j] == ts[j]);
                    }
                    assert(ts[j].empty_candidate == pos);
                }
            }
            assert(same_checked(page_at(d, pos), page_at(db, pos)));
            lemma_same_page_errors(d, db, pos);
        }
    }
}

/// What the table checks of a table look at in two databases agrees.
pub open spec fn same_table_view(d: DatabaseView, db: DatabaseView, ti: int) -> bool {
    let t = db.header.tables[ti];
    &&& d.header.tables[ti] == t
    &&& page_at(d, t.first_page.0) == page_at(db, t.first_page.0)
    &&& page_at(d, t.last_page.0) == page_at(db, t.last_page.0)
    &&& t.empty_candidate < db.header.next_unused_page.0 <= d.header.next_unused_page.0
    &&& 1 <= t.first_page.0 <= db.pages.len() <= d.pages.len()
    &&& 1 <= t.last_page.0 <= db.pages.len()
}

proof fn lemma_same_table_errors(d: DatabaseView, db: DatabaseView, ti: int)
    requires
        same_table_view(d, db, ti),
    ensures
        table_errors_at(d, ti) == table_errors_at(db, ti),
{
}

/// The checks that a valid database passes, one by one.
proof fn lemma_valid_parts(db: DatabaseView, fs: Option<u64>)
    requires
        validate_spec(db, fs).len() == 0,
        db_wf(db),
    ensures
        header_errors(db, fs).len() == 0,
        forall|pos: u32| 1 <= pos <= db.pages.len() ==> (#[trigger] page_errors_at(db, pos)).len() == 0,
        forall|ti: int| 0 <= ti < db.header.tables.len() ==> (#[trigger] table_errors_at(db, ti)).len() == 0,
{
    let n = db.header.next_unused_page.0 as int;
    assert forall|pos: u32| 1 <= pos <= db.pages.len() implies (#[trigger] page_errors_at(db, pos)).len() == 0 by {
        lemma_page_errors_all(db, n, pos);
    }
    assert forall|ti: int| 0 <= ti < db.header.tables.len() implies (#[trigger] table_errors_at(db, ti)).len() == 0 by {
        lemma_table_errors_all(db, db.header.tables.len() as int, ti);
    }
}

/// A database whose parts pass the checks is valid.
proof fn lemma_valid_from_parts(d: DatabaseView, fs: Option<u64>)
    requires
        header_errors(d, fs).len() == 0,
        d.header.next_unused_page.0 == d.pages.len() + 1,
        forall|pos: u32| 1 <= pos <= d.pages.len() ==> (#[trigger] page_errors_at(d, pos)).len() == 0,
        forall|ti: int| 0 <= ti < d.header.tables.len() ==> (#[trigger] table_errors_at(d, ti)).len() == 0,
    ensures
        validate_spec(d, fs).len() == 0,
{
    lemma_page_errors_none(d, d.header.next_unused_page.0 as int);
    lemma_table_errors_none(d, d.header.tables.len() as int);
}

/// Storing a row on a non-empty table's last page where it fits keeps a valid database valid.
proof fn lemma_valid_fits(db: DatabaseView, ti: int, r: RowView, fs: Option<u64>)
    requires
        db_wf(db),
        validate_spec(db, fs).len() == 0,
        0 <= ti < db.header.tables.len(),
        db.header.tables[ti].first_page != db.header.tables[ti].last_page,
        page_at(db, db.header.tables[ti].last_page.0) is Some,
        fits(page_at(db, db.header.tables[ti].last_page.0)->Some_0, r),
    ensures
        validate_spec(
            with_page(
                db,
                db.header.tables[ti].last_page.0,
                stored(page_at(db, db.header.tables[ti].last_page.0)->Some_0, r),
            ),
            fs,
        ).len() == 0,
{
    lemma_valid_parts(db, fs);
    let ts = db.header.tables;
    let t = ts[ti];
    let last = t.last_page.0;
    let p = page_at(db, last)->Some_0;
    let d = with_page(db, last, stored(p, r));
    assert forall|pos: u32| 1 <= pos <= db.pages.len() implies same_checked(
        #[trigger] page_at(d, pos),
        page_at(db, pos),
    ) by {}
    lemma_pages_after(db, d, ti, t.empty_candidate, false);
    assert forall|j: int| 0 <= j < ts.len() implies (#[trigger] table_errors_at(d, j)).len() == 0 by {
        assert(table_errors_at(db, j).len() == 0);
        if j != ti {
            assert(ts[j].first_page != t.last_page);
            assert(ts[j].last_page != t.last_page);
            assert(same_table_view(d, db, j));
            lemma_same_table_errors(d, db, j);
        } else {
            assert(page_at(d, t.first_page.0) == page_at(db, t.first_page.0));
            assert(page_at(d, last) == Some(stored(p, r)));
        }
    }
    lemma_valid_from_parts(d, fs);
}

/// Promoting a table's empty candidate and storing a row on it keeps a valid database valid,
/// whether the table was empty (and its free-space page is linked to the new data page) or
/// not (and its old last page is linked to it).
proof fn lemma_valid_promoted(db: DatabaseView, ti: int, r: RowView, fs: Option<u64>, was_empty: bool)
    requires
        db_wf(db),
        validate_spec(db, fs).len() == 0,
        0 <= ti < db.header.tables.len(),
        was_empty <==> db.header.tables[ti].first_page == db.header.tables[ti].last_page,
        promote_spec(db, ti) is Ok,
        db.pages.len() + 2 <= u32::MAX,
        db.header.next_page_sequence < u32::MAX,
    ensures
        ({
            let t = db.header.tables[ti];
            let db1 = promote_spec(db, ti)->Ok_0;
            let db2 = if was_empty {
                link_free_space(db1, t.first_page.0, t.empty_candidate)
            } else {
                link_page(db1, t.last_page.0, t.empty_candidate)
            };
            validate_spec(
                with_page(db2, t.empty_candidate, stored(page_at(db2, t.empty_candidate)->Some_0, r)),
                fs,
            ).len() == 0
        }),
{
    lemma_valid_parts(db, fs);
    lemma_promote_facts(db, ti);
    let ts = db.header.tables;
    let t = ts[ti];
    let ec = t.empty_candidate;
    let first = t.first_page.0;
    let last = t.last_page.0;
    let n = db.pages.len();
    let db1 = promote_spec(db, ti)->Ok_0;
    let db2 = if was_empty {
        link_free_space(db1, first, ec)
    } else {
        link_page(db1, last, ec)
    };
    let x = if was_empty {
        first
    } else {
        last
    };
    assert(x != ec);
    assert(1 <= x <= n);
    assert(db2.header == db1.header);
    assert(db2.pages.len() == db1.pages.len());
    assert(page_at(db1, x) == page_at(db, x));
    assert(same_checked(page_at(db2, x), page_at(db, x)));
    assert forall|pos: u32| 1 <= pos <= n + 1 && pos != x implies #[trigger] page_at(db2, pos) == page_at(db1, pos) by {}
    let q = page_at(db2, ec)->Some_0;
    assert(page_at(db2, ec) == page_at(db1, ec));
    let d = with_page(db2, ec, stored(q, r));
    let ds = d.header.tables;
    assert(ds == db1.header.tables);
    assert(ec_page_ok(page_at(db, ec)->Some_0, ec, db.header.page_size));
    assert forall|pos: u32| 1 <= pos <= n && pos != ec implies same_checked(
        #[trigger] page_at(d, pos),
        page_at(db, pos),
    ) by {
        if pos != x {
            assert(page_at(d, pos) == page_at(db2, pos));
            assert(page_at(db2, pos) == page_at(db1, pos));
            assert(page_at(db1, pos) == page_at(db, pos));
        } else {
            assert(page_at(d, pos) == page_at(db2, pos));
        }
    }
    lemma_pages_after(db, d, ti, ec, true);
    assert(header_errors(d, fs).len() == 0);
    assert forall|j: int| 0 <= j < ts.len() implies (#[trigger] table_errors_at(d, j)).len() == 0 by {
        assert(table_errors_at(db, j).len() == 0);
        if j != ti {
            assert(ds[j] == ts[j]);
            let u = ts[j];
            assert(u.first_page.0 != x && u.last_page.0 != x);
            assert(u.first_page.0 != ec && u.last_page.0 != ec);
            assert(1 <= u.first_page.0 <= n && 1 <= u.last_page.0 <= n);
            assert(page_at(d, u.first_page.0) == page_at(db, u.first_page.0));
            assert(page_at(d, u.last_page.0) == page_at(db, u.last_page.0));
            assert(same_table_view(d, db, j));
            lemma_same_table_errors(d, db, j);
        } else {
            assert(ds[ti].first_page == t.first_page);
            assert(ds[ti].last_page.0 == ec);
            assert(ds[ti].empty_candidate == n + 1);
            assert(page_at(d, ec) == Some(stored(q, r)));
            assert(q.header.next_page == PageIndex((n + 1) as u32));
            if was_empty {
                let fp0 = page_at(db, first)->Some_0;
                assert(fp0.header.next_page == PageIndex(ec));
                assert(page_at(d, first) == page_at(db2, first));
            } else {
                assert(first != last);
                assert(page_at(d, first) == page_at(db2, first));
                assert(page_at(db2, first) == page_at(db, first));
            }
        }
    }
    lemma_valid_from_parts(d, fs);
}

/// Inserting a row into a well-formed database that passes every check gives a database
/// that passes every check, for the same file size.
pub proof fn lemma_insert_keeps_valid(db: DatabaseView, r: RowView, fs: Option<u64>)
    requires
        db_wf(db),
        validate_spec(db, fs).len() == 0,
        r.data.len() + 6 <= heap_size(db.header.page_size),
        db.header.next_page_sequence + 2 <= u32::MAX,
        db.pages.len() + 4 <= u32::MAX,
    ensures
        validate_spec(insert_spec(db, r).0, fs).len() == 0,
{
    lemma_find_table(db.header.tables, r.page_type);
    lemma_valid_parts(db, fs);
    match find_table(db.header.tables, r.page_type) {
        None => {},
        Some(ti) => {
            let t = db.header.tables[ti];
            let ec = t.empty_candidate;
            let n = db.pages.len();
            if t.last_page == t.first_page {
                if let Ok(db1) = promote_spec(db, ti) {
                    lemma_promote_facts(db, ti);
                    lemma_valid_promoted(db, ti, r, fs, true);
                    let db2 = link_free_space(db1, t.first_page.0, ec);
                    assert(db2.header == db1.header);
                    assert(t.first_page.0 != ec);
                    assert(page_at(db2, ec) == page_at(db1, ec));
                    let q = page_at(db2, ec)->Some_0;
                    assert(ec_page_ok(page_at(db, ec)->Some_0, ec, db.header.page_size));
                    assert(fits(q, r));
                }
            } else {
                assert(table_errors_at(db, ti).len() == 0);
                let last = t.last_page.0;
                let p = page_at(db, last)->Some_0;
                if fits(p, r) {
                    lemma_valid_fits(db, ti, r, fs);
                } else if let Ok(db2) = promote_spec(db, ti) {
                    lemma_promote_facts(db, ti);
                    lemma_valid_promoted(db, ti, r, fs, false);
                    assert(db2.header.tables[ti].last_page.0 == ec);
                }
            }
        },
    }
}

/// The outcome of inserting rows one after another, stopping at the first error.
pub open spec fn insert_all(db: DatabaseView, rows: Seq<RowView>) -> (DatabaseView, Result<(), PdbError>)
    decreases rows.len(),
{
    if rows.len() == 0 {
        (db, Ok(()))
    } else {
        let (d1, r1) = insert_spec(db, rows[0]);
        match r1 {
            Err(e) => (d1, Err(e)),
            Ok(()) => insert_all(d1, rows.drop_first()),
        }
    }
}

/// Rows that fit on an empty page of the database, few enough that the page count and the
/// sequence number cannot run out.
pub open spec fn rows_insertable(db: DatabaseView, rows: Seq<RowView>) -> bool {
    &&& forall|i: int| 0 <= i < rows.len() ==> (#[trigger] rows[i]).data.len() + 6 <= heap_size(db.header.page_size)
    &&& db.header.next_page_sequence + rows.len() + 1 <= u32::MAX
    &&& db.pages.len() + rows.len() + 3 <= u32::MAX
}

proof fn lemma_insertable_rest(db: DatabaseView, d1: DatabaseView, rows: Seq<RowView>)
    requires
        rows.len() > 0,
        rows_insertable(db, rows),
        d1.header.page_size == db.header.page_size,
        d1.pages.len() <= db.pages.len() + 1,
        d1.header.next_page_sequence <= db.header.next_page_sequence + 1,
    ensures
        rows_insertable(d1, rows.drop_first()),
{
    assert forall|i: int| 0 <= i < rows.drop_first().len() implies (#[trigger] rows.drop_first()[i]).data.len() + 6 <= heap_size(d1.header.page_size) by {
        assert(rows.drop_first()[i] == rows[i + 1]);
    }
}

/// Inserting rows one after another into a well-formed database that passes every check gives
/// a well-formed database that passes every check.
pub proof fn lemma_insert_all_keeps_valid(db: DatabaseView, rows: Seq<RowView>, fs: Option<u64>)
    requires
        db_wf(db),
        validate_spec(db, fs).len() == 0,
        rows_insertable(db, rows),
    ensures
        db_wf(insert_all(db, rows).0),
        validate_spec(insert_all(db, rows).0, fs).len() == 0,
    decreases rows.len(),
{
    if rows.len() > 0 {
        assert(rows[0].data.len() + 6 <= heap_size(db.header.page_size));
        lemma_insert_wf(db, rows[0]);
        lemma_insert_keeps_valid(db, rows[0], fs);
        let (d1, r1) = insert_spec(db, rows[0]);
        if r1 is Ok {
            lemma_insertable_rest(db, d1, rows);
            lemma_insert_all_keeps_valid(d1, rows.drop_first(), fs);
        }
    }
}

impl Database {
    /// Inserts rows one after another, stopping at the first error.
    pub fn insert_rows(&mut self, new_rows: Vec<Row>) -> (r: Result<(), PdbError>)
        requires
            db_wf(old(self)@),
            rows_insertable(old(self)@, rows_view(new_rows@)),
        ensures
            (final(self)@, r) == insert_all(old(self)@, rows_view(new_rows@)),
            db_wf(final(self)@),
    {
        let mut rows = new_rows;
        while rows.len() > 0
            invariant
                db_wf(self@),
                rows_insertable(self@, rows_view(rows@)),
                insert_all(old(self)@, rows_view(new_rows@)) == insert_all(self@, rows_view(rows@)),
            decreases rows.len(),
        {
            let ghost before = rows_view(rows@);
            let row = rows.remove(0);
            proof {
                assert(rows_view(rows@) =~= before.drop_first());
                assert(before[0] == row@);
                assert(row@.data.len() + 6 <= heap_size(self@.header.page_size));
            }
            let ghost db0 = self@;
            proof {
                lemma_wf_insert_ready(db0, row@);
            }
            let r = self.insert_row(row);
            proof {
                lemma_insert_wf(db0, row@);
            }
            match r {
                Err(e) => return Err(e),
                Ok(()) => {
                    proof {
                        lemma_insertable_rest(db0, self@, before);
                    }
                },
            }
        }
        proof {
            assert(rows_view(rows@) =~= Seq::<RowView>::empty());
        }
        Ok(())
    }
}

/// A row that `insert_row` accepts ends up as the last row of the last page of the first
/// table of its type, and the other tables keep their chains.
pub proof fn lemma_insert_lands_last(db: DatabaseView, r: RowView)
    requires
        db_wf(db),
        r.data.len() + 6 <= heap_size(db.header.page_size),
        db.header.next_page_sequence + 2 <= u32::MAX,
        db.pages.len() + 4 <= u32::MAX,
        insert_spec(db, r).1 is Ok,
    ensures
        find_table(db.header.tables, r.page_type) matches Some(ti) && {
            let d = insert_spec(db, r).0;
            let last = d.header.tables[ti].last_page.0;
            &&& d.header.tables.len() == db.header.tables.len()
            &&& forall|j: int| 0 <= j < db.header.tables.len() && j != ti ==> d.header.tables[j] == db.header.tables[j]
            &&& d.header.tables[ti].first_page == db.header.tables[ti].first_page
            &&& page_at(d, last) matches Some(p) && p.content matches PageContentView::Data(rows)
                && rows.len() > 0 && rows.last() == r
        },
{
    lemma_find_table(db.header.tables, r.page_type);
    let ti = find_table(db.header.tables, r.page_type)->Some_0;
    let t = db.header.tables[ti];
    let ec = t.empty_candidate;
    let n = db.pages.len();
    if t.last_page == t.first_page {
        let db1 = promote_spec(db, ti)->Ok_0;
        lemma_promote_facts(db, ti);
        let db2 = link_free_space(db1, t.first_page.0, ec);
        assert(db2.header == db1.header);
        assert(t.first_page.0 != ec);
        assert(page_at(db2, ec) == page_at(db1, ec));
        assert(ec_page_ok(page_at(db, ec)->Some_0, ec, db.header.page_size));
        let q = page_at(db2, ec)->Some_0;
        assert(fits(q, r));
        let d = with_page(db2, ec, stored(q, r));
        assert(page_at(d, ec) == Some(stored(q, r)));
    } else {
        let last = t.last_page.0;
        let p = page_at(db, last)->Some_0;
        if fits(p, r) {
            let d = with_page(db, last, stored(p, r));
            assert(page_at(d, last) == Some(stored(p, r)));
        } else {
            let db2 = promote_spec(db, ti)->Ok_0;
            lemma_promote_facts(db, ti);
            let db3 = link_page(db2, last, ec);
            assert(db3.header == db2.header);
            assert(ec != last);
            assert(page_at(db3, ec) == page_at(db2, ec));
            assert(ec_page_ok(page_at(db, ec)->Some_0, ec, db.header.page_size));
            let q = page_at(db3, ec)->Some_0;
            assert(fits(q, r));
            let d = with_page(db3, ec, stored(q, r));
            assert(page_at(d, ec) == Some(stored(q, r)));
        }
    }
}

proof fn lemma_rows_last(db: DatabaseView, d: DatabaseView, ps: Seq<PageIndex>, extra: Seq<RowView>)
    requires
        ps.len() > 0,
        forall|i: int| 0 <= i < ps.len() - 1 ==> page_at(d, (#[trigger] ps[i]).0) == page_at(db, ps[i].0),
        page_rows(d, ps.last()) == page_rows(db, ps.last()) + extra,
    ensures
        rows_on_pages(d, ps) == rows_on_pages(db, ps) + extra,
{
    let init = ps.drop_last();
    assert forall|i: int| 0 <= i < init.len() implies page_at(d, (#[trigger] init[i]).0) == page_at(db, init[i].0) by {
        assert(init[i] == ps[i]);
    }
    lemma_rows_frame(db, d, init);
    assert(rows_on_pages(d, ps) == rows_on_pages(d, init) + page_rows(d, ps.last()));
    assert(rows_on_pages(db, ps) == rows_on_pages(db, init) + page_rows(db, ps.last()));
    assert(rows_on_pages(db, init) + (page_rows(db, ps.last()) + extra) =~= rows_on_pages(db, init) + page_rows(db, ps.last()) + extra);
}

/// Inserting a row into a database whose table chain can be walked leaves a chain that can be
/// walked: the same pages, followed by the empty candidate where the row needed a new page,
/// and whose rows are the old rows followed by the new row. Where the row needs a new page,
/// that page must come after the table's last page, as walks go forward only, it must be an
/// empty data page with room for the row, and the free-space page of an empty table must
/// point to it.
pub proof fn lemma_insert_appends_row(db: DatabaseView, r: RowView)
    requires
        insert_ready(db, r),
        insert_spec(db, r).1 is Ok,
        find_table(db.header.tables, r.page_type) matches Some(ti) && {
            let t = db.header.tables[ti];
            &&& walk(table_walk_start(db, ti), db).1 is None
            &&& (t.empty_candidate > t.last_page.0 || (t.first_page != t.last_page
                && (page_at(db, t.last_page.0) matches Some(p) && fits(p, r))))
            &&& t.first_page == t.last_page ==> (page_at(db, t.first_page.0) matches Some(p)
                && p.header.next_page == PageIndex(t.empty_candidate))
            &&& needs_new_page(db, ti, r) ==> (page_at(db, t.empty_candidate) matches Some(q)
                && q.content == PageContentView::Data(Seq::empty()) && fits(q, r))
        },
    ensures
        find_table(db.header.tables, r.page_type) matches Some(ti) && {
            let d = insert_spec(db, r).0;
            let ps = walk(table_walk_start(db, ti), db).0;
            let ps2 = walk(table_walk_start(d, ti), d).0;
            &&& walk(table_walk_start(d, ti), d).1 is None
            &&& ps2 == if needs_new_page(db, ti, r) {
                ps.push(PageIndex(db.header.tables[ti].empty_candidate))
            } else {
                ps
            }
            &&& rows_on_pages(d, ps2) == rows_on_pages(db, ps).push(r)
        },
{
    lemma_find_table(db.header.tables, r.page_type);
    let ti = find_table(db.header.tables, r.page_type)->Some_0;
    let t = db.header.tables[ti];
    let ec = t.empty_candidate;
    let n = db.pages.len();
    let last = t.last_page.0;
    let it = table_walk_start(db, ti);
    let ps = walk(it, db).0;
    lemma_walk_shape(it, db);
    lemma_walk_pages_present(it, db);
    assert(ps[ps.len() - 1] == t.last_page);
    if t.last_page == t.first_page {
        let db1 = promote_spec(db, ti)->Ok_0;
        lemma_promote_general(db, ti);
        let db2 = link_free_space(db1, t.first_page.0, ec);
        assert(db2.header == db1.header);
        assert(page_at(db2, ec) == page_at(db1, ec));
        let q = page_at(db2, ec)->Some_0;
        assert(fits(q, r));
        let d = with_page(db2, ec, stored(q, r));
        let fp = page_at(db, last)->Some_0;
        assert(fp.header.next_page == PageIndex(ec));
        assert(page_at(db1, last) == page_at(db, last));
        assert(page_at(d, last) == page_at(db2, last));
        assert(page_at(d, last)->Some_0.header == fp.header);
        let (it1, _) = next_spec(it, db);
        assert(it1.next_page is None);
        assert(walk(it1, db) == (Seq::<PageIndex>::empty(), None::<PdbError>));
        assert(ps =~= seq![t.first_page]);
        assert(table_walk_start(d, ti) == PageIterator {
            remaining: (it.remaining + 1) as u64,
            last_page: PageIndex(ec),
            ..it
        });
        lemma_walk_shape(it, db);
        lemma_walk_frame(it, db, d, PageIndex(ec), 1);
        let ps2 = ps.push(PageIndex(ec));
        assert(page_at(d, ec) == Some(stored(q, r)));
        assert(ps2.drop_last() =~= ps);
        assert(ps.drop_last() =~= Seq::<PageIndex>::empty());
        assert(page_rows(d, t.first_page) == page_rows(db, t.first_page)) by {
            match fp.content {
                PageContentView::FreeSpace(_, _) => {},
                PageContentView::Data(_) => {
                    assert(page_at(d, last) == page_at(db, last));
                },
            }
        }
        assert(rows_on_pages(d, ps) == rows_on_pages(d, ps.drop_last()) + page_rows(d, t.first_page));
        assert(rows_on_pages(db, ps) == rows_on_pages(db, ps.drop_last()) + page_rows(db, t.first_page));
        assert(page_rows(d, PageIndex(ec)) =~= seq![r]);
        assert(rows_on_pages(d, ps2) == rows_on_pages(d, ps) + page_rows(d, PageIndex(ec)));
        assert(rows_on_pages(d, ps2) =~= rows_on_pages(db, ps).push(r));
    } else {
        let p = page_at(db, last)->Some_0;
        if fits(p, r) {
            let d = with_page(db, last, stored(p, r));
            assert(table_walk_start(d, ti) == PageIterator { remaining: (it.remaining + 0) as u64, last_page: t.last_page, ..it });
            lemma_walk_shape(it, db);
            lemma_walk_frame(it, db, d, t.last_page, 0);
            assert(page_at(d, last) == Some(stored(p, r)));
            assert(page_rows(d, ps.last()) =~= page_rows(db, ps.last()) + seq![r]);
            lemma_rows_last(db, d, ps, seq![r]);
            assert(rows_on_pages(db, ps) + seq![r] =~= rows_on_pages(db, ps).push(r));
        } else {
            let db2 = promote_spec(db, ti)->Ok_0;
            lemma_promote_general(db, ti);
            let db3 = link_page(db2, last, ec);
            assert(db3.header == db2.header);
            assert(page_at(db3, ec) == page_at(db2, ec));
                let q = page_at(db3, ec)->Some_0;
            assert(fits(q, r));
            let d = with_page(db3, ec, stored(q, r));
            assert(table_walk_start(d, ti) == PageIterator {
                remaining: (it.remaining + 1) as u64,
                last_page: PageIndex(ec),
                ..it
            });
            assert(page_at(db2, last) == page_at(db, last));
            assert(page_at(d, last) == page_at(db3, last));
            lemma_walk_shape(it, db);
            lemma_walk_frame(it, db, d, PageIndex(ec), 1);
            let ps2 = ps.push(PageIndex(ec));
            assert(page_at(d, ec) == Some(stored(q, r)));
            assert(page_rows(d, ps.last()) =~= page_rows(db, ps.last()) + Seq::<RowView>::empty());
            lemma_rows_last(db, d, ps, Seq::empty());
            assert(rows_on_pages(db, ps) + Seq::<RowView>::empty() =~= rows_on_pages(db, ps));
            assert(ps2.drop_last() =~= ps);
            assert(page_rows(d, PageIndex(ec)) =~= seq![r]);
            assert(rows_on_pages(d, ps2) == rows_on_pages(d, ps) + page_rows(d, PageIndex(ec)));
            assert(rows_on_pages(d, ps2) =~= rows_on_pages(db, ps).push(r));
        }
    }
}

/// Every table's last page points to its empty candidate, which lies below the first unused
/// page number.
pub open spec fn links_ok(db: DatabaseView) -> bool {
    forall|i: int|
        0 <= i < db.header.tables.len() ==> {
            &&& (#[trigger] db.header.tables[i]).empty_candidate < db.header.next_unused_page.0
            &&& page_at(db, db.header.tables[i].last_page.0) matches Some(p)
                && p.header.next_page == PageIndex(db.header.tables[i].empty_candidate)
        }
}

/// Two optional pages are both missing, or both there with the same flags and the same kind
/// of content.
pub open spec fn same_kind(p: Option<PageView>, q: Option<PageView>) -> bool {
    match (p, q) {
        (None, None) => true,
        (Some(a), Some(b)) => a.header.page_flags == b.header.page_flags && (a.content is Data) == (
        b.content is Data),
        _ => false,
    }
}

/// Whether inserting a row needs a new data page for its table: the table is empty, or its
/// last page has no room for the row.
pub open spec fn needs_new_page(db: DatabaseView, ti: int, r: RowView) -> bool {
    let t = db.header.tables[ti];
    t.first_page == t.last_page || !(page_at(db, t.last_page.0) matches Some(p) && fits(p, r))
}

/// What promoting a table's empty candidate does, whatever else holds of the database: the
/// candidate, where the database holds it, points to the first unused page number and takes
/// the page sequence number; a fresh data page is added at the end; the table's last page
/// becomes the old candidate and its candidate the old first unused page number.
proof fn lemma_promote_general(db: DatabaseView, ti: int)
    requires
        0 <= ti < db.header.tables.len(),
        promote_spec(db, ti) is Ok,
        db.pages.len() + 1 <= u32::MAX,
    ensures
        ({
            let d = promote_spec(db, ti)->Ok_0;
            let t = db.header.tables[ti];
            let n = db.pages.len();
            let big_n = db.header.next_unused_page.0;
            &&& d.pages.len() == n + 1
            &&& d.header.tables.len() == db.header.tables.len()
            &&& d.header.tables[ti] == Table { last_page: PageIndex(t.empty_candidate), empty_candidate: big_n, ..t }
            &&& forall|j: int| 0 <= j < db.header.tables.len() && j != ti ==> d.header.tables[j] == db.header.tables[j]
            &&& forall|x: u32| 1 <= x <= n && x != t.empty_candidate ==> #[trigger] page_at(d, x) == page_at(db, x)
            &&& (page_at(db, t.empty_candidate) matches Some(p) ==> page_at(d, t.empty_candidate) == Some(
                PageView {
                    header: PageHeader { next_page: PageIndex(big_n), page_sequence: db.header.next_page_sequence, ..p.header },
                    ..p
                },
            ))
            &&& page_at(d, (n + 1) as u32) == Some(
                fresh_page(big_n, t.page_type, (big_n + 1) as u32, db.header.page_size),
            )
            &&& d.header.page_size == db.header.page_size
            &&& d.header.num_tables == db.header.num_tables
            &&& d.header.next_page_sequence == (db.header.next_page_sequence + 1) as u32
            &&& d.header.next_unused_page.0 == (big_n + 1) as u32
        }),
{
    let d = promote_spec(db, ti)->Ok_0;
    let n = db.pages.len();
    assert(d.pages[n as int] == d.pages.last());
    assert forall|x: u32| 1 <= x <= n && x != db.header.tables[ti].empty_candidate implies #[trigger] page_at(d, x) == page_at(db, x) by {
        assert(d.pages[x - 1] == db.pages[x - 1]);
    }
}

/// The header and page-count effects of a successful insertion, for any database that meets
/// what `insert_row` needs and whose row lands on the promoted candidate where a new data page
/// is needed. Where the table is empty or its last page has no room, the first unused page
/// number and the page count grow by one, the table's empty candidate becomes its last page
/// and the old first unused page number its empty candidate, and the page sequence number
/// grows by one; otherwise the header stays as it was. Other tables keep their entries, and
/// pages other than the table's free-space page, last page and empty candidate keep their
/// contents, and every page keeps its flags and kind of content. A database whose page count
/// matches its first unused page number and whose last pages point to their empty candidates
/// keeps both, unless another table's last page is one that the insertion relinks.
pub proof fn lemma_insert_counts(db: DatabaseView, r: RowView)
    requires
        insert_ready(db, r),
        insert_spec(db, r).1 is Ok,
        find_table(db.header.tables, r.page_type) matches Some(ti) && (needs_new_page(db, ti, r)
            ==> (page_at(db, db.header.tables[ti].empty_candidate) matches Some(q) && fits(q, r))),
    ensures
        find_table(db.header.tables, r.page_type) matches Some(ti) && {
            let d = insert_spec(db, r).0;
            let t = db.header.tables[ti];
            let n = db.pages.len();
            let big_n = db.header.next_unused_page.0;
            &&& d.header.tables.len() == db.header.tables.len()
            &&& forall|j: int| 0 <= j < db.header.tables.len() && j != ti ==> d.header.tables[j] == db.header.tables[j]
            &&& needs_new_page(db, ti, r) ==> {
                &&& d.header.next_unused_page.0 == big_n + 1
                &&& d.pages.len() == n + 1
                &&& d.header.tables[ti] == Table {
                    last_page: PageIndex(t.empty_candidate),
                    empty_candidate: big_n,
                    ..t
                }
                &&& d.header.page_size == db.header.page_size
                &&& d.header.num_tables == db.header.num_tables
                &&& d.header.next_page_sequence == db.header.next_page_sequence + 1
                &&& page_at(d, (n + 1) as u32) matches Some(p) && p.header.page_flags == DATA_PAGE_FLAGS
                    && p.content is Data
            }
            &&& !needs_new_page(db, ti, r) ==> d.header == db.header && d.pages.len() == n
            &&& forall|x: u32|
                1 <= x <= n && x != t.first_page.0 && x != t.last_page.0 && x != t.empty_candidate
                    ==> #[trigger] page_at(d, x) == page_at(db, x)
            &&& forall|x: u32| 1 <= x <= n ==> same_kind(#[trigger] page_at(d, x), page_at(db, x))
            &&& ({
                &&& links_ok(db)
                &&& big_n == n + 1
                &&& needs_new_page(db, ti, r) ==> forall|j: int|
                    0 <= j < db.header.tables.len() && j != ti ==> {
                        &&& (#[trigger] db.header.tables[j]).last_page.0 != t.empty_candidate
                        &&& t.first_page != t.last_page ==> db.header.tables[j].last_page != t.last_page
                    }
            }) ==> links_ok(d) && d.header.next_unused_page.0 == d.pages.len() + 1
        },
{
    lemma_find_table(db.header.tables, r.page_type);
    let ti = find_table(db.header.tables, r.page_type)->Some_0;
    let ts = db.header.tables;
    let t = ts[ti];
    let ec = t.empty_candidate;
    let n = db.pages.len();
    let big_n = db.header.next_unused_page.0;
    let last = t.last_page.0;
    let first = t.first_page.0;
    let d = insert_spec(db, r).0;
    let cond = links_ok(db) && big_n == n + 1 && (needs_new_page(db, ti, r) ==> forall|j: int|
        0 <= j < ts.len() && j != ti ==> {
            &&& (#[trigger] ts[j]).last_page.0 != ec
            &&& t.first_page != t.last_page ==> ts[j].last_page != t.last_page
        });
    if t.last_page == t.first_page {
        let db1 = promote_spec(db, ti)->Ok_0;
        lemma_promote_general(db, ti);
        let db2 = link_free_space(db1, first, ec);
        let p0 = page_at(db, ec)->Some_0;
        assert(page_at(db1, ec)->Some_0.content == p0.content);
        assert(db2.header == db1.header);
        assert(page_at(db2, ec) == page_at(db1, ec));
        let q = page_at(db2, ec)->Some_0;
        assert(fits(q, r));
        assert(d == with_page(db2, ec, stored(q, r)));
        assert forall|x: u32| 1 <= x <= n && x != first && x != last && x != ec implies #[trigger] page_at(d, x) == page_at(db, x) by {}
        assert(page_at(d, (n + 1) as u32) == page_at(db1, (n + 1) as u32));
        assert forall|x: u32| 1 <= x <= n implies same_kind(#[trigger] page_at(d, x), page_at(db, x)) by {
            if x != first && x != ec {
                assert(page_at(db1, x) == page_at(db, x));
            }
        }
        if cond {
            assert forall|i: int| 0 <= i < d.header.tables.len() implies {
                &&& (#[trigger] d.header.tables[i]).empty_candidate < d.header.next_unused_page.0
                &&& page_at(d, d.header.tables[i].last_page.0) matches Some(p)
                    && p.header.next_page == PageIndex(d.header.tables[i].empty_candidate)
            } by {
                if i != ti {
                    let u = ts[i];
                    assert(d.header.tables[i] == u);
                    assert(u.last_page.0 != ec);
                    assert(page_at(db, u.last_page.0) is Some);
                    assert(1 <= u.last_page.0 <= n);
                    if u.last_page.0 == first {
                        assert(page_at(d, first)->Some_0.header == page_at(db, first)->Some_0.header);
                    } else {
                        assert(page_at(d, u.last_page.0) == page_at(db, u.last_page.0));
                    }
                }
            }
        }
    } else {
        let p = page_at(db, last);
        if p is Some && fits(p->Some_0, r) {
            let pp = p->Some_0;
            assert(d == with_page(db, last, stored(pp, r)));
            assert forall|x: u32| 1 <= x <= n implies same_kind(#[trigger] page_at(d, x), page_at(db, x)) by {}
            if cond {
                assert forall|i: int| 0 <= i < d.header.tables.len() implies {
                    &&& (#[trigger] d.header.tables[i]).empty_candidate < d.header.next_unused_page.0
                    &&& page_at(d, d.header.tables[i].last_page.0) matches Some(p)
                        && p.header.next_page == PageIndex(d.header.tables[i].empty_candidate)
                } by {
                    let u = ts[i];
                    assert(d.header.tables[i] == u);
                    assert(page_at(db, u.last_page.0) is Some);
                    assert(1 <= u.last_page.0 <= n);
                }
            }
        } else {
            assert(p is Some);
            let db2 = promote_spec(db, ti)->Ok_0;
            lemma_promote_general(db, ti);
            assert(last != ec);
            let db3 = link_page(db2, last, ec);
            assert(db3.header == db2.header);
            assert(page_at(db3, ec) == page_at(db2, ec));
            let q = page_at(db3, ec)->Some_0;
            assert(fits(q, r));
            assert(d == with_page(db3, ec, stored(q, r)));
            assert forall|x: u32| 1 <= x <= n && x != first && x != last && x != ec implies #[trigger] page_at(d, x) == page_at(db, x) by {}
            assert(page_at(d, (n + 1) as u32) == page_at(db2, (n + 1) as u32));
            assert forall|x: u32| 1 <= x <= n implies same_kind(#[trigger] page_at(d, x), page_at(db, x)) by {
                if x != last && x != ec {
                    assert(page_at(db2, x) == page_at(db, x));
                }
            }
            if cond {
                assert forall|i: int| 0 <= i < d.header.tables.len() implies {
                    &&& (#[trigger] d.header.tables[i]).empty_candidate < d.header.next_unused_page.0
                    &&& page_at(d, d.header.tables[i].last_page.0) matches Some(p)
                        && p.header.next_page == PageIndex(d.header.tables[i].empty_candidate)
                } by {
                    if i != ti {
                        let u = ts[i];
                        assert(d.header.tables[i] == u);
                        assert(u.last_page.0 != ec && u.last_page.0 != last);
                        assert(page_at(db, u.last_page.0) is Some);
                        assert(1 <= u.last_page.0 <= n);
                        assert(page_at(d, u.last_page.0) == page_at(db, u.last_page.0));
                    }
                }
            }
        }
    }
}

/// A table's chain can be walked and is its free-space page followed only by data pages.
pub open spec fn chain_shape(db: DatabaseView, i: int) -> bool {
    let w = walk(table_walk_start(db, i), db);
    let ps = w.0;
    &&& w.1 is None
    &&& ps.len() > 0
    &&& ps[0] == db.header.tables[i].first_page
    &&& page_at(db, ps[0].0) matches Some(p) && is_free_space_flags(p.header.page_flags)
    &&& forall|k: int|
        1 <= k < ps.len() ==> (page_at(db, (#[trigger] ps[k]).0) matches Some(q)
            && !is_free_space_flags(q.header.page_flags) && q.content is Data)
}

/// Inserting a row into a database whose tables' chains are each a free-space page followed
/// by data pages, and whose last pages point to their empty candidates, keeps every chain so:
/// each starts with the same free-space page, the row's table gets the row appended to its
/// rows, and every other table keeps its pages and rows. Where the row needs a new page, that
/// page must be an empty data page with room for the row that comes after the table's last
/// page, and the other tables' chains must not pass through the pages that the insertion
/// changes.
pub proof fn lemma_insert_keeps_chains(db: DatabaseView, r: RowView)
    requires
        insert_ready(db, r),
        insert_spec(db, r).1 is Ok,
        links_ok(db),
        forall|i: int| 0 <= i < db.header.tables.len() ==> #[trigger] chain_shape(db, i),
        find_table(db.header.tables, r.page_type) matches Some(ti) && {
            let t = db.header.tables[ti];
            &&& (t.empty_candidate > t.last_page.0 || !needs_new_page(db, ti, r))
            &&& needs_new_page(db, ti, r) ==> (page_at(db, t.empty_candidate) matches Some(q)
                && q.content == PageContentView::Data(Seq::empty()) && fits(q, r)
                && !is_free_space_flags(q.header.page_flags))
            &&& forall|j: int, k: int|
                0 <= j < db.header.tables.len() && j != ti && 0 <= k < walk(table_walk_start(db, j), db).0.len()
                    ==> {
                    let x = #[trigger] walk(table_walk_start(db, j), db).0[k];
                    x != t.first_page && x != t.last_page && x.0 != t.empty_candidate
                }
        },
    ensures
        find_table(db.header.tables, r.page_type) matches Some(ti) && {
            let d = insert_spec(db, r).0;
            &&& forall|i: int| 0 <= i < d.header.tables.len() ==> #[trigger] chain_shape(d, i)
            &&& forall|i: int| 0 <= i < d.header.tables.len() ==> (#[trigger] d.header.tables[i]).first_page == db.header.tables[i].first_page
            &&& rows_on_pages(d, walk(table_walk_start(d, ti), d).0) == rows_on_pages(
                db,
                walk(table_walk_start(db, ti), db).0,
            ).push(r)
            &&& forall|j: int|
                0 <= j < db.header.tables.len() && j != ti ==> {
                    &&& #[trigger] walk(table_walk_start(d, j), d) == walk(table_walk_start(db, j), db)
                    &&& rows_on_pages(d, walk(table_walk_start(d, j), d).0) == rows_on_pages(
                        db,
                        walk(table_walk_start(db, j), db).0,
                    )
                }
        },
{
    lemma_find_table(db.header.tables, r.page_type);
    lemma_insert_counts(db, r);
    let ti = find_table(db.header.tables, r.page_type)->Some_0;
    let ts = db.header.tables;
    let t = ts[ti];
    let ec = t.empty_candidate;
    let n = db.pages.len();
    let d = insert_spec(db, r).0;
    assert(!is_free_space_flags(DATA_PAGE_FLAGS)) by (bit_vector);
    assert(chain_shape(db, ti));
    assert(t.first_page == t.last_page ==> (page_at(db, t.first_page.0) matches Some(p)
        && p.header.next_page == PageIndex(t.empty_candidate)));
    lemma_insert_appends_row(db, r);
    assert(d.header.tables[ti].first_page == t.first_page);
    let ps = walk(table_walk_start(db, ti), db).0;
    let ps2 = walk(table_walk_start(d, ti), d).0;
    lemma_walk_pages_present(table_walk_start(db, ti), db);
    assert(chain_shape(d, ti)) by {
        assert(ps2[0] == ps[0]);
        assert(1 <= t.first_page.0 <= n);
        assert(same_kind(page_at(d, t.first_page.0), page_at(db, t.first_page.0)));
        assert forall|k: int| 1 <= k < ps2.len() implies (page_at(d, (#[trigger] ps2[k]).0) matches Some(q)
            && !is_free_space_flags(q.header.page_flags) && q.content is Data) by {
            if k < ps.len() {
                assert(ps2[k] == ps[k]);
                assert(page_at(db, ps[k].0) is Some);
                assert(1 <= ps[k].0 <= n);
                assert(same_kind(page_at(d, ps[k].0), page_at(db, ps[k].0)));
            } else {
                assert(needs_new_page(db, ti, r));
                assert(ps2 == ps.push(PageIndex(ec)));
                assert(ps2[k] == PageIndex(ec));
                assert(page_at(db, ec) is Some);
                assert(1 <= ec <= n);
                assert(same_kind(page_at(d, ec), page_at(db, ec)));
            }
        }
    }
    assert forall|j: int| 0 <= j < db.header.tables.len() && j != ti implies {
        &&& #[trigger] walk(table_walk_start(d, j), d) == walk(table_walk_start(db, j), db)
        &&& rows_on_pages(d, walk(table_walk_start(d, j), d).0) == rows_on_pages(
            db,
            walk(table_walk_start(db, j), db).0,
        )
    } by {
        let it = table_walk_start(db, j);
        let pj = walk(it, db).0;
        assert(chain_shape(db, j));
        lemma_walk_pages_present(it, db);
        assert forall|k: int| 0 <= k < pj.len() implies page_at(d, (#[trigger] pj[k]).0) == page_at(db, pj[k].0) by {
            assert(page_at(db, pj[k].0) is Some);
            let x = pj[k];
            assert(x != t.first_page && x != t.last_page && x.0 != ec);
        }
        lemma_walk_shape(it, db);
        assert(pj[pj.len() - 1] == it.last_page);
        let extra = (d.pages.len() - n) as nat;
        assert(d.header.tables[j] == ts[j]);
        assert(table_walk_start(d, j) == PageIterator { remaining: (it.remaining + extra) as u64, last_page: it.last_page, ..it });
        lemma_walk_frame(it, db, d, it.last_page, extra);
        lemma_rows_frame(db, d, pj);
    }
    assert forall|i: int| 0 <= i < d.header.tables.len() implies #[trigger] chain_shape(d, i) by {
        if i != ti {
            let pj = walk(table_walk_start(db, i), db).0;
            assert(walk(table_walk_start(d, i), d) == walk(table_walk_start(db, i), db));
            assert(chain_shape(db, i));
            lemma_walk_pages_present(table_walk_start(db, i), db);
            assert(d.header.tables[i] == ts[i]);
            assert(page_at(d, pj[0].0) == page_at(db, pj[0].0)) by {
                assert(pj[0] != t.first_page && pj[0] != t.last_page && pj[0].0 != ec);
            }
            assert forall|k: int| 1 <= k < pj.len() implies (page_at(d, (#[trigger] pj[k]).0) matches Some(q)
                && !is_free_space_flags(q.header.page_flags) && q.content is Data) by {
                assert(pj[k] != t.first_page && pj[k] != t.last_page && pj[k].0 != ec);
                assert(page_at(db, pj[k].0) is Some);
            }
        }
    }
    assert forall|i: int| 0 <= i < d.header.tables.len() implies (#[trigger] d.header.tables[i]).first_page == db.header.tables[i].first_page by {
        if i != ti {
            assert(d.header.tables[i] == ts[i]);
        }
    }
}

} // verus!
