//! Walking the page chain of a table.
use super::database::{find_table, lemma_find_table, missing_page, page_at, Database, DatabaseView};
use super::types::{
    rows_view, PageContent, PageContentView, PageIndex, PageType, PdbError, Row, RowView,
};
use vstd::prelude::*;

verus! {

/// The state of a walk along a table's page chain. Pages are visited in increasing order: the
/// walk keeps the pages after the last visited one, and a chain that goes back is an error.
#[derive(Debug, Clone, Copy, PartialEq, Eq, Structural)]
pub struct PageIterator {
    /// The number of the first page still ahead of the walk.
    pub offset: u64,
    /// How many pages are still ahead of the walk.
    pub remaining: u64,
    /// The next page to visit, if any.
    pub next_page: Option<PageIndex>,
    /// The table's last page, after which the walk stops.
    pub last_page: PageIndex,
}

/// One step of a walk: the state after it and the page visited, `None` at the end, or the
/// error that stopped it.
pub open spec fn next_spec(it: PageIterator, db: DatabaseView) -> (PageIterator, Result<Option<PageIndex>, PdbError>) {
    match it.next_page {
        None => (it, Ok(None)),
        Some(pi) => {
            if (pi.0 as int) < it.offset {
                (it, Err(PdbError::PageOrderViolation(pi)))
            } else {
                let si = pi.0 - it.offset;
                if si >= it.remaining {
                    (PageIterator { remaining: 0, ..it }, Err(PdbError::PageNotPresent(pi)))
                } else {
                    let moved = PageIterator {
                        remaining: (it.remaining - si - 1) as u64,
                        offset: (pi.0 + 1) as u64,
                        ..it
                    };
                    match page_at(db, pi.0) {
                        None => (moved, Err(missing_page(db, pi.0))),
                        Some(p) => (
                            PageIterator {
                                next_page: if pi == it.last_page {
                                    None
                                } else {
                                    Some(p.header.next_page)
                                },
                                ..moved
                            },
                            Ok(Some(pi)),
                        ),
                    }
                }
            }
        },
    }
}

/// A walk that starts at the beginning of the page list agrees with the database: the pages
/// ahead of it are exactly those from `offset` on.
pub open spec fn iter_wf(it: PageIterator, db: DatabaseView) -> bool {
    &&& 1 <= it.offset
    &&& it.remaining == 0 || it.offset + it.remaining == db.pages.len() + 1
}

/// The pages that a walk visits until it ends or fails, and the error if it fails.
pub open spec fn walk(it: PageIterator, db: DatabaseView) -> (Seq<PageIndex>, Option<PdbError>)
    decreases it.remaining,
{
    let (it2, r) = next_spec(it, db);
    match r {
        Ok(Some(pi)) => if it2.remaining < it.remaining {
            let (rest, e) = walk(it2, db);
            (seq![pi] + rest, e)
        } else {
            (seq![pi], None)
        },
        Ok(None) => (Seq::empty(), None),
        Err(e) => (Seq::empty(), Some(e)),
    }
}

/// A walk along the chain of a table, from its first page to its last page.
pub open spec fn table_walk_start(db: DatabaseView, ti: int) -> PageIterator {
    let t = db.header.tables[ti];
    PageIterator {
        offset: 1,
        remaining: db.pages.len() as u64,
        next_page: Some(t.first_page),
        last_page: t.last_page,
    }
}

impl PageIterator {
    /// Visits the next page of the chain.
    pub fn next(&mut self, db: &Database) -> (r: Result<Option<PageIndex>, PdbError>)
        requires
            iter_wf(*old(self), db@),
        ensures
            (*final(self), r) == next_spec(*old(self), db@),
            iter_wf(*final(self), db@),
    {
        let pi = match self.next_page {
            None => return Ok(None),
            Some(pi) => pi,
        };
        if (pi.0 as u64) < self.offset {
            return Err(PdbError::PageOrderViolation(pi));
        }
        let si = pi.0 as u64 - self.offset;
        if si >= self.remaining {
            self.remaining = 0;
            return Err(PdbError::PageNotPresent(pi));
        }
        self.remaining = self.remaining - si - 1;
        self.offset = pi.0 as u64 + 1;
        let page = match db.load_page(pi) {
            Ok(p) => p,
            Err(e) => return Err(e),
        };
        if pi == self.last_page {
            self.next_page = None;
        } else {
            self.next_page = Some(page.header.next_page);
        }
        Ok(Some(pi))
    }
}

impl Database {
    /// Starts a walk along the page chain of the table at the given position.
    pub fn iter_pages_for_table(&self, table_index: usize) -> (r: Result<PageIterator, PdbError>)
        ensures
            table_index < self@.header.tables.len() ==> r == Ok::<PageIterator, PdbError>(
                table_walk_start(self@, table_index as int),
            ),
            table_index >= self@.header.tables.len() ==> r == Err::<PageIterator, PdbError>(
                PdbError::TableNotPresent(table_index),
            ),
            r matches Ok(it) ==> iter_wf(it, self@),
    {
        if table_index >= self.header.tables.len() {
            return Err(PdbError::TableNotPresent(table_index));
        }
        let t = self.header.tables[table_index];
        Ok(
            PageIterator {
                offset: 1,
                remaining: self.pages.len() as u64,
                next_page: Some(t.first_page),
                last_page: t.last_page,
            },
        )
    }

    /// Starts a walk along the page chain of the first table with the given type.
    pub fn iter_pages(&self, page_type: PageType) -> (r: Result<PageIterator, PdbError>)
        ensures
            match find_table(self@.header.tables, page_type) {
                Some(ti) => r == Ok::<PageIterator, PdbError>(table_walk_start(self@, ti)),
                None => r == Err::<PageIterator, PdbError>(PdbError::TableTypeNotPresent(page_type)),
            },
            r matches Ok(it) ==> iter_wf(it, self@),
    {
        proof {
            lemma_find_table(self@.header.tables, page_type);
        }
        match self.find_table(page_type) {
            Some(ti) => self.iter_pages_for_table(ti),
            None => Err(PdbError::TableTypeNotPresent(page_type)),
        }
    }

    /// The pages that a walk visits until it ends, or the error that stops it.
    pub fn collect_pages(&self, from: PageIterator) -> (r: Result<Vec<PageIndex>, PdbError>)
        requires
            iter_wf(from, self@),
        ensures
            match walk(from, self@) {
                (ps, None) => r matches Ok(v) && v@ == ps,
                (_, Some(e)) => r == Err::<Vec<PageIndex>, PdbError>(e),
            },
    {
        let mut it = from;
        let mut out: Vec<PageIndex> = Vec::new();
        loop
            invariant
                iter_wf(it, self@),
                walk(from, self@) == (
                    out@ + walk(it, self@).0,
                    walk(it, self@).1,
                ),
            decreases it.remaining,
        {
            let ghost before = it;
            match it.next(self) {
                Ok(Some(pi)) => {
                    proof {
                        assert(it.remaining < before.remaining);
                        assert(out@.push(pi) + walk(it, self@).0 =~= out@ + (seq![pi] + walk(
                            it,
                            self@,
                        ).0));
                    }
                    out.push(pi);
                },
                Ok(None) => {
                    proof {
                        assert(walk(before, self@) == (Seq::<PageIndex>::empty(), None::<PdbError>));
                        assert(out@ + Seq::<PageIndex>::empty() =~= out@);
                    }
                    return Ok(out);
                },
                Err(e) => {
                    proof {
                        assert(walk(before, self@) == (Seq::<PageIndex>::empty(), Some(e)));
                    }
                    return Err(e);
                },
            }
        }
    }
}

/// The rows of a page: those of a data page, none for a free-space page or a missing page.
pub open spec fn page_rows(db: DatabaseView, x: PageIndex) -> Seq<RowView> {
    match page_at(db, x.0) {
        Some(p) => match p.content {
            PageContentView::Data(rows) => rows,
            PageContentView::FreeSpace(_, _) => Seq::empty(),
        },
        None => Seq::empty(),
    }
}

/// The rows of the data pages among the given pages, page by page.
pub open spec fn rows_on_pages(db: DatabaseView, ps: Seq<PageIndex>) -> Seq<RowView>
    decreases ps.len(),
{
    if ps.len() == 0 {
        Seq::empty()
    } else {
        rows_on_pages(db, ps.drop_last()) + page_rows(db, ps.last())
    }
}

/// Every page that a walk visits is in the database.
pub proof fn lemma_walk_pages_present(it: PageIterator, db: DatabaseView)
    ensures
        forall|i: int| 0 <= i < walk(it, db).0.len() ==> page_at(db, (#[trigger] walk(it, db).0[i]).0) is Some,
    decreases it.remaining,
{
    let (it2, r) = next_spec(it, db);
    if let Ok(Some(pi)) = r {
        if it2.remaining < it.remaining {
            lemma_walk_pages_present(it2, db);
            let (rest, e) = walk(it2, db);
            assert forall|i: int| 0 <= i < walk(it, db).0.len() implies page_at(db, (#[trigger] walk(it, db).0[i]).0) is Some by {
                if i > 0 {
                    assert(walk(it, db).0[i] == rest[i - 1]);
                }
            }
        }
    }
}

impl Database {
    /// The rows of the first table with the given type, in the order of its page chain.
    pub fn iter_rows(&self, page_type: PageType) -> (r: Result<Vec<&Row>, PdbError>)
        ensures
            match find_table(self@.header.tables, page_type) {
                None => r == Err::<Vec<&Row>, PdbError>(PdbError::TableTypeNotPresent(page_type)),
                Some(ti) => match walk(table_walk_start(self@, ti), self@) {
                    (ps, None) => r matches Ok(v) && v@.map_values(|x: &Row| x@) == rows_on_pages(self@, ps),
                    (_, Some(e)) => r == Err::<Vec<&Row>, PdbError>(e),
                },
            },
    {
        let it = match self.iter_pages(page_type) {
            Ok(it) => it,
            Err(e) => return Err(e),
        };
        let pages = match self.collect_pages(it) {
            Ok(p) => p,
            Err(e) => return Err(e),
        };
        proof {
            lemma_walk_pages_present(it, self@);
        }
        let mut out: Vec<&Row> = Vec::new();
        let mut i: usize = 0;
        while i < pages.len()
            invariant
                i <= pages.len(),
                forall|k: int| 0 <= k < pages@.len() ==> page_at(self@, (#[trigger] pages@[k]).0) is Some,
                out@.map_values(|x: &Row| x@) == rows_on_pages(self@, pages@.take(i as int)),
            decreases pages.len() - i,
        {
            let pi = pages[i];
            proof {
                assert(pages@.take(i + 1).drop_last() =~= pages@.take(i as int));
                assert(pages@.take(i + 1).last() == pi);
                assert(page_at(self@, pi.0) is Some);
            }
            let page = match self.load_page(pi) {
                Ok(p) => p,
                Err(e) => {
                    proof {
                        assert(false);
                    }
                    return Err(e);
                },
            };
            match &page.content {
                PageContent::Data(rows) => {
                    let mut k: usize = 0;
                    let ghost base = out@;
                    while k < rows.len()
                        invariant
                            k <= rows.len(),
                            out@.map_values(|x: &Row| x@) == base.map_values(|x: &Row| x@) + rows_view(
                                rows@.take(k as int),
                            ),
                        decreases rows.len() - k,
                    {
                        let ghost before = out@;
                        out.push(&rows[k]);
                        proof {
                            assert(rows@.take(k + 1) =~= rows@.take(k as int).push(rows@[k as int]));
                            assert(out@.map_values(|x: &Row| x@) =~= before.map_values(|x: &Row| x@).push(
                                rows@[k as int]@,
                            ));
                            assert(rows_view(rows@.take(k + 1)) =~= rows_view(rows@.take(k as int)).push(
                                rows@[k as int]@,
                            ));
                        }
                        k = k + 1;
                    }
                    proof {
                        assert(rows@.take(k as int) =~= rows@);
                        assert(out@.map_values(|x: &Row| x@) =~= base.map_values(|x: &Row| x@) + rows_view(rows@));
                    }
                },
                PageContent::FreeSpace(_, _) => {
                    proof {
                        assert(out@.map_values(|x: &Row| x@) =~= rows_on_pages(self@, pages@.take(i + 1)));
                    }
                },
            }
            i = i + 1;
        }
        proof {
            assert(pages@.take(i as int) =~= pages@);
        }
        Ok(out)
    }
}

/// A walk that ends without error visits pages in increasing order and ends at the table's
/// last page.
pub proof fn lemma_walk_shape(it: PageIterator, db: DatabaseView)
    requires
        it.next_page is Some,
        walk(it, db).1 is None,
    ensures
        walk(it, db).0.len() > 0,
        walk(it, db).0.last() == it.last_page,
        forall|i: int| 0 <= i < walk(it, db).0.len() ==> (#[trigger] walk(it, db).0[i]).0 >= it.offset,
        forall|i: int| 0 <= i < walk(it, db).0.len() - 1 ==> (#[trigger] walk(it, db).0[i]).0 < it.last_page.0,
    decreases it.remaining,
{
    let pi = it.next_page->Some_0;
    let (it1, r1) = next_spec(it, db);
    let ps = walk(it, db).0;
    let rest = walk(it1, db).0;
    assert(ps == seq![pi] + rest);
    if pi == it.last_page {
        assert(rest.len() == 0);
        assert(ps =~= seq![pi]);
    } else {
        lemma_walk_shape(it1, db);
        assert(rest.last() == rest[rest.len() - 1]);
        assert forall|i: int| 0 <= i < ps.len() implies (#[trigger] ps[i]).0 >= it.offset by {
            if i > 0 {
                assert(ps[i] == rest[i - 1]);
            }
        }
        assert forall|i: int| 0 <= i < ps.len() - 1 implies (#[trigger] ps[i]).0 < it.last_page.0 by {
            if i > 0 {
                assert(ps[i] == rest[i - 1]);
            }
        }
    }
}

/// A walk in a database that agrees with another on every page the walk visits before its
/// last page visits the same pages; where the table's last page now points on to a later
/// new last page, the walk goes on to it.
pub proof fn lemma_walk_frame(it: PageIterator, db: DatabaseView, d: DatabaseView, new_last: PageIndex, extra: nat)
    requires
        it.next_page is Some,
        it.offset + it.remaining == db.pages.len() + 1,
        walk(it, db).1 is None,
        d.pages.len() == db.pages.len() + extra,
        d.pages.len() < u32::MAX,
        forall|i: int| 0 <= i < walk(it, db).0.len() - 1 ==> page_at(d, (#[trigger] walk(it, db).0[i]).0) == page_at(db, walk(it, db).0[i].0),
        new_last == it.last_page ==> page_at(d, it.last_page.0) is Some,
        new_last != it.last_page ==> {
            &&& page_at(d, it.last_page.0) matches Some(p) && p.header.next_page == new_last
            &&& it.last_page.0 < new_last.0 <= d.pages.len()
            &&& page_at(d, new_last.0) is Some
        },
    ensures
        walk(PageIterator { remaining: (it.remaining + extra) as u64, last_page: new_last, ..it }, d) == (
            if new_last == it.last_page {
                walk(it, db).0
            } else {
                walk(it, db).0.push(new_last)
            },
            None::<PdbError>,
        ),
    decreases it.remaining,
{
    lemma_walk_shape(it, db);
    let pi = it.next_page->Some_0;
    let (it1, r1) = next_spec(it, db);
    let it2 = PageIterator { remaining: (it.remaining + extra) as u64, last_page: new_last, ..it };
    let ps = walk(it, db).0;
    assert(r1 matches Ok(Some(x)) && x == pi);
    assert(it1.remaining < it.remaining);
    let rest = walk(it1, db).0;
    assert(ps == seq![pi] + rest);
    if pi == it.last_page {
        assert(it1.next_page is None);
        assert(rest.len() == 0);
        assert(ps =~= seq![pi]);
        assert(ps[0] == pi);
        let (d1, e1) = next_spec(it2, d);
        if new_last == it.last_page {
            assert(d1.next_page is None);
            assert(walk(d1, d) == (Seq::<PageIndex>::empty(), None::<PdbError>));
            assert(walk(it2, d).0 =~= seq![pi]);
        } else {
            assert(d1.next_page == Some(new_last));
            assert(d1.offset == pi.0 + 1);
            assert(d1.remaining < it2.remaining);
            let (d2, e2) = next_spec(d1, d);
            assert(e2 == Ok::<Option<PageIndex>, PdbError>(Some(new_last)));
            assert(d2.next_page is None);
            assert(d2.remaining < d1.remaining);
            assert(walk(d2, d) == (Seq::<PageIndex>::empty(), None::<PdbError>));
            assert(walk(d1, d).0 =~= seq![new_last]);
            assert(walk(it2, d).0 =~= seq![pi, new_last]);
            assert(ps.push(new_last) =~= seq![pi, new_last]);
        }
    } else {
        assert(it1.next_page is Some);
        assert forall|i: int| 0 <= i < rest.len() - 1 implies page_at(d, (#[trigger] rest[i]).0) == page_at(db, rest[i].0) by {
            assert(rest[i] == ps[i + 1]);
        }
        lemma_walk_shape(it1, db);
        lemma_walk_frame(it1, db, d, new_last, extra);
        assert(ps.len() >= 2);
        assert(rest.last() == rest[rest.len() - 1]);
        assert(it.last_page.0 >= pi.0 + 1);
        assert(ps[0] == pi);
        assert(page_at(d, pi.0) == page_at(db, pi.0));
        let (d1, e1) = next_spec(it2, d);
        assert(d1 == PageIterator { remaining: (it1.remaining + extra) as u64, last_page: new_last, ..it1 });
        if new_last == it.last_page {
            assert(walk(it2, d).0 =~= seq![pi] + rest);
        } else {
            assert(walk(it2, d).0 =~= seq![pi] + rest.push(new_last));
            assert(ps.push(new_last) =~= seq![pi] + rest.push(new_last));
        }
    }
}

/// The rows on pages that agree in two databases are the same.
pub proof fn lemma_rows_frame(db: DatabaseView, d: DatabaseView, ps: Seq<PageIndex>)
    requires
        forall|i: int| 0 <= i < ps.len() ==> page_at(d, (#[trigger] ps[i]).0) == page_at(db, ps[i].0),
    ensures
        rows_on_pages(d, ps) == rows_on_pages(db, ps),
    decreases ps.len(),
{
    if ps.len() > 0 {
        lemma_rows_frame(db, d, ps.drop_last());
        assert(ps.last() == ps[ps.len() - 1]);
    }
}

/// Pages that follow each other in a chain: each exists, comes before the next and points to
/// it, and none but possibly the final one is the chain's last page.
pub open spec fn linked(db: DatabaseView, cs: Seq<PageIndex>, last: PageIndex) -> bool {
    forall|i: int|
        0 <= i < cs.len() ==> {
            &&& 1 <= (#[trigger] cs[i]).0 <= db.pages.len()
            &&& page_at(db, cs[i].0) is Some
            &&& i + 1 < cs.len() ==> {
                &&& cs[i].0 < cs[i + 1].0
                &&& page_at(db, cs[i].0)->Some_0.header.next_page == cs[i + 1]
                &&& cs[i] != last
            }
        }
}

/// The outcome of a walk along linked pages: the pages, then the end where the final page is
/// the last page, or else what the final page's next page leads to.
pub open spec fn linked_outcome(db: DatabaseView, cs: Seq<PageIndex>, last: PageIndex) -> Option<PdbError> {
    if cs.last() == last {
        None
    } else {
        let c = page_at(db, cs.last().0)->Some_0.header.next_page;
        if c.0 <= cs.last().0 {
            Some(PdbError::PageOrderViolation(c))
        } else if c.0 > db.pages.len() {
            Some(PdbError::PageNotPresent(c))
        } else if page_at(db, c.0) is None {
            Some(PdbError::PageNotLoaded(c))
        } else {
            None
        }
    }
}

/// Successive steps of a walk visit the linked pages of a chain in order and then stop for
/// good at its last page; a chain that goes back stops with `PageOrderViolation`, one that
/// goes past the page list stops with `PageNotPresent`, and one that reaches a page whose
/// content was not read stops with `PageNotLoaded`, naming the page it would visit.
pub proof fn lemma_walk_linked(it: PageIterator, db: DatabaseView, cs: Seq<PageIndex>)
    requires
        cs.len() > 0,
        linked(db, cs, it.last_page),
        it.next_page == Some(cs[0]),
        1 <= it.offset <= cs[0].0,
        it.offset + it.remaining == db.pages.len() + 1,
        cs.last() == it.last_page || linked_outcome(db, cs, it.last_page) is Some,
    ensures
        walk(it, db) == (cs, linked_outcome(db, cs, it.last_page)),
    decreases cs.len(),
{
    let c0 = cs[0];
    let (it1, r1) = next_spec(it, db);
    assert(page_at(db, c0.0) is Some);
    assert(r1 == Ok::<Option<PageIndex>, PdbError>(Some(c0)));
    assert(it1.remaining < it.remaining);
    assert(it1.offset == c0.0 + 1);
    assert(it1.offset + it1.remaining == db.pages.len() + 1);
    if cs.len() == 1 {
        if c0 == it.last_page {
            assert(it1.next_page is None);
            assert(walk(it1, db) == (Seq::<PageIndex>::empty(), None::<PdbError>));
            assert(walk(it, db).0 =~= cs);
        } else {
            let c = page_at(db, c0.0)->Some_0.header.next_page;
            assert(it1.next_page == Some(c));
            let (it2, r2) = next_spec(it1, db);
            if c.0 <= c0.0 {
                assert(r2 == Err::<Option<PageIndex>, PdbError>(PdbError::PageOrderViolation(c)));
            } else if c.0 > db.pages.len() {
                assert(c.0 - it1.offset >= it1.remaining);
                assert(r2 == Err::<Option<PageIndex>, PdbError>(PdbError::PageNotPresent(c)));
            } else {
                assert(r2 == Err::<Option<PageIndex>, PdbError>(PdbError::PageNotLoaded(c)));
            }
            assert(walk(it1, db).0 =~= Seq::<PageIndex>::empty());
            assert(walk(it, db).0 =~= cs);
        }
    } else {
        let rest = cs.drop_first();
        assert(c0 != it.last_page);
        assert(it1.next_page == Some(cs[1]));
        assert forall|i: int| 0 <= i < rest.len() implies {
            &&& 1 <= (#[trigger] rest[i]).0 <= db.pages.len()
            &&& page_at(db, rest[i].0) is Some
            &&& i + 1 < rest.len() ==> {
                &&& rest[i].0 < rest[i + 1].0
                &&& page_at(db, rest[i].0)->Some_0.header.next_page == rest[i + 1]
                &&& rest[i] != it.last_page
            }
        } by {
            assert(rest[i] == cs[i + 1]);
            if i + 1 < rest.len() {
                assert(rest[i + 1] == cs[i + 2]);
            }
        }
        assert(rest.last() == cs.last());
        assert(linked_outcome(db, rest, it.last_page) == linked_outcome(db, cs, it.last_page));
        lemma_walk_linked(it1, db, rest);
        assert(walk(it, db).0 =~= seq![c0] + rest);
        assert(seq![c0] + rest =~= cs);
    }
}

/// A walk that has ended stays ended.
pub proof fn lemma_walk_ended(it: PageIterator, db: DatabaseView)
    requires
        it.next_page is None,
    ensures
        next_spec(it, db) == (it, Ok::<Option<PageIndex>, PdbError>(None)),
{
}

} // verus!
