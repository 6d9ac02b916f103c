//! A database held in memory: creating it and adding rows.
use super::types::{
    is_free_space_flags, FreeSpacePageHeader, Header, HeaderView, Page, PageContent,
    PageContentView, PageHeader, PageIndex, PageType, PageView, PdbError, PlainPageType, Row,
    RowView, Table, DatabaseType, DATA_PAGE_FLAGS, FREE_SPACE_PAGE_FLAGS, NEXT_PAGE_SENTINEL,
    rows_view,
};
use vstd::prelude::*;
use vstd::pervasive::VecAdditionalExecFns;

verus! {

/// A database: its kind, its header, and its pages. The page numbered `n` is at position
/// `n - 1`; `None` stands for a page that is not part of what was read.
#[derive(Debug)]
pub struct Database {
    /// The kind of database file.
    pub db_type: DatabaseType,
    /// The file header.
    pub header: Header,
    /// The pages after the header, in page order.
    pub pages: Vec<Option<Page>>,
}

/// The model of a database.
pub struct DatabaseView {
    pub db_type: DatabaseType,
    pub header: HeaderView,
    pub pages: Seq<Option<PageView>>,
}

/// The models of optional pages.
pub open spec fn pages_view(pages: Seq<Option<Page>>) -> Seq<Option<PageView>> {
    pages.map_values(
        |p: Option<Page>|
            match p {
                Some(q) => Some(q@),
                None => None,
            },
    )
}

impl View for Database {
    type V = DatabaseView;

    open spec fn view(&self) -> DatabaseView {
        DatabaseView { db_type: self.db_type, header: self.header@, pages: pages_view(self.pages@) }
    }
}

/// The page with the given number, if the database has it.
pub open spec fn page_at(db: DatabaseView, index: u32) -> Option<PageView> {
    if 1 <= index <= db.pages.len() {
        db.pages[index - 1]
    } else {
        None
    }
}

/// The error for a page number whose page the database does not hold: a number beyond its
/// pages, or a number within them whose content was not read.
pub open spec fn missing_page(db: DatabaseView, index: u32) -> PdbError {
    if 1 <= index <= db.pages.len() {
        PdbError::PageNotLoaded(PageIndex(index))
    } else {
        PdbError::PageNotPresent(PageIndex(index))
    }
}

/// The position of the first table with the given type.
pub open spec fn find_table(tables: Seq<Table>, t: PageType) -> Option<int>
    decreases tables.len(),
{
    if tables.len() == 0 {
        None
    } else {
        match find_table(tables.drop_last(), t) {
            Some(i) => Some(i),
            None => if tables.last().page_type == t {
                Some(tables.len() - 1)
            } else {
                None
            },
        }
    }
}

/// The table that `find_table` finds has the type asked for; no table of that type means
/// `find_table` finds none.
pub proof fn lemma_find_table(tables: Seq<Table>, t: PageType)
    ensures
        match find_table(tables, t) {
            Some(i) => 0 <= i < tables.len() && tables[i].page_type == t && forall|j: int|
                0 <= j < i ==> tables[j].page_type != t,
            None => forall|j: int| 0 <= j < tables.len() ==> tables[j].page_type != t,
        },
    decreases tables.len(),
{
    if tables.len() > 0 {
        lemma_find_table(tables.drop_last(), t);
        assert forall|j: int| 0 <= j < tables.len() - 1 implies tables[j] == tables.drop_last()[j] by {}
    }
}

/// The bytes of a page that rows can use: the page without its page header and data header.
pub open spec fn heap_size(page_size: u32) -> u16 {
    (page_size - 40) as u16
}

/// The number of rows in a row group.
pub const ROWS_PER_GROUP: usize = 16;

/// The heap bytes a new row takes on a page that holds `n` rows: its bytes, its offset entry,
/// and the flags of a new row group when it starts one.
pub open spec fn row_cost(n: int, bytes: int) -> int {
    bytes + 2 + if n % 16 == 0 {
        4int
    } else {
        0int
    }
}

/// Whether a row can be stored on a page.
pub open spec fn fits(p: PageView, r: RowView) -> bool {
    match p.content {
        PageContentView::Data(rows) => {
            &&& row_cost(rows.len() as int, r.data.len() as int) <= p.header.free_size
            &&& p.header.used_size + r.data.len() <= u16::MAX
        },
        PageContentView::FreeSpace(_, _) => false,
    }
}

/// The page after storing a row on it.
pub open spec fn stored(p: PageView, r: RowView) -> PageView {
    match p.content {
        PageContentView::Data(rows) => PageView {
            header: PageHeader {
                free_size: (p.header.free_size - row_cost(rows.len() as int, r.data.len() as int)) as u16,
                used_size: (p.header.used_size + r.data.len()) as u16,
                ..p.header
            },
            content: PageContentView::Data(rows.push(r)),
        },
        PageContentView::FreeSpace(_, _) => p,
    }
}

/// An empty data page of a table.
pub open spec fn fresh_page(index: u32, page_type: PageType, next_page: u32, page_size: u32) -> PageView {
    PageView {
        header: PageHeader {
            page_index: PageIndex(index),
            page_type,
            next_page: PageIndex(next_page),
            page_sequence: 0,
            unknown2: 0,
            page_flags: DATA_PAGE_FLAGS,
            free_size: heap_size(page_size),
            used_size: 0,
        },
        content: PageContentView::Data(Seq::empty()),
    }
}

/// Whether a page is an empty data page with the whole heap free.
pub open spec fn is_fresh(p: PageView, page_size: u32) -> bool {
    &&& p.content == PageContentView::Data(Seq::empty())
    &&& p.header.free_size == heap_size(page_size)
    &&& p.header.used_size == 0
}

/// The database with one page replaced.
pub open spec fn with_page(db: DatabaseView, index: u32, p: PageView) -> DatabaseView {
    DatabaseView { pages: db.pages.update(index - 1, Some(p)), ..db }
}

/// The database with one table replaced.
pub open spec fn with_table(db: DatabaseView, ti: int, t: Table) -> DatabaseView {
    DatabaseView { header: HeaderView { tables: db.header.tables.update(ti, t), ..db.header }, ..db }
}

/// The outcome of promoting a table's empty candidate to its last data page: the candidate
/// points to a new empty candidate placed at the first unused page number and takes the next
/// page sequence number.
pub open spec fn promote_spec(db: DatabaseView, ti: int) -> Result<DatabaseView, PdbError> {
    let t = db.header.tables[ti];
    let ec = t.empty_candidate;
    let new_ec = db.header.next_unused_page.0;
    let seq = db.header.next_page_sequence;
    let pages1 = if 1 <= ec <= db.pages.len() {
        match db.pages[ec - 1] {
            Some(p) => db.pages.update(
                ec - 1,
                Some(
                    PageView {
                        header: PageHeader {
                            next_page: PageIndex(new_ec),
                            page_sequence: seq,
                            ..p.header
                        },
                        ..p
                    },
                ),
            ),
            None => db.pages,
        }
    } else {
        db.pages
    };
    if 1 <= ec <= db.pages.len() && db.pages[ec - 1] is None {
        Err(PdbError::PageNotLoaded(PageIndex(ec)))
    } else {
        Ok(
            DatabaseView {
                db_type: db.db_type,
                header: HeaderView {
                    next_unused_page: PageIndex((new_ec + 1) as u32),
                    next_page_sequence: (seq + 1) as u32,
                    tables: db.header.tables.update(
                        ti,
                        Table { last_page: PageIndex(ec), empty_candidate: new_ec, ..t },
                    ),
                    ..db.header
                },
                pages: pages1.push(
                    Some(fresh_page(new_ec, t.page_type, (new_ec + 1) as u32, db.header.page_size)),
                ),
            },
        )
    }
}

/// The database with a free-space page pointing to the table's first data page.
pub open spec fn link_free_space(db: DatabaseView, index: u32, first_data: u32) -> DatabaseView {
    match page_at(db, index) {
        Some(p) => match p.content {
            PageContentView::FreeSpace(h, e) => with_page(
                db,
                index,
                PageView {
                    content: PageContentView::FreeSpace(
                        FreeSpacePageHeader { next_page: PageIndex(first_data), ..h },
                        e,
                    ),
                    ..p
                },
            ),
            PageContentView::Data(_) => db,
        },
        None => db,
    }
}

/// The database with a page pointing to another page as the next in its chain.
pub open spec fn link_page(db: DatabaseView, index: u32, next: u32) -> DatabaseView {
    match page_at(db, index) {
        Some(p) => with_page(
            db,
            index,
            PageView { header: PageHeader { next_page: PageIndex(next), ..p.header }, ..p },
        ),
        None => db,
    }
}

/// Stores a row on a table's last page, which exists.
pub open spec fn store_on_last(db: DatabaseView, ti: int, r: RowView) -> (DatabaseView, Result<(), PdbError>) {
    let last = db.header.tables[ti].last_page.0;
    match page_at(db, last) {
        None => (db, Err(missing_page(db, last))),
        Some(p) => if fits(p, r) {
            (with_page(db, last, stored(p, r)), Ok(()))
        } else {
            match promote_spec(db, ti) {
                Err(e) => (db, Err(e)),
                Ok(db2) => {
                    let new_last = db2.header.tables[ti].last_page.0;
                    let db3 = link_page(db2, last, new_last);
                    match page_at(db3, new_last) {
                        Some(q) => (with_page(db3, new_last, stored(q, r)), Ok(())),
                        None => (db3, Ok(())),
                    }
                },
            }
        },
    }
}

/// The outcome of inserting a row: the table of the row's type gets a first data page if it
/// has none, and the row goes on the table's last page, or on a new last page if it does not
/// fit there.
pub open spec fn insert_spec(db: DatabaseView, r: RowView) -> (DatabaseView, Result<(), PdbError>) {
    match find_table(db.header.tables, r.page_type) {
        None => (db, Err(PdbError::TableTypeNotPresent(r.page_type))),
        Some(ti) => {
            let t = db.header.tables[ti];
            if t.last_page == t.first_page {
                match promote_spec(db, ti) {
                    Err(e) => (db, Err(e)),
                    Ok(db1) => store_on_last(
                        link_free_space(db1, t.first_page.0, t.empty_candidate),
                        ti,
                        r,
                    ),
                }
            } else {
                store_on_last(db, ti, r)
            }
        },
    }
}

/// An empty candidate page as `Database::create` and promotion make it: fresh, numbered as
/// its position, and flagged as a data page.
pub open spec fn ec_page_ok(p: PageView, index: u32, page_size: u32) -> bool {
    &&& is_fresh(p, page_size)
    &&& p.header.page_index.0 == index
    &&& p.header.unknown2 == 0
    &&& p.header.page_flags == DATA_PAGE_FLAGS
}

/// What `insert_row` needs of a database: the page count agrees with the first unused page
/// number, every table's pages exist in the page list, empty candidates are absent or empty
/// data pages that belong to no chain, and no two tables share a page.
pub open spec fn db_wf(db: DatabaseView) -> bool {
    let n = db.pages.len();
    let ts = db.header.tables;
    &&& db.header.next_unused_page.0 == n + 1
    &&& db.header.page_size >= 40
    &&& forall|i: int|
        0 <= i < ts.len() ==> {
            &&& 1 <= (#[trigger] ts[i]).first_page.0 <= n
            &&& 1 <= ts[i].last_page.0 <= n
            &&& 1 <= ts[i].empty_candidate <= n
            &&& match page_at(db, ts[i].empty_candidate) {
                Some(p) => ec_page_ok(p, ts[i].empty_candidate, db.header.page_size),
                None => true,
            }
        }
    &&& forall|i: int, j: int|
        0 <= i < ts.len() && 0 <= j < ts.len() ==> {
            &&& (#[trigger] ts[i]).empty_candidate != (#[trigger] ts[j]).first_page.0
            &&& ts[i].empty_candidate != ts[j].last_page.0
            &&& i != j ==> {
                &&& ts[i].empty_candidate != ts[j].empty_candidate
                &&& ts[i].first_page != ts[j].first_page
                &&& ts[i].first_page != ts[j].last_page
                &&& ts[i].last_page != ts[j].last_page
            }
        }
}

impl Database {
    /// The position of the first table with the given type.
    pub fn find_table(&self, t: PageType) -> (r: Option<usize>)
        ensures
            match r {
                Some(i) => find_table(self@.header.tables, t) == Some(i as int),
                None => find_table(self@.header.tables, t) is None,
            },
    {
        let mut i: usize = 0;
        let mut found: Option<usize> = None;
        while i < self.header.tables.len()
            invariant
                i <= self.header.tables.len(),
                match found {
                    Some(k) => find_table(self@.header.tables.take(i as int), t) == Some(k as int),
                    None => find_table(self@.header.tables.take(i as int), t) is None,
                },
            decreases self.header.tables.len() - i,
        {
            proof {
                assert(self@.header.tables.take(i + 1).drop_last() =~= self@.header.tables.take(
                    i as int,
                ));
            }
            if found.is_none() && self.header.tables[i].page_type == t {
                found = Some(i);
            }
            i = i + 1;
        }
        proof {
            assert(self@.header.tables.take(i as int) =~= self@.header.tables);
        }
        found
    }

    /// The page with the given number: `PageNotPresent` for a number beyond the pages,
    /// `PageNotLoaded` for a page within them whose content was not read.
    pub fn load_page(&self, index: PageIndex) -> (r: Result<&Page, PdbError>)
        ensures
            match page_at(self@, index.0) {
                Some(p) => r matches Ok(q) && q@ == p,
                None => r == Err::<&Page, PdbError>(missing_page(self@, index.0)),
            },
            r == Err::<&Page, PdbError>(PdbError::PageNotPresent(index)) <==> !(1 <= index.0
                <= self@.pages.len()),
    {
        if index.0 == 0 || index.0 as usize > self.pages.len() {
            return Err(PdbError::PageNotPresent(index));
        }
        let i = index.0 as usize - 1;
        match &self.pages[i] {
            Some(p) => Ok(p),
            None => Err(PdbError::PageNotLoaded(index)),
        }
    }

    /// Takes the page at a position out of the page list.
    fn take_page(&mut self, i: usize) -> (r: Option<Page>)
        requires
            i < old(self).pages.len(),
        ensures
            final(self).pages@ == old(self).pages@.update(i as int, None),
            r == old(self).pages@[i as int],
            final(self).header == old(self).header,
            final(self).db_type == old(self).db_type,
    {
        let mut slot: Option<Page> = None;
        std::mem::swap(&mut self.pages[i], &mut slot);
        slot
    }

    /// Puts a page at a position of the page list.
    fn put_page(&mut self, i: usize, p: Page)
        requires
            i < old(self).pages.len(),
        ensures
            final(self).pages@ == old(self).pages@.update(i as int, Some(p)),
            final(self).header == old(self).header,
            final(self).db_type == old(self).db_type,
    {
        self.pages[i] = Some(p);
    }
}

impl Database {
    /// Promotes a table's empty candidate to its last data page and places a new empty
    /// candidate at the first unused page number.
    fn promote(&mut self, ti: usize) -> (r: Result<(), PdbError>)
        requires
            ti < old(self).header.tables.len(),
            old(self).header.next_unused_page.0 < u32::MAX,
            old(self).header.next_page_sequence < u32::MAX,
            old(self).header.page_size >= 40,
        ensures
            match promote_spec(old(self)@, ti as int) {
                Ok(d) => r is Ok && final(self)@ == d,
                Err(e) => r == Err::<(), PdbError>(e) && final(self)@ == old(self)@,
            },
    {
        let page_size = self.header.page_size;
        let new_ec = self.header.next_unused_page.0;
        let after = new_ec + 1;
        let seq = self.header.next_page_sequence;
        let t = self.header.tables[ti];
        let ec = t.empty_candidate;
        if ec >= 1 && (ec as usize) <= self.pages.len() {
            let i = ec as usize - 1;
            match self.take_page(i) {
                None => {
                    proof {
                        assert(self.pages@ =~= old(self).pages@);
                    }
                    return Err(PdbError::PageNotLoaded(PageIndex(ec)));
                },
                Some(mut p) => {
                    p.header.next_page = PageIndex(new_ec);
                    p.header.page_sequence = seq;
                    self.put_page(i, p);
                },
            }
        }
        let ghost pages1 = self@.pages;
        self.header.tables.set(
            ti,
            Table { last_page: PageIndex(ec), empty_candidate: new_ec, ..t },
        );
        self.header.next_unused_page = PageIndex(after);
        self.header.next_page_sequence = seq + 1;
        let fresh = Page {
            header: PageHeader {
                page_index: PageIndex(new_ec),
                page_type: t.page_type,
                next_page: PageIndex(after),
                page_sequence: 0,
                unknown2: 0,
                page_flags: DATA_PAGE_FLAGS,
                free_size: (page_size - 40) as u16,
                used_size: 0,
            },
            content: PageContent::Data(Vec::new()),
        };
        self.pages.push(Some(fresh));
        proof {
            assert(rows_view(Seq::<Row>::empty()) =~= Seq::<RowView>::empty());
            assert(self@.pages =~= pages1.push(
                Some(fresh_page(new_ec, t.page_type, after, page_size)),
            ));
            let d = promote_spec(old(self)@, ti as int);
            if 1 <= ec <= old(self)@.pages.len() {
                assert(pages1 =~= match old(self)@.pages[ec - 1] {
                    Some(p) => old(self)@.pages.update(
                        ec - 1,
                        Some(
                            PageView {
                                header: PageHeader {
                                    next_page: PageIndex(new_ec),
                                    page_sequence: seq,
                                    ..p.header
                                },
                                ..p
                            },
                        ),
                    ),
                    None => old(self)@.pages,
                });
            } else {
                assert(pages1 =~= old(self)@.pages);
            }
            assert(self@.header.tables =~= d->Ok_0.header.tables);
            assert(self@.pages =~= d->Ok_0.pages);
        }
        Ok(())
    }
}

/// Stores a row on a page where it fits; hands both back where it does not.
fn try_store(p: Page, row: Row) -> (r: Result<Page, (Page, Row)>)
    ensures
        fits(p@, row@) ==> (r matches Ok(q) && q@ == stored(p@, row@)),
        !fits(p@, row@) ==> (r matches Err((q, w)) && q == p && w == row),
{
    let Page { header, content } = p;
    match content {
        PageContent::Data(mut rows) => {
            let n = rows.len();
            let bytes = row.data.len();
            let group: usize = if n % ROWS_PER_GROUP == 0 {
                4
            } else {
                0
            };
            if bytes > 0xFFFF || bytes + 2 + group > header.free_size as usize || header.used_size
                as usize + bytes > 0xFFFF {
                return Err((Page { header, content: PageContent::Data(rows) }, row));
            }
            let cost = (bytes + 2 + group) as u16;
            let new_header = PageHeader {
                free_size: header.free_size - cost,
                used_size: (header.used_size as usize + bytes) as u16,
                ..header
            };
            let ghost before = rows@;
            rows.push(row);
            proof {
                assert(rows_view(rows@) =~= rows_view(before).push(row@));
            }
            Ok(Page { header: new_header, content: PageContent::Data(rows) })
        },
        PageContent::FreeSpace(h, e) => Err((Page { header, content: PageContent::FreeSpace(h, e) }, row)),
    }
}

/// What storing a row on a table's last page needs: the table's pages exist in the page list,
/// its empty candidate is fresh or absent and is not its last page, and a fresh page has room
/// for the row.
pub open spec fn store_ready(db: DatabaseView, ti: int, r: RowView) -> bool {
    let t = db.header.tables[ti];
    let n = db.pages.len();
    &&& 0 <= ti < db.header.tables.len()
    &&& n + 2 <= u32::MAX
    &&& db.header.next_unused_page.0 < u32::MAX
    &&& db.header.next_page_sequence < u32::MAX
    &&& db.header.page_size >= 40
    &&& 1 <= t.last_page.0 <= n
    &&& (page_at(db, t.last_page.0) matches Some(p) && !fits(p, r)) ==> {
        &&& 1 <= t.empty_candidate <= n
        &&& (page_at(db, t.empty_candidate) matches Some(q) ==> fits(q, r))
    }
    &&& r.data.len() + 6 <= heap_size(db.header.page_size)
}

/// What `insert_row` needs of a database and a row, once a table of the row's type is found
/// (without one it needs nothing): room for the page headers and for the row on an empty
/// page, counters that can still grow, and page numbers of the row's table
/// that lie in the page list where they are used. Where the row goes to the empty candidate,
/// the candidate must have room for it; where an empty table's candidate has no room, the
/// next candidate is the first unused page.
pub open spec fn insert_ready(db: DatabaseView, r: RowView) -> bool {
    let n = db.pages.len();
    match find_table(db.header.tables, r.page_type) {
        None => true,
        Some(ti) => {
            let t = db.header.tables[ti];
            let ec = t.empty_candidate;
            &&& db.header.page_size >= 40
            &&& r.data.len() + 6 <= heap_size(db.header.page_size)
            &&& db.header.next_page_sequence + 2 <= u32::MAX
            &&& db.header.next_unused_page.0 + 2 <= u32::MAX
            &&& n + 4 <= u32::MAX
            &&& if t.last_page == t.first_page {
                &&& 1 <= ec <= n
                &&& (page_at(db, ec) matches Some(p) && !fits(p, r)) ==> db.header.next_unused_page.0
                    == n + 1
            } else {
                store_ready(db, ti, r)
            }
        },
    }
}

impl Database {
    /// Points the free-space page at `index` to the table's first data page.
    fn link_free_space(&mut self, index: u32, first_data: u32)
        ensures
            final(self)@ == link_free_space(old(self)@, index, first_data),
    {
        if index == 0 || index as usize > self.pages.len() {
            return;
        }
        let i = index as usize - 1;
        match self.take_page(i) {
            None => {
                proof {
                    assert(self.pages@ =~= old(self).pages@);
                }
            },
            Some(p) => {
                let Page { header, content } = p;
                let content = match content {
                    PageContent::FreeSpace(h, e) => PageContent::FreeSpace(
                        FreeSpacePageHeader { next_page: PageIndex(first_data), ..h },
                        e,
                    ),
                    PageContent::Data(rows) => PageContent::Data(rows),
                };
                self.put_page(i, Page { header, content });
                proof {
                    assert(self@.pages =~= link_free_space(old(self)@, index, first_data).pages);
                }
            },
        }
    }

    /// Points the page at `index` to `next` as the next page of its chain.
    fn link_page(&mut self, index: u32, next: u32)
        requires
            1 <= index <= old(self).pages.len(),
        ensures
            final(self)@ == link_page(old(self)@, index, next),
    {
        let i = index as usize - 1;
        match self.take_page(i) {
            None => {
                proof {
                    assert(self.pages@ =~= old(self).pages@);
                }
            },
            Some(mut p) => {
                p.header.next_page = PageIndex(next);
                self.put_page(i, p);
                proof {
                    assert(self@.pages =~= link_page(old(self)@, index, next).pages);
                }
            },
        }
    }

    /// Stores a row on the table's last page, or on a newly promoted last page where it does
    /// not fit.
    fn store_on_last(&mut self, ti: usize, row: Row) -> (r: Result<(), PdbError>)
        requires
            store_ready(old(self)@, ti as int, row@),
        ensures
            (final(self)@, r) == store_on_last(old(self)@, ti as int, row@),
    {
        let last = self.header.tables[ti].last_page.0;
        let i = last as usize - 1;
        let p = match self.take_page(i) {
            None => {
                proof {
                    assert(self.pages@ =~= old(self).pages@);
                }
                return Err(PdbError::PageNotLoaded(PageIndex(last)));
            },
            Some(p) => p,
        };
        let (p, row) = match try_store(p, row) {
            Ok(q) => {
                self.put_page(i, q);
                proof {
                    assert(self@.pages =~= old(self)@.pages.update(i as int, Some(q@)));
                }
                return Ok(());
            },
            Err(back) => back,
        };
        self.put_page(i, p);
        proof {
            assert(self.pages@ =~= old(self).pages@);
        }
        match self.promote(ti) {
            Err(e) => return Err(e),
            Ok(()) => {},
        }
        let ghost db2 = self@;
        let new_last = self.header.tables[ti].last_page.0;
        self.link_page(last, new_last);
        let ghost db3 = self@;
        let j = new_last as usize - 1;
        proof {
            let q0 = page_at(old(self)@, new_last)->Some_0;
            assert(page_at(db2, new_last) is Some);
            assert(fits(q0, row@));
            let q3 = page_at(db3, new_last)->Some_0;
            assert(q3.content == q0.content && q3.header.free_size == q0.header.free_size
                && q3.header.used_size == q0.header.used_size);
            assert(fits(q3, row@));
        }
        let q = match self.take_page(j) {
            Some(q) => q,
            None => {
                proof {
                    assert(false);
                }
                return Ok(());
            },
        };
        match try_store(q, row) {
            Ok(q2) => {
                self.put_page(j, q2);
                proof {
                    assert(self@.pages =~= db3.pages.update(j as int, Some(q2@)));
                }
            },
            Err((q, _)) => {
                proof {
                    assert(false);
                }
                self.put_page(j, q);
            },
        }
        Ok(())
    }

    /// Inserts a row into the table for its type. An empty table first gets its empty
    /// candidate as its first data page; where the row does not fit on the last page, the
    /// empty candidate becomes the new last page.
    pub fn insert_row(&mut self, row: Row) -> (r: Result<(), PdbError>)
        requires
            insert_ready(old(self)@, row@),
        ensures
            (final(self)@, r) == insert_spec(old(self)@, row@),
            db_wf(old(self)@) ==> db_wf(final(self)@),
    {
        let page_type = row.page_type;
        let ti = match self.find_table(page_type) {
            Some(i) => i,
            None => return Err(PdbError::TableTypeNotPresent(page_type)),
        };
        proof {
            lemma_find_table(self@.header.tables, page_type);
        }
        let t = self.header.tables[ti];
        proof {
            assert(self@.header.tables[ti as int] == t);
        }
        if t.last_page == t.first_page {
            match self.promote(ti) {
                Err(e) => return Err(e),
                Ok(()) => {},
            }
            let ghost db1 = self@;
            self.link_free_space(t.first_page.0, t.empty_candidate);
            proof {
                let n = old(self)@.pages.len();
                let ec = t.empty_candidate;
                assert(page_at(self@, ec) == page_at(db1, ec) || (page_at(db1, ec) matches Some(p)
                    && p.content is FreeSpace));
                assert(page_at(self@, (n + 1) as u32) == page_at(db1, (n + 1) as u32) || (page_at(
                    db1,
                    (n + 1) as u32,
                ) matches Some(p) && p.content is FreeSpace));
                assert(store_ready(self@, ti as int, row@));
            }
        }
        let r = self.store_on_last(ti, row);
        proof {
            if db_wf(old(self)@) {
                lemma_insert_wf(old(self)@, row@);
            }
        }
        r
    }
}

/// The page size of a new database.
pub const PAGE_SIZE: u32 = 4096;

/// The number of tables of a new database.
pub const NUM_TABLES: u32 = 20;

/// The type of each table of a new database, by position.
pub open spec fn new_table_type(i: int) -> PageType {
    if i == 0 {
        PageType::Plain(PlainPageType::Tracks)
    } else if i == 1 {
        PageType::Plain(PlainPageType::Genres)
    } else if i == 2 {
        PageType::Plain(PlainPageType::Artists)
    } else if i == 3 {
        PageType::Plain(PlainPageType::Albums)
    } else if i == 4 {
        PageType::Plain(PlainPageType::Labels)
    } else if i == 5 {
        PageType::Plain(PlainPageType::Keys)
    } else if i == 6 {
        PageType::Plain(PlainPageType::Colors)
    } else if i == 7 {
        PageType::Plain(PlainPageType::PlaylistTree)
    } else if i == 8 {
        PageType::Plain(PlainPageType::PlaylistEntries)
    } else if i == 11 {
        PageType::Plain(PlainPageType::HistoryPlaylists)
    } else if i == 12 {
        PageType::Plain(PlainPageType::HistoryEntries)
    } else if i == 13 {
        PageType::Plain(PlainPageType::Artwork)
    } else if i == 16 {
        PageType::Plain(PlainPageType::Columns)
    } else if i == 17 {
        PageType::Plain(PlainPageType::Menu)
    } else if i == 19 {
        PageType::Plain(PlainPageType::History)
    } else {
        PageType::Unknown(i as u32)
    }
}

/// The type of each table of a new database, by position.
pub fn new_table_type_exec(i: u32) -> (r: PageType)
    requires
        i < NUM_TABLES,
    ensures
        r == new_table_type(i as int),
{
    match i {
        0 => PageType::Plain(PlainPageType::Tracks),
        1 => PageType::Plain(PlainPageType::Genres),
        2 => PageType::Plain(PlainPageType::Artists),
        3 => PageType::Plain(PlainPageType::Albums),
        4 => PageType::Plain(PlainPageType::Labels),
        5 => PageType::Plain(PlainPageType::Keys),
        6 => PageType::Plain(PlainPageType::Colors),
        7 => PageType::Plain(PlainPageType::PlaylistTree),
        8 => PageType::Plain(PlainPageType::PlaylistEntries),
        11 => PageType::Plain(PlainPageType::HistoryPlaylists),
        12 => PageType::Plain(PlainPageType::HistoryEntries),
        13 => PageType::Plain(PlainPageType::Artwork),
        16 => PageType::Plain(PlainPageType::Columns),
        17 => PageType::Plain(PlainPageType::Menu),
        19 => PageType::Plain(PlainPageType::History),
        _ => PageType::Unknown(i),
    }
}

/// Table `i` of a new database: an empty chain of its free-space page `2i + 1`, and its data
/// page `2i + 2` as empty candidate.
pub open spec fn new_table(i: int) -> Table {
    Table {
        page_type: new_table_type(i),
        empty_candidate: (2 * i + 2) as u32,
        first_page: PageIndex((2 * i + 1) as u32),
        last_page: PageIndex((2 * i + 1) as u32),
    }
}

/// The free-space page of table `i` of a new database.
pub open spec fn new_free_space_page(i: int) -> PageView {
    PageView {
        header: PageHeader {
            page_index: PageIndex((2 * i + 1) as u32),
            page_type: new_table_type(i),
            next_page: PageIndex((2 * i + 2) as u32),
            page_sequence: 1,
            unknown2: 0,
            page_flags: FREE_SPACE_PAGE_FLAGS,
            free_size: 0,
            used_size: 0,
        },
        content: PageContentView::FreeSpace(
            FreeSpacePageHeader {
                unknown_a: 0x1FFF,
                unknown_b: 0x1FFF,
                next_offset: 0,
                page_index: PageIndex((2 * i + 1) as u32),
                next_page: PageIndex(NEXT_PAGE_SENTINEL),
                num_entries: 0,
                first_empty: 0x1FFF,
            },
            Seq::empty(),
        ),
    }
}

/// The pages of a new database: for each table its free-space page, then its empty data page,
/// which points past the last page.
pub open spec fn new_page(j: int) -> PageView {
    if j % 2 == 0 {
        new_free_space_page(j / 2)
    } else {
        fresh_page((j + 1) as u32, new_table_type(j / 2), 41u32, PAGE_SIZE)
    }
}

/// A new database of the given kind with empty tables.
pub open spec fn create_spec(db_type: DatabaseType) -> DatabaseView {
    DatabaseView {
        db_type,
        header: HeaderView {
            page_size: PAGE_SIZE,
            num_tables: NUM_TABLES,
            next_unused_page: PageIndex(41u32),
            unknown: 5,
            next_page_sequence: 1,
            tables: Seq::new(NUM_TABLES as nat, |i: int| new_table(i)),
        },
        pages: Seq::new(2 * NUM_TABLES as nat, |j: int| Some(new_page(j))),
    }
}

/// The tables of a new database, by position: Tracks, Genres, Artists, Albums, Labels, Keys,
/// Colors, PlaylistTree, PlaylistEntries, two unknown tables (9 and 10), HistoryPlaylists,
/// HistoryEntries, Artwork, two unknown tables (14 and 15), Columns, Menu, an unknown table
/// (18) and History. Table `i` has its free-space page at `2i + 1` and its empty candidate at
/// `2i + 2`, and both pages carry the table's type.
pub proof fn lemma_created_tables(db_type: DatabaseType)
    ensures
        ({
            let db = create_spec(db_type);
            let types = seq![
                PageType::Plain(PlainPageType::Tracks),
                PageType::Plain(PlainPageType::Genres),
                PageType::Plain(PlainPageType::Artists),
                PageType::Plain(PlainPageType::Albums),
                PageType::Plain(PlainPageType::Labels),
                PageType::Plain(PlainPageType::Keys),
                PageType::Plain(PlainPageType::Colors),
                PageType::Plain(PlainPageType::PlaylistTree),
                PageType::Plain(PlainPageType::PlaylistEntries),
                PageType::Unknown(9),
                PageType::Unknown(10),
                PageType::Plain(PlainPageType::HistoryPlaylists),
                PageType::Plain(PlainPageType::HistoryEntries),
                PageType::Plain(PlainPageType::Artwork),
                PageType::Unknown(14),
                PageType::Unknown(15),
                PageType::Plain(PlainPageType::Columns),
                PageType::Plain(PlainPageType::Menu),
                PageType::Unknown(18),
                PageType::Plain(PlainPageType::History)
            ];
            &&& db.header.tables.len() == 20
            &&& db.pages.len() == 40
            &&& forall|i: int| 0 <= i < 20 ==> {
                &&& (#[trigger] db.header.tables[i]).page_type == types[i]
                &&& db.header.tables[i].first_page.0 == 2 * i + 1
                &&& db.header.tables[i].last_page.0 == 2 * i + 1
                &&& db.header.tables[i].empty_candidate == 2 * i + 2
                &&& db.pages[2 * i] matches Some(p) && p.header.page_type == types[i]
                &&& db.pages[2 * i + 1] matches Some(q) && q.header.page_type == types[i]
            }
        }),
{
    let db = create_spec(db_type);
    assert forall|i: int| 0 <= i < 20 implies db.header.tables[i] == new_table(i) && db.pages[2 * i]
        == Some(new_page(2 * i)) && db.pages[2 * i + 1] == Some(new_page(2 * i + 1)) by {}
}

impl Database {
    /// Creates a database with a blank set of tables: each table has a free-space page and an
    /// empty data page as its empty candidate.
    pub fn create(db_type: DatabaseType) -> (r: Database)
        ensures
            r@ == create_spec(db_type),
            db_wf(r@),
    {
        proof {
            lemma_created_wf(db_type);
        }
        let next_unused: u32 = NUM_TABLES * 2 + 1;
        let mut tables: Vec<Table> = Vec::new();
        let mut pages: Vec<Option<Page>> = Vec::new();
        let mut i: u32 = 0;
        while i < NUM_TABLES
            invariant
                i <= NUM_TABLES,
                next_unused == 2 * NUM_TABLES + 1,
                tables@ =~= Seq::new(i as nat, |k: int| new_table(k)),
                pages_view(pages@) =~= Seq::new(2 * i as nat, |j: int| Some(new_page(j))),
            decreases NUM_TABLES - i,
        {
            let page_type = new_table_type_exec(i);
            let index_page = PageIndex(i * 2 + 1);
            let data_page = PageIndex(i * 2 + 2);
            tables.push(
                Table {
                    page_type,
                    empty_candidate: data_page.0,
                    first_page: index_page,
                    last_page: index_page,
                },
            );
            let ghost before = pages@;
            pages.push(
                Some(
                    Page {
                        header: PageHeader {
                            page_index: index_page,
                            page_type,
                            next_page: data_page,
                            page_sequence: 1,
                            unknown2: 0,
                            page_flags: FREE_SPACE_PAGE_FLAGS,
                            free_size: 0,
                            used_size: 0,
                        },
                        content: PageContent::FreeSpace(
                            FreeSpacePageHeader {
                                unknown_a: 0x1FFF,
                                unknown_b: 0x1FFF,
                                next_offset: 0,
                                page_index: index_page,
                                next_page: PageIndex(NEXT_PAGE_SENTINEL),
                                num_entries: 0,
                                first_empty: 0x1FFF,
                            },
                            Vec::new(),
                        ),
                    },
                ),
            );
            pages.push(
                Some(
                    Page {
                        header: PageHeader {
                            page_index: data_page,
                            page_type,
                            next_page: PageIndex(next_unused),
                            page_sequence: 0,
                            unknown2: 0,
                            page_flags: DATA_PAGE_FLAGS,
                            free_size: (PAGE_SIZE - 40) as u16,
                            used_size: 0,
                        },
                        content: PageContent::Data(Vec::new()),
                    },
                ),
            );
            proof {
                assert(rows_view(Seq::<Row>::empty()) =~= Seq::<RowView>::empty());
                let s = Seq::new(2 * (i + 1) as nat, |j: int| Some(new_page(j)));
                assert(s[2 * i as int] == Some(new_free_space_page(i as int)));
                assert(new_page(2 * i + 1) == fresh_page(
                    (2 * i + 2) as u32,
                    new_table_type(i as int),
                    41u32,
                    PAGE_SIZE,
                ));
                assert(pages_view(pages@) =~= pages_view(before).push(
                    Some(new_free_space_page(i as int)),
                ).push(Some(new_page(2 * i + 1))));
            }
            i = i + 1;
        }
        let header = Header {
            page_size: PAGE_SIZE,
            num_tables: NUM_TABLES,
            next_unused_page: PageIndex(next_unused),
            unknown: 5,
            next_page_sequence: 1,
            tables,
        };
        Database { db_type, header, pages }
    }
}

/// Replacing a page that is no table's empty candidate keeps a database well-formed.
pub proof fn lemma_with_page_wf(db: DatabaseView, x: u32, p: PageView)
    requires
        db_wf(db),
        1 <= x <= db.pages.len(),
        forall|i: int| 0 <= i < db.header.tables.len() ==> #[trigger] db.header.tables[i].empty_candidate != x,
    ensures
        db_wf(with_page(db, x, p)),
        with_page(db, x, p).header == db.header,
        with_page(db, x, p).pages.len() == db.pages.len(),
{
    let d = with_page(db, x, p);
    assert forall|i: int| 0 <= i < d.header.tables.len() implies {
        let e = (#[trigger] d.header.tables[i]).empty_candidate;
        page_at(d, e) == page_at(db, e)
    } by {
        assert(db.header.tables[i].empty_candidate != x);
    }
}

/// What promoting a table's empty candidate does to a well-formed database.
pub proof fn lemma_promote_facts(db: DatabaseView, ti: int)
    requires
        db_wf(db),
        0 <= ti < db.header.tables.len(),
        promote_spec(db, ti) is Ok,
        db.pages.len() + 2 <= u32::MAX,
        db.header.next_page_sequence < u32::MAX,
    ensures
        ({
            let d = promote_spec(db, ti)->Ok_0;
            let t = db.header.tables[ti];
            let n = db.pages.len();
            &&& d.pages.len() == n + 1
            &&& d.header.tables.len() == db.header.tables.len()
            &&& d.header.tables[ti] == Table {
                last_page: PageIndex(t.empty_candidate),
                empty_candidate: (n + 1) as u32,
                ..t
            }
            &&& forall|j: int| 0 <= j < db.header.tables.len() && j != ti ==> d.header.tables[j] == db.header.tables[j]
            &&& page_at(db, t.empty_candidate) is Some
            &&& page_at(d, t.empty_candidate) == Some(
                PageView {
                    header: PageHeader {
                        next_page: PageIndex((n + 1) as u32),
                        page_sequence: db.header.next_page_sequence,
                        ..page_at(db, t.empty_candidate)->Some_0.header
                    },
                    ..page_at(db, t.empty_candidate)->Some_0
                },
            )
            &&& page_at(d, (n + 1) as u32) == Some(
                fresh_page((n + 1) as u32, t.page_type, (n + 2) as u32, db.header.page_size),
            )
            &&& forall|x: u32| 1 <= x <= n && x != t.empty_candidate ==> #[trigger] page_at(d, x) == page_at(db, x)
            &&& d.header.page_size == db.header.page_size
            &&& d.header.num_tables == db.header.num_tables
            &&& d.header.next_page_sequence == db.header.next_page_sequence + 1
            &&& d.header.next_unused_page.0 == n + 2
            &&& d.db_type == db.db_type
        }),
{
    let t = db.header.tables[ti];
    let d = promote_spec(db, ti)->Ok_0;
    let n = db.pages.len();
    assert(1 <= t.empty_candidate <= db.pages.len());
    assert(d.pages.len() == n + 1);
    assert forall|x: u32| 1 <= x <= n && x != t.empty_candidate implies #[trigger] page_at(d, x) == page_at(db, x) by {
        assert(d.pages[x - 1] == db.pages[x - 1]);
    }
    assert(d.pages[n as int] == Some(fresh_page((n + 1) as u32, t.page_type, (n + 2) as u32, db.header.page_size)));
}

/// Promoting a table's empty candidate keeps a database well-formed.
pub proof fn lemma_promote_wf(db: DatabaseView, ti: int)
    requires
        db_wf(db),
        0 <= ti < db.header.tables.len(),
        promote_spec(db, ti) is Ok,
        db.pages.len() + 2 <= u32::MAX,
        db.header.next_page_sequence < u32::MAX,
    ensures
        db_wf(promote_spec(db, ti)->Ok_0),
{
    lemma_promote_facts(db, ti);
    let d = promote_spec(db, ti)->Ok_0;
    let ts = db.header.tables;
    let ds = d.header.tables;
    let n = db.pages.len();
    let t = ts[ti];
    assert forall|i: int| 0 <= i < ds.len() implies {
        &&& 1 <= (#[trigger] ds[i]).first_page.0 <= n + 1
        &&& 1 <= ds[i].last_page.0 <= n + 1
        &&& 1 <= ds[i].empty_candidate <= n + 1
        &&& match page_at(d, ds[i].empty_candidate) {
            Some(p) => ec_page_ok(p, ds[i].empty_candidate, d.header.page_size),
            None => true,
        }
    } by {
        if i != ti {
            assert(ds[i] == ts[i]);
            assert(ts[i].empty_candidate != t.empty_candidate);
            assert(page_at(d, ts[i].empty_candidate) == page_at(db, ts[i].empty_candidate));
        }
    }
    assert forall|i: int, j: int| 0 <= i < ds.len() && 0 <= j < ds.len() implies {
        &&& (#[trigger] ds[i]).empty_candidate != (#[trigger] ds[j]).first_page.0
        &&& ds[i].empty_candidate != ds[j].last_page.0
        &&& i != j ==> {
            &&& ds[i].empty_candidate != ds[j].empty_candidate
            &&& ds[i].first_page != ds[j].first_page
            &&& ds[i].first_page != ds[j].last_page
            &&& ds[i].last_page != ds[j].last_page
        }
    } by {
        assert(ts[i].empty_candidate != ts[j].first_page.0);
        assert(ts[j].empty_candidate != ts[i].first_page.0);
        assert(ts[i].empty_candidate != ts[j].last_page.0);
        assert(ts[j].empty_candidate != ts[i].last_page.0);
        assert(1 <= ts[j].first_page.0 <= n);
        assert(1 <= ts[j].last_page.0 <= n);
        assert(1 <= ts[i].first_page.0 <= n);
        assert(1 <= ts[i].last_page.0 <= n);
        assert(1 <= ts[i].empty_candidate <= n);
        assert(1 <= ts[j].empty_candidate <= n);
        if i != ti {
            assert(ds[i] == ts[i]);
        }
        if j != ti {
            assert(ds[j] == ts[j]);
        }
    }
}

/// Storing a row on a table's last page keeps a database well-formed.
proof fn lemma_store_on_last_wf(db: DatabaseView, ti: int, r: RowView)
    requires
        db_wf(db),
        store_ready(db, ti, r),
    ensures
        db_wf(store_on_last(db, ti, r).0),
        store_on_last(db, ti, r).0.pages.len() <= db.pages.len() + 1,
        store_on_last(db, ti, r).0.header.next_page_sequence <= db.header.next_page_sequence + 1,
        store_on_last(db, ti, r).0.header.page_size == db.header.page_size,
        (page_at(db, db.header.tables[ti].last_page.0) matches Some(p) && fits(p, r)) ==> {
            &&& store_on_last(db, ti, r).0.pages.len() == db.pages.len()
            &&& store_on_last(db, ti, r).0.header.next_page_sequence == db.header.next_page_sequence
        },
{
    let ts = db.header.tables;
    let t = ts[ti];
    let last = t.last_page.0;
    let n = db.pages.len();
    assert forall|i: int| 0 <= i < ts.len() implies #[trigger] ts[i].empty_candidate != last by {
        assert(ts[i].empty_candidate != ts[ti].last_page.0);
    }
    match page_at(db, last) {
        None => {},
        Some(p) => {
            if fits(p, r) {
                lemma_with_page_wf(db, last, stored(p, r));
            } else {
                if let Ok(db2) = promote_spec(db, ti) {
                    lemma_promote_facts(db, ti);
                    lemma_promote_wf(db, ti);
                    let ds = db2.header.tables;
                    let new_last = ds[ti].last_page.0;
                    assert(new_last == t.empty_candidate);
                    assert forall|i: int| 0 <= i < ds.len() implies #[trigger] ds[i].empty_candidate != last by {
                        if i != ti {
                            assert(ds[i] == ts[i]);
                        }
                    }
                    assert(page_at(db2, last) == page_at(db, last));
                    lemma_with_page_wf(
                        db2,
                        last,
                        PageView { header: PageHeader { next_page: PageIndex(new_last), ..p.header }, ..p },
                    );
                    let db3 = link_page(db2, last, new_last);
                    assert(db3.header == db2.header);
                    assert forall|i: int| 0 <= i < ds.len() implies #[trigger] ds[i].empty_candidate != new_last by {
                        if i != ti {
                            assert(ds[i] == ts[i]);
                            assert(ts[i].empty_candidate != ts[ti].empty_candidate);
                        }
                    }
                    match page_at(db3, new_last) {
                        Some(q) => {
                            lemma_with_page_wf(db3, new_last, stored(q, r));
                        },
                        None => {},
                    }
                }
            }
        },
    }
}

/// Inserting a row keeps a database well-formed.
pub proof fn lemma_insert_wf(db: DatabaseView, r: RowView)
    requires
        db_wf(db),
        r.data.len() + 6 <= heap_size(db.header.page_size),
        db.header.next_page_sequence + 2 <= u32::MAX,
        db.pages.len() + 4 <= u32::MAX,
    ensures
        db_wf(insert_spec(db, r).0),
        insert_spec(db, r).0.pages.len() <= db.pages.len() + 1,
        insert_spec(db, r).0.header.next_page_sequence <= db.header.next_page_sequence + 1,
        insert_spec(db, r).0.header.page_size == db.header.page_size,
{
    lemma_find_table(db.header.tables, r.page_type);
    match find_table(db.header.tables, r.page_type) {
        None => {},
        Some(ti) => {
            let ts = db.header.tables;
            let t = ts[ti];
            let n = db.pages.len();
            if t.last_page == t.first_page {
                if let Ok(db1) = promote_spec(db, ti) {
                    lemma_promote_facts(db, ti);
                    lemma_promote_wf(db, ti);
                    let ds = db1.header.tables;
                    let first = t.first_page.0;
                    assert forall|i: int| 0 <= i < ds.len() implies #[trigger] ds[i].empty_candidate != first by {
                        if i != ti {
                            assert(ds[i] == ts[i]);
                            assert(ts[i].empty_candidate != ts[ti].first_page.0);
                        }
                    }
                    let db2 = link_free_space(db1, first, t.empty_candidate);
                    match page_at(db1, first) {
                        Some(p) => match p.content {
                            PageContentView::FreeSpace(h, e) => {
                                lemma_with_page_wf(
                                    db1,
                                    first,
                                    PageView {
                                        content: PageContentView::FreeSpace(
                                            FreeSpacePageHeader { next_page: PageIndex(t.empty_candidate), ..h },
                                            e,
                                        ),
                                        ..p
                                    },
                                );
                            },
                            PageContentView::Data(_) => {},
                        },
                        None => {},
                    }
                    assert(db2.header == db1.header);
                    assert(page_at(db2, (n + 1) as u32) == page_at(db1, (n + 1) as u32));
                    assert(store_ready(db2, ti, r));
                    assert(page_at(db2, t.empty_candidate) == page_at(db1, t.empty_candidate));
                    assert(ec_page_ok(page_at(db, t.empty_candidate)->Some_0, t.empty_candidate, db.header.page_size));
                    lemma_store_on_last_wf(db2, ti, r);
                }
            } else {
                assert(store_ready(db, ti, r));
                lemma_store_on_last_wf(db, ti, r);
            }
        },
    }
}

/// A newly created database is well-formed, so rows can be inserted into it.
pub proof fn lemma_created_wf(db_type: DatabaseType)
    ensures
        db_wf(create_spec(db_type)),
{
    let db = create_spec(db_type);
    let ts = db.header.tables;
    assert forall|i: int| 0 <= i < ts.len() implies {
        &&& 1 <= (#[trigger] ts[i]).first_page.0 <= 40
        &&& 1 <= ts[i].last_page.0 <= 40
        &&& 1 <= ts[i].empty_candidate <= 40
        &&& match page_at(db, ts[i].empty_candidate) {
            Some(p) => ec_page_ok(p, ts[i].empty_candidate, db.header.page_size),
            None => true,
        }
    } by {
        assert(ts[i] == new_table(i));
        assert(page_at(db, (2 * i + 2) as u32) == Some(new_page(2 * i + 1)));
    }
    assert forall|i: int, j: int| 0 <= i < ts.len() && 0 <= j < ts.len() implies {
        &&& (#[trigger] ts[i]).empty_candidate != (#[trigger] ts[j]).first_page.0
        &&& ts[i].empty_candidate != ts[j].last_page.0
        &&& i != j ==> {
            &&& ts[i].empty_candidate != ts[j].empty_candidate
            &&& ts[i].first_page != ts[j].first_page
            &&& ts[i].first_page != ts[j].last_page
            &&& ts[i].last_page != ts[j].last_page
        }
    } by {
        assert(ts[i] == new_table(i));
        assert(ts[j] == new_table(j));
    }
}

impl Database {
    /// The kind of database file.
    pub fn db_type(&self) -> (r: DatabaseType)
        ensures
            r == self.db_type,
    {
        self.db_type
    }

    /// The file header.
    pub fn get_header(&self) -> (r: &Header)
        ensures
            *r == self.header,
    {
        &self.header
    }

    /// The file header, for changing it.
    pub fn get_header_mut(&mut self) -> (r: &mut Header)
        ensures
            *r == old(self).header,
            final(self).header == *final(r),
            final(self).pages == old(self).pages,
            final(self).db_type == old(self).db_type,
    {
        &mut self.header
    }
}

/// A well-formed database accepts every row that fits on an empty page, while the counters
/// can grow.
pub proof fn lemma_wf_insert_ready(db: DatabaseView, r: RowView)
    requires
        db_wf(db),
        r.data.len() + 6 <= heap_size(db.header.page_size),
        db.header.next_page_sequence + 2 <= u32::MAX,
        db.pages.len() + 4 <= u32::MAX,
    ensures
        insert_ready(db, r),
{
    lemma_find_table(db.header.tables, r.page_type);
    if let Some(ti) = find_table(db.header.tables, r.page_type) {
        let t = db.header.tables[ti];
        let ec = t.empty_candidate;
        if let Some(q) = page_at(db, ec) {
            assert(ec_page_ok(q, ec, db.header.page_size));
            assert(fits(q, r));
        }
    }
}

} // verus!
