//! Structural checks of a database, as observed in files that rekordbox writes.
//!
//! The checks cover the file (size, page size, sequence number, table count), every page that
//! is not an empty candidate (page number, `unknown2`, flags, free-space header), and the
//! chain ends of every table.
use super::database::{
    create_spec, new_free_space_page, new_page, new_table, missing_page, page_at, Database, DatabaseView,
};
use super::types::{
    free_space_header, is_free_space_flags, is_free_space_page, DatabaseType, PageContent,
    PageContentView, PageIndex, PdbError, FREE_SPACE_PAGE_FLAGS, NEXT_PAGE_SENTINEL,
};
use vstd::prelude::*;

verus! {

/// The page size of all known exports.
pub const EXPECTED_PAGE_SIZE: u32 = 4096;

/// The table count of a plain database.
pub const EXPECTED_NUM_TABLES_PLAIN: u32 = 20;

/// The table count of an extended database.
pub const EXPECTED_NUM_TABLES_EXT: u32 = 9;

/// A structural invariant that a database breaks.
#[derive(Debug, Clone, Copy, PartialEq, Eq, Structural)]
pub enum ValidationError {
    /// The file size is not a multiple of the page size.
    FileSizeNotMultipleOfPageSize { file_size: u64, page_size: u32 },
    /// The page size is not 4096.
    UnexpectedPageSize { expected: u32, actual: u32 },
    /// The next page sequence number is zero.
    SequenceZero(u32),
    /// The table count does not match the database type.
    WrongNumTables { expected: u32, actual: u32 },
    /// A page's number is not its position in the file.
    PageIndexMismatch { page_index: PageIndex, physical_position: u32 },
    /// A page's `unknown2` field is not zero.
    PageUnknown2NonZero { page_index: PageIndex, value: u32 },
    /// A page's flags are none of `0x24`, `0x34` and `0x64`.
    InvalidPageFlags { page_index: PageIndex, flags: u8 },
    /// A table's empty candidate is not below the first unused page number.
    EmptyCandidateOutOfBounds { table_index: usize, empty_candidate: u32, next_unused_page: u32 },
    /// An empty table's free-space header does not hold the null sentinel.
    EmptyTableSentinelMissing { table_index: usize, actual: PageIndex },
    /// An empty table's free-space page does not point to the empty candidate.
    EmptyTableIndexNextPageWrong { table_index: usize, expected: PageIndex, actual: PageIndex },
    /// A non-empty table's last page does not point to the empty candidate.
    NonEmptyTableLastPageNextWrong { table_index: usize, expected: PageIndex, actual: PageIndex },
    /// A non-empty table's free-space header does not point to its first data page.
    NonEmptyTableIndexNextPageWrong { table_index: usize, expected: PageIndex, actual: PageIndex },
    /// A free-space page's header holds another page number than the page itself.
    FreeSpaceHeaderPageIndexMismatch { page_index: PageIndex, header_page_index: PageIndex },
    /// A page could not be loaded.
    IoError(PdbError),
}

/// The table count expected for a kind of database.
pub open spec fn expected_num_tables(t: DatabaseType) -> u32 {
    match t {
        DatabaseType::Plain => EXPECTED_NUM_TABLES_PLAIN,
        DatabaseType::Ext => EXPECTED_NUM_TABLES_EXT,
    }
}

/// A sequence of one error where a check fails, of none where it holds.
pub open spec fn check(ok: bool, e: ValidationError) -> Seq<ValidationError> {
    if ok {
        Seq::empty()
    } else {
        seq![e]
    }
}

/// The errors of the file-level checks: page size, sequence number, table count, file size.
pub open spec fn header_errors(db: DatabaseView, file_size: Option<u64>) -> Seq<ValidationError> {
    let h = db.header;
    let expected = expected_num_tables(db.db_type);
    check(
        h.page_size == EXPECTED_PAGE_SIZE,
        ValidationError::UnexpectedPageSize { expected: EXPECTED_PAGE_SIZE, actual: h.page_size },
    ) + check(h.next_page_sequence != 0, ValidationError::SequenceZero(h.next_page_sequence))
        + check(
        h.num_tables == expected,
        ValidationError::WrongNumTables { expected, actual: h.num_tables },
    ) + match file_size {
        Some(size) => check(
            is_multiple(size, h.page_size),
            ValidationError::FileSizeNotMultipleOfPageSize { file_size: size, page_size: h.page_size },
        ),
        None => Seq::empty(),
    }
}

/// Whether a size is a multiple of a page size; the only multiple of 0 is 0.
pub open spec fn is_multiple(size: u64, page_size: u32) -> bool {
    if page_size == 0 {
        size == 0
    } else {
        size % (page_size as u64) == 0
    }
}

/// Whether a page number is some table's empty candidate.
pub open spec fn is_ec(db: DatabaseView, pos: u32) -> bool {
    exists|i: int| 0 <= i < db.header.tables.len() && #[trigger] db.header.tables[i].empty_candidate == pos
}

/// Whether page flags are among those seen in exports.
pub open spec fn flags_ok(flags: u8) -> bool {
    flags == 0x24 || flags == 0x34 || flags == 0x64
}

/// The errors of the page at a position. Empty candidates are not checked: they need not
/// exist yet.
pub open spec fn page_errors_at(db: DatabaseView, pos: u32) -> Seq<ValidationError> {
    if is_ec(db, pos) {
        Seq::empty()
    } else {
        match page_at(db, pos) {
            None => seq![ValidationError::IoError(missing_page(db, pos))],
            Some(p) => {
                let h = p.header;
                check(
                    h.page_index.0 == pos,
                    ValidationError::PageIndexMismatch { page_index: h.page_index, physical_position: pos },
                ) + check(
                    h.unknown2 == 0,
                    ValidationError::PageUnknown2NonZero { page_index: h.page_index, value: h.unknown2 },
                ) + check(
                    flags_ok(h.page_flags),
                    ValidationError::InvalidPageFlags { page_index: h.page_index, flags: h.page_flags },
                ) + if is_free_space_flags(h.page_flags) {
                    match free_space_header(p) {
                        Some(f) => check(
                            f.page_index == h.page_index,
                            ValidationError::FreeSpaceHeaderPageIndexMismatch {
                                page_index: h.page_index,
                                header_page_index: f.page_index,
                            },
                        ),
                        None => Seq::empty(),
                    }
                } else {
                    Seq::empty()
                }
            },
        }
    }
}

/// The errors of the pages at positions `1` up to, not including, `n`.
pub open spec fn page_errors(db: DatabaseView, n: int) -> Seq<ValidationError>
    decreases n,
{
    if n <= 1 {
        Seq::empty()
    } else {
        page_errors(db, n - 1) + page_errors_at(db, (n - 1) as u32)
    }
}

/// The errors of the chain ends of a table.
pub open spec fn table_errors_at(db: DatabaseView, ti: int) -> Seq<ValidationError> {
    let t = db.header.tables[ti];
    let ec = t.empty_candidate;
    let next_unused = db.header.next_unused_page.0;
    let tix = ti as usize;
    if ec >= next_unused {
        seq![
            ValidationError::EmptyCandidateOutOfBounds {
                table_index: tix,
                empty_candidate: ec,
                next_unused_page: next_unused,
            },
        ]
    } else if t.first_page == t.last_page {
        match page_at(db, t.first_page.0) {
            None => seq![ValidationError::IoError(missing_page(db, t.first_page.0))],
            Some(p) => check(
                p.header.next_page == PageIndex(ec),
                ValidationError::EmptyTableIndexNextPageWrong {
                    table_index: tix,
                    expected: PageIndex(ec),
                    actual: p.header.next_page,
                },
            ) + match free_space_header(p) {
                Some(f) => check(
                    f.next_page.0 == NEXT_PAGE_SENTINEL,
                    ValidationError::EmptyTableSentinelMissing { table_index: tix, actual: f.next_page },
                ),
                None => Seq::empty(),
            },
        }
    } else {
        match page_at(db, t.last_page.0) {
            None => seq![ValidationError::IoError(missing_page(db, t.last_page.0))],
            Some(lp) => check(
                lp.header.next_page == PageIndex(ec),
                ValidationError::NonEmptyTableLastPageNextWrong {
                    table_index: tix,
                    expected: PageIndex(ec),
                    actual: lp.header.next_page,
                },
            ) + match page_at(db, t.first_page.0) {
                None => seq![ValidationError::IoError(missing_page(db, t.first_page.0))],
                Some(fp) => match free_space_header(fp) {
                    Some(f) => check(
                        f.next_page == fp.header.next_page,
                        ValidationError::NonEmptyTableIndexNextPageWrong {
                            table_index: tix,
                            expected: fp.header.next_page,
                            actual: f.next_page,
                        },
                    ),
                    None => Seq::empty(),
                },
            },
        }
    }
}

/// The errors of the first `k` tables.
pub open spec fn table_errors(db: DatabaseView, k: int) -> Seq<ValidationError>
    decreases k,
{
    if k <= 0 {
        Seq::empty()
    } else {
        table_errors(db, k - 1) + table_errors_at(db, k - 1)
    }
}

/// All errors of a database whose file has the given size, if known: the file-level checks,
/// then the pages in order, then the tables in order.
pub open spec fn validate_spec(db: DatabaseView, file_size: Option<u64>) -> Seq<ValidationError> {
    header_errors(db, file_size) + page_errors(db, db.header.next_unused_page.0 as int)
        + table_errors(db, db.header.tables.len() as int)
}

fn push_check(errors: &mut Vec<ValidationError>, ok: bool, e: ValidationError)
    ensures
        final(errors)@ == old(errors)@ + check(ok, e),
{
    if !ok {
        errors.push(e);
    }
    assert(errors@ =~= old(errors)@ + check(ok, e));
}

fn header_checks(db: &Database, file_size: Option<u64>, errors: &mut Vec<ValidationError>)
    ensures
        final(errors)@ == old(errors)@ + header_errors(db@, file_size),
{
    let h = &db.header;
    push_check(
        errors,
        h.page_size == EXPECTED_PAGE_SIZE,
        ValidationError::UnexpectedPageSize { expected: EXPECTED_PAGE_SIZE, actual: h.page_size },
    );
    push_check(errors, h.next_page_sequence != 0, ValidationError::SequenceZero(h.next_page_sequence));
    let expected = match db.db_type {
        DatabaseType::Plain => EXPECTED_NUM_TABLES_PLAIN,
        DatabaseType::Ext => EXPECTED_NUM_TABLES_EXT,
    };
    push_check(
        errors,
        h.num_tables == expected,
        ValidationError::WrongNumTables { expected, actual: h.num_tables },
    );
    match file_size {
        Some(size) => push_check(
            errors,
            if h.page_size == 0 {
                size == 0
            } else {
                size % (h.page_size as u64) == 0
            },
            ValidationError::FileSizeNotMultipleOfPageSize { file_size: size, page_size: h.page_size },
        ),
        None => {},
    }
    assert(errors@ =~= old(errors)@ + header_errors(db@, file_size));
}

fn is_empty_candidate(db: &Database, pos: u32) -> (r: bool)
    ensures
        r == is_ec(db@, pos),
{
    let mut i: usize = 0;
    while i < db.header.tables.len()
        invariant
            i <= db.header.tables.len(),
            forall|j: int| 0 <= j < i ==> db@.header.tables[j].empty_candidate != pos,
        decreases db.header.tables.len() - i,
    {
        if db.header.tables[i].empty_candidate == pos {
            assert(db@.header.tables[i as int].empty_candidate == pos);
            return true;
        }
        i = i + 1;
    }
    false
}

fn page_checks_at(db: &Database, pos: u32, errors: &mut Vec<ValidationError>)
    ensures
        final(errors)@ == old(errors)@ + page_errors_at(db@, pos),
{
    if is_empty_candidate(db, pos) {
        assert(errors@ =~= old(errors)@ + page_errors_at(db@, pos));
        return;
    }
    let page = match db.load_page(PageIndex(pos)) {
        Ok(p) => p,
        Err(e) => {
            errors.push(ValidationError::IoError(e));
            assert(errors@ =~= old(errors)@ + page_errors_at(db@, pos));
            return;
        },
    };
    let h = page.header;
    push_check(
        errors,
        h.page_index.0 == pos,
        ValidationError::PageIndexMismatch { page_index: h.page_index, physical_position: pos },
    );
    push_check(
        errors,
        h.unknown2 == 0,
        ValidationError::PageUnknown2NonZero { page_index: h.page_index, value: h.unknown2 },
    );
    let flags = h.page_flags;
    push_check(
        errors,
        flags == 0x24 || flags == 0x34 || flags == 0x64,
        ValidationError::InvalidPageFlags { page_index: h.page_index, flags },
    );
    let ghost before = errors@;
    if is_free_space_page(flags) {
        match &page.content {
            PageContent::FreeSpace(f, _) => push_check(
                errors,
                f.page_index == h.page_index,
                ValidationError::FreeSpaceHeaderPageIndexMismatch {
                    page_index: h.page_index,
                    header_page_index: f.page_index,
                },
            ),
            PageContent::Data(_) => {},
        }
    }
    assert(errors@ =~= old(errors)@ + page_errors_at(db@, pos));
}

fn table_checks_at(db: &Database, ti: usize, errors: &mut Vec<ValidationError>)
    requires
        ti < db.header.tables.len(),
    ensures
        final(errors)@ == old(errors)@ + table_errors_at(db@, ti as int),
{
    let t = db.header.tables[ti];
    let ec = t.empty_candidate;
    let next_unused = db.header.next_unused_page.0;
    if ec >= next_unused {
        errors.push(
            ValidationError::EmptyCandidateOutOfBounds {
                table_index: ti,
                empty_candidate: ec,
                next_unused_page: next_unused,
            },
        );
        assert(errors@ =~= old(errors)@ + table_errors_at(db@, ti as int));
        return;
    }
    if t.first_page == t.last_page {
        let p = match db.load_page(t.first_page) {
            Ok(p) => p,
            Err(e) => {
                errors.push(ValidationError::IoError(e));
                assert(errors@ =~= old(errors)@ + table_errors_at(db@, ti as int));
                return;
            },
        };
        push_check(
            errors,
            p.header.next_page == PageIndex(ec),
            ValidationError::EmptyTableIndexNextPageWrong {
                table_index: ti,
                expected: PageIndex(ec),
                actual: p.header.next_page,
            },
        );
        match &p.content {
            PageContent::FreeSpace(f, _) => push_check(
                errors,
                f.next_page.0 == NEXT_PAGE_SENTINEL,
                ValidationError::EmptyTableSentinelMissing { table_index: ti, actual: f.next_page },
            ),
            PageContent::Data(_) => {},
        }
        assert(errors@ =~= old(errors)@ + table_errors_at(db@, ti as int));
    } else {
        let lp = match db.load_page(t.last_page) {
            Ok(p) => p,
            Err(e) => {
                errors.push(ValidationError::IoError(e));
                assert(errors@ =~= old(errors)@ + table_errors_at(db@, ti as int));
                return;
            },
        };
        push_check(
            errors,
            lp.header.next_page == PageIndex(ec),
            ValidationError::NonEmptyTableLastPageNextWrong {
                table_index: ti,
                expected: PageIndex(ec),
                actual: lp.header.next_page,
            },
        );
        let ghost mid = errors@;
        let fp = match db.load_page(t.first_page) {
            Ok(p) => p,
            Err(e) => {
                errors.push(ValidationError::IoError(e));
                assert(errors@ =~= old(errors)@ + table_errors_at(db@, ti as int));
                return;
            },
        };
        match &fp.content {
            PageContent::FreeSpace(f, _) => push_check(
                errors,
                f.next_page == fp.header.next_page,
                ValidationError::NonEmptyTableIndexNextPageWrong {
                    table_index: ti,
                    expected: fp.header.next_page,
                    actual: f.next_page,
                },
            ),
            PageContent::Data(_) => {},
        }
        assert(errors@ =~= old(errors)@ + table_errors_at(db@, ti as int));
    }
}

/// Checks all structural invariants of a database whose file has the given size (`None`
/// where the size could not be determined), and returns every violation found, in order: an
/// empty list means the database is valid.
pub fn validate(db: &Database, file_size: Option<u64>) -> (r: Vec<ValidationError>)
    ensures
        r@ == validate_spec(db@, file_size),
{
    let mut errors: Vec<ValidationError> = Vec::new();
    header_checks(db, file_size, &mut errors);
    let ghost head = errors@;
    let next_unused = db.header.next_unused_page.0;
    let mut pos: u32 = 1;
    if next_unused >= 1 {
        while pos < next_unused
            invariant
                1 <= pos <= next_unused,
                next_unused == db@.header.next_unused_page.0,
                errors@ == head + page_errors(db@, pos as int),
            decreases next_unused - pos,
        {
            page_checks_at(db, pos, &mut errors);
            proof {
                assert(page_errors(db@, pos + 1) == page_errors(db@, pos as int) + page_errors_at(
                    db@,
                    pos,
                ));
                assert(errors@ =~= head + page_errors(db@, pos + 1));
            }
            pos = pos + 1;
        }
    }
    proof {
        if next_unused < 1 {
            assert(page_errors(db@, next_unused as int) =~= Seq::empty());
        }
        assert(errors@ =~= head + page_errors(db@, next_unused as int));
    }
    let ghost mid = errors@;
    let mut ti: usize = 0;
    while ti < db.header.tables.len()
        invariant
            ti <= db.header.tables.len(),
            errors@ == mid + table_errors(db@, ti as int),
        decreases db.header.tables.len() - ti,
    {
        table_checks_at(db, ti, &mut errors);
        proof {
            assert(errors@ =~= mid + table_errors(db@, ti + 1));
        }
        ti = ti + 1;
    }
    proof {
        assert(errors@ =~= validate_spec(db@, file_size));
    }
    errors
}

proof fn lemma_page_errors_none(db: DatabaseView, n: int)
    requires
        n <= u32::MAX + 1,
        forall|pos: u32| 1 <= pos < n ==> (#[trigger] page_errors_at(db, pos)).len() == 0,
    ensures
        page_errors(db, n).len() == 0,
    decreases n,
{
    if n > 1 {
        lemma_page_errors_none(db, n - 1);
        assert(page_errors_at(db, (n - 1) as u32).len() == 0);
    }
}

proof fn lemma_table_errors_none(db: DatabaseView, k: int)
    requires
        forall|ti: int| 0 <= ti < k ==> (#[trigger] table_errors_at(db, ti)).len() == 0,
    ensures
        table_errors(db, k).len() == 0,
    decreases k,
{
    if k > 0 {
        lemma_table_errors_none(db, k - 1);
        assert(table_errors_at(db, k - 1).len() == 0);
    }
}

/// A newly created plain database passes every check, whatever its file size where that is a
/// multiple of the page size, or unknown.
pub proof fn lemma_created_database_valid(file_size: Option<u64>)
    requires
        file_size matches Some(size) ==> size % 4096 == 0,
    ensures
        validate_spec(create_spec(DatabaseType::Plain), file_size).len() == 0,
{
    let db = create_spec(DatabaseType::Plain);
    assert(header_errors(db, file_size).len() == 0);
    assert(is_free_space_flags(FREE_SPACE_PAGE_FLAGS)) by (bit_vector);
    assert forall|pos: u32| 1 <= pos < 41 implies (#[trigger] page_errors_at(db, pos)).len() == 0 by {
        if pos % 2 == 0 {
            let ti = (pos - 2) / 2;
            assert(db.header.tables[ti as int].empty_candidate == pos);
            assert(is_ec(db, pos));
        } else {
            assert(!is_ec(db, pos)) by {
                assert forall|i: int| 0 <= i < db.header.tables.len() implies #[trigger] db.header.tables[i].empty_candidate != pos by {
                    assert(db.header.tables[i] == new_table(i));
                }
            }
            assert(page_at(db, pos) == Some(new_free_space_page((pos - 1) / 2)));
        }
    }
    lemma_page_errors_none(db, 41);
    assert forall|ti: int| 0 <= ti < 20 implies table_errors_at(db, ti).len() == 0 by {
        assert(db.header.tables[ti] == new_table(ti));
        assert(page_at(db, (2 * ti + 1) as u32) == Some(new_free_space_page(ti)));
    }
    lemma_table_errors_none(db, 20);
}


/// Every error of the page at a position is among the page errors up to any later position.
proof fn lemma_page_errors_include(db: DatabaseView, n: int, pos: u32, e: ValidationError)
    requires
        1 <= pos < n,
        page_errors_at(db, pos).contains(e),
    ensures
        page_errors(db, n).contains(e),
    decreases n,
{
    let left = page_errors(db, n - 1);
    let right = page_errors_at(db, (n - 1) as u32);
    assert(page_errors(db, n) == left + right);
    if pos == n - 1 {
        let k = choose|k: int| 0 <= k < right.len() && right[k] == e;
        assert((left + right)[left.len() + k] == e);
    } else {
        lemma_page_errors_include(db, n - 1, pos, e);
        let k = choose|k: int| 0 <= k < left.len() && left[k] == e;
        assert((left + right)[k] == e);
    }
}

/// An error of the page at a position below the first unused page number is in the result of
/// `validate`.
proof fn lemma_reported(db: DatabaseView, file_size: Option<u64>, pos: u32, e: ValidationError)
    requires
        1 <= pos < db.header.next_unused_page.0,
        page_errors_at(db, pos).contains(e),
    ensures
        validate_spec(db, file_size).contains(e),
{
    let n = db.header.next_unused_page.0 as int;
    let head = header_errors(db, file_size);
    let mid = page_errors(db, n);
    let tail = table_errors(db, db.header.tables.len() as int);
    lemma_page_errors_include(db, n, pos, e);
    let k = choose|k: int| 0 <= k < mid.len() && mid[k] == e;
    assert((head + mid + tail)[head.len() + k] == e);
}

/// The page checks of `validate`: at each position below the first unused page number that
/// is no table's empty candidate, a page whose number is not its position, whose `unknown2`
/// field is not zero, whose flags are none of `0x24`, `0x34` and `0x64`, or whose free-space
/// header names another page is reported, with the page's own values; a position whose page
/// is not held is reported as `PageNotPresent` beyond the page list and as `PageNotLoaded`
/// within it.
pub proof fn lemma_validate_reports_pages(db: DatabaseView, file_size: Option<u64>, pos: u32)
    requires
        1 <= pos < db.header.next_unused_page.0,
        forall|i: int| 0 <= i < db.header.tables.len() ==> #[trigger] db.header.tables[i].empty_candidate != pos,
    ensures
        ({
            let errs = validate_spec(db, file_size);
            &&& page_at(db, pos) matches Some(p) ==> {
                &&& p.header.page_index.0 != pos ==> errs.contains(
                    ValidationError::PageIndexMismatch { page_index: p.header.page_index, physical_position: pos },
                )
                &&& p.header.unknown2 != 0 ==> errs.contains(
                    ValidationError::PageUnknown2NonZero { page_index: p.header.page_index, value: p.header.unknown2 },
                )
                &&& (p.header.page_flags != 0x24 && p.header.page_flags != 0x34 && p.header.page_flags
                    != 0x64) ==> errs.contains(
                    ValidationError::InvalidPageFlags { page_index: p.header.page_index, flags: p.header.page_flags },
                )
                &&& p.content matches PageContentView::FreeSpace(f, _) ==> (p.header.page_flags & 0x40
                    == 0x40 && f.page_index != p.header.page_index ==> errs.contains(
                    ValidationError::FreeSpaceHeaderPageIndexMismatch {
                        page_index: p.header.page_index,
                        header_page_index: f.page_index,
                    },
                ))
            }
            &&& page_at(db, pos) is None ==> errs.contains(
                ValidationError::IoError(
                    if pos <= db.pages.len() {
                        PdbError::PageNotLoaded(PageIndex(pos))
                    } else {
                        PdbError::PageNotPresent(PageIndex(pos))
                    },
                ),
            )
        }),
{
    assert(!is_ec(db, pos));
    let pe = page_errors_at(db, pos);
    match page_at(db, pos) {
        None => {
            assert(pe[0] == ValidationError::IoError(missing_page(db, pos)));
            lemma_reported(db, file_size, pos, pe[0]);
        },
        Some(p) => {
            let h = p.header;
            let c1 = check(h.page_index.0 == pos, ValidationError::PageIndexMismatch { page_index: h.page_index, physical_position: pos });
            let c2 = check(h.unknown2 == 0, ValidationError::PageUnknown2NonZero { page_index: h.page_index, value: h.unknown2 });
            let c3 = check(flags_ok(h.page_flags), ValidationError::InvalidPageFlags { page_index: h.page_index, flags: h.page_flags });
            let c4 = if is_free_space_flags(h.page_flags) {
                match free_space_header(p) {
                    Some(f) => check(
                        f.page_index == h.page_index,
                        ValidationError::FreeSpaceHeaderPageIndexMismatch { page_index: h.page_index, header_page_index: f.page_index },
                    ),
                    None => Seq::empty(),
                }
            } else {
                Seq::empty()
            };
            assert(pe == c1 + c2 + c3 + c4);
            if h.page_index.0 != pos {
                assert(pe[0] == c1[0]);
                lemma_reported(db, file_size, pos, pe[0]);
            }
            if h.unknown2 != 0 {
                assert(pe[c1.len() as int] == c2[0]);
                lemma_reported(db, file_size, pos, c2[0]);
            }
            if !flags_ok(h.page_flags) {
                assert(pe[(c1.len() + c2.len()) as int] == c3[0]);
                lemma_reported(db, file_size, pos, c3[0]);
            }
            if h.page_flags & 0x40 == 0x40 {
                if let PageContentView::FreeSpace(f, _) = p.content {
                    if f.page_index != h.page_index {
                        assert(is_free_space_flags(h.page_flags));
                        assert(pe[(c1.len() + c2.len() + c3.len()) as int] == c4[0]);
                        lemma_reported(db, file_size, pos, c4[0]);
                    }
                }
            }
        },
    }
}


/// The file-level checks of `validate`: a page size other than 4096, a next page sequence
/// number of zero, a table count other than 20 for a plain database and 9 for an extended
/// one, and a known file size that is not a multiple of the page size (with a page size of
/// zero, any size but zero) are each reported, with the values found.
pub proof fn lemma_validate_reports_header(db: DatabaseView, file_size: Option<u64>)
    ensures
        ({
            let errs = validate_spec(db, file_size);
            let h = db.header;
            let expected: u32 = match db.db_type {
                DatabaseType::Plain => 20,
                DatabaseType::Ext => 9,
            };
            &&& h.page_size != 4096 ==> errs.contains(
                ValidationError::UnexpectedPageSize { expected: 4096, actual: h.page_size },
            )
            &&& h.next_page_sequence == 0 ==> errs.contains(ValidationError::SequenceZero(0))
            &&& h.num_tables != expected ==> errs.contains(
                ValidationError::WrongNumTables { expected, actual: h.num_tables },
            )
            &&& file_size matches Some(size) ==> ((if h.page_size == 0 {
                size != 0
            } else {
                size % (h.page_size as u64) != 0
            }) ==> errs.contains(
                ValidationError::FileSizeNotMultipleOfPageSize { file_size: size, page_size: h.page_size },
            ))
        }),
{
    let h = db.header;
    let expected = expected_num_tables(db.db_type);
    let c1 = check(h.page_size == EXPECTED_PAGE_SIZE, ValidationError::UnexpectedPageSize { expected: EXPECTED_PAGE_SIZE, actual: h.page_size });
    let c2 = check(h.next_page_sequence != 0, ValidationError::SequenceZero(h.next_page_sequence));
    let c3 = check(h.num_tables == expected, ValidationError::WrongNumTables { expected, actual: h.num_tables });
    let c4 = match file_size {
        Some(size) => check(
            is_multiple(size, h.page_size),
            ValidationError::FileSizeNotMultipleOfPageSize { file_size: size, page_size: h.page_size },
        ),
        None => Seq::empty(),
    };
    let head = header_errors(db, file_size);
    assert(head == c1 + c2 + c3 + c4);
    let rest = page_errors(db, h.next_unused_page.0 as int) + table_errors(db, h.tables.len() as int);
    assert(validate_spec(db, file_size) == head + rest);
    let errs = validate_spec(db, file_size);
    if h.page_size != 4096 {
        assert(errs[0] == c1[0]);
    }
    if h.next_page_sequence == 0 {
        assert(errs[c1.len() as int] == c2[0]);
    }
    if h.num_tables != expected {
        assert(errs[(c1.len() + c2.len()) as int] == c3[0]);
    }
    if let Some(size) = file_size {
        if !is_multiple(size, h.page_size) {
            assert(errs[(c1.len() + c2.len() + c3.len()) as int] == c4[0]);
        }
    }
}

/// Every error of the table at a position is among the table errors of any longer prefix.
proof fn lemma_table_errors_include(db: DatabaseView, k: int, ti: int, e: ValidationError)
    requires
        0 <= ti < k,
        table_errors_at(db, ti).contains(e),
    ensures
        table_errors(db, k).contains(e),
    decreases k,
{
    let left = table_errors(db, k - 1);
    let right = table_errors_at(db, k - 1);
    assert(table_errors(db, k) == left + right);
    if ti == k - 1 {
        let j = choose|j: int| 0 <= j < right.len() && right[j] == e;
        assert((left + right)[left.len() + j] == e);
    } else {
        lemma_table_errors_include(db, k - 1, ti, e);
        let j = choose|j: int| 0 <= j < left.len() && left[j] == e;
        assert((left + right)[j] == e);
    }
}

/// An error of a table is in the result of `validate`.
proof fn lemma_table_reported(db: DatabaseView, file_size: Option<u64>, ti: int, e: ValidationError)
    requires
        0 <= ti < db.header.tables.len(),
        table_errors_at(db, ti).contains(e),
    ensures
        validate_spec(db, file_size).contains(e),
{
    let head = header_errors(db, file_size) + page_errors(db, db.header.next_unused_page.0 as int);
    let tail = table_errors(db, db.header.tables.len() as int);
    lemma_table_errors_include(db, db.header.tables.len() as int, ti, e);
    let j = choose|j: int| 0 <= j < tail.len() && tail[j] == e;
    assert((head + tail)[head.len() + j] == e);
}

/// The chain checks of `validate` for the table at position `ti`, with empty candidate `ec`
/// and first unused page number `n`: an empty candidate at or above `n` is reported; below
/// it, an empty table (first page equal to last page) whose free-space page does not point to
/// the empty candidate, or whose free-space header's next page is not the sentinel
/// `0x03FFFFFF`, is reported; a non-empty table whose last page does not point to the empty
/// candidate, or whose first page's free-space header does not point where the first page
/// does, is reported. Each report names the table and the values found.
pub proof fn lemma_validate_reports_tables(db: DatabaseView, file_size: Option<u64>, ti: int)
    requires
        0 <= ti < db.header.tables.len(),
    ensures
        ({
            let errs = validate_spec(db, file_size);
            let t = db.header.tables[ti];
            let ec = t.empty_candidate;
            let n = db.header.next_unused_page.0;
            let tix = ti as usize;
            &&& ec >= n ==> errs.contains(
                ValidationError::EmptyCandidateOutOfBounds { table_index: tix, empty_candidate: ec, next_unused_page: n },
            )
            &&& (ec < n && t.first_page == t.last_page) ==> (page_at(db, t.first_page.0) matches Some(p) ==> {
                &&& p.header.next_page != PageIndex(ec) ==> errs.contains(
                    ValidationError::EmptyTableIndexNextPageWrong {
                        table_index: tix,
                        expected: PageIndex(ec),
                        actual: p.header.next_page,
                    },
                )
                &&& p.content matches PageContentView::FreeSpace(f, _) ==> (f.next_page.0 != 0x03FF_FFFF
                    ==> errs.contains(
                    ValidationError::EmptyTableSentinelMissing { table_index: tix, actual: f.next_page },
                ))
            })
            &&& (ec < n && t.first_page != t.last_page) ==> (page_at(db, t.last_page.0) matches Some(lp)
                ==> {
                &&& lp.header.next_page != PageIndex(ec) ==> errs.contains(
                    ValidationError::NonEmptyTableLastPageNextWrong {
                        table_index: tix,
                        expected: PageIndex(ec),
                        actual: lp.header.next_page,
                    },
                )
                &&& page_at(db, t.first_page.0) matches Some(fp) ==> (fp.content matches PageContentView::FreeSpace(
                    f,
                    _,
                ) ==> (f.next_page != fp.header.next_page ==> errs.contains(
                    ValidationError::NonEmptyTableIndexNextPageWrong {
                        table_index: tix,
                        expected: fp.header.next_page,
                        actual: f.next_page,
                    },
                )))
            })
        }),
{
    let t = db.header.tables[ti];
    let ec = t.empty_candidate;
    let n = db.header.next_unused_page.0;
    let te = table_errors_at(db, ti);
    if ec >= n {
        assert(te[0] == te[0]);
        lemma_table_reported(db, file_size, ti, te[0]);
    } else if t.first_page == t.last_page {
        if let Some(p) = page_at(db, t.first_page.0) {
            let c1 = check(
                p.header.next_page == PageIndex(ec),
                ValidationError::EmptyTableIndexNextPageWrong {
                    table_index: ti as usize,
                    expected: PageIndex(ec),
                    actual: p.header.next_page,
                },
            );
            if p.header.next_page != PageIndex(ec) {
                assert(te[0] == c1[0]);
                lemma_table_reported(db, file_size, ti, te[0]);
            }
            if let PageContentView::FreeSpace(f, _) = p.content {
                if f.next_page.0 != NEXT_PAGE_SENTINEL {
                    assert(te[c1.len() as int] == ValidationError::EmptyTableSentinelMissing {
                        table_index: ti as usize,
                        actual: f.next_page,
                    });
                    lemma_table_reported(db, file_size, ti, te[c1.len() as int]);
                }
            }
        }
    } else {
        if let Some(lp) = page_at(db, t.last_page.0) {
            let c1 = check(
                lp.header.next_page == PageIndex(ec),
                ValidationError::NonEmptyTableLastPageNextWrong {
                    table_index: ti as usize,
                    expected: PageIndex(ec),
                    actual: lp.header.next_page,
                },
            );
            if lp.header.next_page != PageIndex(ec) {
                assert(te[0] == c1[0]);
                lemma_table_reported(db, file_size, ti, te[0]);
            }
            if let Some(fp) = page_at(db, t.first_page.0) {
                if let PageContentView::FreeSpace(f, _) = fp.content {
                    if f.next_page != fp.header.next_page {
                        assert(te[c1.len() as int] == ValidationError::NonEmptyTableIndexNextPageWrong {
                            table_index: ti as usize,
                            expected: fp.header.next_page,
                            actual: f.next_page,
                        });
                        lemma_table_reported(db, file_size, ti, te[c1.len() as int]);
                    }
                }
            }
        }
    }
}

} // verus!
