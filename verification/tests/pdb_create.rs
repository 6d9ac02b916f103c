use rekordcrate::pdb::{
    is_free_space_page, validate, Database, DatabaseType, PageContent, PageIndex, PageType,
    PdbError, PlainPageType, Row, ValidationError, NEXT_PAGE_SENTINEL,
};

const PAGE_SIZE: u32 = 4096;
const NUM_TABLES: usize = 20;
/// Free space in an empty data page: the page size without the page header and the data page
/// header.
const DATA_PAGE_FREE_SIZE: u16 = (PAGE_SIZE - 32 - 8) as u16;

fn create_empty_db() -> Database {
    Database::create(DatabaseType::Plain)
}

fn row(page_type: PageType, len: usize) -> Row {
    Row { page_type, data: vec![0x5a; len] }
}

fn row_count(db: &Database, page_type: PageType) -> usize {
    db.iter_rows(page_type).expect("failed to get rows").len()
}

#[test]
fn test_create_header_fields() {
    let db = create_empty_db();
    let header = &db.header;
    assert_eq!(header.page_size, PAGE_SIZE);
    assert_eq!(header.num_tables, NUM_TABLES as u32);
    assert_eq!(header.next_unused_page, PageIndex(NUM_TABLES as u32 * 2 + 1));
    assert_eq!(header.unknown, 5);
    assert_eq!(header.next_page_sequence, 1);
}

#[test]
fn test_create_two_pages_per_table() {
    let db = create_empty_db();
    assert_eq!(db.header.tables.len(), NUM_TABLES);
    for (i, table) in db.header.tables.iter().enumerate() {
        let expected_index_page = PageIndex(i as u32 * 2 + 1);
        let expected_data_page = PageIndex(i as u32 * 2 + 2);
        assert_eq!(table.first_page, expected_index_page, "table {}: first_page", i);
        assert_eq!(table.last_page, expected_index_page, "table {}: last_page", i);
        assert_eq!(PageIndex(table.empty_candidate), expected_data_page, "table {}: empty_candidate", i);
    }
}

#[test]
fn test_create_page_chain_has_free_space_only() {
    let db = create_empty_db();
    for (i, table) in db.header.tables.iter().enumerate() {
        let mut it = db.iter_pages_for_table(i).expect("failed to get page iterator");
        let first = it.next(&db).expect("page iterator error").expect("expected a free-space page");
        assert_eq!(first, table.first_page, "table {}: first page index mismatch", i);
        let page = db.load_page(first).unwrap();
        assert!(is_free_space_page(page.header.page_flags), "table {}: free-space flag", i);
        assert!(it.next(&db).expect("page iterator error").is_none(), "table {}: one page only", i);
    }
}

#[test]
fn test_create_index_page_properties() {
    let db = create_empty_db();
    for (i, table) in db.header.tables.iter().enumerate() {
        let page = db.load_page(table.first_page).unwrap();
        assert!(is_free_space_page(page.header.page_flags), "table {}", i);
        assert_eq!(page.header.free_size, 0, "table {}", i);
        assert_eq!(page.header.used_size, 0, "table {}", i);
        assert_eq!(page.header.page_sequence, 1, "table {}", i);
        assert_eq!(page.header.next_page, PageIndex(table.empty_candidate), "table {}", i);
        let PageContent::FreeSpace(h, entries) = &page.content else {
            panic!("free-space page must have free-space content");
        };
        assert_eq!(h.unknown_a, 0x1FFF);
        assert_eq!(h.unknown_b, 0x1FFF);
        assert_eq!(h.next_offset, 0);
        assert_eq!(h.num_entries, 0);
        assert_eq!(h.first_empty, 0x1FFF);
        assert_eq!(h.page_index, table.first_page);
        assert_eq!(h.next_page, PageIndex(NEXT_PAGE_SENTINEL));
        assert!(entries.is_empty());
    }
}

#[test]
fn test_create_data_page_properties() {
    let db = create_empty_db();
    for (i, table) in db.header.tables.iter().enumerate() {
        let ec = PageIndex(table.empty_candidate);
        let page = db.load_page(ec).expect("failed to load ec page");
        assert!(!is_free_space_page(page.header.page_flags), "table {}", i);
        assert_eq!(page.header.free_size, DATA_PAGE_FREE_SIZE, "table {}", i);
        assert_eq!(page.header.used_size, 0, "table {}", i);
        assert_eq!(page.header.page_type, table.page_type, "table {}", i);
        assert_eq!(page.header.page_index, ec, "table {}", i);
        assert!(matches!(page.content, PageContent::Data(_)), "table {}", i);
    }
}

#[test]
fn test_create_all_tables_empty() {
    let db = create_empty_db();
    for table in db.header.tables.iter() {
        assert_eq!(row_count(&db, table.page_type), 0);
    }
}

#[test]
fn test_validate_empty_database() {
    let db = create_empty_db();
    let errors = validate(&db, Some(PAGE_SIZE as u64 * (NUM_TABLES as u64 * 2)));
    assert!(errors.is_empty(), "empty database has validation errors: {errors:#?}");
}

#[test]
fn first_insert_promotes_the_empty_candidate() {
    let mut db = create_empty_db();
    let history = PageType::Plain(PlainPageType::History);
    db.insert_row(row(history, 32)).unwrap();
    let table = db.header.tables[19];
    assert_eq!(table.first_page, PageIndex(39));
    assert_eq!(table.last_page, PageIndex(40));
    assert_eq!(table.empty_candidate, 41);
    assert_eq!(db.header.next_unused_page, PageIndex(42));
    assert_eq!(db.header.next_page_sequence, 2);
    let page = db.load_page(PageIndex(40)).unwrap();
    assert_eq!(page.header.used_size, 32);
    assert_eq!(page.header.free_size, 4018);
    assert_eq!(page.header.next_page, PageIndex(41));
    assert_eq!(page.header.page_sequence, 1);
    let free_space = db.load_page(PageIndex(39)).unwrap();
    let PageContent::FreeSpace(h, _) = &free_space.content else { panic!("free-space page expected") };
    assert_eq!(h.next_page, PageIndex(40));
    assert_eq!(row_count(&db, history), 1);
    assert!(validate(&db, None).is_empty());
}

#[test]
fn seeding_tables_like_a_blank_export() {
    let mut db = create_empty_db();
    let seeds: [(PageType, usize, usize); 5] = [
        (PageType::Plain(PlainPageType::History), 1, 32),
        (PageType::Plain(PlainPageType::Colors), 8, 16),
        (PageType::Plain(PlainPageType::Columns), 27, 24),
        (PageType::Plain(PlainPageType::Menu), 22, 12),
        (PageType::Unknown(18), 17, 8),
    ];
    for (page_type, count, len) in seeds {
        let rows: Vec<Row> = (0..count).map(|_| row(page_type, len)).collect();
        db.insert_rows(rows).unwrap();
    }
    assert_eq!(db.header.next_page_sequence, 6);
    let table18 = db.header.tables[18];
    assert_eq!(table18.first_page, PageIndex(37));
    assert_eq!(table18.last_page, PageIndex(38));
    assert_eq!(table18.empty_candidate, 45);
    let page = db.load_page(PageIndex(38)).unwrap();
    assert_eq!(page.header.next_page, PageIndex(45));
    assert_eq!(page.header.page_sequence, 5);
    for (page_type, count, _) in seeds {
        assert_eq!(row_count(&db, page_type), count);
    }
    assert_eq!(row_count(&db, PageType::Plain(PlainPageType::Keys)), 0);
    assert!(validate(&db, None).is_empty());
}

#[test]
fn full_page_moves_rows_to_a_new_page() {
    let mut db = create_empty_db();
    let keys = PageType::Plain(PlainPageType::Keys);
    for _ in 0..10 {
        db.insert_row(row(keys, 1000)).unwrap();
    }
    let table = db.header.tables[5];
    assert_eq!(table.first_page, PageIndex(11));
    let pages = db.collect_pages(db.iter_pages(keys).unwrap()).unwrap();
    assert_eq!(pages.first(), Some(&PageIndex(11)));
    assert!(pages.len() >= 4);
    assert_eq!(*pages.last().unwrap(), table.last_page);
    for p in &pages[1..] {
        let page = db.load_page(*p).unwrap();
        assert!(!is_free_space_page(page.header.page_flags));
        assert!(matches!(page.content, PageContent::Data(_)));
    }
    assert_eq!(row_count(&db, keys), 10);
    assert!(validate(&db, None).is_empty());
}

#[test]
fn unknown_table_type_is_an_error() {
    let mut db = create_empty_db();
    let missing = PageType::Unknown(42);
    assert_eq!(db.insert_row(row(missing, 4)), Err(PdbError::TableTypeNotPresent(missing)));
    assert_eq!(db.iter_pages(missing).err(), Some(PdbError::TableTypeNotPresent(missing)));
    assert_eq!(db.iter_pages_for_table(20).err(), Some(PdbError::TableNotPresent(20)));
}

#[test]
fn validation_reports_each_broken_invariant() {
    let mut db = Database::create(DatabaseType::Ext);
    db.header.page_size = 4096;
    db.header.next_page_sequence = 0;
    let errors = validate(&db, Some(4097));
    assert_eq!(
        errors,
        vec![
            ValidationError::SequenceZero(0),
            ValidationError::WrongNumTables { expected: 9, actual: 20 },
            ValidationError::FileSizeNotMultipleOfPageSize { file_size: 4097, page_size: 4096 },
        ]
    );

    let mut db = create_empty_db();
    db.pages[0] = None;
    db.header.tables[1].empty_candidate = 99;
    let errors = validate(&db, None);
    assert_eq!(
        errors,
        vec![
            ValidationError::IoError(PdbError::PageNotLoaded(PageIndex(1))),
            ValidationError::IoError(PdbError::PageNotLoaded(PageIndex(1))),
            ValidationError::EmptyCandidateOutOfBounds {
                table_index: 1,
                empty_candidate: 99,
                next_unused_page: 41,
            },
        ]
    );
}

#[test]
fn test_create_inserts_go_to_data_pages() {
    let mut db = create_empty_db();
    let seeds: [(PageType, usize, usize); 6] = [
        (PageType::Plain(PlainPageType::History), 1, 32),
        (PageType::Plain(PlainPageType::Colors), 8, 16),
        (PageType::Plain(PlainPageType::Columns), 27, 24),
        (PageType::Plain(PlainPageType::Menu), 22, 12),
        (PageType::Unknown(18), 17, 8),
        (PageType::Plain(PlainPageType::Keys), 24, 200),
    ];
    for (page_type, count, len) in seeds {
        let rows: Vec<Row> = (0..count).map(|_| row(page_type, len)).collect();
        db.insert_rows(rows).expect("inserting rows failed");
    }
    let tables = db.header.tables.clone();
    for (i, table) in tables.iter().enumerate() {
        if matches!(table.page_type, PageType::Unknown(_)) {
            continue;
        }
        let mut it = db.iter_pages_for_table(i).expect("failed to get page iterator");
        let first = it.next(&db).expect("page iterator error").expect("expected first page");
        let first_page = db.load_page(first).unwrap();
        assert!(
            is_free_space_page(first_page.header.page_flags),
            "table {}: first page must remain a free-space page after inserts",
            i
        );
        while let Some(index) = it.next(&db).expect("page iterator error") {
            let page = db.load_page(index).unwrap();
            assert!(
                !is_free_space_page(page.header.page_flags),
                "table {}: page {:?} must be a data page (not free-space page) after inserts",
                i,
                index
            );
            assert!(matches!(page.content, PageContent::Data(_)), "table {}: page {:?} must have Data content", i, index);
        }
        assert!(it.next(&db).unwrap().is_none());
    }
}

#[test]
fn zero_page_size_is_reported_not_fatal() {
    let mut db = create_empty_db();
    db.header.page_size = 0;
    let errors = validate(&db, Some(4096));
    assert_eq!(errors[0], ValidationError::UnexpectedPageSize { expected: 4096, actual: 0 });
    assert!(errors.contains(&ValidationError::FileSizeNotMultipleOfPageSize { file_size: 4096, page_size: 0 }));
}

#[test]
fn missing_pages_are_told_apart() {
    let mut db = create_empty_db();
    let count = db.pages.len() as u32;
    assert_eq!(db.load_page(PageIndex(count + 1)).err(), Some(PdbError::PageNotPresent(PageIndex(count + 1))));
    assert_eq!(db.load_page(PageIndex(0)).err(), Some(PdbError::PageNotPresent(PageIndex(0))));
    db.pages[2] = None;
    assert_eq!(db.load_page(PageIndex(3)).err(), Some(PdbError::PageNotLoaded(PageIndex(3))));
    assert!(db.load_page(PageIndex(count)).is_ok());
}

#[test]
fn insert_without_a_table_of_its_type_asks_nothing_of_the_header() {
    let mut db = create_empty_db();
    let page_type = PageType::Plain(PlainPageType::Keys);
    db.header.tables.retain(|t| t.page_type != page_type);
    db.header.page_size = 0;
    db.header.next_unused_page = PageIndex(u32::MAX);
    let before = db.header.clone();
    assert_eq!(db.insert_row(row(page_type, 10_000)), Err(PdbError::TableTypeNotPresent(page_type)));
    assert_eq!(db.header, before);
}

#[test]
fn insert_counts_grow_by_one_page_when_a_new_page_is_needed() {
    let mut db = create_empty_db();
    let page_type = PageType::Plain(PlainPageType::Keys);
    let ti = db.header.tables.iter().position(|t| t.page_type == page_type).unwrap();
    let unused = db.header.next_unused_page.0;
    let pages = db.pages.len();
    let sequence = db.header.next_page_sequence;
    let ec = db.header.tables[ti].empty_candidate;
    db.insert_row(row(page_type, 100)).unwrap();
    assert_eq!(db.header.next_unused_page.0, unused + 1);
    assert_eq!(db.pages.len(), pages + 1);
    assert_eq!(db.header.next_page_sequence, sequence + 1);
    assert_eq!(db.header.tables[ti].last_page, PageIndex(ec));
    assert_eq!(db.header.tables[ti].empty_candidate, unused);
    let header = db.header.clone();
    db.insert_row(row(page_type, 100)).unwrap();
    assert_eq!(db.header, header);
    assert_eq!(db.pages.len(), pages + 1);
}
