//! Pioneer DeviceSQL databases (`export.pdb`, `exportExt.pdb`): the page structure, creating a
//! database, adding rows, walking a table's pages and checking the structure.

mod types;

pub use types::{
    free_space_header, is_free_space_flags, is_free_space_page, rows_view, DatabaseType,
    FreeSpacePageHeader, Header, HeaderView, Page, PageContent, PageContentView, PageHeader,
    PageIndex, PageType, PageView, PdbError, PlainPageType, Row, RowView, Table,
    DATA_PAGE_FLAGS, FREE_SPACE_PAGE_FLAGS, NEXT_PAGE_SENTINEL,
};
mod database;

pub use database::{
    db_wf, ec_page_ok, find_table, fits, insert_ready, lemma_created_tables, lemma_created_wf, lemma_find_table,
    lemma_wf_insert_ready, lemma_insert_wf, lemma_promote_facts,
    lemma_promote_wf, lemma_with_page_wf, fresh_page, heap_size, insert_spec, is_fresh, link_free_space,
    link_page, missing_page, page_at, pages_view, promote_spec, row_cost, store_on_last, store_ready, stored,
    with_page, create_spec, new_free_space_page, new_page, new_table, new_table_type,
    new_table_type_exec, NUM_TABLES, PAGE_SIZE,
    with_table, Database, DatabaseView, ROWS_PER_GROUP,
};
mod validation;

pub use validation::{
    check, expected_num_tables, flags_ok, is_multiple, lemma_created_database_valid, lemma_validate_reports_header, lemma_validate_reports_pages, lemma_validate_reports_tables, header_errors, is_ec, page_errors, page_errors_at,
    table_errors, table_errors_at, validate, validate_spec, ValidationError,
    EXPECTED_NUM_TABLES_EXT, EXPECTED_NUM_TABLES_PLAIN, EXPECTED_PAGE_SIZE,
};
mod insert_valid;

pub use insert_valid::{
    chain_shape, lemma_insert_counts, lemma_insert_keeps_chains, links_ok, needs_new_page,
    same_kind,
    insert_all, lemma_insert_all_keeps_valid, lemma_insert_appends_row, lemma_insert_keeps_valid,
    lemma_insert_lands_last,
    rows_insertable,
    same_checked, same_table_view,
};
mod iter;

pub use iter::{
    iter_wf, lemma_rows_frame, lemma_walk_ended, lemma_walk_linked, linked, linked_outcome, lemma_walk_frame, lemma_walk_pages_present, lemma_walk_shape,
    next_spec, page_rows, rows_on_pages,
    table_walk_start, walk,
    PageIterator,
};
