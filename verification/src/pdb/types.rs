//! The structure of a DeviceSQL database: header, tables, pages and rows.
use vstd::prelude::*;

verus! {

/// The number of a page in the file; page `n` starts at `n * page_size`.
#[derive(Debug, Clone, Copy, PartialEq, Eq, Structural)]
pub struct PageIndex(pub u32);

/// The kinds of database file.
#[derive(Debug, Clone, Copy, PartialEq, Eq, Structural)]
pub enum DatabaseType {
    /// `export.pdb`.
    Plain,
    /// `exportExt.pdb`.
    Ext,
}

/// The tables of a plain database.
#[derive(Debug, Clone, Copy, PartialEq, Eq, Structural)]
pub enum PlainPageType {
    /// Track rows.
    Tracks,
    /// Genre rows.
    Genres,
    /// Artist rows.
    Artists,
    /// Album rows.
    Albums,
    /// Label rows.
    Labels,
    /// Musical key rows.
    Keys,
    /// Color rows.
    Colors,
    /// Playlist folders and playlists.
    PlaylistTree,
    /// Tracks in playlists.
    PlaylistEntries,
    /// History playlists.
    HistoryPlaylists,
    /// Tracks in history playlists.
    HistoryEntries,
    /// Artwork paths.
    Artwork,
    /// Browse columns.
    Columns,
    /// Browse menu rows.
    Menu,
    /// History synchronization rows.
    History,
}

/// The table a page belongs to.
#[derive(Debug, Clone, Copy, PartialEq, Eq, Structural)]
pub enum PageType {
    /// A table of a plain database.
    Plain(PlainPageType),
    /// A table whose purpose is not known, by its number.
    Unknown(u32),
}

/// A table: where its page chain starts and ends, and the page it will grow into.
#[derive(Debug, Clone, Copy, PartialEq, Eq, Structural)]
pub struct Table {
    /// What the table holds.
    pub page_type: PageType,
    /// The page that becomes the table's next data page.
    pub empty_candidate: u32,
    /// The first page of the chain: the table's free-space page.
    pub first_page: PageIndex,
    /// The last page of the chain.
    pub last_page: PageIndex,
}

/// The file header.
#[derive(Debug, Clone, PartialEq, Eq)]
pub struct Header {
    /// The size of every page in bytes.
    pub page_size: u32,
    /// The number of tables.
    pub num_tables: u32,
    /// The first page number that no page uses yet.
    pub next_unused_page: PageIndex,
    /// Unknown field.
    pub unknown: u32,
    /// The sequence number that the next new data page gets.
    pub next_page_sequence: u32,
    /// The tables.
    pub tables: Vec<Table>,
}

/// The model of a file header.
pub struct HeaderView {
    pub page_size: u32,
    pub num_tables: u32,
    pub next_unused_page: PageIndex,
    pub unknown: u32,
    pub next_page_sequence: u32,
    pub tables: Seq<Table>,
}

impl View for Header {
    type V = HeaderView;

    open spec fn view(&self) -> HeaderView {
        HeaderView {
            page_size: self.page_size,
            num_tables: self.num_tables,
            next_unused_page: self.next_unused_page,
            unknown: self.unknown,
            next_page_sequence: self.next_page_sequence,
            tables: self.tables@,
        }
    }
}

/// The header of a page.
#[derive(Debug, Clone, Copy, PartialEq, Eq, Structural)]
pub struct PageHeader {
    /// The page's own number.
    pub page_index: PageIndex,
    /// The table the page belongs to.
    pub page_type: PageType,
    /// The next page of the table's chain.
    pub next_page: PageIndex,
    /// The sequence number given to the page when it became part of its table.
    pub page_sequence: u32,
    /// Unknown field, always zero.
    pub unknown2: u32,
    /// Page flags: `0x64` for a free-space page, `0x24` or `0x34` for a data page.
    pub page_flags: u8,
    /// Unused bytes of the page heap.
    pub free_size: u16,
    /// Bytes of the page heap used by rows.
    pub used_size: u16,
}

/// The flags of a free-space page.
pub const FREE_SPACE_PAGE_FLAGS: u8 = 0x64;

/// The flags of a new data page.
pub const DATA_PAGE_FLAGS: u8 = 0x34;

/// Whether page flags mark a free-space page.
pub open spec fn is_free_space_flags(flags: u8) -> bool {
    flags & 0x40 == 0x40
}

/// Whether page flags mark a free-space page.
pub fn is_free_space_page(flags: u8) -> (r: bool)
    ensures
        r == is_free_space_flags(flags),
{
    flags & 0x40 == 0x40
}

/// The header of a free-space page's content.
#[derive(Debug, Clone, Copy, PartialEq, Eq, Structural)]
pub struct FreeSpacePageHeader {
    /// Unknown field.
    pub unknown_a: u16,
    /// Unknown field.
    pub unknown_b: u16,
    /// Offset of the next entry.
    pub next_offset: u16,
    /// The page's own number.
    pub page_index: PageIndex,
    /// The table's first data page, or the null sentinel for an empty table.
    pub next_page: PageIndex,
    /// The number of entries.
    pub num_entries: u16,
    /// The first empty entry, or `0x1FFF` for none.
    pub first_empty: u16,
}

/// The null page number that a free-space page points to while its table is empty.
pub const NEXT_PAGE_SENTINEL: u32 = 0x03FF_FFFF;

/// A row: its table and the bytes it takes on the page heap.
#[derive(Debug, Clone, PartialEq, Eq)]
pub struct Row {
    /// The table the row belongs to.
    pub page_type: PageType,
    /// The encoded row, as stored on the heap.
    pub data: Vec<u8>,
}

/// The model of a row.
pub struct RowView {
    pub page_type: PageType,
    pub data: Seq<u8>,
}

impl View for Row {
    type V = RowView;

    open spec fn view(&self) -> RowView {
        RowView { page_type: self.page_type, data: self.data@ }
    }
}

/// The content of a page.
#[derive(Debug, Clone, PartialEq, Eq)]
pub enum PageContent {
    /// A free-space page: its header and entries.
    FreeSpace(FreeSpacePageHeader, Vec<u32>),
    /// A data page: its rows in the order they were stored.
    Data(Vec<Row>),
}

/// The model of page content.
pub enum PageContentView {
    FreeSpace(FreeSpacePageHeader, Seq<u32>),
    Data(Seq<RowView>),
}

/// The models of rows.
pub open spec fn rows_view(rows: Seq<Row>) -> Seq<RowView> {
    rows.map_values(|r: Row| r@)
}

impl View for PageContent {
    type V = PageContentView;

    open spec fn view(&self) -> PageContentView {
        match self {
            PageContent::FreeSpace(h, e) => PageContentView::FreeSpace(*h, e@),
            PageContent::Data(rows) => PageContentView::Data(rows_view(rows@)),
        }
    }
}

/// A page: a header and content.
#[derive(Debug, Clone, PartialEq, Eq)]
pub struct Page {
    /// The page header.
    pub header: PageHeader,
    /// The page content.
    pub content: PageContent,
}

/// The model of a page.
pub struct PageView {
    pub header: PageHeader,
    pub content: PageContentView,
}

impl View for Page {
    type V = PageView;

    open spec fn view(&self) -> PageView {
        PageView { header: self.header, content: self.content@ }
    }
}

/// The free-space header of a page, if it has one.
pub open spec fn free_space_header(p: PageView) -> Option<FreeSpacePageHeader> {
    match p.content {
        PageContentView::FreeSpace(h, _) => Some(h),
        PageContentView::Data(_) => None,
    }
}

/// Errors of database operations.
#[derive(Debug, Clone, Copy, PartialEq, Eq, Structural)]
pub enum PdbError {
    /// No table holds pages of this type.
    TableTypeNotPresent(PageType),
    /// There is no table with this index.
    TableNotPresent(usize),
    /// The page number lies beyond the database's pages.
    PageNotPresent(PageIndex),
    /// The page number lies within the database's pages, but the page's content was not
    /// read into memory.
    PageNotLoaded(PageIndex),
    /// A table's chain goes back to an earlier page.
    PageOrderViolation(PageIndex),
}

} // verus!
