//! The Device Library Plus database of newer devices.

mod model;
mod records;

pub use model::{
    binary_flag_of, content_file_type_for, content_file_type_of, lemma_binary_flag_roundtrip,
    lemma_content_file_type_roundtrip, lemma_file_type_code_kept, AlbumId, ArtistId,
    BackgroundColorType, BinaryFlag, CategoryId, ColorId, ContentFileType, ContentId, CueId,
    GenreId, HistoryId, HotCueBankListId, ImageId, KeyId, LabelId, MenuItemId, MyTagId,
    PlaylistAttribute, PlaylistId, SortId,
};
pub use records::{
    Album, Artist, Category, Color, Content, Cue, Genre, History, HistoryContent, HotCueBankList,
    HotCueBankListCue, Image, Key, Label, MenuItem, MyTag, MyTagContent, Playlist,
    PlaylistContent, Property, RecommendedLike, Sort,
};
