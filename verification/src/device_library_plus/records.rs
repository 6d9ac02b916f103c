//! The records of the Device Library Plus tables.
use super::model::{
    AlbumId, ArtistId, BackgroundColorType, BinaryFlag, CategoryId, ColorId, ContentId, CueId,
    GenreId, HistoryId, HotCueBankListId, ImageId, KeyId, LabelId, MenuItemId, MyTagId,
    PlaylistId, SortId,
};
use vstd::prelude::*;

verus! {

/// An album.
#[derive(Debug, Clone, PartialEq, Eq)]
pub struct Album {
    /// The `album_id` column.
    pub album_id: AlbumId,
    /// The `name` column.
    pub name: String,
    /// The `artist_id` column.
    pub artist_id: Option<ArtistId>,
    /// The `image_id` column.
    pub image_id: Option<ImageId>,
    /// The `is_complation` column.
    pub is_complation: Option<i32>,
    /// The `name_for_search` column.
    pub name_for_search: Option<String>,
}

/// An artist.
#[derive(Debug, Clone, PartialEq, Eq)]
pub struct Artist {
    /// The `artist_id` column.
    pub artist_id: ArtistId,
    /// The `name` column.
    pub name: String,
    /// The `name_for_search` column.
    pub name_for_search: Option<String>,
}

/// A browse category shown on the device.
#[derive(Debug, Clone, PartialEq, Eq)]
pub struct Category {
    /// The `category_id` column.
    pub category_id: CategoryId,
    /// The `menu_item_id` column.
    pub menu_item_id: MenuItemId,
    /// The `sequence_no` column.
    pub sequence_no: i32,
    /// The `is_visible` column.
    pub is_visible: i32,
}

/// A track color.
#[derive(Debug, Clone, PartialEq, Eq)]
pub struct Color {
    /// The `color_id` column.
    pub color_id: ColorId,
    /// The `name` column.
    pub name: String,
}

/// A track and its metadata.
#[derive(Debug, Clone, PartialEq, Eq)]
pub struct Content {
    /// The `content_id` column.
    pub content_id: ContentId,
    /// The `title` column.
    pub title: Option<String>,
    /// The `title_for_search` column.
    pub title_for_search: Option<String>,
    /// The `subtitle` column.
    pub subtitle: Option<String>,
    /// The `bpmx100` column.
    pub bpmx100: Option<i32>,
    /// The `length` column.
    pub length: Option<i32>,
    /// The `track_no` column.
    pub track_no: Option<i32>,
    /// The `disc_no` column.
    pub disc_no: Option<i32>,
    /// The `artist_id_artist` column.
    pub artist_id_artist: Option<ArtistId>,
    /// The `artist_id_remixer` column.
    pub artist_id_remixer: Option<ArtistId>,
    /// The `artist_id_original_artist` column.
    pub artist_id_original_artist: Option<ArtistId>,
    /// The `artist_id_composer` column.
    pub artist_id_composer: Option<ArtistId>,
    /// The `artist_id_lyricist` column.
    pub artist_id_lyricist: Option<ArtistId>,
    /// The `album_id` column.
    pub album_id: Option<AlbumId>,
    /// The `genre_id` column.
    pub genre_id: Option<GenreId>,
    /// The `label_id` column.
    pub label_id: Option<LabelId>,
    /// The `key_id` column.
    pub key_id: Option<KeyId>,
    /// The `color_id` column.
    pub color_id: Option<ColorId>,
    /// The `image_id` column.
    pub image_id: Option<ImageId>,
    /// The `dj_comment` column.
    pub dj_comment: Option<String>,
    /// The `rating` column.
    pub rating: Option<i32>,
    /// The `release_year` column.
    pub release_year: Option<i32>,
    /// The `release_date` column.
    pub release_date: Option<String>,
    /// The `date_created` column.
    pub date_created: Option<String>,
    /// The `date_added` column.
    pub date_added: Option<String>,
    /// The `path` column.
    pub path: Option<String>,
    /// The `file_name` column.
    pub file_name: Option<String>,
    /// The `file_size` column.
    pub file_size: Option<i32>,
    /// The `file_type` column.
    pub file_type: Option<i32>,
    /// The `bitrate` column.
    pub bitrate: Option<i32>,
    /// The `bit_depth` column.
    pub bit_depth: Option<i32>,
    /// The `sampling_rate` column.
    pub sampling_rate: Option<i32>,
    /// The `isrc` column.
    pub isrc: Option<String>,
    /// The `dj_play_count` column.
    pub dj_play_count: Option<i32>,
    /// The `is_hot_cue_auto_load_on` column.
    pub is_hot_cue_auto_load_on: Option<i32>,
    /// The `is_kuvo_deliver_status_on` column.
    pub is_kuvo_deliver_status_on: Option<i32>,
    /// The `kuvo_delivery_comment` column.
    pub kuvo_delivery_comment: Option<String>,
    /// The `master_db_id` column.
    pub master_db_id: Option<i32>,
    /// The `master_content_id` column.
    pub master_content_id: Option<i32>,
    /// The `analysis_data_file_path` column.
    pub analysis_data_file_path: Option<String>,
    /// The `analysed_bits` column.
    pub analysed_bits: Option<i32>,
    /// The `content_link` column.
    pub content_link: Option<i32>,
    /// The `has_modified` column.
    pub has_modified: Option<i32>,
    /// The `cue_update_count` column.
    pub cue_update_count: Option<i32>,
    /// The `analysis_data_update_count` column.
    pub analysis_data_update_count: Option<i32>,
    /// The `information_update_count` column.
    pub information_update_count: Option<i32>,
}

/// A cue point or loop of a track.
#[derive(Debug, Clone, PartialEq, Eq)]
pub struct Cue {
    /// The `cue_id` column.
    pub cue_id: CueId,
    /// The `content_id` column.
    pub content_id: Option<ContentId>,
    /// The `kind` column.
    pub kind: Option<i32>,
    /// The `color_table_index` column.
    pub color_table_index: Option<i32>,
    /// The `cue_comment` column.
    pub cue_comment: Option<String>,
    /// The `is_active_loop` column.
    pub is_active_loop: Option<i32>,
    /// The `beat_loop_numerator` column.
    pub beat_loop_numerator: Option<i32>,
    /// The `beat_loop_denominator` column.
    pub beat_loop_denominator: Option<i32>,
    /// The `in_usec` column.
    pub in_usec: Option<i32>,
    /// The `out_usec` column.
    pub out_usec: Option<i32>,
    /// The `in_150_frame_per_sec` column.
    pub in_150_frame_per_sec: Option<i32>,
    /// The `out_150_frame_per_sec` column.
    pub out_150_frame_per_sec: Option<i32>,
    /// The `in_mpeg_frame_number` column.
    pub in_mpeg_frame_number: Option<i32>,
    /// The `out_mpeg_frame_number` column.
    pub out_mpeg_frame_number: Option<i32>,
    /// The `in_mpeg_abs` column.
    pub in_mpeg_abs: Option<i32>,
    /// The `out_mpeg_abs` column.
    pub out_mpeg_abs: Option<i32>,
    /// The `in_decoding_start_frame_position` column.
    pub in_decoding_start_frame_position: Option<i32>,
    /// The `out_decoding_start_frame_position` column.
    pub out_decoding_start_frame_position: Option<i32>,
    /// The `in_file_offset_in_block` column.
    pub in_file_offset_in_block: Option<i32>,
    /// The `out_file_offset_in_block` column.
    pub out_file_offset_in_block: Option<i32>,
    /// The `in_number_of_sample_in_block` column.
    pub in_number_of_sample_in_block: Option<i32>,
    /// The `out_number_of_sample_in_block` column.
    pub out_number_of_sample_in_block: Option<i32>,
}

/// A genre.
#[derive(Debug, Clone, PartialEq, Eq)]
pub struct Genre {
    /// The `genre_id` column.
    pub genre_id: GenreId,
    /// The `name` column.
    pub name: String,
}

/// A history playlist.
#[derive(Debug, Clone, PartialEq, Eq)]
pub struct History {
    /// The `history_id` column.
    pub history_id: HistoryId,
    /// The `sequence_no` column.
    pub sequence_no: i32,
    /// The `name` column.
    pub name: String,
    /// The `attribute` column.
    pub attribute: i32,
    /// The `history_id_parent` column.
    pub history_id_parent: HistoryId,
}

/// A track in a history playlist.
#[derive(Debug, Clone, PartialEq, Eq)]
pub struct HistoryContent {
    /// The `history_id` column.
    pub history_id: HistoryId,
    /// The `content_id` column.
    pub content_id: ContentId,
    /// The `sequence_no` column.
    pub sequence_no: i32,
}

/// A hot cue bank list or folder.
#[derive(Debug, Clone, PartialEq, Eq)]
pub struct HotCueBankList {
    /// The `hot_cue_bank_list_id` column.
    pub hot_cue_bank_list_id: HotCueBankListId,
    /// The `sequence_no` column.
    pub sequence_no: i32,
    /// The `name` column.
    pub name: Option<String>,
    /// The `image_id` column.
    pub image_id: Option<ImageId>,
    /// The `attribute` column.
    pub attribute: i32,
    /// The `hot_cue_bank_list_id_parent` column.
    pub hot_cue_bank_list_id_parent: Option<HotCueBankListId>,
}

/// A cue in a hot cue bank list.
#[derive(Debug, Clone, PartialEq, Eq)]
pub struct HotCueBankListCue {
    /// The `hot_cue_bank_list_id` column.
    pub hot_cue_bank_list_id: HotCueBankListId,
    /// The `cue_id` column.
    pub cue_id: CueId,
    /// The `sequence_no` column.
    pub sequence_no: i32,
}

/// An artwork image.
#[derive(Debug, Clone, PartialEq, Eq)]
pub struct Image {
    /// The `image_id` column.
    pub image_id: ImageId,
    /// The `path` column.
    pub path: String,
}

/// A musical key.
#[derive(Debug, Clone, PartialEq, Eq)]
pub struct Key {
    /// The `key_id` column.
    pub key_id: KeyId,
    /// The `name` column.
    pub name: String,
}

/// A record label.
#[derive(Debug, Clone, PartialEq, Eq)]
pub struct Label {
    /// The `label_id` column.
    pub label_id: LabelId,
    /// The `name` column.
    pub name: String,
}

/// A browse menu item.
#[derive(Debug, Clone, PartialEq, Eq)]
pub struct MenuItem {
    /// The `menu_item_id` column.
    pub menu_item_id: MenuItemId,
    /// The `kind` column.
    pub kind: i32,
    /// The `name` column.
    pub name: String,
}

/// A My Tag or My Tag folder.
#[derive(Debug, Clone, PartialEq, Eq)]
pub struct MyTag {
    /// The `my_tag_id` column.
    pub my_tag_id: MyTagId,
    /// The `sequence_no` column.
    pub sequence_no: i32,
    /// The `name` column.
    pub name: String,
    /// The `attribute` column.
    pub attribute: i32,
    /// The `my_tag_id_parent` column.
    pub my_tag_id_parent: MyTagId,
}

/// A track tagged with a My Tag.
#[derive(Debug, Clone, PartialEq, Eq)]
pub struct MyTagContent {
    /// The `my_tag_id` column.
    pub my_tag_id: MyTagId,
    /// The `content_id` column.
    pub content_id: ContentId,
}

/// A playlist or playlist folder.
#[derive(Debug, Clone, PartialEq, Eq)]
pub struct Playlist {
    /// The `playlist_id` column.
    pub playlist_id: PlaylistId,
    /// The `sequence_no` column.
    pub sequence_no: i32,
    /// The `name` column.
    pub name: String,
    /// The `image_id` column.
    pub image_id: Option<ImageId>,
    /// The `attribute` column.
    pub attribute: i32,
    /// The `playlist_id_parent` column.
    pub playlist_id_parent: PlaylistId,
}

/// A track in a playlist.
#[derive(Debug, Clone, PartialEq, Eq)]
pub struct PlaylistContent {
    /// The `playlist_id` column.
    pub playlist_id: PlaylistId,
    /// The `content_id` column.
    pub content_id: ContentId,
    /// The `sequence_no` column.
    pub sequence_no: i32,
}

/// The properties of the exported library.
#[derive(Debug, Clone, PartialEq, Eq)]
pub struct Property {
    /// The `device_name` column.
    pub device_name: String,
    /// The `db_version` column.
    pub db_version: String,
    /// The `number_of_contents` column.
    pub number_of_contents: i32,
    /// The `created_date` column.
    pub created_date: String,
    /// The `back_ground_color_type` column.
    pub back_ground_color_type: i32,
    /// The `my_tag_master_dbid` column.
    pub my_tag_master_dbid: i64,
}

/// A rating of how well two tracks go together.
#[derive(Debug, Clone, PartialEq, Eq)]
pub struct RecommendedLike {
    /// The `content_id_1` column.
    pub content_id_1: ContentId,
    /// The `content_id_2` column.
    pub content_id_2: ContentId,
    /// The `rating` column.
    pub rating: i32,
    /// The `created_date` column.
    pub created_date: i32,
}

/// A sort order entry of a browse menu.
#[derive(Debug, Clone, PartialEq, Eq)]
pub struct Sort {
    /// The `sort_id` column.
    pub sort_id: SortId,
    /// The `menu_item_id` column.
    pub menu_item_id: MenuItemId,
    /// The `sequence_no` column.
    pub sequence_no: i32,
    /// The `is_visible` column.
    pub is_visible: i32,
    /// The `is_selected_as_sub_column` column.
    pub is_selected_as_sub_column: i32,
}

impl Category {
    /// A browse category for a menu item, visible or hidden.
    pub fn new(
        category_id: CategoryId,
        menu_item_id: MenuItemId,
        sequence_no: i32,
        is_visible: BinaryFlag,
    ) -> (r: Self)
        ensures
            r.category_id == category_id,
            r.menu_item_id == menu_item_id,
            r.sequence_no == sequence_no,
            r.is_visible == is_visible.spec_i32(),
    {
        Category { category_id, menu_item_id, sequence_no, is_visible: is_visible.as_i32() }
    }
}

impl Color {
    /// A color with a name.
    pub fn new(color_id: ColorId, name: String) -> (r: Self)
        ensures
            r.color_id == color_id,
            r.name == name,
    {
        Color { color_id, name }
    }
}

impl Key {
    /// A musical key with a name.
    pub fn new(key_id: KeyId, name: String) -> (r: Self)
        ensures
            r.key_id == key_id,
            r.name == name,
    {
        Key { key_id, name }
    }
}

impl MenuItem {
    /// A menu item of a kind, with a name.
    pub fn new(menu_item_id: MenuItemId, kind: i32, name: String) -> (r: Self)
        ensures
            r.menu_item_id == menu_item_id,
            r.kind == kind,
            r.name == name,
    {
        MenuItem { menu_item_id, kind, name }
    }
}

impl Property {
    /// The library properties, with the default background color type.
    pub fn new(
        device_name: String,
        db_version: String,
        number_of_contents: i32,
        created_date: String,
        my_tag_master_dbid: i64,
    ) -> (r: Self)
        ensures
            r.device_name == device_name,
            r.db_version == db_version,
            r.number_of_contents == number_of_contents,
            r.created_date == created_date,
            r.back_ground_color_type == BackgroundColorType::Default.spec_i32(),
            r.my_tag_master_dbid == my_tag_master_dbid,
    {
        Property {
            device_name,
            db_version,
            number_of_contents,
            created_date,
            back_ground_color_type: BackgroundColorType::Default.as_i32(),
            my_tag_master_dbid,
        }
    }
}

impl Sort {
    /// A sort entry for a menu item, with its visibility and whether it is selected as the
    /// sub column.
    pub fn new(
        sort_id: SortId,
        menu_item_id: MenuItemId,
        sequence_no: i32,
        is_visible: BinaryFlag,
        is_selected_as_sub_column: BinaryFlag,
    ) -> (r: Self)
        ensures
            r.sort_id == sort_id,
            r.menu_item_id == menu_item_id,
            r.sequence_no == sequence_no,
            r.is_visible == is_visible.spec_i32(),
            r.is_selected_as_sub_column == is_selected_as_sub_column.spec_i32(),
    {
        Sort {
            sort_id,
            menu_item_id,
            sequence_no,
            is_visible: is_visible.as_i32(),
            is_selected_as_sub_column: is_selected_as_sub_column.as_i32(),
        }
    }
}

} // verus!
