use vstd::prelude::*;

verus! {

/// The kind of a tagged value, as reported in structural errors.
#[derive(Clone, Copy, Debug, PartialEq, Eq, Structural)]
pub enum TagKind {
    Byte,
    Int,
    Long,
    Str,
    LongArray,
    List,
    Compound,
    Other,
}

/// Why a region, chunk or section failed to decode.
///
/// Every variant carries the context needed to diagnose a malformed
/// input without re-running the decode: the key that was wrong, the
/// indices involved, or the section that was missing.
#[derive(Clone, Debug)]
pub enum DecodeError {
    /// A required tag is absent (`found == None`) or has the wrong
    /// kind (`found == Some(actual kind)`).
    WrongTag { key: String, found: Option<TagKind> },
    /// A packed-array word index fell outside the backing array.
    WordIndexOutOfBounds { word_index: usize, data_len: usize },
    /// A decoded palette index fell outside the palette.
    PaletteIndexOutOfBounds {
        palette_index: u64,
        palette_len: usize,
        bits_per_entry: usize,
        element_index: usize,
    },
    /// No section subtree exists for a vertical index that an in-range
    /// y coordinate requires.
    MissingSection { section_y: i32 },
    /// A packed heightmap array held fewer words than 256 values need.
    HeightmapTooShort { len: usize },
    /// The region buffer is shorter than its fixed 8192-byte header.
    TruncatedRegion { len: usize },
    /// A chunk slot's zlib payload failed to decompress.
    CorruptCompressedChunk { slot: usize },
}

/// The mathematical shadow of [`DecodeError`]: strings become
/// sequences of characters so that contracts can speak of error
/// values exactly.
pub enum ErrorView {
    WrongTag { key: Seq<char>, found: Option<TagKind> },
    WordIndexOutOfBounds { word_index: int, data_len: int },
    PaletteIndexOutOfBounds {
        palette_index: int,
        palette_len: int,
        bits_per_entry: int,
        element_index: int,
    },
    MissingSection { section_y: int },
    HeightmapTooShort { len: int },
    TruncatedRegion { len: int },
    CorruptCompressedChunk { slot: int },
}

impl View for DecodeError {
    type V = ErrorView;

    open spec fn view(&self) -> ErrorView {
        match self {
            DecodeError::WrongTag { key, found } => ErrorView::WrongTag {
                key: key@,
                found: *found,
            },
            DecodeError::WordIndexOutOfBounds { word_index, data_len } => {
                ErrorView::WordIndexOutOfBounds {
                    word_index: *word_index as int,
                    data_len: *data_len as int,
                }
            },
            DecodeError::PaletteIndexOutOfBounds {
                palette_index,
                palette_len,
                bits_per_entry,
                element_index,
            } => ErrorView::PaletteIndexOutOfBounds {
                palette_index: *palette_index as int,
                palette_len: *palette_len as int,
                bits_per_entry: *bits_per_entry as int,
                element_index: *element_index as int,
            },
            DecodeError::MissingSection { section_y } => ErrorView::MissingSection {
                section_y: *section_y as int,
            },
            DecodeError::HeightmapTooShort { len } => ErrorView::HeightmapTooShort {
                len: *len as int,
            },
            DecodeError::TruncatedRegion { len } => ErrorView::TruncatedRegion {
                len: *len as int,
            },
            DecodeError::CorruptCompressedChunk { slot } => ErrorView::CorruptCompressedChunk {
                slot: *slot as int,
            },
        }
    }
}

} // verus!
