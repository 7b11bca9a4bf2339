//! Music tags: what is read from an audio file, and how values are prepared
//! before they are written back. Tag I/O lives with the caller.
use vstd::prelude::*;

use crate::domain::project::MusicMetadata;
use crate::text::{chars_of, extend_str, str_is_blank, string_from, trim, trim_chars};

verus! {

/// The title, artist, other metadata and cover art read from an audio
/// file, used to start a new project.
#[derive(Debug)]
pub struct AudioMetadata {
    pub title: String,
    pub artist: String,
    pub details: MusicMetadata,
    pub artwork: Option<Vec<u8>>,
}

impl Default for AudioMetadata {
    /// Empty metadata: what a file without tags gives.
    fn default() -> (m: Self)
        ensures
            m.title@.len() == 0,
            m.artist@.len() == 0,
            m.details.album@.len() == 0,
            m.details.album_artist@.len() == 0,
            m.details.genre@.len() == 0,
            m.details.year is None,
            m.details.track_number is None,
            m.details.disc_number is None,
            m.details.artwork_path is None,
            m.artwork is None,
    {
        AudioMetadata {
            title: String::new(),
            artist: String::new(),
            details: MusicMetadata::default(),
            artwork: None,
        }
    }
}

/// The value written for a text tag: the trimmed text, or `None` (the item
/// is removed) when it is blank, so that no meaningless empty items remain.
pub open spec fn tag_value(value: Seq<char>) -> Option<Seq<char>> {
    if trim(value).len() == 0 {
        None
    } else {
        Some(trim(value))
    }
}

/// Prepares a text tag value, as [`tag_value`] describes.
pub fn tag_text(value: &str) -> (r: Option<String>)
    ensures
        match r {
            Some(t) => tag_value(value@) == Some(t@),
            None => tag_value(value@) is None,
        },
{
    let trimmed = trim_chars(&chars_of(value));
    if trimmed.len() == 0 {
        None
    } else {
        Some(string_from(&trimmed))
    }
}

/// The lyrics embedded in a tag: the text when it is not blank; blank or
/// absent lyrics remove the item.
pub fn lyrics_tag(lyrics: Option<&str>) -> (r: Option<String>)
    ensures
        match lyrics {
            Some(text) => if trim(text@).len() == 0 {
                r is None
            } else {
                r is Some && r->0@ == text@
            },
            None => r is None,
        },
{
    match lyrics {
        Some(text) => {
            if str_is_blank(text) {
                None
            } else {
                Some(text.to_owned())
            }
        },
        None => None,
    }
}

/// The year written to a tag: only a year that fits in 16 bits is written;
/// otherwise the date is removed.
pub fn tag_year(year: Option<u32>) -> (r: Option<u16>)
    ensures
        match year {
            Some(y) => if y <= u16::MAX {
                r == Some(y as u16)
            } else {
                r is None
            },
            None => r is None,
        },
{
    match year {
        Some(y) => {
            if y <= 65535 {
                Some(y as u16)
            } else {
                None
            }
        },
        None => None,
    }
}

/// The extension of the backup made before tags are first written:
/// `song.mp3` is backed up as `song.mp3.tag-backup`, and a file without a
/// (readable) extension as `….audio.tag-backup`.
pub fn backup_extension(extension: Option<&str>) -> (r: String)
    ensures
        r@ == (match extension {
            Some(e) => e@,
            None => "audio"@,
        }) + ".tag-backup"@,
{
    let mut out = match extension {
        Some(e) => chars_of(e),
        None => chars_of("audio"),
    };
    extend_str(&mut out, ".tag-backup");
    string_from(&out)
}

/// The container an audio file's tags live in, as far as the tag rules
/// care: FLAC (Vorbis comments) and MP4 hold LRC lyrics as a plain text
/// item; other containers (ID3v2 of MP3 among them) have no such item.
#[derive(Debug, Clone, Copy, PartialEq, Eq, Structural)]
pub enum TagContainer {
    Flac,
    Mp4,
    Other,
}

/// Whether the container keeps LRC lyrics in a text item.
pub open spec fn holds_lyrics(container: TagContainer) -> bool {
    container is Flac || container is Mp4
}

/// What happens to one tag item.
#[derive(Debug, Clone, PartialEq)]
pub enum ItemChange {
    /// Written with this text.
    Write(String),
    /// Removed.
    Remove,
    /// Left as it is.
    Keep,
}

/// `change` writes the prepared value `value` ([`tag_value`]): set when
/// there is one, removed otherwise.
pub open spec fn text_change(change: ItemChange, value: Option<Seq<char>>) -> bool {
    match value {
        Some(t) => change matches ItemChange::Write(s) && s@ == t,
        None => change is Remove,
    }
}

/// Every item a tag write touches. `year`, `track` and `disc` are set when
/// `Some` and removed when `None`.
#[derive(Debug, Clone, PartialEq)]
pub struct TagPlan {
    pub title: ItemChange,
    pub artist: ItemChange,
    pub album: ItemChange,
    pub genre: ItemChange,
    pub album_artist: ItemChange,
    pub lyrics: ItemChange,
    pub year: Option<u16>,
    pub track: Option<u32>,
    pub disc: Option<u32>,
}

fn text_item(value: &str) -> (change: ItemChange)
    ensures
        text_change(change, tag_value(value@)),
{
    match tag_text(value) {
        Some(text) => ItemChange::Write(text),
        None => ItemChange::Remove,
    }
}

/// Decides the tag write for a file in `container`: each text item is
/// written trimmed or removed when blank; the lyrics are written (trimmed)
/// or removed only where the container holds them and are otherwise left
/// alone; the year is written when it fits in 16 bits and removed
/// otherwise; the track and disc numbers are written or removed.
pub fn plan_tags(
    container: TagContainer,
    title: &str,
    artist: &str,
    metadata: &MusicMetadata,
    lyrics: Option<&str>,
) -> (p: TagPlan)
    ensures
        text_change(p.title, tag_value(title@)),
        text_change(p.artist, tag_value(artist@)),
        text_change(p.album, tag_value(metadata.album@)),
        text_change(p.genre, tag_value(metadata.genre@)),
        text_change(p.album_artist, tag_value(metadata.album_artist@)),
        holds_lyrics(container) ==> text_change(
            p.lyrics,
            match lyrics {
                Some(text) => tag_value(text@),
                None => None,
            },
        ),
        !holds_lyrics(container) ==> p.lyrics is Keep,
        p.year == (match metadata.year {
            Some(y) => if y <= u16::MAX {
                Some(y as u16)
            } else {
                None::<u16>
            },
            None => None,
        }),
        p.track == metadata.track_number,
        p.disc == metadata.disc_number,
{
    let lyrics_change = match container {
        TagContainer::Other => ItemChange::Keep,
        _ => match lyrics_tag(lyrics) {
            Some(text) => text_item(text.as_str()),
            None => ItemChange::Remove,
        },
    };
    TagPlan {
        title: text_item(title),
        artist: text_item(artist),
        album: text_item(metadata.album.as_str()),
        genre: text_item(metadata.genre.as_str()),
        album_artist: text_item(metadata.album_artist.as_str()),
        lyrics: lyrics_change,
        year: tag_year(metadata.year),
        track: metadata.track_number,
        disc: metadata.disc_number,
    }
}

} // verus!
