//! A song: the descriptive record of one piece of audio.

use vstd::prelude::*;
use vstd::string::StringExecFns;
use crate::text::{append_decimal_padded2, contains_text, to_lowercase};
use crate::text::{decimal_padded2, lowercase_of, occurs_in};

verus! {

/// What a song is to the contracts: its texts as character sequences and its
/// numbers as naturals.
pub struct SongView {
    pub title: Seq<char>,
    pub artist: Seq<char>,
    pub duration: nat,
    pub genre: Seq<char>,
    pub year: nat,
    pub path: Seq<char>,
}

impl SongView {
    /// Whether `needle` is part of the lowercase form of the title, of the
    /// artist or of the genre.
    pub open spec fn matches(self, needle: Seq<char>) -> bool {
        any_contains(
            lowercase_of(self.title),
            lowercase_of(self.artist),
            lowercase_of(self.genre),
            needle,
        )
    }

    /// Whether the two songs share their genre or their artist.
    pub open spec fn related_to(self, other: SongView) -> bool {
        self.genre == other.genre || self.artist == other.artist
    }

    /// The one-line description of the song.
    pub open spec fn display_text(self) -> Seq<char> {
        "🎵 "@ + self.artist + " - "@ + self.title + " ["@ + duration_text(self.duration)
            + "] ("@ + self.genre + ")"@
    }
}

/// A length of `seconds` written as minutes and seconds, each with at least
/// two digits, with a colon between them.
pub open spec fn duration_text(seconds: nat) -> Seq<char> {
    decimal_padded2(seconds / 60) + seq![':'] + decimal_padded2(seconds % 60)
}

/// Whether `needle` is part of one of three texts.
pub open spec fn any_contains(
    title: Seq<char>,
    artist: Seq<char>,
    genre: Seq<char>,
    needle: Seq<char>,
) -> bool {
    occurs_in(needle, title) || occurs_in(needle, artist) || occurs_in(needle, genre)
}

/// Tells whether `needle` is part of `title`, of `artist` or of `genre`,
/// comparing the characters as they stand.
pub fn matches_any(title: &str, artist: &str, genre: &str, needle: &str) -> (r: bool)
    ensures
        r == any_contains(title@, artist@, genre@, needle@),
{
    contains_text(title, needle) || contains_text(artist, needle) || contains_text(genre, needle)
}

/// Appends to `out` the text of a length of `seconds`.
pub fn append_duration(out: &mut String, seconds: u32)
    ensures
        final(out)@ == old(out)@ + duration_text(seconds as nat),
{
    proof {
        reveal_strlit(":");
    }
    let minutes: u32 = seconds / 60;
    let rest: u32 = seconds % 60;
    append_decimal_padded2(out, minutes as u64);
    out.append(":");
    append_decimal_padded2(out, rest as u64);
    assert(out@ =~= old(out)@ + duration_text(seconds as nat));
}

/// Descriptive metadata of one piece of audio. A song never changes once made.
#[derive(Debug)]
pub struct Song {
    title: String,
    artist: String,
    duration: u32,
    genre: String,
    year: u16,
    path: String,
}

impl View for Song {
    type V = SongView;

    closed spec fn view(&self) -> SongView {
        SongView {
            title: self.title@,
            artist: self.artist@,
            duration: self.duration as nat,
            genre: self.genre@,
            year: self.year as nat,
            path: self.path@,
        }
    }
}

impl Clone for Song {
    fn clone(&self) -> (r: Self)
        ensures
            r@ == self@,
    {
        Song {
            title: self.title.clone(),
            artist: self.artist.clone(),
            duration: self.duration,
            genre: self.genre.clone(),
            year: self.year,
            path: self.path.clone(),
        }
    }
}

impl Song {
    /// Makes a song from its six attributes.
    pub fn new(
        title: String,
        artist: String,
        duration: u32,
        genre: String,
        year: u16,
        path: String,
    ) -> (r: Self)
        ensures
            r@ == (SongView {
                title: title@,
                artist: artist@,
                duration: duration as nat,
                genre: genre@,
                year: year as nat,
                path: path@,
            }),
    {
        Song { title, artist, duration, genre, year, path }
    }

    /// Makes a song from borrowed texts.
    pub fn from_parts(
        title: &str,
        artist: &str,
        duration: u32,
        genre: &str,
        year: u16,
        path: &str,
    ) -> (r: Self)
        ensures
            r@ == (SongView {
                title: title@,
                artist: artist@,
                duration: duration as nat,
                genre: genre@,
                year: year as nat,
                path: path@,
            }),
    {
        Song::new(
            String::from_str(title),
            String::from_str(artist),
            duration,
            String::from_str(genre),
            year,
            String::from_str(path),
        )
    }

    /// The title.
    pub fn title(&self) -> (r: &str)
        ensures
            r@ == self@.title,
    {
        self.title.as_str()
    }

    /// The artist.
    pub fn artist(&self) -> (r: &str)
        ensures
            r@ == self@.artist,
    {
        self.artist.as_str()
    }

    /// The length in seconds.
    pub fn duration(&self) -> (r: u32)
        ensures
            r == self@.duration,
    {
        self.duration
    }

    /// The genre.
    pub fn genre(&self) -> (r: &str)
        ensures
            r@ == self@.genre,
    {
        self.genre.as_str()
    }

    /// The year of release.
    pub fn year(&self) -> (r: u16)
        ensures
            r == self@.year,
    {
        self.year
    }

    /// The path of the audio file. It is kept as given and never opened.
    pub fn path(&self) -> (r: &str)
        ensures
            r@ == self@.path,
    {
        self.path.as_str()
    }

    /// The length of the song as minutes and seconds.
    pub fn format_duration(&self) -> (r: String)
        ensures
            r@ == duration_text(self@.duration),
    {
        let mut out = String::new();
        append_duration(&mut out, self.duration);
        out
    }

    /// The one-line description of the song: artist, title, length and genre.
    pub fn display(&self) -> (r: String)
        ensures
            r@ == self@.display_text(),
    {
        let mut out = String::from_str("🎵 ");
        out.append(self.artist.as_str());
        out.append(" - ");
        out.append(self.title.as_str());
        out.append(" [");
        append_duration(&mut out, self.duration);
        out.append("] (");
        out.append(self.genre.as_str());
        out.append(")");
        assert(out@ =~= self@.display_text());
        out
    }

    /// Tells whether `needle` is part of the lowercase form of the title, of
    /// the artist or of the genre. For a search that ignores case, `needle`
    /// is itself in lowercase.
    pub fn matches(&self, needle: &str) -> (r: bool)
        ensures
            r == self@.matches(needle@),
    {
        let title = to_lowercase(self.title.as_str());
        let artist = to_lowercase(self.artist.as_str());
        let genre = to_lowercase(self.genre.as_str());
        matches_any(title.as_str(), artist.as_str(), genre.as_str(), needle)
    }

    /// Tells whether the two songs share their genre or their artist.
    pub fn related_to(&self, other: &Song) -> (r: bool)
        ensures
            r == self@.related_to(other@),
    {
        self.genre == other.genre || self.artist == other.artist
    }
}

} // verus!
