//! The player: a library of songs, named playlists, the playlist chosen for
//! playback and a volume.

use vstd::prelude::*;
use vstd::hash_map::StringHashMap;
use vstd::string::StringExecFns;
use crate::chance::draw_key;
use crate::playlist::{song_views, Playlist, PlaylistView};
use crate::ranking::{is_key_order, lemma_key_order_unique, order_by_keys};
use crate::song::{Song, SongView};
use crate::text::{lemma_empty_occurs_everywhere, lowercase_of, same_text, to_lowercase};

verus! {

/// The volume of a player that was just made.
pub const DEFAULT_VOLUME: u8 = 50;

/// The highest volume.
pub const MAX_VOLUME: u8 = 100;

/// The most songs that a recommendation holds.
pub const MAX_RECOMMENDATIONS: usize = 5;

/// What a player is to the contracts.
pub struct MusicPlayerView {
    pub library: Seq<SongView>,
    pub playlists: Map<Seq<char>, PlaylistView>,
    pub current_playlist: Option<Seq<char>>,
    pub volume: nat,
}

impl MusicPlayerView {
    /// Every playlist is well formed and stands under its own name, the
    /// playlist chosen for playback exists, and the volume is in range.
    pub open spec fn wf(self) -> bool {
        &&& self.volume <= MAX_VOLUME
        &&& forall|name: Seq<char>| #[trigger]
            self.playlists.contains_key(name) ==> self.playlists[name].wf()
                && self.playlists[name].name == name
        &&& self.current_playlist matches Some(name) ==> self.playlists.contains_key(name)
    }

    /// A player with the given library, no playlist and the default volume.
    pub open spec fn with_library(library: Seq<SongView>) -> Self {
        MusicPlayerView {
            library,
            playlists: Map::empty(),
            current_playlist: None,
            volume: DEFAULT_VOLUME as nat,
        }
    }

    /// The player with `playlist` standing under its name, in place of any
    /// playlist that stood there.
    pub open spec fn with_playlist(self, playlist: PlaylistView) -> Self {
        MusicPlayerView { playlists: self.playlists.insert(playlist.name, playlist), ..self }
    }

    /// The playlist chosen for playback.
    pub open spec fn active(self) -> Option<PlaylistView> {
        match self.current_playlist {
            Some(name) if self.playlists.contains_key(name) => Some(self.playlists[name]),
            _ => None,
        }
    }

    /// The song under the cursor of the playlist chosen for playback.
    pub open spec fn current_track(self) -> Option<SongView> {
        match self.active() {
            Some(playlist) => playlist.current_song(),
            None => None,
        }
    }

    /// The player with the playlist chosen for playback replaced by
    /// `playlist`; the player itself where none is chosen.
    pub open spec fn with_active(self, playlist: PlaylistView) -> Self {
        match self.current_playlist {
            Some(name) if self.playlists.contains_key(name) => MusicPlayerView {
                playlists: self.playlists.insert(name, playlist),
                ..self
            },
            _ => self,
        }
    }

    /// The player after `song` was appended to the playlist called `name`.
    pub open spec fn with_song_in(self, name: Seq<char>, song: SongView) -> Self {
        MusicPlayerView {
            playlists: self.playlists.insert(name, self.playlists[name].with_song(song)),
            ..self
        }
    }

    /// The player after the playlist called `name` was chosen for playback;
    /// the player itself where there is no such playlist.
    pub open spec fn activated(self, name: Seq<char>) -> Self {
        if self.playlists.contains_key(name) {
            MusicPlayerView {
                playlists: self.playlists.insert(name, self.playlists[name].started()),
                current_playlist: Some(name),
                ..self
            }
        } else {
            self
        }
    }

    /// The player without the playlist called `name`. Where that playlist
    /// was chosen for playback, no playlist is chosen any more.
    pub open spec fn without_playlist(self, name: Seq<char>) -> Self {
        MusicPlayerView {
            playlists: self.playlists.remove(name),
            current_playlist: if self.current_playlist == Some(name) {
                None
            } else {
                self.current_playlist
            },
            ..self
        }
    }

    /// The player after the playlist chosen for playback stepped forward,
    /// with `draw` standing for the random pick.
    pub open spec fn advanced(self, draw: nat) -> Self {
        match self.active() {
            Some(playlist) => self.with_active(playlist.advanced(draw)),
            None => self,
        }
    }

    /// The player after the playlist chosen for playback stepped back.
    pub open spec fn retreated(self) -> Self {
        match self.active() {
            Some(playlist) => self.with_active(playlist.retreated()),
            None => self,
        }
    }

    /// The player after the shuffle flag of the playlist chosen for playback
    /// was flipped.
    pub open spec fn shuffle_toggled(self) -> Self {
        match self.active() {
            Some(playlist) => self.with_active(playlist.shuffle_toggled()),
            None => self,
        }
    }

    /// The player with the volume set to `volume`, or to the highest volume
    /// where `volume` lies above it.
    pub open spec fn with_volume(self, volume: nat) -> Self {
        MusicPlayerView {
            volume: if volume > MAX_VOLUME {
                MAX_VOLUME as nat
            } else {
                volume
            },
            ..self
        }
    }

    /// The player after the demo data was loaded: the library is replaced
    /// by the eight demo songs, and two fresh playlists over it, one of rock
    /// and one of pop, stand under their names.
    pub open spec fn with_demo(self) -> Self {
        MusicPlayerView {
            library: demo_library(),
            playlists: self.playlists.insert(
                "Rock Classics"@,
                playlist_of("Rock Classics"@, demo_library(), rock_or_grunge()),
            ).insert("Pop Hits"@, playlist_of("Pop Hits"@, demo_library(), pop())),
            ..self
        }
    }

    /// The songs of the library that match the lowercase text `needle`, in
    /// library order.
    pub open spec fn search(self, needle: Seq<char>) -> Seq<SongView> {
        self.library.filter(matching(needle))
    }

    /// The first songs of the library, up to `MAX_RECOMMENDATIONS` of them,
    /// that share their genre or their artist with `track`.
    pub open spec fn related_songs(self, track: SongView) -> Seq<SongView> {
        let all = self.library.filter(related(track));
        if all.len() <= MAX_RECOMMENDATIONS {
            all
        } else {
            all.take(MAX_RECOMMENDATIONS as int)
        }
    }
}

/// The views of a sequence of borrowed songs, in order.
pub open spec fn ref_views(songs: Seq<&Song>) -> Seq<SongView> {
    Seq::new(songs.len(), |i: int| songs[i]@)
}

/// The test that a song matches the lowercase text `needle`.
pub open spec fn matching(needle: Seq<char>) -> spec_fn(SongView) -> bool {
    |song: SongView| song.matches(needle)
}

/// The test that a song shares its genre or its artist with `track`.
pub open spec fn related(track: SongView) -> spec_fn(SongView) -> bool {
    |song: SongView| song.related_to(track)
}

/// The announcement that `song` is now playing.
pub open spec fn now_playing_text(song: SongView) -> Seq<char> {
    "▶️ Играет: "@ + song.display_text()
}

/// Whether `out` holds the songs of `library` that come first, up to
/// `MAX_RECOMMENDATIONS` of them, when the songs are ordered by the sort
/// keys that `keys` gives them, position by position.
pub open spec fn is_key_sample(library: Seq<SongView>, keys: Seq<u32>, out: Seq<SongView>) -> bool {
    exists|order: Seq<usize>|
        {
            &&& #[trigger] is_key_order(keys, order)
            &&& out.len() == if order.len() <= MAX_RECOMMENDATIONS {
                order.len()
            } else {
                MAX_RECOMMENDATIONS as nat
            }
            &&& forall|k: int| 0 <= k < out.len() ==> out[k] == library[order[k] as int]
        }
}

/// The view of a song with the given attributes.
pub open spec fn song_of(
    title: Seq<char>,
    artist: Seq<char>,
    duration: nat,
    genre: Seq<char>,
    year: nat,
    path: Seq<char>,
) -> SongView {
    SongView { title, artist, duration, genre, year, path }
}

/// The eight songs that a new player starts with.
pub open spec fn demo_library() -> Seq<SongView> {
    seq![
        song_of("Bohemian Rhapsody"@, "Queen"@, 354, "Rock"@, 1975, "queen_bohemian.mp3"@),
        song_of("Stairway to Heaven"@, "Led Zeppelin"@, 482, "Rock"@, 1971, "lz_stairway.mp3"@),
        song_of("Hotel California"@, "Eagles"@, 391, "Rock"@, 1976, "eagles_hotel.mp3"@),
        song_of("Imagine"@, "John Lennon"@, 183, "Pop"@, 1971, "lennon_imagine.mp3"@),
        song_of("Sweet Child O' Mine"@, "Guns N' Roses"@, 356, "Rock"@, 1987, "gnr_sweet_child.mp3"@),
        song_of("Billie Jean"@, "Michael Jackson"@, 294, "Pop"@, 1982, "mj_billie_jean.mp3"@),
        song_of(
            "Smells Like Teen Spirit"@,
            "Nirvana"@,
            301,
            "Grunge"@,
            1991,
            "nirvana_teen_spirit.mp3"@,
        ),
        song_of("Yesterday"@, "The Beatles"@, 125, "Pop"@, 1965, "beatles_yesterday.mp3"@),
    ]
}

/// The test that a song belongs to the rock playlist of a new player.
pub open spec fn rock_or_grunge() -> spec_fn(SongView) -> bool {
    |song: SongView| song.genre == "Rock"@ || song.genre == "Grunge"@
}

/// The test that a song belongs to the pop playlist of a new player.
pub open spec fn pop() -> spec_fn(SongView) -> bool {
    |song: SongView| song.genre == "Pop"@
}

/// A fresh playlist called `name` with the songs of `library` that pass
/// `test`, in library order.
pub open spec fn playlist_of(
    name: Seq<char>,
    library: Seq<SongView>,
    test: spec_fn(SongView) -> bool,
) -> PlaylistView {
    PlaylistView { songs: library.filter(test), ..PlaylistView::empty(name) }
}

/// A library of songs with named playlists over copies of them.
pub struct MusicPlayer {
    library: Vec<Song>,
    playlists: Vec<Playlist>,
    index: StringHashMap<usize>,
    current_playlist: Option<String>,
    volume: u8,
}

impl View for MusicPlayer {
    type V = MusicPlayerView;

    closed spec fn view(&self) -> MusicPlayerView {
        MusicPlayerView {
            library: song_views(self.library@),
            playlists: Map::new(
                |name: Seq<char>| self.index@.contains_key(name),
                |name: Seq<char>| self.playlists@[self.index@[name] as int]@,
            ),
            current_playlist: match self.current_playlist {
                Some(name) => Some(name@),
                None => None,
            },
            volume: self.volume as nat,
        }
    }
}

impl MusicPlayer {
    /// The invariant of a player: the name index and the list of playlists
    /// agree, every playlist is well formed, the playlist chosen for
    /// playback exists and the volume is in range.
    pub closed spec fn wf(&self) -> bool {
        &&& self.volume <= MAX_VOLUME
        &&& forall|i: int| 0 <= i < self.playlists@.len() ==> (#[trigger] self.playlists@[i]).wf()
        &&& forall|i: int|
            0 <= i < self.playlists@.len() ==> self.index@.contains_key(
                (#[trigger] self.playlists@[i])@.name,
            ) && self.index@[self.playlists@[i]@.name] == i
        &&& forall|name: Seq<char>| #[trigger]
            self.index@.contains_key(name) ==> self.index@[name] < self.playlists@.len()
                && self.playlists@[self.index@[name] as int]@.name == name
        &&& self.current_playlist matches Some(name) ==> self.index@.contains_key(name@)
    }

    /// A well-formed player has a well-formed view.
    pub proof fn lemma_view_wf(&self)
        requires
            self.wf(),
        ensures
            self@.wf(),
    {
    }

    /// Makes a player with the given library, no playlist and the default
    /// volume.
    pub fn with_library(library: Vec<Song>) -> (r: Self)
        ensures
            r.wf(),
            r@ == MusicPlayerView::with_library(song_views(library@)),
    {
        let r = MusicPlayer {
            library,
            playlists: Vec::new(),
            index: StringHashMap::new(),
            current_playlist: None,
            volume: DEFAULT_VOLUME,
        };
        assert(r@.playlists =~= Map::empty());
        r
    }

    /// Makes a player with the demo data: the eight demo songs, a playlist
    /// of rock and one of pop over them, no playlist chosen and the default
    /// volume.
    pub fn new() -> (r: Self)
        ensures
            r.wf(),
            r@ == MusicPlayerView::with_library(Seq::empty()).with_demo(),
    {
        let mut player = MusicPlayer::with_library(Vec::new());
        assert(song_views(Seq::<Song>::empty()) =~= Seq::<SongView>::empty());
        player.add_demo_songs();
        player
    }

    /// Loads the demo data: replaces the library by the eight demo songs and
    /// puts two fresh playlists under their names, one with every rock and
    /// grunge song of the library and one with every pop song, in library
    /// order.
    pub fn add_demo_songs(&mut self)
        requires
            old(self).wf(),
        ensures
            final(self).wf(),
            final(self)@ == old(self)@.with_demo(),
    {
        self.library = demo_songs();
        let mut rock_playlist = Playlist::new(String::from_str("Rock Classics"));
        let mut pop_playlist = Playlist::new(String::from_str("Pop Hits"));
        let mut i: usize = 0;
        proof {
            lemma_filter_take_start(self@.library, rock_or_grunge());
            lemma_filter_take_start(self@.library, pop());
        }
        while i < self.library.len()
            invariant
                i <= self.library.len(),
                rock_playlist.wf(),
                pop_playlist.wf(),
                rock_playlist@ == playlist_of(
                    "Rock Classics"@,
                    self@.library.take(i as int),
                    rock_or_grunge(),
                ),
                pop_playlist@ == playlist_of("Pop Hits"@, self@.library.take(i as int), pop()),
            decreases self.library.len() - i,
        {
            let song = &self.library[i];
            proof {
                lemma_filter_take_next(self@.library, rock_or_grunge(), i as int);
                lemma_filter_take_next(self@.library, pop(), i as int);
            }
            if same_text(song.genre(), "Rock") || same_text(song.genre(), "Grunge") {
                rock_playlist.add_song(song.clone());
            }
            if same_text(song.genre(), "Pop") {
                pop_playlist.add_song(song.clone());
            }
            i = i + 1;
        }
        proof {
            assert(self@.library.take(i as int) =~= self@.library);
        }
        self.put_playlist(rock_playlist);
        self.put_playlist(pop_playlist);
    }

    /// The songs of the library, in order.
    pub fn library(&self) -> (r: &Vec<Song>)
        ensures
            song_views(r@) == self@.library,
    {
        &self.library
    }

    /// The playlists, each once, in no promised order.
    pub fn playlists(&self) -> (r: &Vec<Playlist>)
        requires
            self.wf(),
        ensures
            forall|i: int|
                0 <= i < r@.len() ==> (#[trigger] r@[i]).wf() && self@.playlists.contains_key(
                    r@[i]@.name,
                ) && self@.playlists[r@[i]@.name] == r@[i]@,
            forall|name: Seq<char>| #[trigger]
                self@.playlists.contains_key(name) ==> exists|i: int|
                    0 <= i < r@.len() && (#[trigger] r@[i])@.name == name,
            forall|i: int, j: int|
                0 <= i < j < r@.len() ==> (#[trigger] r@[i])@.name != (#[trigger] r@[j])@.name,
    {
        proof {
            assert forall|name: Seq<char>| #[trigger]
                self@.playlists.contains_key(name) implies exists|i: int|
                0 <= i < self.playlists@.len() && (#[trigger] self.playlists@[i])@.name
                    == name by {
                assert(self.playlists@[self.index@[name] as int]@.name == name);
            }
        }
        &self.playlists
    }

    /// The playlist called `name`, if there is one.
    pub fn playlist(&self, name: &str) -> (r: Option<&Playlist>)
        requires
            self.wf(),
        ensures
            match r {
                Some(playlist) => self@.playlists.contains_key(name@) && playlist@
                    == self@.playlists[name@] && playlist.wf(),
                None => !self@.playlists.contains_key(name@),
            },
    {
        match self.lookup(name) {
            Some(i) => Some(&self.playlists[i]),
            None => None,
        }
    }

    /// The name of the playlist chosen for playback, if one is chosen.
    pub fn current_playlist(&self) -> (r: Option<&str>)
        ensures
            match r {
                Some(name) => self@.current_playlist == Some(name@),
                None => self@.current_playlist is None,
            },
    {
        match &self.current_playlist {
            Some(name) => Some(name.as_str()),
            None => None,
        }
    }

    /// The volume, from 0 to `MAX_VOLUME`.
    pub fn volume(&self) -> (r: u8)
        ensures
            r == self@.volume,
    {
        self.volume
    }

    /// Puts `playlist` under its name, in place of any playlist that stood
    /// there.
    pub fn put_playlist(&mut self, playlist: Playlist)
        requires
            old(self).wf(),
            playlist.wf(),
        ensures
            final(self).wf(),
            final(self)@ == old(self)@.with_playlist(playlist@),
    {
        let ghost name = playlist@.name;
        let found: Option<usize> = match self.index.get(playlist.name()) {
            Some(i) => Some(*i),
            None => None,
        };
        match found {
            Some(i) => {
                self.playlists[i] = playlist;
            },
            None => {
                let i = self.playlists.len();
                self.index.insert(String::from_str(playlist.name()), i);
                self.playlists.push(playlist);
            },
        }
        assert(self@.playlists =~= old(self)@.playlists.insert(name, playlist@));
    }

    /// The place of the playlist called `name` in the list of playlists.
    fn lookup(&self, name: &str) -> (r: Option<usize>)
        requires
            self.wf(),
        ensures
            match r {
                Some(i) => self.index@.contains_key(name@) && self.index@[name@] == i && i
                    < self.playlists@.len(),
                None => !self.index@.contains_key(name@),
            },
    {
        match self.index.get(name) {
            Some(i) => Some(*i),
            None => None,
        }
    }

    /// The place of the playlist chosen for playback.
    fn active_index(&self) -> (r: Option<usize>)
        requires
            self.wf(),
        ensures
            match r {
                Some(i) => {
                    &&& self.current_playlist matches Some(name)
                    &&& self.index@.contains_key(name@)
                    &&& self.index@[name@] == i
                    &&& i < self.playlists@.len()
                    &&& self@.active() == Some(self.playlists@[i as int]@)
                },
                None => self.current_playlist is None && self@.active() is None,
            },
    {
        match &self.current_playlist {
            Some(name) => self.lookup(name.as_str()),
            None => None,
        }
    }

    /// Makes an empty playlist called `name`, unless a playlist of that name
    /// exists. Tells whether it made one.
    pub fn create_playlist(&mut self, name: String) -> (r: bool)
        requires
            old(self).wf(),
        ensures
            final(self).wf(),
            r == !old(self)@.playlists.contains_key(name@),
            r ==> final(self)@ == old(self)@.with_playlist(PlaylistView::empty(name@)),
            !r ==> final(self)@ == old(self)@,
    {
        if self.index.contains_key(name.as_str()) {
            false
        } else {
            self.put_playlist(Playlist::new(name));
            true
        }
    }

    /// Takes the playlist called `name` out of the player and hands it out.
    /// Where it was chosen for playback, no playlist is chosen any more.
    /// Where there is no such playlist, nothing changes.
    pub fn remove_playlist(&mut self, name: &str) -> (r: Option<Playlist>)
        requires
            old(self).wf(),
        ensures
            final(self).wf(),
            match r {
                Some(playlist) => {
                    &&& old(self)@.playlists.contains_key(name@)
                    &&& playlist.wf()
                    &&& playlist@ == old(self)@.playlists[name@]
                    &&& final(self)@ == old(self)@.without_playlist(name@)
                },
                None => !old(self)@.playlists.contains_key(name@) && final(self)@ == old(self)@,
            },
    {
        match self.lookup(name) {
            Some(i) => {
                let last = self.playlists.len() - 1;
                if i != last {
                    let moved = String::from_str(self.playlists[last].name());
                    self.index.insert(moved, i);
                }
                self.index.remove(name);
                let playlist = self.playlists.swap_remove(i);
                let chosen = match &self.current_playlist {
                    Some(current) => same_text(current.as_str(), name),
                    None => false,
                };
                if chosen {
                    self.current_playlist = None;
                }
                assert(self@.playlists =~= old(self)@.playlists.remove(name@));
                Some(playlist)
            },
            None => None,
        }
    }

    /// Appends a copy of the library's song at `song_index` to the playlist
    /// called `playlist_name`. Where there is no such song or no such
    /// playlist, nothing changes. Tells whether it appended one.
    pub fn add_song_to_playlist(&mut self, playlist_name: &str, song_index: usize) -> (r: bool)
        requires
            old(self).wf(),
        ensures
            final(self).wf(),
            r == (song_index < old(self)@.library.len() && old(self)@.playlists.contains_key(
                playlist_name@,
            )),
            r ==> final(self)@ == old(self)@.with_song_in(
                playlist_name@,
                old(self)@.library[song_index as int],
            ),
            !r ==> final(self)@ == old(self)@,
    {
        if song_index < self.library.len() {
            match self.lookup(playlist_name) {
                Some(i) => {
                    let song = self.library[song_index].clone();
                    self.playlists[i].add_song(song);
                    assert(self@.playlists =~= old(self)@.with_song_in(
                        playlist_name@,
                        old(self)@.library[song_index as int],
                    ).playlists);
                    true
                },
                None => false,
            }
        } else {
            false
        }
    }

    /// Chooses the playlist called `playlist_name` for playback: marks it as
    /// playing and, where it has songs and no cursor, sets its cursor on the
    /// first song. Where there is no such playlist, nothing changes. Tells
    /// whether there is one.
    pub fn play_playlist(&mut self, playlist_name: &str) -> (r: bool)
        requires
            old(self).wf(),
        ensures
            final(self).wf(),
            r == old(self)@.playlists.contains_key(playlist_name@),
            final(self)@ == old(self)@.activated(playlist_name@),
    {
        match self.lookup(playlist_name) {
            Some(i) => {
                self.current_playlist = Some(String::from_str(playlist_name));
                self.playlists[i].start_playing();
                assert(self@.playlists =~= old(self)@.activated(playlist_name@).playlists);
                true
            },
            None => false,
        }
    }

    /// The song under the cursor of the playlist chosen for playback.
    pub fn get_current_song(&self) -> (r: Option<&Song>)
        requires
            self.wf(),
        ensures
            match r {
                Some(song) => self@.current_track() == Some(song@),
                None => self@.current_track() is None,
            },
    {
        match self.active_index() {
            Some(i) => self.playlists[i].get_current_song(),
            None => None,
        }
    }

    /// Steps the playlist chosen for playback forward, with `draw` standing
    /// for the random pick of shuffle mode, and announces the song now under
    /// its cursor. Where no playlist is chosen or the chosen one is empty,
    /// nothing changes and nothing is announced.
    pub fn next_song_with(&mut self, draw: usize) -> (r: Option<String>)
        requires
            old(self).wf(),
        ensures
            final(self).wf(),
            final(self)@ == old(self)@.advanced(draw as nat),
            match r {
                Some(text) => final(self)@.current_track() matches Some(song) && text@
                    == now_playing_text(song),
                None => final(self)@.current_track() is None,
            },
    {
        match self.active_index() {
            Some(i) => {
                let r = announce(self.playlists[i].next_song_with(draw));
                assert(self@.playlists =~= old(self)@.advanced(draw as nat).playlists);
                r
            },
            None => None,
        }
    }

    /// Steps the playlist chosen for playback forward and announces the song
    /// now under its cursor. In shuffle mode the new position is drawn at
    /// random. Where no playlist is chosen or the chosen one is empty,
    /// nothing changes and nothing is announced.
    pub fn next_song(&mut self) -> (r: Option<String>)
        requires
            old(self).wf(),
        ensures
            final(self).wf(),
            exists|draw: nat| final(self)@ == #[trigger] old(self)@.advanced(draw),
            match r {
                Some(text) => final(self)@.current_track() matches Some(song) && text@
                    == now_playing_text(song),
                None => final(self)@.current_track() is None,
            },
    {
        match self.active_index() {
            Some(i) => {
                let ghost before = self.playlists@[i as int]@;
                let r = announce(self.playlists[i].next_song());
                proof {
                    let draw = choose|draw: nat|
                        self.playlists@[i as int]@ == #[trigger] before.advanced(draw);
                    assert(self@.playlists =~= old(self)@.advanced(draw).playlists);
                }
                r
            },
            None => {
                assert(self@ == old(self)@.advanced(0));
                None
            },
        }
    }

    /// Steps the playlist chosen for playback back and announces the song
    /// now under its cursor. Where no playlist is chosen or the chosen one
    /// is empty, nothing changes and nothing is announced.
    pub fn previous_song(&mut self) -> (r: Option<String>)
        requires
            old(self).wf(),
        ensures
            final(self).wf(),
            final(self)@ == old(self)@.retreated(),
            match r {
                Some(text) => final(self)@.current_track() matches Some(song) && text@
                    == now_playing_text(song),
                None => final(self)@.current_track() is None,
            },
    {
        match self.active_index() {
            Some(i) => {
                let r = announce(self.playlists[i].previous_song());
                assert(self@.playlists =~= old(self)@.retreated().playlists);
                r
            },
            None => None,
        }
    }

    /// The songs of the library whose title, artist or genre holds `query`,
    /// whatever the case of the letters, in library order. The empty query
    /// finds every song.
    pub fn search_songs(&self, query: &str) -> (r: Vec<&Song>)
        ensures
            ref_views(r@) == self@.search(lowercase_of(query@)),
            query@.len() == 0 ==> ref_views(r@) == self@.library,
    {
        let needle = to_lowercase(query);
        let r = self.songs_matching(needle.as_str());
        proof {
            if query@.len() == 0 {
                assert(needle@ =~= Seq::<char>::empty());
                lemma_search_for_nothing(self@);
            }
        }
        r
    }

    /// The songs of the library whose title, artist or genre holds `needle`
    /// once brought to lowercase, in library order.
    pub fn songs_matching(&self, needle: &str) -> (r: Vec<&Song>)
        ensures
            ref_views(r@) == self@.search(needle@),
    {
        let ghost test = matching(needle@);
        let mut found: Vec<&Song> = Vec::new();
        let mut i: usize = 0;
        proof {
            lemma_filter_take_start(self@.library, test);
        }
        while i < self.library.len()
            invariant
                i <= self.library.len(),
                test == matching(needle@),
                ref_views(found@) =~= self@.library.take(i as int).filter(test),
            decreases self.library.len() - i,
        {
            let song = &self.library[i];
            let ghost before = ref_views(found@);
            if song.matches(needle) {
                found.push(song);
                assert(ref_views(found@) =~= before.push(song@));
            }
            proof {
                lemma_filter_take_next(self@.library, test, i as int);
            }
            i = i + 1;
        }
        proof {
            assert(self@.library.take(i as int) =~= self@.library);
        }
        found
    }

    /// The first songs of the library, up to `MAX_RECOMMENDATIONS` of them,
    /// that share their genre or their artist with `track`. The song itself
    /// is among them where the library holds it early enough.
    pub fn songs_related_to(&self, track: &Song) -> (r: Vec<&Song>)
        ensures
            ref_views(r@) == self@.related_songs(track@),
    {
        let ghost test = related(track@);
        let mut found: Vec<&Song> = Vec::new();
        let mut i: usize = 0;
        proof {
            lemma_filter_take_start(self@.library, test);
        }
        while i < self.library.len() && found.len() < MAX_RECOMMENDATIONS
            invariant
                i <= self.library.len(),
                test == related(track@),
                found@.len() <= MAX_RECOMMENDATIONS,
                ref_views(found@) =~= self@.library.take(i as int).filter(test),
            decreases self.library.len() - i,
        {
            let song = &self.library[i];
            let ghost before = ref_views(found@);
            if song.related_to(track) {
                found.push(song);
                assert(ref_views(found@) =~= before.push(song@));
            }
            proof {
                lemma_filter_take_next(self@.library, test, i as int);
            }
            i = i + 1;
        }
        proof {
            lemma_filter_take_prefix(self@.library, test, i as int);
            let all = self@.library.filter(test);
            let part = self@.library.take(i as int).filter(test);
            if i < self.library.len() {
                assert(part.len() == MAX_RECOMMENDATIONS);
                assert(part =~= all.take(MAX_RECOMMENDATIONS as int));
            } else {
                assert(self@.library.take(i as int) =~= self@.library);
            }
        }
        found
    }

    /// The songs that come first, up to `MAX_RECOMMENDATIONS` of them, when
    /// the songs of the library are ordered by the sort keys that `keys`
    /// gives them, position by position; songs with equal keys stay in
    /// library order.
    pub fn songs_by_keys(&self, keys: &Vec<u32>) -> (r: Vec<&Song>)
        requires
            keys@.len() == self@.library.len(),
        ensures
            is_key_sample(self@.library, keys@, ref_views(r@)),
    {
        let order = order_by_keys(keys);
        let count = if order.len() <= MAX_RECOMMENDATIONS {
            order.len()
        } else {
            MAX_RECOMMENDATIONS
        };
        let mut found: Vec<&Song> = Vec::new();
        let mut k: usize = 0;
        while k < count
            invariant
                k <= count <= order@.len(),
                keys@.len() == self.library@.len(),
                is_key_order(keys@, order@),
                found@.len() == k,
                forall|j: int| 0 <= j < k ==> (#[trigger] found@[j])@ == self.library@[order@[j] as int]@,
            decreases count - k,
        {
            found.push(&self.library[order[k]]);
            k = k + 1;
        }
        proof {
            let out = ref_views(found@);
            assert(is_key_order(keys@, order@));
            assert(forall|j: int| 0 <= j < out.len() ==> out[j] == self@.library[order@[j] as int]);
        }
        found
    }

    /// Up to `MAX_RECOMMENDATIONS` songs of the library. Where a song is
    /// under the cursor of the playlist chosen for playback, they are the
    /// first songs of the library that share its genre or its artist.
    /// Otherwise every song of the library gets a sort key drawn at random,
    /// and they are the songs that come first by those keys.
    pub fn get_recommendations(&self) -> (r: Vec<&Song>)
        requires
            self.wf(),
        ensures
            match self@.current_track() {
                Some(track) => ref_views(r@) == self@.related_songs(track),
                None => exists|keys: Seq<u32>|
                    keys.len() == self@.library.len() && #[trigger] is_key_sample(
                        self@.library,
                        keys,
                        ref_views(r@),
                    ),
            },
    {
        match self.get_current_song() {
            Some(track) => self.songs_related_to(track),
            None => {
                let keys = self.draw_keys();
                self.songs_by_keys(&keys)
            },
        }
    }

    /// One sort key drawn at random for each song of the library.
    fn draw_keys(&self) -> (keys: Vec<u32>)
        ensures
            keys@.len() == self@.library.len(),
    {
        let mut rng = rand::thread_rng();
        let mut keys: Vec<u32> = Vec::new();
        let mut i: usize = 0;
        while i < self.library.len()
            invariant
                i <= self.library.len(),
                keys@.len() == i,
            decreases self.library.len() - i,
        {
            keys.push(draw_key(&mut rng));
            i = i + 1;
        }
        keys
    }

    /// Sets the volume to `volume`, or to the highest volume where `volume`
    /// lies above it.
    pub fn set_volume(&mut self, volume: u8)
        requires
            old(self).wf(),
        ensures
            final(self).wf(),
            final(self)@ == old(self)@.with_volume(volume as nat),
    {
        self.volume = if volume > MAX_VOLUME {
            MAX_VOLUME
        } else {
            volume
        };
    }

    /// Flips the shuffle flag of the playlist chosen for playback and
    /// returns its new value; `false`, with nothing changed, where no
    /// playlist is chosen.
    pub fn toggle_shuffle(&mut self) -> (r: bool)
        requires
            old(self).wf(),
        ensures
            final(self).wf(),
            final(self)@ == old(self)@.shuffle_toggled(),
            r == match final(self)@.active() {
                Some(playlist) => playlist.shuffle,
                None => false,
            },
    {
        match self.active_index() {
            Some(i) => {
                let r = self.playlists[i].toggle_shuffle();
                assert(self@.playlists =~= old(self)@.shuffle_toggled().playlists);
                r
            },
            None => false,
        }
    }
}

/// Nothing is found among no songs.
pub proof fn lemma_filter_take_start(songs: Seq<SongView>, test: spec_fn(SongView) -> bool)
    ensures
        songs.take(0).filter(test) =~= Seq::<SongView>::empty(),
{
    reveal(Seq::filter);
}

/// What is found among the first `i + 1` songs is what is found among the
/// first `i`, with the song at `i` behind it where it passes the test.
pub proof fn lemma_filter_take_next(songs: Seq<SongView>, test: spec_fn(SongView) -> bool, i: int)
    requires
        0 <= i < songs.len(),
    ensures
        songs.take(i + 1).filter(test) == if test(songs[i]) {
            songs.take(i).filter(test).push(songs[i])
        } else {
            songs.take(i).filter(test)
        },
{
    reveal(Seq::filter);
    assert(songs.take(i + 1).drop_last() =~= songs.take(i));
}

/// What is found among the first `i` songs stands at the head of what is
/// found among all.
pub proof fn lemma_filter_take_prefix(songs: Seq<SongView>, test: spec_fn(SongView) -> bool, i: int)
    requires
        0 <= i <= songs.len(),
    ensures
        songs.take(i).filter(test).len() <= songs.filter(test).len(),
        songs.filter(test).take(songs.take(i).filter(test).len() as int) == songs.take(i).filter(
            test,
        ),
{
    let head = songs.take(i);
    let tail = songs.skip(i);
    assert(head + tail =~= songs);
    Seq::filter_distributes_over_add(head, tail, test);
    assert((head.filter(test) + tail.filter(test)).take(head.filter(test).len() as int)
        =~= head.filter(test));
}

/// A test that every song passes finds every song.
pub proof fn lemma_filter_all(songs: Seq<SongView>, test: spec_fn(SongView) -> bool)
    requires
        forall|i: int| 0 <= i < songs.len() ==> test(#[trigger] songs[i]),
    ensures
        songs.filter(test) == songs,
    decreases songs.len(),
{
    reveal(Seq::filter);
    if songs.len() > 0 {
        lemma_filter_all(songs.drop_last(), test);
        assert(songs.drop_last().push(songs.last()) =~= songs);
    }
}

/// The search for the empty text finds the whole library, in order.
pub proof fn lemma_search_for_nothing(player: MusicPlayerView)
    ensures
        player.search(Seq::<char>::empty()) == player.library,
{
    let test = matching(Seq::<char>::empty());
    assert forall|i: int| 0 <= i < player.library.len() implies test(
        #[trigger] player.library[i],
    ) by {
        lemma_empty_occurs_everywhere(lowercase_of(player.library[i].title));
    }
    lemma_filter_all(player.library, test);
}

/// The search does not depend on the case of the query: two queries with
/// the same lowercase form find the same songs.
pub proof fn lemma_search_ignores_query_case(
    player: MusicPlayerView,
    first: Seq<char>,
    second: Seq<char>,
)
    requires
        lowercase_of(first) == lowercase_of(second),
    ensures
        player.search(lowercase_of(first)) == player.search(lowercase_of(second)),
{
}

/// The search does not depend on the case of the songs' texts: two songs
/// whose titles, artists and genres have the same lowercase forms match the
/// same texts.
pub proof fn lemma_match_ignores_song_case(first: SongView, second: SongView, needle: Seq<char>)
    requires
        lowercase_of(first.title) == lowercase_of(second.title),
        lowercase_of(first.artist) == lowercase_of(second.artist),
        lowercase_of(first.genre) == lowercase_of(second.genre),
    ensures
        first.matches(needle) == second.matches(needle),
{
}

/// The keys fix the sample: the same library and keys give the same songs.
pub proof fn lemma_key_sample_unique(
    library: Seq<SongView>,
    keys: Seq<u32>,
    first: Seq<SongView>,
    second: Seq<SongView>,
)
    requires
        is_key_sample(library, keys, first),
        is_key_sample(library, keys, second),
    ensures
        first == second,
{
    let order1 = choose|order: Seq<usize>|
        {
            &&& #[trigger] is_key_order(keys, order)
            &&& first.len() == if order.len() <= MAX_RECOMMENDATIONS {
                order.len()
            } else {
                MAX_RECOMMENDATIONS as nat
            }
            &&& forall|k: int| 0 <= k < first.len() ==> first[k] == library[order[k] as int]
        };
    let order2 = choose|order: Seq<usize>|
        {
            &&& #[trigger] is_key_order(keys, order)
            &&& second.len() == if order.len() <= MAX_RECOMMENDATIONS {
                order.len()
            } else {
                MAX_RECOMMENDATIONS as nat
            }
            &&& forall|k: int| 0 <= k < second.len() ==> second[k] == library[order[k] as int]
        };
    lemma_key_order_unique(keys, order1, order2);
    assert(first =~= second);
}

/// Over the demo library the rock playlist holds the first, second, third,
/// fifth and seventh song and the pop playlist the fourth, sixth and eighth,
/// each in that order.
pub proof fn lemma_demo_playlists()
    ensures
        MusicPlayerView::with_library(Seq::empty()).with_demo().wf(),
        playlist_of("Rock Classics"@, demo_library(), rock_or_grunge()).songs == seq![
            demo_library()[0],
            demo_library()[1],
            demo_library()[2],
            demo_library()[4],
            demo_library()[6],
        ],
        playlist_of("Pop Hits"@, demo_library(), pop()).songs == seq![
            demo_library()[3],
            demo_library()[5],
            demo_library()[7],
        ],
{
    reveal_strlit("Rock");
    reveal_strlit("Pop");
    reveal_strlit("Grunge");
    let songs = demo_library();
    assert("Rock"@.len() == 4 && "Pop"@.len() == 3 && "Grunge"@.len() == 6);
    lemma_filter_take_start(songs, rock_or_grunge());
    lemma_filter_take_start(songs, pop());
    lemma_filter_take_next(songs, rock_or_grunge(), 0);
    lemma_filter_take_next(songs, pop(), 0);
    lemma_filter_take_next(songs, rock_or_grunge(), 1);
    lemma_filter_take_next(songs, pop(), 1);
    lemma_filter_take_next(songs, rock_or_grunge(), 2);
    lemma_filter_take_next(songs, pop(), 2);
    lemma_filter_take_next(songs, rock_or_grunge(), 3);
    lemma_filter_take_next(songs, pop(), 3);
    lemma_filter_take_next(songs, rock_or_grunge(), 4);
    lemma_filter_take_next(songs, pop(), 4);
    lemma_filter_take_next(songs, rock_or_grunge(), 5);
    lemma_filter_take_next(songs, pop(), 5);
    lemma_filter_take_next(songs, rock_or_grunge(), 6);
    lemma_filter_take_next(songs, pop(), 6);
    lemma_filter_take_next(songs, rock_or_grunge(), 7);
    lemma_filter_take_next(songs, pop(), 7);
    assert(songs.take(8) =~= songs);
    assert(songs.filter(rock_or_grunge()) =~= seq![
        songs[0],
        songs[1],
        songs[2],
        songs[4],
        songs[6],
    ]);
    assert(songs.filter(pop()) =~= seq![songs[3], songs[5], songs[7]]);
}

/// The eight demo songs.
pub fn demo_songs() -> (r: Vec<Song>)
    ensures
        song_views(r@) == demo_library(),
{
    let mut songs: Vec<Song> = Vec::new();
    songs.push(
        Song::from_parts("Bohemian Rhapsody", "Queen", 354, "Rock", 1975, "queen_bohemian.mp3"),
    );
    songs.push(
        Song::from_parts("Stairway to Heaven", "Led Zeppelin", 482, "Rock", 1971, "lz_stairway.mp3"),
    );
    songs.push(
        Song::from_parts("Hotel California", "Eagles", 391, "Rock", 1976, "eagles_hotel.mp3"),
    );
    songs.push(Song::from_parts("Imagine", "John Lennon", 183, "Pop", 1971, "lennon_imagine.mp3"));
    songs.push(
        Song::from_parts(
            "Sweet Child O' Mine",
            "Guns N' Roses",
            356,
            "Rock",
            1987,
            "gnr_sweet_child.mp3",
        ),
    );
    songs.push(
        Song::from_parts("Billie Jean", "Michael Jackson", 294, "Pop", 1982, "mj_billie_jean.mp3"),
    );
    songs.push(
        Song::from_parts(
            "Smells Like Teen Spirit",
            "Nirvana",
            301,
            "Grunge",
            1991,
            "nirvana_teen_spirit.mp3",
        ),
    );
    songs.push(
        Song::from_parts("Yesterday", "The Beatles", 125, "Pop", 1965, "beatles_yesterday.mp3"),
    );
    assert(song_views(songs@) =~= demo_library());
    songs
}

/// The announcement for the song that a step arrived at, if it arrived at
/// one.
pub fn announce(song: Option<&Song>) -> (r: Option<String>)
    ensures
        match r {
            Some(text) => song matches Some(s) && text@ == now_playing_text(s@),
            None => song is None,
        },
{
    match song {
        Some(s) => {
            let mut text = String::from_str("▶️ Играет: ");
            text.append(s.display().as_str());
            Some(text)
        },
        None => None,
    }
}

} // verus!
