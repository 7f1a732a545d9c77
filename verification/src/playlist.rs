//! A playlist: an ordered collection of songs with a playback cursor.

use vstd::prelude::*;
use vstd::arithmetic::div_mod::{lemma_mod_add_multiples_vanish, lemma_small_mod};
use vstd::seq_lib::{to_multiset_build, to_multiset_contains, to_multiset_len, to_multiset_remove};
use vstd::string::StringExecFns;
use crate::chance::draw_below;
use crate::song::{append_duration, duration_text, Song, SongView};
use crate::text::{append_decimal, decimal};

verus! {

/// The views of a sequence of songs, in order.
pub open spec fn song_views(songs: Seq<Song>) -> Seq<SongView> {
    Seq::new(songs.len(), |i: int| songs[i]@)
}

/// The sum of the lengths of `songs`, in seconds.
pub open spec fn duration_sum(songs: Seq<SongView>) -> nat
    decreases songs.len(),
{
    if songs.len() == 0 {
        0
    } else {
        duration_sum(songs.drop_last()) + songs.last().duration
    }
}

/// What a playlist is to the contracts.
pub struct PlaylistView {
    pub name: Seq<char>,
    pub songs: Seq<SongView>,
    pub current: Option<nat>,
    pub playing: bool,
    pub shuffle: bool,
}

impl PlaylistView {
    /// The cursor, where there is one, points at a song of the playlist.
    pub open spec fn wf(self) -> bool {
        self.current matches Some(i) ==> i < self.songs.len()
    }

    /// The playlist as it is made: no songs, no cursor, both flags off.
    pub open spec fn empty(name: Seq<char>) -> Self {
        PlaylistView { name, songs: Seq::empty(), current: None, playing: false, shuffle: false }
    }

    /// The playlist with `song` appended.
    pub open spec fn with_song(self, song: SongView) -> Self {
        PlaylistView { songs: self.songs.push(song), ..self }
    }

    /// The playlist without the song at `index`. The cursor follows the song
    /// it pointed at: it moves down by one where an earlier song left, and
    /// is dropped where its own song left.
    pub open spec fn without_song(self, index: int) -> Self
        recommends
            0 <= index < self.songs.len(),
    {
        PlaylistView {
            songs: self.songs.remove(index),
            current: match self.current {
                Some(c) => if index < c {
                    Some((c - 1) as nat)
                } else if index == c {
                    None
                } else {
                    Some(c)
                },
                None => None,
            },
            ..self
        }
    }

    /// The playlist once it is chosen for playback: marked as playing, with
    /// the cursor on the first song where there was no cursor and there is a
    /// song.
    pub open spec fn started(self) -> Self {
        PlaylistView {
            playing: true,
            current: if self.current is None && self.songs.len() > 0 {
                Some(0)
            } else {
                self.current
            },
            ..self
        }
    }

    /// The playlist with the shuffle flag flipped.
    pub open spec fn shuffle_toggled(self) -> Self {
        PlaylistView { shuffle: !self.shuffle, ..self }
    }

    /// The sum of the lengths of the songs, in seconds.
    pub open spec fn total_duration(self) -> nat {
        duration_sum(self.songs)
    }

    /// The one-line summary of the playlist: name, number of songs and
    /// total length.
    pub open spec fn info_text(self) -> Seq<char> {
        "📁 "@ + self.name + " ("@ + decimal(self.songs.len()) + " треков, "@ + duration_text(
            self.total_duration(),
        ) + ")"@
    }

    /// The song under the cursor.
    pub open spec fn current_song(self) -> Option<SongView> {
        match self.current {
            Some(i) if i < self.songs.len() => Some(self.songs[i as int]),
            _ => None,
        }
    }

    /// The playlist after one step forward. In shuffle mode the cursor goes
    /// to `draw` reduced modulo the length; otherwise to the next position,
    /// wrapping at the end, or to the first where there was no cursor.
    pub open spec fn advanced(self, draw: nat) -> Self {
        if self.songs.len() == 0 {
            self
        } else if self.shuffle {
            PlaylistView { current: Some(draw % self.songs.len()), ..self }
        } else {
            match self.current {
                Some(i) => PlaylistView { current: Some((i + 1) % self.songs.len()), ..self },
                None => PlaylistView { current: Some(0), ..self },
            }
        }
    }

    /// The playlist after one step forward for each of `draws`, taken in
    /// order.
    pub open spec fn advanced_by(self, draws: Seq<nat>) -> Self
        decreases draws.len(),
    {
        if draws.len() == 0 {
            self
        } else {
            self.advanced_by(draws.drop_last()).advanced(draws.last())
        }
    }

    /// Whether the cursor stands on `position` after some of the steps
    /// forward that `draws` gives, at least one of them.
    pub open spec fn arrives_at(self, draws: Seq<nat>, position: nat) -> bool {
        exists|steps: int|
            1 <= steps <= draws.len() && #[trigger] self.advanced_by(draws.take(steps)).current
                == Some(position)
    }

    /// The playlist with each of `songs` appended, in order.
    pub open spec fn with_songs(self, songs: Seq<SongView>) -> Self
        decreases songs.len(),
    {
        if songs.len() == 0 {
            self
        } else {
            self.with_songs(songs.drop_last()).with_song(songs.last())
        }
    }

    /// The playlist after one step back, whatever the shuffle flag.
    pub open spec fn retreated(self) -> Self {
        if self.songs.len() == 0 {
            self
        } else {
            match self.current {
                Some(i) => if i == 0 {
                    PlaylistView { current: Some((self.songs.len() - 1) as nat), ..self }
                } else {
                    PlaylistView { current: Some((i - 1) as nat), ..self }
                },
                None => PlaylistView { current: Some(0), ..self },
            }
        }
    }
}

/// A named, ordered collection of songs with a cursor and two mode flags.
#[derive(Debug)]
pub struct Playlist {
    name: String,
    songs: Vec<Song>,
    current_index: Option<usize>,
    is_playing: bool,
    is_shuffle: bool,
}

impl View for Playlist {
    type V = PlaylistView;

    closed spec fn view(&self) -> PlaylistView {
        PlaylistView {
            name: self.name@,
            songs: song_views(self.songs@),
            current: match self.current_index {
                Some(i) => Some(i as nat),
                None => None,
            },
            playing: self.is_playing,
            shuffle: self.is_shuffle,
        }
    }
}

impl Playlist {
    /// The invariant of a playlist: the cursor, where there is one, points
    /// at one of its songs.
    pub open spec fn wf(&self) -> bool {
        self@.wf()
    }

    /// Makes an empty playlist called `name`.
    pub fn new(name: String) -> (r: Self)
        ensures
            r.wf(),
            r@ == PlaylistView::empty(name@),
    {
        let r = Playlist {
            name,
            songs: Vec::new(),
            current_index: None,
            is_playing: false,
            is_shuffle: false,
        };
        assert(r@.songs =~= Seq::empty());
        r
    }

    /// The name, which never changes.
    pub fn name(&self) -> (r: &str)
        ensures
            r@ == self@.name,
    {
        self.name.as_str()
    }

    /// The songs, in order.
    pub fn songs(&self) -> (r: &Vec<Song>)
        ensures
            song_views(r@) == self@.songs,
    {
        &self.songs
    }

    /// The number of songs.
    pub fn len(&self) -> (r: usize)
        ensures
            r == self@.songs.len(),
    {
        self.songs.len()
    }

    /// The position of the cursor, if it is set.
    pub fn current_index(&self) -> (r: Option<usize>)
        ensures
            match r {
                Some(i) => self@.current == Some(i as nat),
                None => self@.current is None,
            },
    {
        self.current_index
    }

    /// Whether the playlist was chosen for playback.
    pub fn is_playing(&self) -> (r: bool)
        ensures
            r == self@.playing,
    {
        self.is_playing
    }

    /// Whether stepping forward draws the next position at random.
    pub fn is_shuffle(&self) -> (r: bool)
        ensures
            r == self@.shuffle,
    {
        self.is_shuffle
    }

    /// Appends `song` to the end of the playlist.
    pub fn add_song(&mut self, song: Song)
        requires
            old(self).wf(),
        ensures
            final(self).wf(),
            final(self)@ == old(self)@.with_song(song@),
    {
        self.songs.push(song);
        assert(self@.songs =~= old(self)@.songs.push(song@));
    }

    /// The song under the cursor, if the cursor is set.
    pub fn get_current_song(&self) -> (r: Option<&Song>)
        requires
            self.wf(),
        ensures
            match r {
                Some(song) => self@.current_song() == Some(song@),
                None => self@.current_song() is None,
            },
    {
        match self.current_index {
            Some(index) => Some(&self.songs[index]),
            None => None,
        }
    }

    /// Steps back: to the first song where no cursor was set, to the last
    /// from the first, else one position down. The shuffle flag plays no part.
    pub fn previous_song(&mut self) -> (r: Option<&Song>)
        requires
            old(self).wf(),
        ensures
            final(self).wf(),
            final(self)@ == old(self)@.retreated(),
            match r {
                Some(song) => final(self)@.current_song() == Some(song@),
                None => final(self)@.current_song() is None,
            },
    {
        if self.songs.len() == 0 {
            return None;
        }
        self.current_index = match self.current_index {
            Some(index) => {
                if index == 0 {
                    Some(self.songs.len() - 1)
                } else {
                    Some(index - 1)
                }
            },
            None => Some(0),
        };
        self.get_current_song()
    }

    /// Removes the song at `index` and hands it out, or does nothing where
    /// the playlist has no such position.
    pub fn remove_song(&mut self, index: usize) -> (r: Option<Song>)
        requires
            old(self).wf(),
        ensures
            final(self).wf(),
            match r {
                Some(song) => {
                    &&& index < old(self)@.songs.len()
                    &&& song@ == old(self)@.songs[index as int]
                    &&& final(self)@ == old(self)@.without_song(index as int)
                },
                None => index >= old(self)@.songs.len() && final(self)@ == old(self)@,
            },
    {
        if index < self.songs.len() {
            let song = self.songs.remove(index);
            self.current_index = match self.current_index {
                Some(current) => {
                    if index < current {
                        Some(current - 1)
                    } else if index == current {
                        None
                    } else {
                        Some(current)
                    }
                },
                None => None,
            };
            assert(self@.songs =~= old(self)@.songs.remove(index as int));
            Some(song)
        } else {
            None
        }
    }

    /// Steps forward with `draw` standing for the random pick: in shuffle
    /// mode the cursor goes to `draw` reduced modulo the length, otherwise to
    /// the next position, wrapping at the end, or to the first position where
    /// no cursor was set. Hands out the song now under the cursor.
    pub fn next_song_with(&mut self, draw: usize) -> (r: Option<&Song>)
        requires
            old(self).wf(),
        ensures
            final(self).wf(),
            final(self)@ == old(self)@.advanced(draw as nat),
            match r {
                Some(song) => final(self)@.current_song() == Some(song@),
                None => final(self)@.current_song() is None,
            },
    {
        if self.songs.len() == 0 {
            return None;
        }
        if self.is_shuffle {
            self.current_index = Some(draw % self.songs.len());
        } else {
            self.current_index = match self.current_index {
                Some(index) => Some((index + 1) % self.songs.len()),
                None => Some(0),
            };
        }
        self.get_current_song()
    }

    /// Steps forward: in shuffle mode to a position drawn at random, which
    /// may be the one it leaves; otherwise to the next position, wrapping at
    /// the end. Hands out the song now under the cursor.
    pub fn next_song(&mut self) -> (r: Option<&Song>)
        requires
            old(self).wf(),
        ensures
            final(self).wf(),
            exists|draw: nat| final(self)@ == #[trigger] old(self)@.advanced(draw),
            match r {
                Some(song) => final(self)@.current_song() == Some(song@),
                None => final(self)@.current_song() is None,
            },
    {
        if self.is_shuffle && self.songs.len() > 0 {
            let mut rng = rand::thread_rng();
            let draw = draw_below(&mut rng, self.songs.len());
            self.next_song_with(draw)
        } else {
            self.next_song_with(0)
        }
    }

    /// Marks the playlist as playing and, where no cursor is set and there
    /// is a song, sets the cursor on the first song.
    pub fn start_playing(&mut self)
        requires
            old(self).wf(),
        ensures
            final(self).wf(),
            final(self)@ == old(self)@.started(),
    {
        self.is_playing = true;
        if self.current_index.is_none() && self.songs.len() > 0 {
            self.current_index = Some(0);
        }
    }

    /// Flips the shuffle flag and returns its new value.
    pub fn toggle_shuffle(&mut self) -> (r: bool)
        requires
            old(self).wf(),
        ensures
            final(self).wf(),
            final(self)@ == old(self)@.shuffle_toggled(),
            r == final(self)@.shuffle,
    {
        self.is_shuffle = !self.is_shuffle;
        self.is_shuffle
    }

    /// The sum of the lengths of the songs, in seconds, where it fits.
    pub fn checked_total_duration(&self) -> (r: Option<u32>)
        ensures
            self@.total_duration() <= u32::MAX ==> r == Some(self@.total_duration() as u32),
            self@.total_duration() > u32::MAX ==> r is None,
    {
        let mut total: u32 = 0;
        let mut i: usize = 0;
        while i < self.songs.len()
            invariant
                i <= self.songs.len(),
                total == duration_sum(self@.songs.take(i as int)),
            decreases self.songs.len() - i,
        {
            proof {
                lemma_duration_sum_take_next(self@.songs, i as int);
                lemma_duration_sum_take_le(self@.songs, i + 1);
            }
            match total.checked_add(self.songs[i].duration()) {
                Some(sum) => {
                    total = sum;
                },
                None => {
                    return None;
                },
            }
            i = i + 1;
        }
        proof {
            assert(self@.songs.take(i as int) =~= self@.songs);
        }
        Some(total)
    }

    /// The sum of the lengths of the songs, in seconds.
    pub fn get_total_duration(&self) -> (r: u32)
        requires
            self@.total_duration() <= u32::MAX,
        ensures
            r == self@.total_duration(),
    {
        let mut total: u32 = 0;
        let mut i: usize = 0;
        while i < self.songs.len()
            invariant
                i <= self.songs.len(),
                total == duration_sum(self@.songs.take(i as int)),
                self@.total_duration() <= u32::MAX,
            decreases self.songs.len() - i,
        {
            proof {
                lemma_duration_sum_take_next(self@.songs, i as int);
                lemma_duration_sum_take_le(self@.songs, i + 1);
            }
            total = total + self.songs[i].duration();
            i = i + 1;
        }
        proof {
            assert(self@.songs.take(i as int) =~= self@.songs);
        }
        total
    }

    /// The one-line summary of the playlist: name, number of songs and total
    /// length as minutes and seconds.
    pub fn display_info(&self) -> (r: String)
        requires
            self@.total_duration() <= u32::MAX,
        ensures
            r@ == self@.info_text(),
    {
        let total = self.get_total_duration();
        let mut out = String::from_str("📁 ");
        out.append(self.name.as_str());
        out.append(" (");
        append_decimal(&mut out, self.songs.len() as u64);
        out.append(" треков, ");
        append_duration(&mut out, total);
        out.append(")");
        assert(out@ =~= self@.info_text());
        out
    }
}

/// The sum over the first `i + 1` songs is the sum over the first `i` plus
/// the length of the song at `i`.
pub proof fn lemma_duration_sum_take_next(songs: Seq<SongView>, i: int)
    requires
        0 <= i < songs.len(),
    ensures
        duration_sum(songs.take(i + 1)) == duration_sum(songs.take(i)) + songs[i].duration,
{
    assert(songs.take(i + 1).drop_last() =~= songs.take(i));
}

/// The sum over a leading part is at most the sum over the whole.
pub proof fn lemma_duration_sum_take_le(songs: Seq<SongView>, n: int)
    requires
        0 <= n <= songs.len(),
    ensures
        duration_sum(songs.take(n)) <= duration_sum(songs),
    decreases songs.len() - n,
{
    if n < songs.len() {
        lemma_duration_sum_take_next(songs, n);
        lemma_duration_sum_take_le(songs, n + 1);
    } else {
        assert(songs.take(n) =~= songs);
    }
}

/// Taking one song out lowers the sum by the length of that song.
pub proof fn lemma_duration_sum_remove(songs: Seq<SongView>, i: int)
    requires
        0 <= i < songs.len(),
    ensures
        duration_sum(songs) == duration_sum(songs.remove(i)) + songs[i].duration,
    decreases songs.len(),
{
    if i == songs.len() - 1 {
        assert(songs.remove(i) =~= songs.drop_last());
    } else {
        lemma_duration_sum_remove(songs.drop_last(), i);
        assert(songs.remove(i).drop_last() =~= songs.drop_last().remove(i));
        assert(songs.remove(i).last() == songs.last());
    }
}

/// The total length does not depend on the order of the songs: two lists
/// that hold the same songs, each as often as the other, have the same sum.
pub proof fn lemma_duration_sum_any_order(first: Seq<SongView>, second: Seq<SongView>)
    requires
        first.to_multiset() == second.to_multiset(),
    ensures
        duration_sum(first) == duration_sum(second),
    decreases first.len(),
{
    to_multiset_len(first);
    to_multiset_len(second);
    if first.len() > 0 {
        let song = first.last();
        let rest = first.drop_last();
        assert(rest.push(song) =~= first);
        to_multiset_build(rest, song);
        to_multiset_contains(second, song);
        assert(second.contains(song));
        let j = choose|j: int| 0 <= j < second.len() && second[j] == song;
        to_multiset_remove(second, j);
        assert(rest.to_multiset() =~= second.remove(j).to_multiset());
        lemma_duration_sum_any_order(rest, second.remove(j));
        lemma_duration_sum_remove(second, j);
    }
}

/// Appending songs one after the other leaves them behind the songs that
/// were there, in the order of the calls, and raises the total length by the
/// sum of their lengths.
pub proof fn lemma_total_duration_of_added(playlist: PlaylistView, added: Seq<SongView>)
    ensures
        playlist.with_songs(added) == (PlaylistView {
            songs: playlist.songs + added,
            ..playlist
        }),
        playlist.with_songs(added).total_duration() == playlist.total_duration() + duration_sum(
            added,
        ),
    decreases added.len(),
{
    if added.len() == 0 {
        assert(playlist.songs + added =~= playlist.songs);
    } else {
        lemma_total_duration_of_added(playlist, added.drop_last());
        assert((playlist.songs + added.drop_last()).push(added.last()) =~= playlist.songs
            + added);
        assert((playlist.songs + added).drop_last() =~= playlist.songs + added.drop_last());
    }
}

/// The total length of a playlist filled from empty is the sum of the
/// lengths of the songs added, in whatever order they were added.
pub proof fn lemma_total_duration_ignores_add_order(
    name: Seq<char>,
    first: Seq<SongView>,
    second: Seq<SongView>,
)
    requires
        first.to_multiset() == second.to_multiset(),
    ensures
        PlaylistView::empty(name).with_songs(first).total_duration() == duration_sum(first),
        PlaylistView::empty(name).with_songs(first).total_duration() == PlaylistView::empty(
            name,
        ).with_songs(second).total_duration(),
{
    lemma_total_duration_of_added(PlaylistView::empty(name), first);
    lemma_total_duration_of_added(PlaylistView::empty(name), second);
    lemma_duration_sum_any_order(first, second);
}

/// Without shuffle, stepping forward moves only the cursor, and after any
/// number of steps from a set cursor it stands that many positions further,
/// counted round the playlist. From no cursor the first step goes to the
/// first song.
pub proof fn lemma_sequential_steps(playlist: PlaylistView, draws: Seq<nat>)
    requires
        playlist.wf(),
        playlist.songs.len() > 0,
        !playlist.shuffle,
    ensures
        playlist.advanced_by(draws) == (PlaylistView {
            current: match playlist.current {
                Some(start) => Some((start + draws.len()) % playlist.songs.len()),
                None => if draws.len() == 0 {
                    None
                } else {
                    Some(((draws.len() - 1) as nat) % playlist.songs.len())
                },
            },
            ..playlist
        }),
    decreases draws.len(),
{
    let n = playlist.songs.len() as int;
    if draws.len() == 0 {
        if playlist.current is Some {
            lemma_small_mod(playlist.current->0, n as nat);
        }
    } else {
        lemma_sequential_steps(playlist, draws.drop_last());
        let k = draws.len() - 1;
        match playlist.current {
            Some(start) => {
                lemma_step_round(start + k, n);
            },
            None => {
                if k > 0 {
                    lemma_step_round(k - 1, n);
                } else {
                    lemma_small_mod(0, n as nat);
                }
            },
        }
    }
}

/// One more than a number, counted round `n`, is one more than the number
/// counted round `n`, counted round `n`.
proof fn lemma_step_round(x: int, n: int)
    requires
        0 <= x,
        0 < n,
    ensures
        ((x % n) + 1) % n == (x + 1) % n,
{
    vstd::arithmetic::div_mod::lemma_add_mod_noop(x, 1, n);
    if n == 1 {
        assert((x % n) == 0);
        assert(1int % 1 == 0);
    } else {
        lemma_small_mod(1, n as nat);
    }
}

/// Two numbers less than `n` apart differ when counted round `n`.
proof fn lemma_distinct_round(x: int, y: int, n: int)
    requires
        0 <= x < y < x + n,
    ensures
        x % n != y % n,
{
    vstd::arithmetic::div_mod::lemma_fundamental_div_mod(x, n);
    vstd::arithmetic::div_mod::lemma_fundamental_div_mod(y, n);
    if x % n == y % n {
        let d = y / n - x / n;
        assert(y - x == n * d) by (nonlinear_arith)
            requires
                x == n * (x / n) + (x % n),
                y == n * (y / n) + (y % n),
                x % n == y % n,
                d == y / n - x / n,
        ;
        assert(n * d <= 0 || n * d >= n) by (nonlinear_arith)
            requires
                n > 0,
        ;
    }
}

/// Without shuffle, as many steps forward as the playlist has songs bring a
/// set cursor back to where it stood, and on the way every position is
/// arrived at, none of them twice.
pub proof fn lemma_sequential_cycle(playlist: PlaylistView, draws: Seq<nat>)
    requires
        playlist.wf(),
        playlist.songs.len() > 0,
        !playlist.shuffle,
        playlist.current is Some,
        draws.len() == playlist.songs.len(),
    ensures
        playlist.advanced_by(draws) == playlist,
        forall|position: nat|
            position < playlist.songs.len() ==> #[trigger] playlist.arrives_at(draws, position),
        forall|earlier: int, later: int|
            1 <= earlier < later <= draws.len() ==> (#[trigger] playlist.advanced_by(
                draws.take(earlier),
            )).current != (#[trigger] playlist.advanced_by(draws.take(later))).current,
{
    assert forall|earlier: int, later: int| 1 <= earlier < later <= draws.len() implies (
    #[trigger] playlist.advanced_by(draws.take(earlier))).current != (
    #[trigger] playlist.advanced_by(draws.take(later))).current by {
        let n = playlist.songs.len() as int;
        let start = playlist.current->0 as int;
        lemma_sequential_steps(playlist, draws.take(earlier));
        lemma_sequential_steps(playlist, draws.take(later));
        lemma_distinct_round(start + earlier, start + later, n);
    }
    let n = playlist.songs.len() as int;
    let start = playlist.current->0 as int;
    lemma_sequential_steps(playlist, draws);
    lemma_mod_add_multiples_vanish(start, n);
    lemma_small_mod(start as nat, n as nat);
    assert forall|position: nat| position < playlist.songs.len() implies #[trigger]
        playlist.arrives_at(draws, position) by {
        let steps = if position > start {
            position - start
        } else {
            position + n - start
        };
        lemma_sequential_steps(playlist, draws.take(steps));
        if position > start {
            lemma_small_mod(position, n as nat);
        } else {
            lemma_mod_add_multiples_vanish(position as int, n);
            lemma_small_mod(position, n as nat);
        }
        assert(playlist.advanced_by(draws.take(steps)).current == Some(position));
    }
}

/// At both ends the cursor wraps: a step back from the first song arrives at
/// the last, and without shuffle a step forward from the last song arrives
/// at the first.
pub proof fn lemma_steps_wrap(playlist: PlaylistView, draw: nat)
    requires
        playlist.songs.len() > 0,
    ensures
        playlist.current == Some(0nat) ==> playlist.retreated().current == Some(
            (playlist.songs.len() - 1) as nat,
        ),
        playlist.current == Some((playlist.songs.len() - 1) as nat) && !playlist.shuffle
            ==> playlist.advanced(draw).current == Some(0nat),
{
    vstd::arithmetic::div_mod::lemma_mod_self_0(playlist.songs.len() as int);
}

/// An empty playlist has no song under the cursor, and no step changes it.
pub proof fn lemma_empty_playlist_stays(playlist: PlaylistView, draw: nat)
    requires
        playlist.songs.len() == 0,
    ensures
        playlist.current_song() is None,
        playlist.advanced(draw) == playlist,
        playlist.retreated() == playlist,
{
}

} // verus!
