use music_player::player::{announce, demo_songs, MusicPlayer};
use music_player::playlist::Playlist;
use music_player::song::Song;

fn titles_of(songs: &[&Song]) -> Vec<String> {
    songs.iter().map(|s| s.title().to_string()).collect()
}

fn titles_in(playlist: &Playlist) -> Vec<String> {
    playlist.songs().iter().map(|s| s.title().to_string()).collect()
}

fn current_title(player: &MusicPlayer) -> Option<String> {
    player.get_current_song().map(|s| s.title().to_string())
}

fn playlist_names(player: &MusicPlayer) -> Vec<String> {
    let mut names: Vec<String> = player.playlists().iter().map(|p| p.name().to_string()).collect();
    names.sort();
    names
}

fn small_library() -> Vec<Song> {
    vec![
        Song::from_parts("Alpha", "Ann", 100, "Jazz", 2001, "a"),
        Song::from_parts("Beta", "Bob", 200, "Folk", 2002, "b"),
        Song::from_parts("Gamma", "Ann", 300, "Folk", 2003, "c"),
    ]
}

#[test]
fn new_player_holds_the_eight_demo_songs() {
    let player = MusicPlayer::new();
    let library: Vec<&Song> = player.library().iter().collect();
    assert_eq!(
        titles_of(&library),
        vec![
            "Bohemian Rhapsody",
            "Stairway to Heaven",
            "Hotel California",
            "Imagine",
            "Sweet Child O' Mine",
            "Billie Jean",
            "Smells Like Teen Spirit",
            "Yesterday",
        ]
    );
    let first = &player.library()[0];
    assert_eq!(first.artist(), "Queen");
    assert_eq!(first.duration(), 354);
    assert_eq!(first.genre(), "Rock");
    assert_eq!(first.year(), 1975);
    assert_eq!(first.path(), "queen_bohemian.mp3");
    let last = &player.library()[7];
    assert_eq!(last.artist(), "The Beatles");
    assert_eq!(last.duration(), 125);
    assert_eq!(last.genre(), "Pop");
    assert_eq!(last.year(), 1965);
    assert_eq!(last.path(), "beatles_yesterday.mp3");
}

#[test]
fn new_player_is_idle_at_the_default_volume() {
    let player = MusicPlayer::new();
    assert_eq!(player.volume(), 50);
    assert_eq!(player.current_playlist(), None);
    assert!(player.get_current_song().is_none());
    assert_eq!(playlist_names(&player), vec!["Pop Hits", "Rock Classics"]);
}

#[test]
fn demo_rock_playlist_holds_the_rock_and_grunge_songs_in_library_order() {
    let player = MusicPlayer::new();
    let rock = player.playlist("Rock Classics").unwrap();
    assert_eq!(rock.name(), "Rock Classics");
    assert_eq!(
        titles_in(rock),
        vec![
            "Bohemian Rhapsody",
            "Stairway to Heaven",
            "Hotel California",
            "Sweet Child O' Mine",
            "Smells Like Teen Spirit",
        ]
    );
    assert_eq!(rock.current_index(), None);
    assert!(!rock.is_playing());
    assert!(!rock.is_shuffle());
    assert_eq!(rock.get_total_duration(), 1884);
    assert_eq!(rock.display_info(), "📁 Rock Classics (5 треков, 31:24)");
}

#[test]
fn demo_pop_playlist_holds_the_pop_songs_in_library_order() {
    let player = MusicPlayer::new();
    let pop = player.playlist("Pop Hits").unwrap();
    assert_eq!(pop.name(), "Pop Hits");
    assert_eq!(titles_in(pop), vec!["Imagine", "Billie Jean", "Yesterday"]);
    assert_eq!(pop.get_total_duration(), 602);
    assert_eq!(pop.display_info(), "📁 Pop Hits (3 треков, 10:02)");
}

#[test]
fn demo_songs_are_the_library_of_a_new_player() {
    let songs = demo_songs();
    let player = MusicPlayer::new();
    assert_eq!(songs.len(), 8);
    for (a, b) in songs.iter().zip(player.library().iter()) {
        assert_eq!(a.title(), b.title());
        assert_eq!(a.artist(), b.artist());
        assert_eq!(a.duration(), b.duration());
        assert_eq!(a.genre(), b.genre());
        assert_eq!(a.year(), b.year());
        assert_eq!(a.path(), b.path());
    }
}

#[test]
fn add_demo_songs_replaces_library_and_demo_playlists_only() {
    let mut player = MusicPlayer::with_library(small_library());
    assert!(player.create_playlist("Mine".to_string()));
    assert!(player.create_playlist("Rock Classics".to_string()));
    assert!(player.add_song_to_playlist("Mine", 1));
    assert!(player.add_song_to_playlist("Rock Classics", 0));
    assert!(player.play_playlist("Rock Classics"));
    player.set_volume(7);
    player.add_demo_songs();
    assert_eq!(player.library().len(), 8);
    assert_eq!(playlist_names(&player), vec!["Mine", "Pop Hits", "Rock Classics"]);
    assert_eq!(titles_in(player.playlist("Mine").unwrap()), vec!["Beta"]);
    let rock = player.playlist("Rock Classics").unwrap();
    assert_eq!(rock.len(), 5);
    assert_eq!(rock.current_index(), None);
    assert!(!rock.is_playing());
    assert_eq!(player.current_playlist(), Some("Rock Classics"));
    assert!(player.get_current_song().is_none());
    assert_eq!(player.volume(), 7);
}

#[test]
fn with_library_starts_without_playlists() {
    let player = MusicPlayer::with_library(small_library());
    assert_eq!(player.library().len(), 3);
    assert!(player.playlists().is_empty());
    assert_eq!(player.current_playlist(), None);
    assert_eq!(player.volume(), 50);
    assert!(player.playlist("Rock Classics").is_none());
}

#[test]
fn create_playlist_with_a_new_name_makes_an_empty_playlist() {
    let mut player = MusicPlayer::new();
    assert!(player.create_playlist("Favourites".to_string()));
    let made = player.playlist("Favourites").unwrap();
    assert_eq!(made.name(), "Favourites");
    assert_eq!(made.len(), 0);
    assert_eq!(made.current_index(), None);
    assert!(!made.is_playing());
    assert!(!made.is_shuffle());
    assert_eq!(playlist_names(&player), vec!["Favourites", "Pop Hits", "Rock Classics"]);
}

#[test]
fn create_playlist_with_a_taken_name_fails_and_changes_nothing() {
    let mut player = MusicPlayer::new();
    assert!(player.play_playlist("Rock Classics"));
    player.next_song();
    assert!(!player.create_playlist("Rock Classics".to_string()));
    let rock = player.playlist("Rock Classics").unwrap();
    assert_eq!(rock.len(), 5);
    assert_eq!(rock.current_index(), Some(1));
    assert!(rock.is_playing());
    assert_eq!(playlist_names(&player), vec!["Pop Hits", "Rock Classics"]);
    assert_eq!(player.current_playlist(), Some("Rock Classics"));
}

#[test]
fn create_playlist_compares_names_exactly() {
    let mut player = MusicPlayer::new();
    assert!(player.create_playlist("rock classics".to_string()));
    assert!(player.create_playlist(" Rock Classics".to_string()));
    assert!(player.create_playlist("".to_string()));
    assert!(!player.create_playlist("".to_string()));
    assert_eq!(player.playlists().len(), 5);
}

#[test]
fn put_playlist_takes_the_place_of_a_playlist_of_that_name() {
    let mut player = MusicPlayer::with_library(small_library());
    let mut first = Playlist::new("Mix".to_string());
    first.add_song(Song::from_parts("x", "y", 1, "z", 1, "p"));
    player.put_playlist(first);
    player.put_playlist(Playlist::new("Other".to_string()));
    assert_eq!(player.playlist("Mix").unwrap().len(), 1);
    player.put_playlist(Playlist::new("Mix".to_string()));
    assert_eq!(player.playlist("Mix").unwrap().len(), 0);
    assert_eq!(playlist_names(&player), vec!["Mix", "Other"]);
}

#[test]
fn add_song_to_playlist_appends_a_copy_of_the_library_song() {
    let mut player = MusicPlayer::new();
    assert!(player.create_playlist("Mine".to_string()));
    assert!(player.add_song_to_playlist("Mine", 3));
    assert!(player.add_song_to_playlist("Mine", 0));
    assert!(player.add_song_to_playlist("Mine", 3));
    let mine = player.playlist("Mine").unwrap();
    assert_eq!(titles_in(mine), vec!["Imagine", "Bohemian Rhapsody", "Imagine"]);
    assert_eq!(mine.songs()[0].artist(), "John Lennon");
    assert_eq!(mine.songs()[0].duration(), 183);
    assert_eq!(player.library().len(), 8);
}

#[test]
fn add_song_to_playlist_fails_cleanly_on_a_bad_index() {
    let mut player = MusicPlayer::new();
    assert!(!player.add_song_to_playlist("Pop Hits", 8));
    assert!(!player.add_song_to_playlist("Pop Hits", usize::MAX));
    assert_eq!(player.playlist("Pop Hits").unwrap().len(), 3);
}

#[test]
fn add_song_to_playlist_fails_cleanly_on_an_unknown_playlist() {
    let mut player = MusicPlayer::new();
    assert!(!player.add_song_to_playlist("Jazz", 0));
    assert!(!player.add_song_to_playlist("Jazz", 99));
    assert_eq!(playlist_names(&player), vec!["Pop Hits", "Rock Classics"]);
    assert_eq!(player.playlist("Rock Classics").unwrap().len(), 5);
    assert_eq!(player.playlist("Pop Hits").unwrap().len(), 3);
}

#[test]
fn play_playlist_sets_the_cursor_on_the_first_song_without_stepping() {
    let mut player = MusicPlayer::new();
    assert!(player.play_playlist("Rock Classics"));
    assert_eq!(player.current_playlist(), Some("Rock Classics"));
    assert_eq!(current_title(&player), Some("Bohemian Rhapsody".to_string()));
    let rock = player.playlist("Rock Classics").unwrap();
    assert!(rock.is_playing());
    assert_eq!(rock.current_index(), Some(0));
    assert!(!player.playlist("Pop Hits").unwrap().is_playing());
}

#[test]
fn play_then_advance_moves_to_the_second_song() {
    let mut player = MusicPlayer::new();
    assert!(player.play_playlist("Rock Classics"));
    assert_eq!(current_title(&player), Some("Bohemian Rhapsody".to_string()));
    let message = player.next_song();
    assert_eq!(
        message,
        Some("▶️ Играет: 🎵 Led Zeppelin - Stairway to Heaven [08:02] (Rock)".to_string())
    );
    assert_eq!(current_title(&player), Some("Stairway to Heaven".to_string()));
    assert_eq!(player.playlist("Rock Classics").unwrap().current_index(), Some(1));
}

#[test]
fn play_playlist_with_an_unknown_name_fails_and_changes_nothing() {
    let mut player = MusicPlayer::new();
    assert!(!player.play_playlist("Jazz"));
    assert_eq!(player.current_playlist(), None);
    assert!(player.play_playlist("Pop Hits"));
    assert!(!player.play_playlist("pop hits"));
    assert_eq!(player.current_playlist(), Some("Pop Hits"));
}

#[test]
fn play_playlist_keeps_the_cursor_of_a_playlist_played_before() {
    let mut player = MusicPlayer::new();
    assert!(player.play_playlist("Pop Hits"));
    player.next_song();
    player.next_song();
    assert!(player.play_playlist("Rock Classics"));
    assert_eq!(current_title(&player), Some("Bohemian Rhapsody".to_string()));
    assert!(player.play_playlist("Pop Hits"));
    assert_eq!(current_title(&player), Some("Yesterday".to_string()));
}

#[test]
fn play_an_empty_playlist_has_no_current_song() {
    let mut player = MusicPlayer::new();
    assert!(player.create_playlist("Empty".to_string()));
    assert!(player.play_playlist("Empty"));
    assert!(player.get_current_song().is_none());
    assert_eq!(player.next_song(), None);
    assert_eq!(player.previous_song(), None);
    assert_eq!(player.next_song_with(4), None);
    assert_eq!(player.playlist("Empty").unwrap().current_index(), None);
}

#[test]
fn stepping_without_a_chosen_playlist_does_nothing() {
    let mut player = MusicPlayer::new();
    assert_eq!(player.next_song(), None);
    assert_eq!(player.next_song_with(1), None);
    assert_eq!(player.previous_song(), None);
    assert!(!player.toggle_shuffle());
    assert!(player.get_current_song().is_none());
    assert_eq!(player.playlist("Rock Classics").unwrap().current_index(), None);
    assert!(!player.playlist("Rock Classics").unwrap().is_shuffle());
    assert_eq!(player.playlist("Pop Hits").unwrap().current_index(), None);
}

#[test]
fn next_song_wraps_round_the_chosen_playlist() {
    let mut player = MusicPlayer::new();
    assert!(player.play_playlist("Pop Hits"));
    assert_eq!(
        player.next_song(),
        Some("▶️ Играет: 🎵 Michael Jackson - Billie Jean [04:54] (Pop)".to_string())
    );
    assert_eq!(
        player.next_song(),
        Some("▶️ Играет: 🎵 The Beatles - Yesterday [02:05] (Pop)".to_string())
    );
    assert_eq!(
        player.next_song(),
        Some("▶️ Играет: 🎵 John Lennon - Imagine [03:03] (Pop)".to_string())
    );
}

#[test]
fn previous_song_wraps_round_the_chosen_playlist() {
    let mut player = MusicPlayer::new();
    assert!(player.play_playlist("Pop Hits"));
    assert_eq!(
        player.previous_song(),
        Some("▶️ Играет: 🎵 The Beatles - Yesterday [02:05] (Pop)".to_string())
    );
    assert_eq!(
        player.previous_song(),
        Some("▶️ Играет: 🎵 Michael Jackson - Billie Jean [04:54] (Pop)".to_string())
    );
    assert_eq!(current_title(&player), Some("Billie Jean".to_string()));
}

#[test]
fn toggle_shuffle_flips_the_chosen_playlist_only() {
    let mut player = MusicPlayer::new();
    assert!(player.play_playlist("Pop Hits"));
    assert!(player.toggle_shuffle());
    assert!(player.playlist("Pop Hits").unwrap().is_shuffle());
    assert!(!player.playlist("Rock Classics").unwrap().is_shuffle());
    assert_eq!(current_title(&player), Some("Imagine".to_string()));
    assert!(!player.toggle_shuffle());
    assert!(!player.playlist("Pop Hits").unwrap().is_shuffle());
}

#[test]
fn next_song_with_uses_the_draw_in_shuffle_mode() {
    let mut player = MusicPlayer::new();
    assert!(player.play_playlist("Rock Classics"));
    assert!(player.toggle_shuffle());
    assert_eq!(
        player.next_song_with(4),
        Some("▶️ Играет: 🎵 Nirvana - Smells Like Teen Spirit [05:01] (Grunge)".to_string())
    );
    assert_eq!(
        player.next_song_with(4),
        Some("▶️ Играет: 🎵 Nirvana - Smells Like Teen Spirit [05:01] (Grunge)".to_string())
    );
    assert_eq!(
        player.next_song_with(5),
        Some("▶️ Играет: 🎵 Queen - Bohemian Rhapsody [05:54] (Rock)".to_string())
    );
    assert_eq!(
        player.previous_song(),
        Some("▶️ Играет: 🎵 Nirvana - Smells Like Teen Spirit [05:01] (Grunge)".to_string())
    );
}

#[test]
fn next_song_in_shuffle_mode_stays_inside_the_playlist() {
    let mut player = MusicPlayer::new();
    assert!(player.play_playlist("Rock Classics"));
    assert!(player.toggle_shuffle());
    let mut seen = [false; 5];
    for _ in 0..400 {
        assert!(player.next_song().is_some());
        let index = player.playlist("Rock Classics").unwrap().current_index().unwrap();
        assert!(index < 5);
        seen[index] = true;
    }
    assert!(seen.iter().all(|&s| s));
}

#[test]
fn announce_describes_the_song() {
    let song = Song::from_parts("Imagine", "John Lennon", 183, "Pop", 1971, "x");
    assert_eq!(
        announce(Some(&song)),
        Some("▶️ Играет: 🎵 John Lennon - Imagine [03:03] (Pop)".to_string())
    );
    assert_eq!(announce(None), None);
}

#[test]
fn set_volume_clamps_at_one_hundred() {
    let mut player = MusicPlayer::new();
    player.set_volume(150);
    assert_eq!(player.volume(), 100);
    player.set_volume(0);
    assert_eq!(player.volume(), 0);
}

#[test]
fn set_volume_keeps_values_in_range() {
    let mut player = MusicPlayer::new();
    player.set_volume(100);
    assert_eq!(player.volume(), 100);
    player.set_volume(101);
    assert_eq!(player.volume(), 100);
    player.set_volume(99);
    assert_eq!(player.volume(), 99);
    player.set_volume(255);
    assert_eq!(player.volume(), 100);
    player.set_volume(1);
    assert_eq!(player.volume(), 1);
}

#[test]
fn search_ignores_the_case_of_the_query() {
    let player = MusicPlayer::new();
    let lower = titles_of(&player.search_songs("rock"));
    let upper = titles_of(&player.search_songs("ROCK"));
    let mixed = titles_of(&player.search_songs("rOcK"));
    assert_eq!(
        lower,
        vec!["Bohemian Rhapsody", "Stairway to Heaven", "Hotel California", "Sweet Child O' Mine"]
    );
    assert_eq!(upper, lower);
    assert_eq!(mixed, lower);
}

#[test]
fn search_with_the_empty_query_returns_the_library_in_order() {
    let player = MusicPlayer::new();
    let found = titles_of(&player.search_songs(""));
    let library: Vec<&Song> = player.library().iter().collect();
    assert_eq!(found, titles_of(&library));
    assert_eq!(found.len(), 8);
    let none = MusicPlayer::with_library(Vec::new());
    assert!(none.search_songs("").is_empty());
}

#[test]
fn search_looks_at_title_artist_and_genre() {
    let player = MusicPlayer::new();
    assert_eq!(titles_of(&player.search_songs("Heaven")), vec!["Stairway to Heaven"]);
    assert_eq!(titles_of(&player.search_songs("beatles")), vec!["Yesterday"]);
    assert_eq!(titles_of(&player.search_songs("GRUNGE")), vec!["Smells Like Teen Spirit"]);
    assert_eq!(
        titles_of(&player.search_songs("en")),
        vec!["Bohemian Rhapsody", "Stairway to Heaven", "Imagine", "Smells Like Teen Spirit"]
    );
    assert_eq!(
        titles_of(&player.search_songs("o' m")),
        vec!["Sweet Child O' Mine"]
    );
}

#[test]
fn search_finds_nothing_for_an_absent_text() {
    let player = MusicPlayer::new();
    assert!(player.search_songs("techno").is_empty());
    assert!(player.search_songs("mp3").is_empty());
    assert!(player.search_songs("1975").is_empty());
    assert!(player.search_songs(" rock").is_empty());
}

#[test]
fn songs_matching_takes_the_needle_as_it_stands() {
    let player = MusicPlayer::new();
    assert_eq!(titles_of(&player.songs_matching("pop")), vec!["Imagine", "Billie Jean", "Yesterday"]);
    assert!(player.songs_matching("POP").is_empty());
    assert_eq!(player.songs_matching("").len(), 8);
}

#[test]
fn recommendations_for_a_rock_song_share_its_genre_or_artist() {
    let mut player = MusicPlayer::new();
    assert!(player.play_playlist("Rock Classics"));
    let found = player.get_recommendations();
    assert_eq!(
        titles_of(&found),
        vec!["Bohemian Rhapsody", "Stairway to Heaven", "Hotel California", "Sweet Child O' Mine"]
    );
    for song in &found {
        assert!(song.genre() == "Rock" || song.artist() == "Queen");
    }
}

#[test]
fn recommendations_follow_the_current_song() {
    let mut player = MusicPlayer::new();
    assert!(player.play_playlist("Rock Classics"));
    player.previous_song();
    assert_eq!(current_title(&player), Some("Smells Like Teen Spirit".to_string()));
    assert_eq!(titles_of(&player.get_recommendations()), vec!["Smells Like Teen Spirit"]);
    assert!(player.play_playlist("Pop Hits"));
    assert_eq!(
        titles_of(&player.get_recommendations()),
        vec!["Imagine", "Billie Jean", "Yesterday"]
    );
}

#[test]
fn recommendations_are_capped_at_five_in_library_order() {
    let mut songs = Vec::new();
    for i in 0..9u32 {
        let title = format!("t{}", i);
        let genre = if i == 2 { "Other" } else { "Same" };
        songs.push(Song::from_parts(&title, "artist", i, genre, 2000, "p"));
    }
    let mut songs_by_artist = songs.clone();
    songs_by_artist.push(Song::from_parts("t9", "solo", 9, "Same", 2000, "p"));
    let mut player = MusicPlayer::with_library(songs_by_artist);
    assert!(player.create_playlist("All".to_string()));
    assert!(player.add_song_to_playlist("All", 9));
    assert!(player.play_playlist("All"));
    assert_eq!(
        titles_of(&player.get_recommendations()),
        vec!["t0", "t1", "t3", "t4", "t5"]
    );
    let track = Song::from_parts("x", "artist", 0, "None", 0, "");
    assert_eq!(
        titles_of(&player.songs_related_to(&track)),
        vec!["t0", "t1", "t2", "t3", "t4"]
    );
    let stranger = Song::from_parts("x", "nobody", 0, "None", 0, "");
    assert!(player.songs_related_to(&stranger).is_empty());
}

#[test]
fn recommendations_without_a_current_song_are_five_different_library_songs() {
    let player = MusicPlayer::new();
    for _ in 0..50 {
        let found = player.get_recommendations();
        assert_eq!(found.len(), 5);
        let mut titles = titles_of(&found);
        for title in &titles {
            assert!(player.library().iter().any(|s| s.title() == title));
        }
        titles.sort();
        titles.dedup();
        assert_eq!(titles.len(), 5);
    }
}

#[test]
fn recommendations_from_a_small_library_hold_every_song() {
    let player = MusicPlayer::with_library(small_library());
    let mut titles = titles_of(&player.get_recommendations());
    titles.sort();
    assert_eq!(titles, vec!["Alpha", "Beta", "Gamma"]);
    let empty = MusicPlayer::with_library(Vec::new());
    assert!(empty.get_recommendations().is_empty());
}

#[test]
fn songs_by_keys_take_the_five_smallest_keys_in_rising_order() {
    let player = MusicPlayer::new();
    let keys = vec![80, 10, 70, 20, 60, 30, 50, 40];
    assert_eq!(
        titles_of(&player.songs_by_keys(&keys)),
        vec![
            "Stairway to Heaven",
            "Imagine",
            "Billie Jean",
            "Yesterday",
            "Smells Like Teen Spirit",
        ]
    );
}

#[test]
fn songs_by_keys_keep_library_order_among_equal_keys() {
    let player = MusicPlayer::new();
    assert_eq!(
        titles_of(&player.songs_by_keys(&vec![5; 8])),
        vec![
            "Bohemian Rhapsody",
            "Stairway to Heaven",
            "Hotel California",
            "Imagine",
            "Sweet Child O' Mine",
        ]
    );
    let small = MusicPlayer::with_library(small_library());
    assert_eq!(titles_of(&small.songs_by_keys(&vec![9, 1, 1])), vec!["Beta", "Gamma", "Alpha"]);
}

#[test]
fn remove_playlist_hands_out_the_playlist_and_keeps_the_others() {
    let mut player = MusicPlayer::new();
    assert!(player.create_playlist("Mine".to_string()));
    assert!(player.add_song_to_playlist("Mine", 7));
    let removed = player.remove_playlist("Rock Classics").unwrap();
    assert_eq!(removed.name(), "Rock Classics");
    assert_eq!(removed.len(), 5);
    assert!(player.playlist("Rock Classics").is_none());
    assert_eq!(playlist_names(&player), vec!["Mine", "Pop Hits"]);
    assert_eq!(titles_in(player.playlist("Mine").unwrap()), vec!["Yesterday"]);
    assert_eq!(player.playlist("Pop Hits").unwrap().len(), 3);
    assert!(player.add_song_to_playlist("Mine", 0));
    assert!(player.add_song_to_playlist("Pop Hits", 0));
    assert!(!player.add_song_to_playlist("Rock Classics", 0));
    assert!(player.create_playlist("Rock Classics".to_string()));
    assert_eq!(player.playlist("Rock Classics").unwrap().len(), 0);
}

#[test]
fn remove_playlist_clears_the_choice_of_the_removed_playlist() {
    let mut player = MusicPlayer::new();
    assert!(player.play_playlist("Pop Hits"));
    assert!(player.remove_playlist("Pop Hits").is_some());
    assert_eq!(player.current_playlist(), None);
    assert!(player.get_current_song().is_none());
    assert_eq!(player.next_song(), None);
    assert!(!player.toggle_shuffle());
}

#[test]
fn remove_playlist_keeps_the_choice_of_another_playlist() {
    let mut player = MusicPlayer::new();
    assert!(player.play_playlist("Pop Hits"));
    player.next_song();
    assert!(player.remove_playlist("Rock Classics").is_some());
    assert_eq!(player.current_playlist(), Some("Pop Hits"));
    assert_eq!(current_title(&player), Some("Billie Jean".to_string()));
}

#[test]
fn remove_playlist_with_an_unknown_name_changes_nothing() {
    let mut player = MusicPlayer::new();
    assert!(player.remove_playlist("Jazz").is_none());
    assert!(player.remove_playlist("").is_none());
    assert_eq!(playlist_names(&player), vec!["Pop Hits", "Rock Classics"]);
    let mut empty = MusicPlayer::with_library(Vec::new());
    assert!(empty.remove_playlist("Rock Classics").is_none());
}
