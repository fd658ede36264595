use radiooooo::app::{App, Direction, PlayState, SelectedList, Transport};
use radiooooo::handler::{handle_key_events, Action, KeyInput};
use radiooooo::radiooo::{CountryForDecade, Ext, FetchError, Image, Links, Track};

fn codes(v: &[&str]) -> Vec<String> {
    v.iter().map(|s| s.to_string()).collect()
}

fn empty_entry() -> CountryForDecade {
    CountryForDecade { SLOW: codes(&[]), FAST: codes(&[]), WEIRD: codes(&[]) }
}

/// Thirteen entries, all empty but the 1970 one (index 7), which matches
/// the availability scenario: SLOW ARG, WEIRD nothing, FAST USA and FRA.
fn scenario_entries() -> Vec<CountryForDecade> {
    let mut entries: Vec<CountryForDecade> = Vec::new();
    for i in 0..13 {
        if i == 7 {
            entries.push(CountryForDecade {
                SLOW: codes(&["ARG"]),
                FAST: codes(&["USA", "FRA"]),
                WEIRD: codes(&[]),
            });
        } else {
            entries.push(empty_entry());
        }
    }
    entries
}

fn scenario_app() -> App {
    let mut app = App::new();
    app.populate_countries_available(&scenario_entries());
    app
}

fn sample_track(title: &str, artist: &str, album: Option<&str>) -> Track {
    Track {
        _id: "5d330a5a06fb03d8872a5d58".to_string(),
        mood: "FAST".to_string(),
        title: title.to_string(),
        artist: artist.to_string(),
        album: album.map(|a| a.to_string()),
        songwriter: Some("".to_string()),
        label: Some("MH".to_string()),
        country: "ARG".to_string(),
        year: "1975".to_string(),
        decade: 1970,
        length: 199,
        uuid: "380ca57f-188e-4795-9b17-f1721a7e8188".to_string(),
        ext: Some(Ext { track: "mp3".to_string(), cover: Some("jpg".to_string()) }),
        image: Some(Image {
            path: "cover/ARG/1970/".to_string(),
            filename: "380ca57f-188e-4795-9b17-f1721a7e8188.jpg".to_string(),
            color: Some("#d56f68".to_string()),
        }),
        likes: 324,
        profile_id: "5d3306de06fb03d8871fd12f".to_string(),
        cover: None,
        image_v: 0,
        liked: 0,
        links: Links {
            mpeg: "https://example.invalid/track.mp3".to_string(),
            ogg: "https://example.invalid/track.ogg".to_string(),
        },
    }
}

#[test]
fn new_app_defaults() {
    let app = App::new();
    assert!(app.running);
    assert_eq!(app.volume, 50);
    assert!(!app.muted);
    assert_eq!(app.play_state, PlayState::Stopped);
    assert_eq!(app.decade_idx, 0);
    assert_eq!(app.mood_idx, 0);
    assert_eq!(app.country_idx, 0);
    assert_eq!(app.list_selected, SelectedList::Decade);
    assert_eq!(app.current_setting, "");
}

#[test]
fn quit_stops_running() {
    let mut app = scenario_app();
    app.quit();
    assert!(!app.running);
}

#[test]
fn cycle_focus_three_times_returns() {
    for start in [SelectedList::Country, SelectedList::Decade, SelectedList::Mood] {
        for dir in [Direction::Forward, Direction::Backward] {
            let mut app = scenario_app();
            app.list_selected = start;
            app.cycle_focus(dir);
            app.cycle_focus(dir);
            app.cycle_focus(dir);
            assert_eq!(app.list_selected, start);
        }
    }
}

#[test]
fn cycle_focus_left_order() {
    let mut app = scenario_app();
    app.list_selected = SelectedList::Country;
    app.cycle_focus(Direction::Backward);
    assert_eq!(app.list_selected, SelectedList::Decade);
    app.cycle_focus(Direction::Backward);
    assert_eq!(app.list_selected, SelectedList::Mood);
    app.cycle_focus(Direction::Backward);
    assert_eq!(app.list_selected, SelectedList::Country);
}

#[test]
fn advance_decade_wraps_at_ends() {
    let mut app = scenario_app();
    assert_eq!(app.list_selected, SelectedList::Decade);
    app.advance(Direction::Backward);
    assert_eq!(app.decade_idx, 12);
    app.advance(Direction::Forward);
    assert_eq!(app.decade_idx, 0);
}

#[test]
fn advance_mood_wraps_at_ends() {
    let mut app = scenario_app();
    app.list_selected = SelectedList::Mood;
    app.advance(Direction::Backward);
    assert_eq!(app.mood_idx, 2);
    app.advance(Direction::Forward);
    assert_eq!(app.mood_idx, 0);
}

#[test]
fn advance_country_wraps_within_visible_list() {
    let mut app = scenario_app();
    app.decade_idx = 7;
    app.mood_idx = 2; // FAST: FRA, USA
    app.list_selected = SelectedList::Country;
    app.advance(Direction::Forward);
    assert_eq!(app.country_idx, 1);
    app.advance(Direction::Forward);
    assert_eq!(app.country_idx, 0);
    app.advance(Direction::Backward);
    assert_eq!(app.country_idx, 1);
}

#[test]
fn advance_country_on_empty_list_stays_at_zero() {
    let mut app = scenario_app();
    app.decade_idx = 7;
    app.mood_idx = 1; // WEIRD: empty
    app.list_selected = SelectedList::Country;
    app.advance(Direction::Forward);
    assert_eq!(app.country_idx, 0);
    app.advance(Direction::Backward);
    assert_eq!(app.country_idx, 0);
}

#[test]
fn visible_countries_scenario() {
    let mut app = scenario_app();
    app.decade_idx = 7;
    app.mood_idx = 1; // WEIRD
    assert_eq!(app.get_countries_available(), codes(&[]));
    app.mood_idx = 2; // FAST, sorted ascending
    assert_eq!(app.get_countries_available(), codes(&["FRA", "USA"]));
    app.mood_idx = 0; // SLOW
    assert_eq!(app.get_countries_available(), codes(&["ARG"]));
}

#[test]
fn countries_for_every_pair_is_sorted_and_duplicate_free() {
    let app = scenario_app();
    for d in 0..13 {
        for m in 0..3 {
            let list = app.countries_for(d, m);
            for w in list.windows(2) {
                assert!(w[0] < w[1]);
            }
        }
    }
    assert_eq!(app.countries_for(7, 2), codes(&["FRA", "USA"]));
}

#[test]
fn mood_switch_reclamps_country_cursor() {
    let mut app = scenario_app();
    app.decade_idx = 7;
    app.mood_idx = 2; // FAST: two entries
    app.list_selected = SelectedList::Country;
    app.advance(Direction::Forward);
    assert_eq!(app.country_idx, 1);
    // WEIRD has no countries: the cursor must drop back to 0.
    app.list_selected = SelectedList::Mood;
    app.advance(Direction::Backward); // FAST -> WEIRD
    assert_eq!(app.mood_idx, 1);
    assert_eq!(app.country_idx, 0);
}

#[test]
fn mood_switch_clamps_to_last_entry() {
    let mut app = scenario_app();
    app.decade_idx = 7;
    app.mood_idx = 2; // FAST: two entries
    app.list_selected = SelectedList::Country;
    app.advance(Direction::Forward);
    assert_eq!(app.country_idx, 1);
    // SLOW has one country: the cursor clamps to index 0, the last entry.
    app.list_selected = SelectedList::Mood;
    app.advance(Direction::Forward); // FAST wraps to SLOW
    assert_eq!(app.mood_idx, 0);
    assert_eq!(app.country_idx, 0);
}

#[test]
fn commit_on_empty_list_returns_none() {
    let mut app = scenario_app();
    app.decade_idx = 7;
    app.mood_idx = 1; // WEIRD: empty
    assert_eq!(app.commit(), None);
}

#[test]
fn commit_snapshots_selected_triple() {
    let mut app = scenario_app();
    app.decade_idx = 7;
    app.mood_idx = 2; // FAST
    app.country_idx = 1; // USA of [FRA, USA]
    let triple = app.commit().unwrap();
    assert_eq!(triple.0, "FAST");
    assert_eq!(triple.1, 1970);
    assert_eq!(triple.2, "USA");
}

#[test]
fn commit_key_on_empty_list_is_inert() {
    let mut app = scenario_app();
    app.decade_idx = 7;
    app.mood_idx = 1; // WEIRD: empty
    let before_state = app.play_state.clone();
    let act = handle_key_events(KeyInput::Commit, &mut app);
    assert_eq!(act, Action::Nothing);
    assert_eq!(app.play_state, before_state);
    assert_eq!(app.current_setting, "");
}

#[test]
fn commit_key_requests_fetch_for_selection() {
    let mut app = scenario_app();
    app.decade_idx = 7;
    app.mood_idx = 2; // FAST
    let act = handle_key_events(KeyInput::Commit, &mut app);
    assert_eq!(
        act,
        Action::FetchTrack {
            mood: "FAST".to_string(),
            decade: 1970,
            country: "FRA".to_string(),
        }
    );
    assert_eq!(app.play_state, PlayState::Stopped);
}

#[test]
fn finish_commit_plays_track_from_any_state() {
    let fresh = sample_track("New Song", "New Artist", Some("New Album"));
    let old = sample_track("Old Song", "Old Artist", None);
    let priors = [
        PlayState::Stopped,
        PlayState::Paused(old.clone()),
        PlayState::Playing(old.clone()),
    ];
    for prior in priors {
        let mut app = scenario_app();
        app.play_state = prior;
        let cmd = app.finish_commit(Ok(Some(fresh.clone())));
        assert_eq!(app.play_state, PlayState::Playing(fresh.clone()));
        assert_eq!(
            cmd,
            Some(Transport::LoadAndPlay("https://example.invalid/track.mp3".to_string()))
        );
        assert_eq!(app.current_setting, "New Song - New Artist - New Album");
    }
}

#[test]
fn finish_commit_without_album_shows_empty_album() {
    let mut app = scenario_app();
    let t = sample_track("Song", "Artist", None);
    app.finish_commit(Ok(Some(t)));
    assert_eq!(app.current_setting, "Song - Artist - ");
}

#[test]
fn finish_commit_no_match_leaves_state_and_sets_message() {
    let t = sample_track("Old Song", "Old Artist", None);
    let mut app = scenario_app();
    app.play_state = PlayState::Playing(t.clone());
    let cmd = app.finish_commit(Ok(None));
    assert_eq!(cmd, None);
    assert_eq!(app.play_state, PlayState::Playing(t));
    assert_eq!(app.current_setting, "no track was found for current setting");
}

#[test]
fn finish_commit_fetch_error_leaves_state_and_sets_message() {
    let t = sample_track("Old Song", "Old Artist", None);
    let mut app = scenario_app();
    app.play_state = PlayState::Paused(t.clone());
    let cmd = app.finish_commit(Err(FetchError));
    assert_eq!(cmd, None);
    assert_eq!(app.play_state, PlayState::Paused(t));
    assert_eq!(app.current_setting, "no track was found for current setting");
}

#[test]
fn playpause_toggles_between_playing_and_paused() {
    let t = sample_track("Song", "Artist", None);
    let mut app = scenario_app();
    app.play_state = PlayState::Playing(t.clone());
    let cmd = app.playpause();
    assert_eq!(app.play_state, PlayState::Paused(t.clone()));
    assert_eq!(cmd, Some(Transport::Pause));
    let cmd = app.playpause();
    assert_eq!(app.play_state, PlayState::Playing(t));
    assert_eq!(cmd, Some(Transport::Resume));
}

#[test]
fn playpause_on_stopped_does_nothing() {
    let mut app = scenario_app();
    let cmd = app.playpause();
    assert_eq!(app.play_state, PlayState::Stopped);
    assert_eq!(cmd, None);
}

#[test]
fn stop_releases_track() {
    let t = sample_track("Song", "Artist", None);
    let mut app = scenario_app();
    app.play_state = PlayState::Playing(t);
    let cmd = app.stop();
    assert_eq!(app.play_state, PlayState::Stopped);
    assert_eq!(cmd, Transport::Stop);
}

#[test]
fn volume_steps_up_and_stops_below_maximum() {
    let mut app = scenario_app();
    for _ in 0..30 {
        app.increment_volume();
    }
    assert_eq!(app.volume, 145);
    app.increment_volume();
    assert_eq!(app.volume, 145);
}

#[test]
fn volume_steps_down_and_stops_at_zero() {
    let mut app = scenario_app();
    for _ in 0..10 {
        app.decrement_volume();
    }
    assert_eq!(app.volume, 0);
    app.decrement_volume();
    assert_eq!(app.volume, 0);
}

#[test]
fn toggle_mute_keeps_volume() {
    let mut app = scenario_app();
    app.toggle_mute();
    assert!(app.muted);
    assert_eq!(app.volume, 50);
    app.toggle_mute();
    assert!(!app.muted);
}

#[test]
fn key_surface_dispatch() {
    let mut app = scenario_app();
    assert_eq!(handle_key_events(KeyInput::VolumeUp, &mut app), Action::Nothing);
    assert_eq!(app.volume, 55);
    assert_eq!(handle_key_events(KeyInput::VolumeDown, &mut app), Action::Nothing);
    assert_eq!(app.volume, 50);
    assert_eq!(handle_key_events(KeyInput::ToggleMute, &mut app), Action::Nothing);
    assert!(app.muted);
    assert_eq!(handle_key_events(KeyInput::MoveDown, &mut app), Action::Nothing);
    assert_eq!(app.decade_idx, 1);
    assert_eq!(handle_key_events(KeyInput::MoveUp, &mut app), Action::Nothing);
    assert_eq!(app.decade_idx, 0);
    assert_eq!(handle_key_events(KeyInput::FocusRight, &mut app), Action::Nothing);
    assert_eq!(app.list_selected, SelectedList::Country);
    assert_eq!(handle_key_events(KeyInput::FocusLeft, &mut app), Action::Nothing);
    assert_eq!(app.list_selected, SelectedList::Decade);
    assert_eq!(handle_key_events(KeyInput::PlayPause, &mut app), Action::Nothing);
    assert_eq!(handle_key_events(KeyInput::Quit, &mut app), Action::Nothing);
    assert!(!app.running);
}
