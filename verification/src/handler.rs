//! The key surface: one discrete input per key the event loop consumes,
//! dispatched to the state transitions, with any outside work handed back
//! to the caller as an action.

use crate::app::{
    spec_advanced, spec_cycle, spec_dec_volume, spec_inc_volume, App, Direction, PlayState,
    Transport,
};
use crate::radiooo::{spec_decade, spec_mood_name};
use vstd::prelude::*;

verus! {

/// The keys the core reacts to; translating terminal events into these is
/// the caller's business.
#[derive(Debug, Clone, Copy, PartialEq, Eq)]
pub enum KeyInput {
    Quit,
    PlayPause,
    MoveDown,
    MoveUp,
    FocusLeft,
    FocusRight,
    VolumeUp,
    VolumeDown,
    ToggleMute,
    Commit,
}

/// What the caller must do after a key was handled: nothing, deliver a
/// transport command to the audio sink, or fetch a track for the committed
/// selection and report the outcome through `App::finish_commit`.
#[derive(Debug, Clone, PartialEq)]
pub enum Action {
    Nothing,
    Transport(Transport),
    FetchTrack { mood: String, decade: i32, country: String },
}

/// What handling one key does to the state and which action it asks for.
pub open spec fn spec_handled(key: KeyInput, o: App, n: App, act: Action) -> bool {
    match key {
        KeyInput::Quit => n == (App { running: false, ..o }) && act == Action::Nothing,
        KeyInput::PlayPause => match o.play_state {
            PlayState::Playing(t) => n == (App { play_state: PlayState::Paused(t), ..o }) && act
                == Action::Transport(Transport::Pause),
            PlayState::Paused(t) => n == (App { play_state: PlayState::Playing(t), ..o }) && act
                == Action::Transport(Transport::Resume),
            PlayState::Stopped => n == o && act == Action::Nothing,
        },
        KeyInput::MoveDown => spec_advanced(o, n, Direction::Forward) && act == Action::Nothing,
        KeyInput::MoveUp => spec_advanced(o, n, Direction::Backward) && act == Action::Nothing,
        KeyInput::FocusLeft => n == (App {
            list_selected: spec_cycle(o.list_selected, Direction::Backward),
            ..o
        }) && act == Action::Nothing,
        KeyInput::FocusRight => n == (App {
            list_selected: spec_cycle(o.list_selected, Direction::Forward),
            ..o
        }) && act == Action::Nothing,
        KeyInput::VolumeUp => n == (App { volume: spec_inc_volume(o.volume), ..o }) && act
            == Action::Nothing,
        KeyInput::VolumeDown => n == (App { volume: spec_dec_volume(o.volume), ..o }) && act
            == Action::Nothing,
        KeyInput::ToggleMute => n == (App { muted: !o.muted, ..o }) && act == Action::Nothing,
        KeyInput::Commit => if o.spec_visible().len() == 0 {
            n == o && act == Action::Nothing
        } else {
            &&& n == o
            &&& act matches Action::FetchTrack { mood, decade, country }
            &&& mood@ == spec_mood_name(o.mood_idx as int)
            &&& decade as int == spec_decade(o.decade_idx as int)
            &&& country == o.spec_visible()[o.country_idx as int]
        },
    }
}

/// Handle one key: update the state and say what outside work is owed.
pub fn handle_key_events(key: KeyInput, app: &mut App) -> (act: Action)
    requires
        old(app).wf(),
    ensures
        final(app).wf(),
        spec_handled(key, *old(app), *final(app), act),
{
    match key {
        KeyInput::Quit => {
            app.quit();
            Action::Nothing
        },
        KeyInput::PlayPause => match app.playpause() {
            Some(c) => Action::Transport(c),
            None => Action::Nothing,
        },
        KeyInput::MoveDown => {
            app.advance(Direction::Forward);
            Action::Nothing
        },
        KeyInput::MoveUp => {
            app.advance(Direction::Backward);
            Action::Nothing
        },
        KeyInput::FocusLeft => {
            app.cycle_focus(Direction::Backward);
            Action::Nothing
        },
        KeyInput::FocusRight => {
            app.cycle_focus(Direction::Forward);
            Action::Nothing
        },
        KeyInput::VolumeUp => {
            app.increment_volume();
            Action::Nothing
        },
        KeyInput::VolumeDown => {
            app.decrement_volume();
            Action::Nothing
        },
        KeyInput::ToggleMute => {
            app.toggle_mute();
            Action::Nothing
        },
        KeyInput::Commit => match app.commit() {
            Some((mood, decade, country)) => Action::FetchTrack { mood, decade, country },
            None => Action::Nothing,
        },
    }
}

/// Law: with no country visible, the commit key changes nothing and asks
/// for no network fetch.
pub proof fn lemma_empty_commit_is_inert(o: App, n: App, act: Action)
    requires
        spec_handled(KeyInput::Commit, o, n, act),
        o.spec_visible().len() == 0,
    ensures
        n == o,
        act == Action::Nothing,
{
}

/// Law: whatever key the event loop delivers, a well-formed state stays
/// well-formed — in particular the country cursor never points past the
/// end of the visible list.
pub proof fn lemma_handled_preserves_invariant(key: KeyInput, o: App, n: App, act: Action)
    requires
        o.wf(),
        spec_handled(key, o, n, act),
    ensures
        n.wf(),
        n.country_ok(),
{
    match key {
        KeyInput::MoveDown => {
            lemma_advanced_preserves_invariant(o, n, Direction::Forward);
        },
        KeyInput::MoveUp => {
            lemma_advanced_preserves_invariant(o, n, Direction::Backward);
        },
        _ => {},
    }
}

/// Law: one navigation step from a well-formed state yields a well-formed
/// state.
pub proof fn lemma_advanced_preserves_invariant(o: App, n: App, dir: Direction)
    requires
        o.wf(),
        spec_advanced(o, n, dir),
    ensures
        n.wf(),
        n.country_ok(),
{
}

} // verus!
