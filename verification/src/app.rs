//! The application state: the three selection axes, the availability
//! cache, the play-state machine and the volume state, with the
//! transitions the event layer drives.

use crate::order::{has_code, strictly_sorted};
use crate::radiooo::{
    clone_codes, entry_wf, spec_mood_list, CountryForDecade, FetchError, Track, NUM_DECADES,
    NUM_MOODS,
};
use vstd::prelude::*;
use vstd::string::StringExecFns;

verus! {

/// The loudest volume the volume keys approach; stepping stops just below.
pub const MAX_VOLUME: u16 = 150;

/// How far one volume key press moves.
pub const VOLUME_INCREMENT: u16 = 5;

/// The volume a fresh application starts at.
pub const INITIAL_VOLUME: u16 = 50;

/// The play-state machine: a track is attached exactly when something is
/// paused or playing.
#[derive(Debug, Clone, PartialEq)]
pub enum PlayState {
    Paused(Track),
    Playing(Track),
    Stopped,
}

/// The axis currently receiving navigation input.
#[derive(Debug, Clone, Copy, PartialEq, Eq)]
pub enum SelectedList {
    Country,
    Decade,
    Mood,
}

/// A navigation direction along an axis or around the focus rotation.
#[derive(Debug, Clone, Copy, PartialEq, Eq)]
pub enum Direction {
    Forward,
    Backward,
}

/// A command for the external audio sink; the library only decides which
/// command to issue, the caller delivers it.
#[derive(Debug, Clone, PartialEq)]
pub enum Transport {
    LoadAndPlay(String),
    Pause,
    Resume,
    Stop,
}

/// The application state, owned by the event loop and touched one event at
/// a time.
pub struct App {
    /// Is the application running?
    pub running: bool,
    /// Volume in percent; muting is an independent overlay.
    pub volume: u16,
    pub muted: bool,
    pub play_state: PlayState,
    /// Cursor into the decade axis.
    pub decade_idx: usize,
    /// Cursor into the mood axis.
    pub mood_idx: usize,
    /// Cursor into the visible country list.
    pub country_idx: usize,
    pub list_selected: SelectedList,
    /// The user-visible status line.
    pub current_setting: String,
    /// One availability entry per decade, in decade-axis order, once
    /// populated.
    pub country_availables: Vec<CountryForDecade>,
}

impl App {
    /// The country list implied by decade index `d` and mood index `m`.
    pub open spec fn spec_visible_at(self, d: int, m: int) -> Seq<String> {
        spec_mood_list(self.country_availables@[d], m)
    }

    /// The currently visible country list.
    pub open spec fn spec_visible(self) -> Seq<String> {
        self.spec_visible_at(self.decade_idx as int, self.mood_idx as int)
    }

    /// The cache holds one entry per decade.
    pub open spec fn populated(self) -> bool {
        self.country_availables@.len() == NUM_DECADES
    }

    /// Every cached list is strictly ascending.
    pub open spec fn entries_sorted(self) -> bool {
        forall|d: int|
            0 <= d < self.country_availables@.len() ==> entry_wf(
                #[trigger] self.country_availables@[d],
            )
    }

    /// The country cursor never points past the end of the visible list; on
    /// an empty list it rests at 0.
    pub open spec fn country_ok(self) -> bool {
        self.country_idx < self.spec_visible().len() || (self.spec_visible().len() == 0
            && self.country_idx == 0)
    }

    /// Well-formed: cursors in range, cache populated with sorted entries,
    /// and the country-cursor invariant.
    pub open spec fn wf(self) -> bool {
        &&& self.mood_idx < NUM_MOODS
        &&& self.decade_idx < NUM_DECADES
        &&& self.populated()
        &&& self.entries_sorted()
        &&& self.country_ok()
    }
}

/// The cursor one step from `i` on an axis of `n` items, wrapping at the
/// ends.
pub open spec fn spec_next_index(i: int, n: int, dir: Direction) -> int {
    match dir {
        Direction::Forward => if i + 1 >= n {
            0
        } else {
            i + 1
        },
        Direction::Backward => if i == 0 {
            n - 1
        } else {
            i - 1
        },
    }
}

/// The country cursor re-clamped to a list of `n` items: unchanged while in
/// range, pulled back to the last item when past the end, 0 on an empty
/// list.
pub open spec fn spec_clamp(i: int, n: int) -> int {
    if n == 0 {
        0
    } else if i < n {
        i
    } else {
        n - 1
    }
}

/// The next focused axis: `Backward` rotates Country → Decade → Mood →
/// Country, `Forward` rotates the other way.
pub open spec fn spec_cycle(a: SelectedList, dir: Direction) -> SelectedList {
    match dir {
        Direction::Backward => match a {
            SelectedList::Country => SelectedList::Decade,
            SelectedList::Decade => SelectedList::Mood,
            SelectedList::Mood => SelectedList::Country,
        },
        Direction::Forward => match a {
            SelectedList::Country => SelectedList::Mood,
            SelectedList::Decade => SelectedList::Country,
            SelectedList::Mood => SelectedList::Decade,
        },
    }
}

/// What one navigation step does: the focused axis's cursor moves one step
/// with wraparound, and the country cursor is re-clamped to the list the
/// new decade/mood pair implies.
pub open spec fn spec_advanced(o: App, n: App, dir: Direction) -> bool {
    match o.list_selected {
        SelectedList::Mood => {
            let m2 = spec_next_index(o.mood_idx as int, NUM_MOODS as int, dir);
            n == (App {
                mood_idx: m2 as usize,
                country_idx: spec_clamp(
                    o.country_idx as int,
                    o.spec_visible_at(o.decade_idx as int, m2).len() as int,
                ) as usize,
                ..o
            })
        },
        SelectedList::Decade => {
            let d2 = spec_next_index(o.decade_idx as int, NUM_DECADES as int, dir);
            n == (App {
                decade_idx: d2 as usize,
                country_idx: spec_clamp(
                    o.country_idx as int,
                    o.spec_visible_at(d2, o.mood_idx as int).len() as int,
                ) as usize,
                ..o
            })
        },
        SelectedList::Country => {
            let len = o.spec_visible().len() as int;
            n == (App {
                country_idx: if len == 0 {
                    0
                } else {
                    spec_next_index(o.country_idx as int, len, dir) as usize
                },
                ..o
            })
        },
    }
}

/// What toggling play/pause does: Playing becomes Paused with the same
/// track and a pause command; Paused becomes Playing with the same track
/// and a resume command; Stopped stays put with no command.
pub open spec fn spec_toggled(o: App, n: App, cmd: Option<Transport>) -> bool {
    match o.play_state {
        PlayState::Playing(t) => n == (App { play_state: PlayState::Paused(t), ..o }) && cmd
            == Some(Transport::Pause),
        PlayState::Paused(t) => n == (App { play_state: PlayState::Playing(t), ..o }) && cmd
            == Some(Transport::Resume),
        PlayState::Stopped => n == o && cmd is None,
    }
}

/// The fixed status line shown when the track RPC reports no match.
pub open spec fn spec_no_track_msg() -> Seq<char> {
    "no track was found for current setting"@
}

/// The status line for a received track: title, artist and album separated
/// by dashes; a missing album shows as empty.
pub open spec fn spec_track_setting(t: Track) -> Seq<char> {
    t.title@ + " - "@ + t.artist@ + " - "@ + (match t.album {
        Some(a) => a@,
        None => Seq::<char>::empty(),
    })
}

/// What finishing a commit does: a returned track replaces any current one
/// and starts playing, whatever the prior state, and the status line shows
/// it; "no match" and a fetch failure alike leave everything but the
/// status line untouched, which shows the fixed no-match message.
pub open spec fn spec_committed(
    o: App,
    n: App,
    result: Result<Option<Track>, FetchError>,
    cmd: Option<Transport>,
) -> bool {
    match result {
        Ok(Some(t)) => {
            &&& n == (App {
                play_state: PlayState::Playing(t),
                current_setting: n.current_setting,
                ..o
            })
            &&& n.current_setting@ == spec_track_setting(t)
            &&& cmd == Some(Transport::LoadAndPlay(t.links.mpeg))
        },
        _ => {
            &&& n == (App { current_setting: n.current_setting, ..o })
            &&& n.current_setting@ == spec_no_track_msg()
            &&& cmd is None
        },
    }
}

/// The volume after one step up: raised by the increment while that stays
/// below the maximum, otherwise unchanged.
pub open spec fn spec_inc_volume(v: u16) -> u16 {
    if v + VOLUME_INCREMENT < MAX_VOLUME {
        (v + VOLUME_INCREMENT) as u16
    } else {
        v
    }
}

/// The volume after one step down: lowered by the increment while that
/// stays at or above zero, otherwise unchanged.
pub open spec fn spec_dec_volume(v: u16) -> u16 {
    if v >= VOLUME_INCREMENT {
        (v - VOLUME_INCREMENT) as u16
    } else {
        v
    }
}

/// The cursor one step from `i` on an axis of `n` items, wrapping at the
/// ends.
fn next_index(i: usize, n: usize, dir: Direction) -> (r: usize)
    requires
        0 < n,
        i < n,
    ensures
        r as int == spec_next_index(i as int, n as int, dir),
        r < n,
{
    match dir {
        Direction::Forward => if i + 1 >= n {
            0
        } else {
            i + 1
        },
        Direction::Backward => if i == 0 {
            n - 1
        } else {
            i - 1
        },
    }
}

/// The fixed status line shown when the track RPC reports no match.
pub fn no_track_message() -> (s: String)
    ensures
        s@ == spec_no_track_msg(),
{
    "no track was found for current setting".to_owned()
}

impl App {
    /// A fresh application: running, at the initial volume, unmuted,
    /// stopped, all cursors at the top, decade axis focused, empty status
    /// line and an unpopulated cache.
    pub fn new() -> (app: App)
        ensures
            app.running == true,
            app.volume == INITIAL_VOLUME,
            app.muted == false,
            app.play_state == PlayState::Stopped,
            app.decade_idx == 0,
            app.mood_idx == 0,
            app.country_idx == 0,
            app.list_selected == SelectedList::Decade,
            app.current_setting@ == Seq::<char>::empty(),
            app.country_availables@ == Seq::<CountryForDecade>::empty(),
    {
        App {
            running: true,
            volume: INITIAL_VOLUME,
            muted: false,
            play_state: PlayState::Stopped,
            decade_idx: 0,
            mood_idx: 0,
            country_idx: 0,
            list_selected: SelectedList::Decade,
            current_setting: String::new(),
            country_availables: Vec::new(),
        }
    }

    /// Handles the timer tick; the state does not change with time.
    pub fn tick(&self) {
    }

    /// Stop running, so the event loop exits.
    pub fn quit(&mut self)
        ensures
            *final(self) == (App { running: false, ..*old(self) }),
    {
        self.running = false;
    }

    /// Install the fetched availability entries, one per decade in
    /// decade-axis order, normalizing each mood's list to sorted,
    /// duplicate-free form. Eager population before interactive use keeps
    /// every later country-list read in range.
    pub fn populate_countries_available(&mut self, entries: &Vec<CountryForDecade>)
        requires
            old(self).country_availables@.len() == 0,
            entries@.len() == NUM_DECADES,
            old(self).mood_idx < NUM_MOODS,
            old(self).decade_idx < NUM_DECADES,
            old(self).country_idx == 0,
        ensures
            *final(self) == (App {
                country_availables: final(self).country_availables,
                ..*old(self)
            }),
            final(self).wf(),
            forall|d: int, m: int, y: Seq<u8>|
                0 <= d < NUM_DECADES && 0 <= m < NUM_MOODS ==> (#[trigger] has_code(
                    spec_mood_list(final(self).country_availables@[d], m),
                    y,
                ) <==> has_code(spec_mood_list(entries@[d], m), y)),
    {
        let mut i: usize = 0;
        while i < entries.len()
            invariant
                i <= entries@.len(),
                entries@.len() == NUM_DECADES,
                self.country_availables@.len() == i,
                *self == (App { country_availables: self.country_availables, ..*old(self) }),
                forall|d: int|
                    0 <= d < i ==> entry_wf(#[trigger] self.country_availables@[d]),
                forall|d: int, m: int, y: Seq<u8>|
                    0 <= d < i && 0 <= m < NUM_MOODS ==> (#[trigger] has_code(
                        spec_mood_list(self.country_availables@[d], m),
                        y,
                    ) <==> has_code(spec_mood_list(entries@[d], m), y)),
            decreases entries@.len() - i,
        {
            let e = entries[i].normalized();
            self.country_availables.push(e);
            i = i + 1;
        }
        proof {
            if self.spec_visible().len() > 0 {
                assert(self.country_ok());
            }
        }
    }

    /// The country list for decade index `d` and mood index `m`: strictly
    /// ascending, free of duplicates. Callers must have populated the cache
    /// first.
    pub fn countries_for(&self, d: usize, m: usize) -> (r: Vec<String>)
        requires
            self.populated(),
            self.entries_sorted(),
            d < NUM_DECADES,
            m < NUM_MOODS,
        ensures
            r@ == self.spec_visible_at(d as int, m as int),
            strictly_sorted(r@),
    {
        proof {
            assert(entry_wf(self.country_availables@[d as int]));
        }
        let e = &self.country_availables[d];
        if m == 0 {
            clone_codes(&e.SLOW)
        } else if m == 1 {
            clone_codes(&e.WEIRD)
        } else {
            clone_codes(&e.FAST)
        }
    }

    /// The visible country list for the current decade and mood cursors:
    /// sorted ascending, free of duplicates.
    pub fn get_countries_available(&self) -> (r: Vec<String>)
        requires
            self.wf(),
        ensures
            r@ == self.spec_visible(),
            strictly_sorted(r@),
    {
        self.countries_for(self.decade_idx, self.mood_idx)
    }

    /// The length of the visible country list.
    fn visible_len(&self) -> (n: usize)
        requires
            self.mood_idx < NUM_MOODS,
            self.decade_idx < NUM_DECADES,
            self.populated(),
        ensures
            n == self.spec_visible().len(),
    {
        let e = &self.country_availables[self.decade_idx];
        if self.mood_idx == 0 {
            e.SLOW.len()
        } else if self.mood_idx == 1 {
            e.WEIRD.len()
        } else {
            e.FAST.len()
        }
    }

    /// Pull the country cursor back into the list the current decade/mood
    /// pair implies.
    fn reclamp_country(&mut self)
        requires
            old(self).mood_idx < NUM_MOODS,
            old(self).decade_idx < NUM_DECADES,
            old(self).populated(),
        ensures
            *final(self) == (App {
                country_idx: spec_clamp(
                    old(self).country_idx as int,
                    old(self).spec_visible().len() as int,
                ) as usize,
                ..*old(self)
            }),
            final(self).country_ok(),
    {
        let len = self.visible_len();
        if len == 0 {
            self.country_idx = 0;
        } else if self.country_idx >= len {
            self.country_idx = len - 1;
        }
    }

    /// Move the focused axis's cursor one step with wraparound; when the
    /// decade or mood changed, re-clamp the country cursor to the new list.
    pub fn advance(&mut self, dir: Direction)
        requires
            old(self).wf(),
        ensures
            final(self).wf(),
            spec_advanced(*old(self), *final(self), dir),
    {
        match self.list_selected {
            SelectedList::Mood => {
                self.mood_idx = next_index(self.mood_idx, NUM_MOODS, dir);
                self.reclamp_country();
            },
            SelectedList::Decade => {
                self.decade_idx = next_index(self.decade_idx, NUM_DECADES, dir);
                self.reclamp_country();
            },
            SelectedList::Country => {
                let len = self.visible_len();
                if len > 0 {
                    self.country_idx = next_index(self.country_idx, len, dir);
                }
            },
        }
    }

    /// Rotate the focused axis; cursors do not move.
    pub fn cycle_focus(&mut self, dir: Direction)
        requires
            old(self).wf(),
        ensures
            final(self).wf(),
            *final(self) == (App {
                list_selected: spec_cycle(old(self).list_selected, dir),
                ..*old(self)
            }),
    {
        let next = match self.list_selected {
            SelectedList::Country => match dir {
                Direction::Backward => SelectedList::Decade,
                Direction::Forward => SelectedList::Mood,
            },
            SelectedList::Decade => match dir {
                Direction::Backward => SelectedList::Mood,
                Direction::Forward => SelectedList::Country,
            },
            SelectedList::Mood => match dir {
                Direction::Backward => SelectedList::Country,
                Direction::Forward => SelectedList::Decade,
            },
        };
        self.list_selected = next;
    }

    /// Snapshot the selected triple: mood name, decade value, country code.
    /// `None` exactly when no country is available for the current
    /// decade/mood pair — the caller must not issue a network request then.
    pub fn commit(&self) -> (r: Option<(String, i32, String)>)
        requires
            self.wf(),
        ensures
            match r {
                Some(t) => {
                    &&& self.spec_visible().len() > 0
                    &&& t.0@ == crate::radiooo::spec_mood_name(self.mood_idx as int)
                    &&& t.1 as int == crate::radiooo::spec_decade(self.decade_idx as int)
                    &&& t.2 == self.spec_visible()[self.country_idx as int]
                },
                None => self.spec_visible().len() == 0,
            },
    {
        let len = self.visible_len();
        if len == 0 {
            return None;
        }
        let mood = crate::radiooo::mood_name(self.mood_idx);
        let decade = crate::radiooo::decade_value(self.decade_idx);
        let e = &self.country_availables[self.decade_idx];
        let country = if self.mood_idx == 0 {
            e.SLOW[self.country_idx].clone()
        } else if self.mood_idx == 1 {
            e.WEIRD[self.country_idx].clone()
        } else {
            e.FAST[self.country_idx].clone()
        };
        Some((mood, decade, country))
    }

    /// Apply the outcome of the track RPC the last commit issued: a track
    /// starts playing whatever the prior state; "no match" and a fetch
    /// failure only set the fixed status line.
    pub fn finish_commit(&mut self, result: Result<Option<Track>, FetchError>) -> (cmd: Option<
        Transport,
    >)
        ensures
            spec_committed(*old(self), *final(self), result, cmd),
    {
        match result {
            Ok(Some(t)) => {
                let url = t.links.mpeg.clone();
                let mut s = t.title.clone();
                s.append(" - ");
                s.append(t.artist.as_str());
                s.append(" - ");
                match &t.album {
                    Some(a) => s.append(a.as_str()),
                    None => {},
                }
                proof {
                    assert(s@ =~= spec_track_setting(t));
                }
                self.current_setting = s;
                self.play_state = PlayState::Playing(t);
                Some(Transport::LoadAndPlay(url))
            },
            _ => {
                self.current_setting = no_track_message();
                None
            },
        }
    }

    /// Toggle between playing and paused; with nothing loaded there is
    /// nothing to toggle.
    pub fn playpause(&mut self) -> (cmd: Option<Transport>)
        ensures
            spec_toggled(*old(self), *final(self), cmd),
    {
        let mut st = PlayState::Stopped;
        core::mem::swap(&mut st, &mut self.play_state);
        match st {
            PlayState::Playing(t) => {
                self.play_state = PlayState::Paused(t);
                Some(Transport::Pause)
            },
            PlayState::Paused(t) => {
                self.play_state = PlayState::Playing(t);
                Some(Transport::Resume)
            },
            PlayState::Stopped => {
                self.play_state = PlayState::Stopped;
                None
            },
        }
    }

    /// Release any track and stop the audio sink, whatever the prior state.
    pub fn stop(&mut self) -> (cmd: Transport)
        ensures
            *final(self) == (App { play_state: PlayState::Stopped, ..*old(self) }),
            cmd == Transport::Stop,
    {
        self.play_state = PlayState::Stopped;
        Transport::Stop
    }

    /// Flip the mute overlay; the stored volume is untouched.
    pub fn toggle_mute(&mut self)
        ensures
            *final(self) == (App { muted: !old(self).muted, ..*old(self) }),
    {
        self.muted = !self.muted;
    }

    /// One volume step up, stopping below the maximum.
    pub fn increment_volume(&mut self)
        ensures
            *final(self) == (App { volume: spec_inc_volume(old(self).volume), ..*old(self) }),
    {
        match self.volume.checked_add(VOLUME_INCREMENT) {
            Some(res) => {
                if res < MAX_VOLUME {
                    self.volume = res;
                }
            },
            None => {},
        }
    }

    /// One volume step down, stopping at zero.
    pub fn decrement_volume(&mut self)
        ensures
            *final(self) == (App { volume: spec_dec_volume(old(self).volume), ..*old(self) }),
    {
        match self.volume.checked_sub(VOLUME_INCREMENT) {
            Some(res) => {
                self.volume = res;
            },
            None => {},
        }
    }
}

/// Law: cycling the focus three times in one direction returns it to the
/// original axis.
pub proof fn lemma_cycle_focus_round_trip(a: SelectedList, dir: Direction)
    ensures
        spec_cycle(spec_cycle(spec_cycle(a, dir), dir), dir) == a,
{
}

/// Law: one step forward from the last index wraps to 0, and one step
/// backward from 0 wraps to the last index.
pub proof fn lemma_advance_wraparound(n: int)
    requires
        n > 0,
    ensures
        spec_next_index(n - 1, n, Direction::Forward) == 0,
        spec_next_index(0, n, Direction::Backward) == n - 1,
{
}

/// Law: a successful track fetch ends with that track playing and a
/// load-and-play command for its media link, whatever the prior state —
/// stopped, paused or already playing something else.
pub proof fn lemma_commit_plays_track(o: App, n: App, t: Track, cmd: Option<Transport>)
    requires
        spec_committed(o, n, Ok(Some(t)), cmd),
    ensures
        n.play_state == PlayState::Playing(t),
        cmd == Some(Transport::LoadAndPlay(t.links.mpeg)),
{
}

/// Law: toggling keeps the attached track: Playing(t) becomes Paused(t),
/// Paused(t) becomes Playing(t), and Stopped stays exactly as it was.
pub proof fn lemma_toggle_keeps_track(o: App, n: App, cmd: Option<Transport>)
    requires
        spec_toggled(o, n, cmd),
    ensures
        (o.play_state matches PlayState::Playing(t) ==> n.play_state == PlayState::Paused(t)),
        (o.play_state matches PlayState::Paused(t) ==> n.play_state == PlayState::Playing(t)),
        o.play_state == PlayState::Stopped ==> n == o,
{
}

/// Law: in a well-formed application every cached country list — for every
/// decade and mood, so in particular the visible one — is strictly
/// ascending and free of duplicates.
pub proof fn lemma_countries_strictly_ascending(app: App, d: int, m: int)
    requires
        app.wf(),
        0 <= d < NUM_DECADES,
        0 <= m < NUM_MOODS,
    ensures
        strictly_sorted(app.spec_visible_at(d, m)),
        forall|i: int, j: int|
            0 <= i < j < app.spec_visible_at(d, m).len() ==> app.spec_visible_at(d, m)[i]@
                != app.spec_visible_at(d, m)[j]@,
{
    assert(entry_wf(app.country_availables@[d]));
    let s = app.spec_visible_at(d, m);
    assert forall|i: int, j: int| 0 <= i < j < s.len() implies s[i]@ != s[j]@ by {
        if s[i]@ == s[j]@ {
            assert(crate::order::code_bytes(s[i]) == crate::order::code_bytes(s[j]));
            crate::order::lemma_bytes_lt_irrefl(crate::order::code_bytes(s[i]));
            assert(crate::order::bytes_lt(
                crate::order::code_bytes(s[i]),
                crate::order::code_bytes(s[j]),
            ));
        }
    }
}

} // verus!
