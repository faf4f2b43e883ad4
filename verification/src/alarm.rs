//! One playback session of the alarm: how its gain moves from tick to tick,
//! when it fades out and stops, and which sound file it plays.

use crate::envelope::{
    fadein_slow, fadeout, fadeout_of, lemma_smoothstep_monotone, progress, slow_ramp_of,
};
use crate::filtered_source::Settings;
use crate::fixed::{elapsed_since, product, time_since, times, ONE};
use rand::seq::IteratorRandom;
use vstd::prelude::*;
use vstd::string::StringExecFns;

verus! {

/// After how long an alarm that nobody calls off fades out: five minutes,
/// in milliseconds.
pub const ALARM_TIMEOUT: i64 = 300_000;

/// How long the alarm takes to fade out: five seconds, in milliseconds.
pub const FADEOUT_DURATION: i64 = 5_000;

/// The time between two control ticks, in milliseconds.
pub const TICK_PERIOD: u64 = 40;

/// Where a playback session stands.
#[derive(Debug, Clone, Copy, PartialEq, Eq, Structural)]
pub enum PlaybackState {
    /// The session is set up and no sample has been pulled yet.
    Starting,
    /// Audio is playing at the gain of the alarm's ramp.
    Running,
    /// The session was cancelled or timed out and fades to silence.
    FadingOut,
    /// The session has ended.
    Stopped,
}

/// How a session came to its end.
#[derive(Debug, Clone, Copy, PartialEq, Eq, Structural)]
pub enum Outcome {
    /// The alarm was called off while the session ran.
    Cancelled,
    /// The session ran into its timeout, or the audio ran out.
    Completed,
}

/// The gain of a session at time `t`: the alarm's ramp, and from the start of
/// the fade-out on the ramp times the fade.
pub open spec fn session_gain(t: int, fading_since: Option<i64>, fadeout_duration: int) -> int {
    match fading_since {
        Some(since) => product(
            slow_ramp_of(t),
            fadeout_of(time_since(t, since as int), fadeout_duration),
        ),
        None => slow_ramp_of(t),
    }
}

/// From the start of a session on its gain lies between silence and full
/// volume, before the fade-out and during it.
pub proof fn lemma_session_gain_in_range(t: int, fading_since: Option<i64>, fadeout_duration: int)
    requires
        t >= 0,
    ensures
        0 <= session_gain(t, fading_since, fadeout_duration) <= ONE,
{
    let ramp = slow_ramp_of(t);
    assert(0 <= ramp <= ONE);
    match fading_since {
        Some(since) => {
            let passed = time_since(t, since as int);
            let fade = fadeout_of(passed, fadeout_duration);
            lemma_smoothstep_monotone(
                ONE - progress(passed, fadeout_duration),
                ONE - progress(passed, fadeout_duration),
            );
            assert(0 <= ramp * fade <= ONE * ONE && (ramp * fade) / (ONE as int) <= ONE)
                by (nonlinear_arith)
                requires
                    0 <= ramp <= ONE,
                    0 <= fade <= ONE,
                    ONE == 1_000_000,
            ;
            assert((ramp * fade) / (ONE as int) >= 0) by (nonlinear_arith)
                requires
                    0 <= ramp * fade,
                    ONE == 1_000_000,
            ;
        },
        None => {},
    }
}

/// The state of one playback session of the alarm.
pub struct PlaybackController {
    state: PlaybackState,
    fadeout_start_time: Option<i64>,
    cancelled: bool,
    alarm_timeout: i64,
    fadeout_duration: i64,
}

impl PlaybackController {
    /// Where the session stands.
    pub closed spec fn phase(&self) -> PlaybackState {
        self.state
    }

    /// The time at which the fade-out began, once it has.
    pub closed spec fn fading_since(&self) -> Option<i64> {
        self.fadeout_start_time
    }

    /// Whether the alarm was seen called off while the session ran.
    pub closed spec fn was_cancelled(&self) -> bool {
        self.cancelled
    }

    /// The time after which the session fades out by itself.
    pub closed spec fn timeout(&self) -> int {
        self.alarm_timeout as int
    }

    /// How long the fade-out takes.
    pub closed spec fn fade_length(&self) -> int {
        self.fadeout_duration as int
    }

    /// A session fades out exactly from the moment on that it has noted as
    /// the start of the fade.
    pub open spec fn wf(&self) -> bool {
        &&& self.phase() == PlaybackState::FadingOut ==> self.fading_since() is Some
        &&& (self.phase() == PlaybackState::Starting || self.phase() == PlaybackState::Running)
            ==> self.fading_since() is None
    }

    /// Whether a tick at time `t` begins the fade-out: none has begun, and
    /// the timeout has passed or the alarm is no longer due.
    pub open spec fn fade_begins(&self, t: i64, still_due: bool) -> bool {
        self.fading_since() is None && (t >= self.timeout() || !still_due)
    }

    /// The start of the fade-out after a tick at time `t`. Once noted it stays.
    pub open spec fn fading_since_after(&self, t: i64, still_due: bool) -> Option<i64> {
        if self.fade_begins(t, still_due) {
            Some(t)
        } else {
            self.fading_since()
        }
    }

    /// A session that has not begun to play, with its timeout and the length
    /// of its fade-out in milliseconds.
    pub fn new(alarm_timeout: i64, fadeout_duration: i64) -> (c: PlaybackController)
        ensures
            c.wf(),
            c.phase() == PlaybackState::Starting,
            c.fading_since() is None,
            !c.was_cancelled(),
            c.timeout() == alarm_timeout,
            c.fade_length() == fadeout_duration,
    {
        PlaybackController {
            state: PlaybackState::Starting,
            fadeout_start_time: None,
            cancelled: false,
            alarm_timeout,
            fadeout_duration,
        }
    }

    /// Where the session stands.
    pub fn state(&self) -> (s: PlaybackState)
        ensures
            s == self.phase(),
    {
        self.state
    }

    /// The time at which the fade-out began, once it has.
    pub fn fadeout_start_time(&self) -> (since: Option<i64>)
        ensures
            since == self.fading_since(),
    {
        self.fadeout_start_time
    }

    /// How the session ends: called off where a tick saw the alarm no longer
    /// due before the session stopped, completed otherwise.
    pub fn outcome(&self) -> (o: Outcome)
        ensures
            o == if self.was_cancelled() {
                Outcome::Cancelled
            } else {
                Outcome::Completed
            },
    {
        if self.cancelled {
            Outcome::Cancelled
        } else {
            Outcome::Completed
        }
    }

    /// Notes that the first sample was pulled: a session that was starting
    /// is running now.
    pub fn sample_pulled(&mut self)
        requires
            old(self).wf(),
        ensures
            final(self).wf(),
            final(self).phase() == if old(self).phase() == PlaybackState::Starting {
                PlaybackState::Running
            } else {
                old(self).phase()
            },
            final(self).fading_since() == old(self).fading_since(),
            final(self).was_cancelled() == old(self).was_cancelled(),
            final(self).timeout() == old(self).timeout(),
            final(self).fade_length() == old(self).fade_length(),
    {
        match self.state {
            PlaybackState::Starting => {
                self.state = PlaybackState::Running;
            },
            _ => {},
        }
    }

    /// One control tick at `t` milliseconds into the session. `still_due`
    /// says whether the alarm is still due; that it is not is the one way to
    /// call the session off.
    ///
    /// Returns the gain to store, or `None` once the session has stopped.
    /// The fade-out begins at the first tick that sees the timeout reached or
    /// the alarm no longer due; its start is noted once and stays. The
    /// session stops at the first tick at which the fade has run its length.
    pub fn tick(&mut self, t: i64, still_due: bool) -> (gain: Option<i32>)
        requires
            old(self).wf(),
        ensures
            final(self).wf(),
            final(self).timeout() == old(self).timeout(),
            final(self).fade_length() == old(self).fade_length(),
            old(self).phase() == PlaybackState::Stopped ==> {
                &&& gain is None
                &&& final(self).phase() == PlaybackState::Stopped
                &&& final(self).fading_since() == old(self).fading_since()
                &&& final(self).was_cancelled() == old(self).was_cancelled()
            },
            old(self).phase() != PlaybackState::Stopped ==> {
                &&& final(self).was_cancelled() == (old(self).was_cancelled() || !still_due)
                &&& final(self).fading_since() == old(self).fading_since_after(t, still_due)
                &&& match final(self).fading_since() {
                    Some(since) => if time_since(t as int, since as int) >= old(self).fade_length() {
                        final(self).phase() == PlaybackState::Stopped && gain is None
                    } else {
                        final(self).phase() == PlaybackState::FadingOut && gain == Some(
                            session_gain(
                                t as int,
                                final(self).fading_since(),
                                old(self).fade_length(),
                            ) as i32,
                        )
                    },
                    None => final(self).phase() == old(self).phase() && gain == Some(
                        session_gain(t as int, None, old(self).fade_length()) as i32,
                    ),
                }
            },
            old(self).fading_since() is Some
                ==> final(self).fading_since() == old(self).fading_since(),
    {
        match self.state {
            PlaybackState::Stopped => {
                return None;
            },
            _ => {},
        }
        if !still_due {
            self.cancelled = true;
        }
        if self.fadeout_start_time.is_none() && (t >= self.alarm_timeout || !still_due) {
            self.state = PlaybackState::FadingOut;
            self.fadeout_start_time = Some(t);
        }
        let base = fadein_slow(t);
        match self.fadeout_start_time {
            Some(since) => {
                let t_fade = elapsed_since(t, since);
                if t_fade >= self.fadeout_duration {
                    self.state = PlaybackState::Stopped;
                    None
                } else {
                    Some(times(base, fadeout(t_fade, self.fadeout_duration)))
                }
            },
            None => Some(base),
        }
    }
}

/// Whether the audio has run out at `t` milliseconds into its playback. Audio
/// of unknown length never has.
pub fn audio_ran_out(t: i64, total_duration: Option<i64>) -> (over: bool)
    ensures
        over == (total_duration matches Some(d) && t > d),
{
    match total_duration {
        Some(d) => t > d,
        None => false,
    }
}

/// What the control loop does after a tick.
#[derive(Debug, Clone, Copy, PartialEq, Eq, Structural)]
pub enum Tick {
    /// The gain was stored: sleep, then tick again.
    Continue,
    /// The gain was set to silence: stop the audio output and leave the loop.
    Stop,
}

/// One round of the control loop at `t` milliseconds into the playback.
/// `volume` is what the session's gain curve gives at `t`, `None` where it
/// has ended; `total_duration` is the length of the audio, where it is known.
///
/// The playback goes on, with the gain stored in the settings, as long as
/// the curve gives a gain and the audio has not run out. Otherwise it ends,
/// and the gain is set to exactly 0.
pub fn play_step(
    settings: &mut Settings,
    t: i64,
    total_duration: Option<i64>,
    volume: Option<i32>,
) -> (tick: Tick)
    ensures
        final(settings).kernel() == old(settings).kernel(),
        tick == if (total_duration matches Some(d) && t > d) || volume is None {
            Tick::Stop
        } else {
            Tick::Continue
        },
        tick == Tick::Stop ==> final(settings).gain() == 0,
        tick == Tick::Continue ==> volume == Some(final(settings).gain()),
{
    let ran_out = audio_ran_out(t, total_duration);
    match volume {
        Some(v) => {
            if ran_out {
                settings.set_volume(0);
                Tick::Stop
            } else {
                settings.set_volume(v);
                Tick::Continue
            }
        },
        None => {
            settings.set_volume(0);
            Tick::Stop
        },
    }
}


/// Why no sound file could be chosen.
#[derive(Debug, PartialEq, Eq)]
pub enum AlarmSoundError {
    /// The directory could not be listed: its path, and what went wrong.
    CouldNotReadDir(String, String),
    /// The directory holds no sound file.
    NoFiles,
}

/// The extension of a path, as `Path::extension` reports it on the platform
/// that the program is built for: the part of the file name after its last
/// dot, where there is one.
pub uninterp spec fn path_extension(path: Seq<char>) -> Option<Seq<char>>;

/// Calls `Path::extension` of the standard library on `path`, and hands the
/// extension back as a string.
#[verifier::external_body]
fn extension_of(path: &String) -> (ext: Option<String>)
    ensures
        ext is Some <==> path_extension(path@) is Some,
        ext is Some ==> ext->Some_0@ == path_extension(path@)->Some_0,
{
    std::path::Path::new(path).extension().and_then(|e| e.to_str()).map(|e| e.to_string())
}

/// Calls `IteratorRandom::choose` of `rand` on the indices below `n`, with
/// the thread's generator: some index below `n`, and none only where there
/// is none.
#[verifier::external_body]
fn choose_index(n: usize) -> (choice: Option<usize>)
    ensures
        choice is None <==> n == 0,
        choice matches Some(i) ==> i < n,
{
    (0..n).choose(&mut rand::thread_rng())
}

/// Whether `ext` is one of the extensions of a sound file.
pub open spec fn is_sound_extension(ext: Seq<char>) -> bool {
    ext == "mp3"@ || ext == "ogg"@ || ext == "flac"@ || ext == "wav"@
}

/// Whether `path` names a sound file, going by its extension.
pub open spec fn is_sound_path(path: Seq<char>) -> bool {
    match path_extension(path) {
        Some(ext) => is_sound_extension(ext),
        None => false,
    }
}

/// Whether `path` names a sound file: one that ends in `mp3`, `ogg`, `flac`
/// or `wav`.
pub fn is_sound_file(path: &String) -> (sound: bool)
    ensures
        sound == is_sound_path(path@),
{
    match extension_of(path) {
        Some(ext) => {
            ext == String::from_str("mp3") || ext == String::from_str("ogg") || ext
                == String::from_str("flac") || ext == String::from_str("wav")
        },
        None => false,
    }
}

/// The paths among `paths` that name sound files, in their order.
pub open spec fn sound_paths(paths: Seq<String>) -> Seq<String> {
    paths.filter(|p: String| is_sound_path(p@))
}

/// The sound files among the entries of a directory, in their order.
pub fn sound_files(paths: &Vec<String>) -> (sounds: Vec<String>)
    ensures
        sounds@ == sound_paths(paths@),
{
    let mut sounds: Vec<String> = Vec::new();
    let mut i: usize = 0;
    proof {
        reveal(Seq::filter);
        assert(paths@.take(0) =~= Seq::<String>::empty());
    }
    while i < paths.len()
        invariant
            i <= paths@.len(),
            sounds@ == sound_paths(paths@.take(i as int)),
        decreases paths@.len() - i,
    {
        proof {
            reveal(Seq::filter);
            assert(paths@.take(i + 1).drop_last() =~= paths@.take(i as int));
            assert(paths@.take(i + 1).last() == paths@[i as int]);
        }
        if is_sound_file(&paths[i]) {
            sounds.push(paths[i].clone());
        }
        i += 1;
    }
    assert(paths@.take(paths@.len() as int) =~= paths@);
    sounds
}

/// The sound file at the place that was drawn among the candidates, and
/// `NoFiles` where nothing was drawn.
pub fn chosen_sound(sounds: &Vec<String>, choice: Option<usize>) -> (r: Result<
    String,
    AlarmSoundError,
>)
    requires
        choice matches Some(i) ==> i < sounds@.len(),
    ensures
        match choice {
            Some(i) => r matches Ok(path) && path == sounds@[i as int],
            None => r matches Err(AlarmSoundError::NoFiles),
        },
{
    match choice {
        Some(i) => Ok(sounds[i].clone()),
        None => Err(AlarmSoundError::NoFiles),
    }
}

/// Chooses at random one of the sound files among the entries of the
/// directory `root_dir`. `listing` holds the paths of the entries, or the
/// reason why the directory could not be listed.
///
/// Fails with `CouldNotReadDir` exactly where the listing failed, and with
/// `NoFiles` exactly where no entry is a sound file.
pub fn random_alarm_sound(root_dir: &str, listing: Result<Vec<String>, String>) -> (r: Result<
    String,
    AlarmSoundError,
>)
    ensures
        match listing {
            Ok(paths) => {
                &&& r is Ok <==> sound_paths(paths@).len() > 0
                &&& r matches Ok(path) ==> sound_paths(paths@).contains(path)
                &&& r matches Err(e) ==> e matches AlarmSoundError::NoFiles
            },
            Err(reason) => r matches Err(AlarmSoundError::CouldNotReadDir(dir, why)) && dir@
                == root_dir@ && why == reason,
        },
{
    match listing {
        Ok(paths) => {
            let sounds = sound_files(&paths);
            let choice = choose_index(sounds.len());
            chosen_sound(&sounds, choice)
        },
        Err(reason) => Err(AlarmSoundError::CouldNotReadDir(String::from_str(root_dir), reason)),
    }
}

} // verus!
