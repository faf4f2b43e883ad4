//! When to play quiet sounds to a sleeper, long before the alarm is due.

use crate::envelope::{fadein, fadein_of, fadeout, fadeout_of};
use crate::fixed::{product, times};
use crate::state::AlarmState;
use rand::Rng;
use std::time::Duration;
use vstd::prelude::*;

verus! {

/// The length of a `Duration` in nanoseconds, as `Duration::as_nanos` reports it.
pub uninterp spec fn duration_nanos(d: Duration) -> u128;

/// Calls `Duration::as_nanos`, which returns the whole length of the duration
/// in nanoseconds.
#[verifier::external_body]
fn total_nanos(d: &Duration) -> (n: u128)
    ensures
        n == duration_nanos(*d),
{
    d.as_nanos()
}

/// Whether `sleeping_time` is known and strictly longer than `minimum`.
pub open spec fn slept_longer_than(sleeping_time: Option<Duration>, minimum: Duration) -> bool {
    match sleeping_time {
        Some(d) => duration_nanos(d) > duration_nanos(minimum),
        None => false,
    }
}

/// What `should_start_lucid_sounds` decides.
pub open spec fn lucid_sounds_due(
    is_user_in_bed: bool,
    alarm_is_active: bool,
    user_is_waking_up_soon: bool,
    sleeping_time: Option<Duration>,
    minimum_sleeping_time: Duration,
) -> bool {
    is_user_in_bed && alarm_is_active && !user_is_waking_up_soon && slept_longer_than(
        sleeping_time,
        minimum_sleeping_time,
    )
}

/// Lucid sounds start only for a user who is in bed with an alarm set, who is
/// not about to be woken anyway, and who has slept for longer than the minimum.
pub fn should_start_lucid_sounds(
    is_user_in_bed: bool,
    alarm_is_active: bool,
    user_is_waking_up_soon: bool,
    sleeping_time: Option<Duration>,
    minimum_sleeping_time: Duration,
) -> (start: bool)
    ensures
        start == lucid_sounds_due(
            is_user_in_bed,
            alarm_is_active,
            user_is_waking_up_soon,
            sleeping_time,
            minimum_sleeping_time,
        ),
{
    if !(is_user_in_bed && alarm_is_active && !user_is_waking_up_soon) {
        return false;
    }
    match sleeping_time {
        Some(d) => total_nanos(&d) > total_nanos(&minimum_sleeping_time),
        None => false,
    }
}

/// Twelve hours, in milliseconds: an alarm due within them counts as active.
pub const ALARM_ACTIVE_MARGIN: i64 = 43_200_000;

/// Fifty minutes, in milliseconds: with the alarm due within them the user
/// wakes up soon.
pub const WAKING_UP_MARGIN: i64 = 3_000_000;

/// How often, a minute apart, the start of lucid sounds is tried in one round.
pub const LUCID_TRIES: u32 = 20;

/// An hour, in milliseconds: a round of tries begins at a time drawn evenly
/// within it.
pub const LUCID_PERIOD: i64 = 3_600_000;

/// What a flag that was published holds, and `false` where nothing was
/// published yet.
pub open spec fn flag(published: Option<bool>) -> bool {
    match published {
        Some(b) => b,
        None => false,
    }
}

/// What `should_start_lucid_sounds2` decides.
pub open spec fn lucid_sounds_due_at(
    alarm_state: &AlarmState,
    now: i64,
    sleeping_time: Option<Duration>,
    is_user_in_bed: Option<bool>,
    is_significant_movement_in_bed: Option<bool>,
    minimum_sleeping_time: Duration,
    require_movement: bool,
) -> bool {
    &&& require_movement ==> flag(is_significant_movement_in_bed)
    &&& lucid_sounds_due(
        flag(is_user_in_bed),
        alarm_state.due_within(now, ALARM_ACTIVE_MARGIN) is Some,
        alarm_state.due_within(now, WAKING_UP_MARGIN) is Some,
        sleeping_time,
        minimum_sleeping_time,
    )
}

fn published(flag_value: Option<bool>) -> (b: bool)
    ensures
        b == flag(flag_value),
{
    match flag_value {
        Some(b) => b,
        None => false,
    }
}

/// Whether lucid sounds start now, going by the alarm that is set, by what
/// the bed reports and by the time slept. The alarm has to be due within
/// twelve hours, but not within fifty minutes. With `require_movement` the
/// sleeper has to move markedly as well.
pub fn should_start_lucid_sounds2(
    alarm_state: &AlarmState,
    now: i64,
    sleeping_time: Option<Duration>,
    is_user_in_bed: Option<bool>,
    is_significant_movement_in_bed: Option<bool>,
    minimum_sleeping_time: Duration,
    require_movement: bool,
) -> (start: bool)
    ensures
        start == lucid_sounds_due_at(
            alarm_state,
            now,
            sleeping_time,
            is_user_in_bed,
            is_significant_movement_in_bed,
            minimum_sleeping_time,
            require_movement,
        ),
{
    let in_bed = published(is_user_in_bed);
    let is_significant_movement = published(is_significant_movement_in_bed);
    let alarm_is_active = alarm_state.should_start_alarm_soon(now, ALARM_ACTIVE_MARGIN).is_some();
    let user_is_waking_up_soon = alarm_state.should_start_alarm_soon(
        now,
        WAKING_UP_MARGIN,
    ).is_some();
    if require_movement && !is_significant_movement {
        return false;
    }
    should_start_lucid_sounds(
        in_bed,
        alarm_is_active,
        user_is_waking_up_soon,
        sleeping_time,
        minimum_sleeping_time,
    )
}

/// Whether the try number `attempt` of a round starts lucid sounds. Every
/// try but the last of a round asks for marked movement; a forced start
/// needs nothing.
pub fn lucid_attempt(
    alarm_state: &AlarmState,
    now: i64,
    sleeping_time: Option<Duration>,
    is_user_in_bed: Option<bool>,
    is_significant_movement_in_bed: Option<bool>,
    minimum_sleeping_time: Duration,
    attempt: u32,
    force_start: bool,
) -> (start: bool)
    ensures
        start == (force_start || lucid_sounds_due_at(
            alarm_state,
            now,
            sleeping_time,
            is_user_in_bed,
            is_significant_movement_in_bed,
            minimum_sleeping_time,
            attempt < LUCID_TRIES - 1,
        )),
{
    let should_start = should_start_lucid_sounds2(
        alarm_state,
        now,
        sleeping_time,
        is_user_in_bed,
        is_significant_movement_in_bed,
        minimum_sleeping_time,
        attempt < LUCID_TRIES - 1,
    );
    should_start || force_start
}

/// Since when the user has been asleep, after another look at the bed.
pub open spec fn asleep_since<T>(
    sleeping_start_time: Option<T>,
    now: T,
    alarm_is_active: bool,
    is_user_in_bed: bool,
    is_awake: bool,
) -> Option<T> {
    if alarm_is_active && is_user_in_bed && !is_awake {
        match sleeping_start_time {
            Some(since) => Some(since),
            None => Some(now),
        }
    } else if !alarm_is_active {
        None
    } else {
        sleeping_start_time
    }
}

/// Keeps track of when the user fell asleep. A user who lies still in bed
/// while an alarm is active is asleep, from the first look that finds them so.
/// Without an active alarm nothing is kept. `now` is the reading of the
/// clock at this look.
pub fn monitor_sleeping_duration<T>(
    alarm_state: &AlarmState,
    epoch_now: i64,
    sleeping_start_time: Option<T>,
    now: T,
    is_user_in_bed: Option<bool>,
    is_significant_movement_in_bed: Option<bool>,
) -> (since: Option<T>)
    ensures
        since == asleep_since(
            sleeping_start_time,
            now,
            alarm_state.due_within(epoch_now, ALARM_ACTIVE_MARGIN) is Some,
            flag(is_user_in_bed),
            flag(is_significant_movement_in_bed),
        ),
{
    let in_bed = published(is_user_in_bed);
    let is_awake = published(is_significant_movement_in_bed);
    let alarm_is_active = alarm_state.should_start_alarm_soon(
        epoch_now,
        ALARM_ACTIVE_MARGIN,
    ).is_some();
    if alarm_is_active && in_bed && !is_awake {
        match sleeping_start_time {
            Some(since) => Some(since),
            None => Some(now),
        }
    } else if !alarm_is_active {
        None
    } else {
        sleeping_start_time
    }
}

/// Lucid music is shorter than this, in milliseconds.
pub const LUCID_MUSIC_LIMIT: i64 = 150_000;

/// How long lucid music takes to fade in, in milliseconds.
pub const LUCID_FADEIN: i64 = 5_000;

/// How long lucid music takes to fade out, in milliseconds.
pub const LUCID_FADEOUT: i64 = 10_000;

/// How long lucid sound effects play at most, in milliseconds.
pub const LUCID_EFFECTS_DURATION: i64 = 500_000;

/// What is played to the sleeper.
#[derive(Debug, Clone, Copy, PartialEq, Eq, Structural)]
pub enum LucidSound {
    /// Music that fades in, plays for `duration` milliseconds in all, and
    /// fades out at its end; it is low-pass filtered.
    Music { duration: i64 },
    /// Sound effects at a constant volume, unfiltered.
    Effects,
}

impl LucidSound {
    /// Whether the sound goes through the low-pass filter: music does,
    /// sound effects do not.
    pub fn lowpass(&self) -> (filtered: bool)
        ensures
            filtered == (*self is Music),
    {
        match self {
            LucidSound::Music { .. } => true,
            LucidSound::Effects => false,
        }
    }

    /// The directory that holds the files of this kind of sound.
    pub fn directory(&self) -> (dir: &'static str)
        ensures
            dir@ == if *self is Music {
                "./sounds/lucid"@
            } else {
                "./sounds/lucid_sfx"@
            },
    {
        match self {
            LucidSound::Music { .. } => "./sounds/lucid",
            LucidSound::Effects => "./sounds/lucid_sfx",
        }
    }
}

/// Calls `Rng::gen_ratio` of `rand` on the thread's generator: `true` with a
/// chance of `numerator` in `denominator`.
#[verifier::external_body]
fn draw_ratio(numerator: u32, denominator: u32) -> (drawn: bool)
    requires
        denominator > 0,
        numerator <= denominator,
    ensures
        numerator == denominator ==> drawn,
        numerator == 0 ==> !drawn,
{
    rand::thread_rng().gen_ratio(numerator, denominator)
}

/// Calls `Rng::gen_range` of `rand` on the thread's generator, for the
/// range from 0 up to `limit`, which is left out.
#[verifier::external_body]
fn draw_below(limit: i64) -> (drawn: i64)
    requires
        limit > 0,
    ensures
        0 <= drawn < limit,
{
    rand::thread_rng().gen_range(0..limit)
}

/// The sound for a draw: music of the length drawn, or sound effects.
pub fn lucid_sound_for(music: bool, duration: i64) -> (sound: LucidSound)
    ensures
        sound == if music {
            LucidSound::Music { duration }
        } else {
            LucidSound::Effects
        },
{
    if music {
        LucidSound::Music { duration }
    } else {
        LucidSound::Effects
    }
}

/// Draws how long to wait before the next round of tries, in milliseconds:
/// evenly below `LUCID_PERIOD`.
pub fn draw_lucid_wait() -> (wait: i64)
    ensures
        0 <= wait < LUCID_PERIOD,
{
    draw_below(LUCID_PERIOD)
}

/// Draws what to play: music one time in five, of a length drawn evenly
/// below `LUCID_MUSIC_LIMIT`, and sound effects otherwise.
pub fn draw_lucid_sound() -> (sound: LucidSound)
    ensures
        sound matches LucidSound::Music { duration } ==> 0 <= duration < LUCID_MUSIC_LIMIT,
{
    if draw_ratio(1, 5) {
        lucid_sound_for(true, draw_below(LUCID_MUSIC_LIMIT))
    } else {
        lucid_sound_for(false, 0)
    }
}

/// A volume in percent as a gain in millionths, within the range of `i32`.
pub open spec fn percent_gain(volume_percent: i32) -> int {
    if volume_percent * 10_000 > i32::MAX {
        i32::MAX as int
    } else if volume_percent * 10_000 < i32::MIN {
        i32::MIN as int
    } else {
        volume_percent * 10_000
    }
}

/// The time `t`, counted from the start of the fade-out of music that plays
/// for `duration` in all.
pub open spec fn fadeout_time(t: i64, duration: i64) -> int {
    let since = t - (duration - LUCID_FADEOUT);
    if since > i64::MAX {
        i64::MAX as int
    } else if since < i64::MIN {
        i64::MIN as int
    } else {
        since
    }
}

/// The gain of a lucid sound `t` milliseconds into its playback, at a volume
/// given in percent: `None` once the sound is over. Music has its volume
/// times a fade-in at its beginning times a fade-out at its end; sound
/// effects have their volume throughout.
pub open spec fn lucid_gain(sound: LucidSound, volume_percent: i32, t: i64) -> Option<i32> {
    match sound {
        LucidSound::Music { duration } => if t < duration {
            Some(
                product(
                    product(percent_gain(volume_percent), fadein_of(t as int, LUCID_FADEIN as int)),
                    fadeout_of(fadeout_time(t, duration), LUCID_FADEOUT as int),
                ) as i32,
            )
        } else {
            None
        },
        LucidSound::Effects => if t < LUCID_EFFECTS_DURATION {
            Some(percent_gain(volume_percent) as i32)
        } else {
            None
        },
    }
}

fn gain_of_percent(volume_percent: i32) -> (gain: i32)
    ensures
        gain == percent_gain(volume_percent),
{
    let scaled: i64 = (volume_percent as i64) * 10_000;
    if scaled > i32::MAX as i64 {
        i32::MAX
    } else if scaled < i32::MIN as i64 {
        i32::MIN
    } else {
        scaled as i32
    }
}

/// The gain of a lucid sound `t` milliseconds into its playback, at a volume
/// given in percent, or `None` once the sound is over.
pub fn lucid_volume(sound: LucidSound, volume_percent: i32, t: i64) -> (gain: Option<i32>)
    ensures
        gain == lucid_gain(sound, volume_percent, t),
{
    let volume = gain_of_percent(volume_percent);
    match sound {
        LucidSound::Music { duration } => {
            if t < duration {
                let since: i128 = (t as i128) - ((duration as i128) - (LUCID_FADEOUT as i128));
                let fade_time: i64 = if since > i64::MAX as i128 {
                    i64::MAX
                } else if since < i64::MIN as i128 {
                    i64::MIN
                } else {
                    since as i64
                };
                Some(
                    times(
                        times(volume, fadein(t, LUCID_FADEIN)),
                        fadeout(fade_time, LUCID_FADEOUT),
                    ),
                )
            } else {
                None
            }
        },
        LucidSound::Effects => {
            if t < LUCID_EFFECTS_DURATION {
                Some(volume)
            } else {
                None
            }
        },
    }
}

} // verus!
