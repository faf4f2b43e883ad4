use std::time::Duration;

use wakeup_alarm::envelope::{fadein, fadeout};
use wakeup_alarm::fixed::times;
use wakeup_alarm::lucid::{
    draw_lucid_sound, lucid_attempt, lucid_sound_for, lucid_volume, monitor_sleeping_duration,
    should_start_lucid_sounds, should_start_lucid_sounds2, LucidSound, LUCID_MUSIC_LIMIT,
};
use wakeup_alarm::state::{AlarmState, InnerAlarmState, LastPlayed};

#[test]
fn test_should_start_lucid_sounds() {
    assert!(!should_start_lucid_sounds(
        false,
        false,
        false,
        None,
        Duration::from_secs(0)
    ));

    assert!(should_start_lucid_sounds(
        true,
        true,
        false,
        Some(Duration::from_secs(60 * 60 * 2)),
        Duration::from_secs(60 * 60)
    ));

    assert!(!should_start_lucid_sounds(
        true,
        true,
        false,
        Some(Duration::from_secs(60)),
        Duration::from_secs(60 * 60)
    ));

    assert!(!should_start_lucid_sounds(
        true,
        true,
        true,
        Some(Duration::from_secs(60 * 60 * 2)),
        Duration::from_secs(60 * 60)
    ));
}

#[test]
fn sleeping_time_has_to_exceed_the_minimum() {
    let hour = Duration::from_secs(60 * 60);
    assert!(!should_start_lucid_sounds(true, true, false, Some(hour), hour));
    assert!(should_start_lucid_sounds(
        true,
        true,
        false,
        Some(hour + Duration::from_nanos(1)),
        hour
    ));
    assert!(!should_start_lucid_sounds(true, false, false, Some(hour * 2), hour));
    assert!(!should_start_lucid_sounds(false, true, false, Some(hour * 2), hour));
    assert!(!should_start_lucid_sounds(true, true, false, None, Duration::ZERO));
    assert!(should_start_lucid_sounds(
        true,
        true,
        false,
        Some(Duration::MAX),
        Duration::new(u64::MAX, 999_999_998)
    ));
}

const SEVEN: i64 = 1_700_000_000_000;
const HOUR: i64 = 3_600_000;

fn alarm_at_seven() -> AlarmState {
    AlarmState {
        inner: InnerAlarmState { next_alarm: SEVEN, enabled: true },
        last_played: LastPlayed { last_played_time: None },
    }
}

fn slept(hours: u64) -> Option<Duration> {
    Some(Duration::from_secs(hours * 3_600))
}

#[test]
fn lucid_sounds_need_an_alarm_some_hours_away() {
    let alarm = alarm_at_seven();
    let minimum = Duration::from_secs(90 * 60);
    let in_bed = Some(true);
    let moving = Some(true);
    assert!(should_start_lucid_sounds2(&alarm, SEVEN - 4 * HOUR, slept(3), in_bed, moving, minimum, true));
    // more than twelve hours away: no alarm is active
    assert!(!should_start_lucid_sounds2(&alarm, SEVEN - 12 * HOUR - 1, slept(3), in_bed, moving, minimum, true));
    assert!(should_start_lucid_sounds2(&alarm, SEVEN - 12 * HOUR, slept(3), in_bed, moving, minimum, true));
    // fifty minutes or less away: the user wakes up soon
    assert!(!should_start_lucid_sounds2(&alarm, SEVEN - 3_000_000, slept(3), in_bed, moving, minimum, true));
    assert!(should_start_lucid_sounds2(&alarm, SEVEN - 3_000_001, slept(3), in_bed, moving, minimum, true));
    // not in bed, or nothing known of the bed
    assert!(!should_start_lucid_sounds2(&alarm, SEVEN - 4 * HOUR, slept(3), Some(false), moving, minimum, true));
    assert!(!should_start_lucid_sounds2(&alarm, SEVEN - 4 * HOUR, slept(3), None, moving, minimum, true));
    // too little sleep
    assert!(!should_start_lucid_sounds2(&alarm, SEVEN - 4 * HOUR, slept(1), in_bed, moving, minimum, true));
    assert!(!should_start_lucid_sounds2(&alarm, SEVEN - 4 * HOUR, None, in_bed, moving, minimum, true));
}

#[test]
fn movement_is_asked_for_only_where_it_is_required() {
    let alarm = alarm_at_seven();
    let minimum = Duration::from_secs(90 * 60);
    let now = SEVEN - 4 * HOUR;
    assert!(!should_start_lucid_sounds2(&alarm, now, slept(3), Some(true), Some(false), minimum, true));
    assert!(!should_start_lucid_sounds2(&alarm, now, slept(3), Some(true), None, minimum, true));
    assert!(should_start_lucid_sounds2(&alarm, now, slept(3), Some(true), Some(false), minimum, false));
    assert!(should_start_lucid_sounds2(&alarm, now, slept(3), Some(true), None, minimum, false));
}

#[test]
fn the_last_try_of_a_round_does_without_movement() {
    let alarm = alarm_at_seven();
    let minimum = Duration::from_secs(90 * 60);
    let now = SEVEN - 4 * HOUR;
    for attempt in 0..19 {
        assert!(!lucid_attempt(&alarm, now, slept(3), Some(true), Some(false), minimum, attempt, false));
        assert!(lucid_attempt(&alarm, now, slept(3), Some(true), Some(true), minimum, attempt, false));
        assert!(lucid_attempt(&alarm, now, slept(3), Some(true), Some(false), minimum, attempt, true));
    }
    assert!(lucid_attempt(&alarm, now, slept(3), Some(true), Some(false), minimum, 19, false));
    assert!(!lucid_attempt(&alarm, now, slept(1), Some(true), Some(false), minimum, 19, false));
    assert!(lucid_attempt(&alarm, now, slept(1), Some(false), None, minimum, 19, true));
}

#[test]
fn sleep_begins_at_the_first_still_look() {
    let alarm = alarm_at_seven();
    let now = SEVEN - 4 * HOUR;
    assert_eq!(monitor_sleeping_duration(&alarm, now, None, 17, Some(true), Some(false)), Some(17));
    assert_eq!(monitor_sleeping_duration(&alarm, now, Some(5), 17, Some(true), Some(false)), Some(5));
    assert_eq!(monitor_sleeping_duration(&alarm, now, None, 17, Some(true), None), Some(17));
    // awake or out of bed: what is known stays
    assert_eq!(monitor_sleeping_duration(&alarm, now, Some(5), 17, Some(true), Some(true)), Some(5));
    assert_eq!(monitor_sleeping_duration(&alarm, now, None, 17, Some(true), Some(true)), None);
    assert_eq!(monitor_sleeping_duration(&alarm, now, Some(5), 17, Some(false), Some(false)), Some(5));
    assert_eq!(monitor_sleeping_duration(&alarm, now, Some(5), 17, None, Some(false)), Some(5));
    // no active alarm: nothing is kept
    let far = SEVEN - 13 * HOUR;
    assert_eq!(monitor_sleeping_duration(&alarm, far, Some(5), 17, Some(true), Some(false)), None);
    assert_eq!(monitor_sleeping_duration(&alarm, far, Some(5), 17, Some(false), Some(true)), None);
}

#[test]
fn a_draw_gives_music_or_effects() {
    assert_eq!(lucid_sound_for(true, 90_000), LucidSound::Music { duration: 90_000 });
    assert_eq!(lucid_sound_for(false, 90_000), LucidSound::Effects);
    let mut music = 0;
    let mut effects = 0;
    let mut longest = 0;
    let mut shortest = i64::MAX;
    for _ in 0..2_000 {
        match draw_lucid_sound() {
            LucidSound::Music { duration } => {
                assert!(0 <= duration && duration < LUCID_MUSIC_LIMIT);
                longest = longest.max(duration);
                shortest = shortest.min(duration);
                music += 1;
            }
            LucidSound::Effects => effects += 1,
        }
    }
    assert!(music > 200 && music < 700);
    assert_eq!(music + effects, 2_000);
    assert!(longest > shortest);
}

#[test]
fn lucid_music_fades_in_and_out() {
    let music = LucidSound::Music { duration: 100_000 };
    assert_eq!(lucid_volume(music, 50, 0), Some(0));
    assert_eq!(lucid_volume(music, 50, 2_500), Some(250_000));
    assert_eq!(lucid_volume(music, 50, 5_000), Some(500_000));
    assert_eq!(lucid_volume(music, 50, 60_000), Some(500_000));
    assert_eq!(lucid_volume(music, 50, 90_000), Some(500_000));
    assert_eq!(lucid_volume(music, 50, 95_000), Some(250_000));
    assert_eq!(lucid_volume(music, 50, 99_999), Some(0));
    assert_eq!(lucid_volume(music, 50, 100_000), None);
    assert_eq!(lucid_volume(music, 50, i64::MAX), None);
    assert_eq!(
        lucid_volume(music, 80, 93_000),
        Some(times(times(800_000, fadein(93_000, 5_000)), fadeout(3_000, 10_000)))
    );
    // shorter than its fades
    let short = LucidSound::Music { duration: 8_000 };
    assert_eq!(
        lucid_volume(short, 100, 3_000),
        Some(times(fadein(3_000, 5_000), fadeout(5_000, 10_000)))
    );
    assert_eq!(lucid_volume(short, 100, 8_000), None);
    assert_eq!(lucid_volume(LucidSound::Music { duration: 0 }, 100, 0), None);
    assert_eq!(lucid_volume(LucidSound::Music { duration: i64::MIN }, 100, -5), None);
    assert_eq!(lucid_volume(LucidSound::Music { duration: i64::MAX }, 100, i64::MIN), Some(0));
}

#[test]
fn lucid_effects_keep_their_volume() {
    assert_eq!(lucid_volume(LucidSound::Effects, 30, 0), Some(300_000));
    assert_eq!(lucid_volume(LucidSound::Effects, 30, 499_999), Some(300_000));
    assert_eq!(lucid_volume(LucidSound::Effects, 30, 500_000), None);
    assert_eq!(lucid_volume(LucidSound::Effects, 0, 10), Some(0));
    assert_eq!(lucid_volume(LucidSound::Effects, -20, 10), Some(-200_000));
    assert_eq!(lucid_volume(LucidSound::Effects, i32::MAX, 10), Some(i32::MAX));
    assert_eq!(lucid_volume(LucidSound::Effects, i32::MIN, 10), Some(i32::MIN));
}

#[test]
fn each_kind_of_sound_has_its_directory_and_filter() {
    let music = LucidSound::Music { duration: 1 };
    assert_eq!(music.directory(), "./sounds/lucid");
    assert!(music.lowpass());
    assert_eq!(LucidSound::Effects.directory(), "./sounds/lucid_sfx");
    assert!(!LucidSound::Effects.lowpass());
}

#[test]
fn the_wait_before_a_round_is_less_than_an_hour() {
    let mut shortest = i64::MAX;
    let mut longest = 0;
    for _ in 0..500 {
        let wait = wakeup_alarm::lucid::draw_lucid_wait();
        assert!(0 <= wait && wait < 3_600_000);
        shortest = shortest.min(wait);
        longest = longest.max(wait);
    }
    assert!(longest - shortest > 1_000_000);
}
