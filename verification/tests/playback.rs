use wakeup_alarm::alarm::{play_step, Outcome, PlaybackController, PlaybackState, Tick};
use wakeup_alarm::envelope::{fadein_slow, fadeout};
use wakeup_alarm::filtered_source::Settings;
use wakeup_alarm::fixed::{times, ONE};

#[test]
fn timeout_fades_out_and_stops_before_a_late_cancellation() {
    let mut session = PlaybackController::new(300_000, 5_000);
    assert_eq!(session.state(), PlaybackState::Starting);
    session.sample_pulled();
    assert_eq!(session.state(), PlaybackState::Running);

    let mut entered_fade_at = None;
    let mut stopped_at = None;
    let mut t = 0;
    while t <= 320_000 {
        let still_due = t < 310_000;
        let before = session.state();
        let gain = session.tick(t, still_due);
        let after = session.state();
        if before != PlaybackState::FadingOut && after == PlaybackState::FadingOut {
            assert_eq!(entered_fade_at, None);
            entered_fade_at = Some(t);
        }
        if before != PlaybackState::Stopped && after == PlaybackState::Stopped {
            stopped_at = Some(t);
        }
        if t < 300_000 {
            assert_eq!(after, PlaybackState::Running);
            assert_eq!(gain, Some(fadein_slow(t)));
            assert_eq!(session.fadeout_start_time(), None);
        } else if t < 305_000 {
            assert_eq!(after, PlaybackState::FadingOut);
            assert_eq!(session.fadeout_start_time(), Some(300_000));
            assert_eq!(gain, Some(times(ONE, fadeout(t - 300_000, 5_000))));
        } else {
            assert_eq!(after, PlaybackState::Stopped);
            assert_eq!(gain, None);
            assert_eq!(session.fadeout_start_time(), Some(300_000));
        }
        t += 40;
    }
    assert_eq!(entered_fade_at, Some(300_000));
    assert_eq!(stopped_at, Some(305_000));
    assert_eq!(session.outcome(), Outcome::Completed);
}

#[test]
fn cancellation_fades_out_from_the_tick_that_sees_it() {
    let mut session = PlaybackController::new(300_000, 5_000);
    session.sample_pulled();
    assert_eq!(session.tick(20_000, true), Some(335_000));
    assert_eq!(session.outcome(), Outcome::Completed);
    assert_eq!(session.tick(20_040, false), Some(335_800));
    assert_eq!(session.state(), PlaybackState::FadingOut);
    assert_eq!(session.fadeout_start_time(), Some(20_040));
    assert_eq!(session.outcome(), Outcome::Cancelled);
    assert_eq!(session.tick(22_540, true), Some(times(385_800, 500_000)));
    assert_eq!(session.fadeout_start_time(), Some(20_040));
    assert_eq!(session.tick(25_039, false), Some(0));
    assert_eq!(session.state(), PlaybackState::FadingOut);
    assert_eq!(session.tick(25_040, true), None);
    assert_eq!(session.state(), PlaybackState::Stopped);
    assert_eq!(session.tick(25_080, true), None);
    assert_eq!(session.tick(400_000, false), None);
    assert_eq!(session.state(), PlaybackState::Stopped);
    assert_eq!(session.fadeout_start_time(), Some(20_040));
    assert_eq!(session.outcome(), Outcome::Cancelled);
}

#[test]
fn a_session_may_fade_before_its_first_sample() {
    let mut session = PlaybackController::new(1_000, 200);
    assert_eq!(session.tick(0, true), Some(0));
    assert_eq!(session.state(), PlaybackState::Starting);
    assert_eq!(session.tick(40, false), Some(280));
    assert_eq!(session.state(), PlaybackState::FadingOut);
    session.sample_pulled();
    assert_eq!(session.state(), PlaybackState::FadingOut);
    assert_eq!(session.tick(240, true), None);
    session.sample_pulled();
    assert_eq!(session.state(), PlaybackState::Stopped);
}

#[test]
fn a_fade_without_length_stops_at_once() {
    let mut session = PlaybackController::new(100, 0);
    assert_eq!(session.tick(99, true), Some(693));
    assert_eq!(session.tick(100, true), None);
    assert_eq!(session.state(), PlaybackState::Stopped);
    assert_eq!(session.fadeout_start_time(), Some(100));
    assert_eq!(session.outcome(), Outcome::Completed);
}

#[test]
fn a_clock_that_steps_back_does_not_restart_the_fade() {
    let mut session = PlaybackController::new(1_000, 400);
    assert_eq!(session.tick(1_000, true), Some(7_000));
    assert_eq!(session.tick(900, true), Some(6_300));
    assert_eq!(session.fadeout_start_time(), Some(1_000));
    assert_eq!(session.tick(1_200, true), Some(times(8_400, 500_000)));
    assert_eq!(session.tick(1_400, true), None);
}

#[test]
fn play_step_stores_the_gain_and_silences_at_the_end() {
    let mut settings = Settings::new();
    assert_eq!(play_step(&mut settings, 40, None, Some(250_000)), Tick::Continue);
    assert_eq!(settings.volume(), 250_000);
    assert_eq!(play_step(&mut settings, 80, Some(80), Some(3 * ONE)), Tick::Continue);
    assert_eq!(settings.volume(), 3 * ONE);
    assert_eq!(play_step(&mut settings, 81, Some(80), Some(500_000)), Tick::Stop);
    assert_eq!(settings.volume(), 0);
    settings.set_volume(700_000);
    assert_eq!(play_step(&mut settings, 10, Some(80), None), Tick::Stop);
    assert_eq!(settings.volume(), 0);
    settings.set_volume(700_000);
    assert_eq!(play_step(&mut settings, 10, None, None), Tick::Stop);
    assert_eq!(settings.volume(), 0);
}

#[test]
fn play_step_leaves_the_kernel_alone() {
    let mut settings = Settings::new();
    assert_eq!(settings.set_lowpass(vec![1, 2, 3, 4]), Ok(()));
    assert_eq!(play_step(&mut settings, 0, None, Some(5)), Tick::Continue);
    assert_eq!(play_step(&mut settings, 0, None, None), Tick::Stop);
    assert_eq!(settings.lowpass(), &vec![1, 2, 3, 4]);
}
