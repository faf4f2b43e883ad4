use std::sync::{Arc, Mutex};

use wakeup_alarm::alarm::{audio_ran_out, play_step, Outcome, PlaybackController, Tick};
use wakeup_alarm::cutoff::playback_cutoff;
use wakeup_alarm::filtered_source::{dynamic_filter, FilteredSource, KernelRequest, Pull, Settings};
use wakeup_alarm::fixed::ONE;

/// A filter over samples in memory, driven the way an audio output drives it.
struct Stream {
    input: std::vec::IntoIter<i32>,
    filter: FilteredSource,
    settings: Arc<Mutex<Settings>>,
    lowpass: bool,
    requests: Vec<KernelRequest>,
}

impl Stream {
    fn new(samples: Vec<i32>, lowpass: bool) -> (Stream, Arc<Mutex<Settings>>) {
        let (filter, settings) = dynamic_filter(1, 8_000).unwrap();
        let settings = Arc::new(Mutex::new(settings));
        let stream = Stream {
            input: samples.into_iter(),
            filter,
            settings: settings.clone(),
            lowpass,
            requests: vec![],
        };
        (stream, settings)
    }
}

impl Iterator for Stream {
    type Item = i32;

    fn next(&mut self) -> Option<i32> {
        loop {
            let settings = self.settings.lock().unwrap().snapshot();
            match self.filter.next(&settings) {
                Pull::Sample(sample) => return Some(sample),
                Pull::NeedKernel { elapsed_ms } => {
                    let hz = playback_cutoff(self.lowpass, elapsed_ms);
                    let request = self.filter.design_parameters(hz).unwrap();
                    self.requests.push(request);
                    // a kernel that lets everything pass, delayed by one sample
                    let taps = vec![0, ONE];
                    let mut shared = self.settings.lock().unwrap();
                    self.filter.install_kernel(&mut shared, taps).unwrap();
                }
                Pull::NeedFrame { len } => {
                    let frame: Vec<i32> = self.input.by_ref().take(len).collect();
                    self.filter.refill(&settings, &frame).unwrap();
                }
            }
        }
    }
}

#[test]
fn a_session_plays_ramps_up_fades_and_falls_silent() {
    // one second of full-scale signal is eight thousand samples; forty a tick of 5 ms
    let (mut stream, settings) = Stream::new(vec![ONE; 200_000], true);
    let mut session = PlaybackController::new(20_000, 2_000);
    let total_duration = Some(25_000);
    let mut t = 0;
    let mut heard = Vec::new();
    let mut ticks = 0;
    loop {
        let volume = if audio_ran_out(t, total_duration) {
            None
        } else {
            session.sample_pulled();
            session.tick(t, true)
        };
        match play_step(&mut settings.lock().unwrap(), t, total_duration, volume) {
            Tick::Continue => {}
            Tick::Stop => break,
        }
        for _ in 0..40 {
            heard.push((t, stream.next().unwrap()));
        }
        t += 5;
        ticks += 1;
    }
    assert_eq!(t, 22_000);
    assert_eq!(ticks, 4_400);
    assert_eq!(session.outcome(), Outcome::Completed);
    assert_eq!(settings.lock().unwrap().volume(), 0);
    assert!(heard.iter().all(|(_, s)| 0 <= *s && *s <= ONE));
    // the gain is read once a block of 1022 samples, so what is heard lags by up to 130 ms
    let at = |ms: i64| heard.iter().filter(|(t, _)| *t == ms).map(|(_, s)| *s).max().unwrap();
    assert!(at(1_000) > 5_000 && at(1_000) <= 7_000);
    assert!(at(10_000) > 130_000 && at(10_000) <= 135_000);
    assert!(at(19_990) > 330_000 && at(19_990) <= 334_800);
    assert!(at(21_000) < 335_000 * 6 / 10 && at(21_000) > 100_000);
    assert!(at(21_995) < 30_000);
    // after the end the stream goes on, silent
    for _ in 0..3_000 {
        stream.next();
    }
    assert!((0..2_000).all(|_| stream.next() == Some(0)));
    // the cut-off frequency was asked for at the start and from then on about once a second
    assert_eq!(stream.requests[0], KernelRequest { cutoff_hz: 800, sample_rate: 8_000 });
    assert!(stream.requests.len() > 15);
    assert!(stream.requests.windows(2).all(|w| w[0].cutoff_hz <= w[1].cutoff_hz));
    assert_eq!(stream.requests.len(), 20);
    assert_eq!(stream.requests.last().unwrap().cutoff_hz, 1_282);
}

#[test]
fn an_unfiltered_stream_asks_for_half_the_sample_rate() {
    let (mut stream, _settings) = Stream::new(vec![ONE, 500_000, -ONE], false);
    assert_eq!(stream.next(), Some(500_000));
    assert_eq!(stream.next(), Some(-ONE));
    assert_eq!(stream.next(), Some(0));
    assert_eq!(stream.requests, vec![KernelRequest { cutoff_hz: 4_000, sample_rate: 8_000 }]);
}

#[test]
fn audio_runs_out_after_its_length() {
    assert!(!audio_ran_out(5_000, Some(5_000)));
    assert!(audio_ran_out(5_001, Some(5_000)));
    assert!(!audio_ran_out(i64::MAX, None));
    assert!(audio_ran_out(0, Some(-1)));
}
