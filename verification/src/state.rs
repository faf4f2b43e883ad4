//! The alarm that is set, when it was last played, and what follows from the
//! two: whether the alarm is due, and how it is armed again for a sleeper who
//! stayed in bed. Times are milliseconds since the epoch.

use vstd::prelude::*;

verus! {

/// The alarm as the user has set it.
#[derive(Debug, Clone, Copy, PartialEq, Eq, Structural)]
pub struct InnerAlarmState {
    /// When the alarm is to sound.
    pub next_alarm: i64,
    /// Whether the alarm is switched on.
    pub enabled: bool,
}

/// The trigger time of the alarm that was played last, if any was.
#[derive(Debug, Clone, Copy, PartialEq, Eq, Structural)]
pub struct LastPlayed {
    pub last_played_time: Option<i64>,
}

impl LastPlayed {
    /// Whether an alarm set for `time` has not been played yet: nothing was
    /// played, or what was played last was set for an earlier time.
    pub open spec fn before(&self, time: i64) -> bool {
        match self.last_played_time {
            Some(played) => time > played,
            None => true,
        }
    }

    /// Whether an alarm set for `time` has not been played yet.
    pub fn is_before(&self, time: i64) -> (unplayed: bool)
        ensures
            unplayed == self.before(time),
    {
        match self.last_played_time {
            Some(played) => time > played,
            None => true,
        }
    }
}

impl InnerAlarmState {
    /// Whether `time` is the time of an alarm that is switched on and has not
    /// been played yet.
    pub open spec fn trigger_time(&self, time: i64, last_played: &LastPlayed) -> bool {
        self.enabled && self.next_alarm == time && last_played.before(time)
    }

    /// Whether `time` is the time of an alarm that is switched on and has not
    /// been played yet.
    pub fn is_trigger_time(&self, time: i64, last_played: &LastPlayed) -> (due: bool)
        ensures
            due == self.trigger_time(time, last_played),
    {
        self.enabled && self.next_alarm == time && last_played.is_before(time)
    }
}

/// The earlier of a time that may be missing and `time`: a missing time
/// counts as earlier than any other.
pub open spec fn earlier_of(known: Option<i64>, time: i64) -> Option<i64> {
    match known {
        Some(k) => if k <= time {
            Some(k)
        } else {
            Some(time)
        },
        None => None,
    }
}

/// The time one second before `now`, or the earliest time there is.
pub open spec fn a_second_before(now: i64) -> i64 {
    if now - 1000 < i64::MIN {
        i64::MIN
    } else {
        (now - 1000) as i64
    }
}

/// The alarm that is set together with what was played last.
#[derive(Debug, Clone, Copy, PartialEq, Eq, Structural)]
pub struct AlarmState {
    pub inner: InnerAlarmState,
    pub last_played: LastPlayed,
}

impl AlarmState {
    /// The time of the alarm, where the alarm is switched on, has not been
    /// played yet, and is due at most `margin` after `now`.
    pub open spec fn due_within(&self, now: i64, margin: i64) -> Option<i64> {
        if self.inner.enabled && now + margin >= self.inner.next_alarm && self.last_played.before(
            self.inner.next_alarm,
        ) {
            Some(self.inner.next_alarm)
        } else {
            None
        }
    }

    /// The time for which an alarm session starts now: that of an alarm that
    /// is due, or of one that is due within half an hour while the sleeper
    /// moves markedly.
    pub open spec fn session_due(&self, now: i64, significant_movement: bool) -> Option<i64> {
        if significant_movement && self.due_within(now, HALF_AN_HOUR) is Some {
            self.due_within(now, HALF_AN_HOUR)
        } else {
            self.due_within(now, 0)
        }
    }

    /// Whether the alarm shows as switched on: it is, and has not been played yet.
    pub open spec fn shown_enabled(&self) -> bool {
        self.inner.enabled && self.last_played.before(self.inner.next_alarm)
    }

    /// The time of the alarm, if it is due now.
    pub fn should_start_alarm(&self, now: i64) -> (trigger: Option<i64>)
        ensures
            trigger == self.due_within(now, 0),
            trigger matches Some(time) ==> self.inner.trigger_time(time, &self.last_played),
    {
        self.should_start_alarm_soon(now, 0)
    }

    /// The time of the alarm, if it is due at most `margin` milliseconds
    /// from now. A time that is given is a trigger time.
    pub fn should_start_alarm_soon(&self, now: i64, margin: i64) -> (trigger: Option<i64>)
        ensures
            trigger == self.due_within(now, margin),
            trigger matches Some(time) ==> self.inner.trigger_time(time, &self.last_played),
    {
        if self.inner.enabled && (now as i128) + (margin as i128) >= self.inner.next_alarm as i128
            && self.last_played.is_before(self.inner.next_alarm) {
            Some(self.inner.next_alarm)
        } else {
            None
        }
    }

    /// Whether `time` is the time of the alarm that is set, switched on and
    /// not played yet. An alarm session goes on as long as this holds of the
    /// time that it was started for.
    pub fn is_trigger_time(&self, time: i64) -> (due: bool)
        ensures
            due == self.inner.trigger_time(time, &self.last_played),
    {
        self.inner.is_trigger_time(time, &self.last_played)
    }

    /// Notes that the alarm set for `time` was played.
    pub fn on_alarm_finished(&mut self, time: i64)
        ensures
            final(self).inner == old(self).inner,
            final(self).last_played.last_played_time == Some(time),
            !final(self).inner.trigger_time(time, &final(self).last_played),
    {
        self.last_played.last_played_time = Some(time);
    }

    /// The time for which an alarm session starts now, if one does. An alarm
    /// that is due starts one. So does an alarm that is due within half an
    /// hour while the sleeper moves markedly.
    pub fn alarm_due(&self, now: i64, significant_movement: bool) -> (trigger: Option<i64>)
        ensures
            trigger == self.session_due(now, significant_movement),
            trigger matches Some(time) ==> self.inner.trigger_time(time, &self.last_played),
    {
        let mut trigger = self.should_start_alarm(now);
        if significant_movement {
            match self.should_start_alarm_soon(now, HALF_AN_HOUR) {
                Some(time) => {
                    trigger = Some(time);
                },
                None => {},
            }
        }
        trigger
    }

    /// Arms the alarm again for a sleeper who is still in bed some time
    /// after it was played. Where the alarm is still switched on and still
    /// set for `trigger_time`, and the sleeper is present, the alarm is set
    /// for `now`, and what was played last is moved back to a second before
    /// `now` at the latest, so that the new alarm counts as not played.
    /// Otherwise nothing changes.
    pub fn snooze(&mut self, trigger_time: i64, is_present: bool, now: i64) -> (rearmed: bool)
        ensures
            rearmed == (old(self).inner.enabled && old(self).inner.next_alarm == trigger_time
                && is_present),
            rearmed ==> final(self).inner == (InnerAlarmState { next_alarm: now, enabled: true }),
            rearmed ==> final(self).last_played.last_played_time == earlier_of(
                old(self).last_played.last_played_time,
                a_second_before(now),
            ),
            rearmed && now > i64::MIN ==> final(self).inner.trigger_time(
                now,
                &final(self).last_played,
            ),
            !rearmed ==> *final(self) == *old(self),
    {
        if self.inner.enabled && self.inner.next_alarm == trigger_time && is_present {
            let before: i64 = if now < i64::MIN + 1000 {
                i64::MIN
            } else {
                now - 1000
            };
            self.last_played.last_played_time = match self.last_played.last_played_time {
                Some(played) => if played <= before {
                    Some(played)
                } else {
                    Some(before)
                },
                None => None,
            };
            self.inner.enabled = true;
            self.inner.next_alarm = now;
            true
        } else {
            false
        }
    }

    /// Sets the alarm, and says whether that changed anything.
    pub fn store(&mut self, new_state: InnerAlarmState) -> (changed: bool)
        ensures
            final(self).inner == new_state,
            final(self).last_played == old(self).last_played,
            changed == (old(self).inner != new_state),
    {
        let changed = self.inner.next_alarm != new_state.next_alarm || self.inner.enabled
            != new_state.enabled;
        self.inner = new_state;
        changed
    }

    /// Whether the alarm shows as switched on: it is, and has not been played yet.
    pub fn is_shown_enabled(&self) -> (shown: bool)
        ensures
            shown == self.shown_enabled(),
    {
        self.inner.enabled && self.last_played.is_before(self.inner.next_alarm)
    }
}

/// Half an hour, in milliseconds.
pub const HALF_AN_HOUR: i64 = 1_800_000;

/// How long after an alarm it is looked at whether the sleeper is still in
/// bed: a quarter of an hour, in milliseconds.
pub const SNOOZE_DELAY: u64 = 900_000;

} // verus!
