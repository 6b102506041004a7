//! A rolling window of recent frame times and the statistics over it.
use std::collections::VecDeque;
use std::time::{Duration, Instant};

use vstd::prelude::*;

use crate::text::{decimal, push_decimal, push_str, string_from_chars};

verus! {

/// `std::time::Instant`, a reading of the monotonic clock, carried as an opaque value.
#[verifier::external_type_specification]
#[verifier::external_body]
pub struct ExInstant(Instant);

/// The longest span a `Duration` can hold, in nanoseconds:
/// `u64::MAX` seconds and 999 999 999 nanoseconds.
pub const DURATION_MAX_NANOS: u128 = 18_446_744_073_709_551_615_999_999_999u128;

/// Nanoseconds in a millisecond.
pub const NANOS_PER_MILLI: u128 = 1_000_000u128;

/// `Instant::now`: a reading of the monotonic clock. Nothing is stated of it.
#[verifier::external_body]
fn clock_now() -> Instant {
    Instant::now()
}

/// The time from the clock reading `earlier` to the reading `later` (zero when `earlier`
/// is the later one): a function of the two readings alone.
pub uninterp spec fn span(later: Instant, earlier: Instant) -> Duration;

/// The number of nanoseconds in a `Duration`: a function of the duration alone.
pub uninterp spec fn duration_nanos(d: Duration) -> nat;

/// `Instant::saturating_duration_since`: the time from `earlier` to `later`, or zero when
/// `earlier` is the later one. The result is stated as `span(later, earlier)`; the readings
/// themselves come from the clock.
#[verifier::external_body]
fn time_between(later: Instant, earlier: Instant) -> (d: Duration)
    ensures
        d == span(later, earlier),
{
    later.saturating_duration_since(earlier)
}

/// `Duration::as_nanos`: the whole span in nanoseconds, stated as `duration_nanos(d)`.
/// Since the seconds of a `Duration` are a `u64` and its sub-second part is below one
/// billion nanoseconds, the result is at most `DURATION_MAX_NANOS`.
#[verifier::external_body]
fn duration_as_nanos(d: Duration) -> (n: u128)
    ensures
        n == duration_nanos(d),
        n <= DURATION_MAX_NANOS,
{
    d.as_nanos()
}

/// Sum of the frame times in `s`.
pub open spec fn seq_total(s: Seq<u128>) -> int
    decreases s.len(),
{
    if s.len() == 0 {
        0
    } else {
        seq_total(s.drop_last()) + s.last()
    }
}

/// Smallest frame time in a non-empty `s`.
pub open spec fn seq_min(s: Seq<u128>) -> int
    decreases s.len(),
{
    if s.len() <= 1 {
        s[0] as int
    } else if s.last() < seq_min(s.drop_last()) {
        s.last() as int
    } else {
        seq_min(s.drop_last())
    }
}

/// Largest frame time in a non-empty `s`.
pub open spec fn seq_max(s: Seq<u128>) -> int
    decreases s.len(),
{
    if s.len() <= 1 {
        s[0] as int
    } else if s.last() > seq_max(s.drop_last()) {
        s.last() as int
    } else {
        seq_max(s.drop_last())
    }
}

/// The window after a frame of `frame` nanoseconds is recorded into `window` with room for
/// `capacity` frames: the oldest frames are dropped until there is room, and the new frame
/// goes in front (newest first).
pub open spec fn window_after(window: Seq<u128>, capacity: nat, frame: u128) -> Seq<u128> {
    let kept = if window.len() < capacity { window.len() as int } else { capacity - 1 };
    seq![frame] + window.take(kept)
}

/// Statistics over a window of frame times (in nanoseconds): how many, their sum, the
/// shortest and the longest.
pub struct FrameStats {
    samples: usize,
    total_frame_time: u128,
    min_frame_time: u128,
    max_frame_time: u128,
}

impl FrameStats {
    #[verifier::type_invariant]
    spec fn well_formed(self) -> bool {
        &&& self.samples >= 1
        &&& self.min_frame_time <= self.max_frame_time
    }

    /// Number of frames the statistics cover.
    pub closed spec fn sample_count(&self) -> nat {
        self.samples as nat
    }

    /// Sum of the frame times, in nanoseconds.
    pub closed spec fn total(&self) -> int {
        self.total_frame_time as int
    }

    /// Shortest frame time, in nanoseconds.
    pub closed spec fn shortest(&self) -> int {
        self.min_frame_time as int
    }

    /// Longest frame time, in nanoseconds.
    pub closed spec fn longest(&self) -> int {
        self.max_frame_time as int
    }

    /// Number of frames the statistics cover.
    pub fn samples(&self) -> (n: usize)
        ensures
            n == self.sample_count(),
            n >= 1,
    {
        proof {
            use_type_invariant(self);
        }
        self.samples
    }

    /// Sum of the frame times, in nanoseconds.
    pub fn total_nanos(&self) -> (t: u128)
        ensures
            t == self.total(),
    {
        self.total_frame_time
    }

    /// Shortest frame time, in nanoseconds.
    pub fn min_nanos(&self) -> (t: u128)
        ensures
            t == self.shortest(),
    {
        self.min_frame_time
    }

    /// Longest frame time, in nanoseconds.
    pub fn max_nanos(&self) -> (t: u128)
        ensures
            t == self.longest(),
    {
        self.max_frame_time
    }

    /// Statistics of a window that holds exactly `s`.
    pub open spec fn describes(&self, s: Seq<u128>) -> bool {
        &&& s.len() >= 1
        &&& self.sample_count() == s.len()
        &&& self.total() == seq_total(s)
        &&& self.shortest() == seq_min(s)
        &&& self.longest() == seq_max(s)
    }

    /// Statistics of a single frame of `nanos` nanoseconds.
    pub fn from_frame(nanos: u128) -> (stats: FrameStats)
        ensures
            stats.describes(seq![nanos]),
    {
        assert(seq![nanos].drop_last() =~= Seq::<u128>::empty());
        assert(seq_total(Seq::<u128>::empty()) == 0);
        FrameStats {
            samples: 1,
            total_frame_time: nanos,
            min_frame_time: nanos,
            max_frame_time: nanos,
        }
    }

    /// The report line `Frame time: {avg}ms (min: {min}ms, max: {max}ms)`, where each figure
    /// is in whole milliseconds (rounded down) and the average is the total in whole
    /// milliseconds divided by the number of frames, rounded down.
    pub fn to_string(&self) -> (text: String)
        ensures
            text@ == "Frame time: "@ + decimal(
                ((self.total() / NANOS_PER_MILLI as int) / self.sample_count() as int) as nat,
            ) + "ms (min: "@ + decimal((self.shortest() / NANOS_PER_MILLI as int) as nat)
                + "ms, max: "@ + decimal((self.longest() / NANOS_PER_MILLI as int) as nat) + "ms)"@,
    {
        proof {
            use_type_invariant(self);
        }
        let mut out: Vec<char> = Vec::new();
        push_str(&mut out, "Frame time: ");
        push_decimal(&mut out, (self.total_frame_time / NANOS_PER_MILLI) / (self.samples as u128));
        push_str(&mut out, "ms (min: ");
        push_decimal(&mut out, self.min_frame_time / NANOS_PER_MILLI);
        push_str(&mut out, "ms, max: ");
        push_decimal(&mut out, self.max_frame_time / NANOS_PER_MILLI);
        push_str(&mut out, "ms)");
        string_from_chars(&out)
    }
}

/// The time between two marks is the later mark minus the earlier one, zero for two marks
/// at the same reading, and never more than the later mark.
pub proof fn lemma_time_from_mark(earlier: u128, later: u128)
    ensures
        later >= earlier ==> time_from_mark(earlier, later) + earlier == later,
        later < earlier ==> time_from_mark(earlier, later) == 0,
        time_from_mark(later, later) == 0,
        time_from_mark(earlier, later) <= later,
{
}

/// Keeps the most recent frame times, newest first, up to a fixed number of frames.
pub struct FrameTimer {
    buffer_size: usize,
    frames: VecDeque<u128>,
    epoch: Instant,
    last_mark: u128,
    recorded: Ghost<Seq<u128>>,
}

/// The time from a mark at `earlier` to one at `later`, both in nanoseconds since the same
/// reading, or zero if `later` is not after `earlier`.
pub open spec fn time_from_mark(earlier: u128, later: u128) -> u128 {
    if later >= earlier {
        (later - earlier) as u128
    } else {
        0
    }
}

impl FrameTimer {
    /// The timer keeps at least one frame, never more than its capacity, and no frame
    /// longer than a `Duration` can be.
    pub closed spec fn well_formed(&self) -> bool {
        &&& self.buffer_size >= 1
        &&& self.frames@.len() <= self.buffer_size
        &&& forall|i: int| 0 <= i < self.frames@.len() ==> self.frames@[i] <= DURATION_MAX_NANOS
        &&& self.frames@ == window_after_frames(self.buffer_size as nat, self.recorded@)
        &&& self.last_mark <= DURATION_MAX_NANOS
    }

    /// When the previous frame was marked, in nanoseconds since the clock reading taken when
    /// the timer was made (zero before the first mark).
    pub closed spec fn last_mark(&self) -> u128 {
        self.last_mark
    }

    /// The clock reading taken when the timer was made; marks are measured from it.
    pub closed spec fn origin(&self) -> Instant {
        self.epoch
    }

    /// Every frame time recorded since the timer was made, oldest first.
    pub closed spec fn recorded(&self) -> Seq<u128> {
        self.recorded@
    }

    /// Recorded frame times in nanoseconds, newest first.
    pub closed spec fn window(&self) -> Seq<u128> {
        self.frames@
    }

    /// How many frames the window keeps at most.
    pub closed spec fn capacity(&self) -> nat {
        self.buffer_size as nat
    }

    /// A timer that keeps the last `buffer_size` frames (at least one), with no frame
    /// recorded yet; the clock starts now: the clock reading taken here is the timer's
    /// origin, and its first mark is at that origin. Room for the frames is reserved up front, so
    /// their bytes (16 per frame) must not exceed `isize::MAX`.
    pub fn new(buffer_size: usize) -> (timer: FrameTimer)
        requires
            buffer_size <= isize::MAX / 16,
        ensures
            timer.capacity() == if buffer_size >= 1 { buffer_size as nat } else { 1 },
            timer.window() == Seq::<u128>::empty(),
            timer.recorded() == Seq::<u128>::empty(),
            timer.last_mark() == 0,
            timer.well_formed(),
    {
        let buffer_size = if buffer_size >= 1 { buffer_size } else { 1 };
        FrameTimer {
            buffer_size,
            frames: VecDeque::with_capacity(buffer_size),
            epoch: clock_now(),
            last_mark: 0,
            recorded: Ghost(Seq::empty()),
        }
    }

    /// Statistics over the window, or `None` when its total does not fit in a `Duration`.
    fn stats(&self) -> (stats: Option<FrameStats>)
        requires
            self.well_formed(),
            self.window().len() >= 1,
        ensures
            match stats {
                Some(s) => s.describes(self.window()),
                None => seq_total(self.window()) > DURATION_MAX_NANOS,
            },
    {
        let n = self.frames.len();
        let first = self.frames[0];
        let mut total: u128 = first;
        let mut min: u128 = first;
        let mut max: u128 = first;
        let mut i: usize = 1;
        assert(self.frames@.take(1).drop_last() =~= Seq::<u128>::empty());
        assert(self.frames@.take(1).last() == first);
        assert(self.frames@.take(1).len() == 1);
        assert(seq_total(Seq::<u128>::empty()) == 0);
        while i < n
            invariant
                n == self.frames@.len(),
                1 <= i <= n,
                forall|j: int| 0 <= j < n ==> self.frames@[j] <= DURATION_MAX_NANOS,
                total == seq_total(self.frames@.take(i as int)),
                total <= DURATION_MAX_NANOS,
                min == seq_min(self.frames@.take(i as int)),
                max == seq_max(self.frames@.take(i as int)),
                min <= max,
            decreases n - i,
        {
            let f = self.frames[i];
            let ghost prefix = self.frames@.take(i as int);
            let ghost next = self.frames@.take(i + 1);
            assert(next.drop_last() =~= prefix);
            assert(next.last() == f);
            if f > DURATION_MAX_NANOS - total {
                proof {
                    lemma_total_prefix_monotone(self.frames@, i + 1, n as int);
                    assert(self.frames@.take(n as int) =~= self.frames@);
                }
                return None;
            }
            total = total + f;
            if f < min {
                min = f;
            }
            if f > max {
                max = f;
            }
            i = i + 1;
        }
        assert(self.frames@.take(n as int) =~= self.frames@);
        Some(FrameStats {
            samples: n,
            total_frame_time: total,
            min_frame_time: min,
            max_frame_time: max,
        })
    }

    /// Records a frame that took `frame_nanos` nanoseconds: drops the oldest frames until
    /// there is room, puts the new one in front, and returns the statistics over the new
    /// window, or `None` when their total does not fit in a `Duration`.
    pub fn record_frame(&mut self, frame_nanos: u128) -> (stats: Option<FrameStats>)
        requires
            old(self).well_formed(),
            frame_nanos <= DURATION_MAX_NANOS,
        ensures
            final(self).well_formed(),
            final(self).capacity() == old(self).capacity(),
            final(self).window().len() <= final(self).capacity(),
            final(self).window() == window_after(old(self).window(), old(self).capacity(), frame_nanos),
            final(self).recorded() == old(self).recorded().push(frame_nanos),
            final(self).window()[0] == frame_nanos,
            final(self).window().len() == if old(self).window().len() < old(self).capacity() {
                old(self).window().len() + 1int
            } else {
                old(self).capacity() as int
            },
            forall|i: int|
                1 <= i < final(self).window().len() ==> #[trigger] final(self).window()[i] == old(
                    self,
                ).window()[i - 1],
            final(self).last_mark() == old(self).last_mark(),
            final(self).origin() == old(self).origin(),
            final(self).window() == window_after_frames(final(self).capacity(), final(self).recorded()),
            final(self).window().len() == if final(self).recorded().len() < final(self).capacity() {
                final(self).recorded().len() as int
            } else {
                final(self).capacity() as int
            },
            match stats {
                Some(s) => s.describes(final(self).window()),
                None => seq_total(final(self).window()) > DURATION_MAX_NANOS,
            },
    {
        let ghost before = self.frames@;
        while self.frames.len() >= self.buffer_size
            invariant
                self.frames@ == before.take(self.frames@.len() as int),
                self.frames@.len() <= self.buffer_size,
                self.frames@.len() <= before.len(),
                self.frames@.len() >= if before.len() < self.buffer_size {
                    before.len() as int
                } else {
                    self.buffer_size - 1
                },
                self.buffer_size == old(self).buffer_size,
                self.recorded@ == old(self).recorded@,
                self.last_mark == old(self).last_mark,
                self.epoch == old(self).epoch,
                before == old(self).frames@,
                before == window_after_frames(self.buffer_size as nat, self.recorded@),
                before.len() <= self.buffer_size,
                self.buffer_size >= 1,
                forall|i: int| 0 <= i < before.len() ==> before[i] <= DURATION_MAX_NANOS,
            decreases self.frames@.len(),
        {
            let ghost prev = self.frames@;
            let popped = self.frames.pop_back();
            assert(popped.is_some());
            assert(self.frames@ =~= prev.subrange(0, prev.len() - 1));
            assert(self.frames@ =~= before.take(self.frames@.len() as int));
        }
        self.frames.push_front(frame_nanos);
        proof {
            let kept = if before.len() < self.buffer_size { before.len() as int } else { self.buffer_size - 1 };
            assert(self.frames@ =~= seq![frame_nanos] + before.take(kept));
            let history = self.recorded@.push(frame_nanos);
            assert(history.drop_last() =~= self.recorded@);
            assert(self.frames@ == window_after(before, self.buffer_size as nat, frame_nanos));
            assert(window_after_frames(self.buffer_size as nat, history) == window_after(
                window_after_frames(self.buffer_size as nat, history.drop_last()),
                self.buffer_size as nat,
                history.last(),
            ));
            self.recorded = Ghost(history);
            lemma_window_after_frames(self.buffer_size as nat, history);
        }
        self.stats()
    }

    /// Marks the end of a frame: reads the clock, records the time from the previous mark
    /// (or from the timer's making) to this reading as in `record_frame`, moves the mark to
    /// this reading, and returns the statistics over the window.
    pub fn mark_frame(&mut self) -> (stats: Option<FrameStats>)
        requires
            old(self).well_formed(),
        ensures
            final(self).well_formed(),
            final(self).capacity() == old(self).capacity(),
            final(self).origin() == old(self).origin(),
            final(self).window().len() >= 1,
            final(self).last_mark() >= old(self).last_mark() ==> final(self).window()[0] + old(
                self,
            ).last_mark() == final(self).last_mark(),
            final(self).last_mark() < old(self).last_mark() ==> final(self).window()[0] == 0,
            exists|reading: Instant|
                final(self).last_mark() == duration_nanos(#[trigger] span(reading, old(self).origin())),
            final(self).last_mark() <= DURATION_MAX_NANOS,
            final(self).window() == window_after(
                old(self).window(),
                old(self).capacity(),
                time_from_mark(old(self).last_mark(), final(self).last_mark()),
            ),
            final(self).recorded() == old(self).recorded().push(
                time_from_mark(old(self).last_mark(), final(self).last_mark()),
            ),
            final(self).window() == window_after_frames(final(self).capacity(), final(self).recorded()),
            final(self).window().len() == if final(self).recorded().len() < final(self).capacity() {
                final(self).recorded().len() as int
            } else {
                final(self).capacity() as int
            },
            match stats {
                Some(s) => s.describes(final(self).window()),
                None => seq_total(final(self).window()) > DURATION_MAX_NANOS,
            },
    {
        let now = clock_now();
        let elapsed = time_between(now, self.epoch);
        let mark = duration_as_nanos(elapsed);
        let frame_nanos = if mark >= self.last_mark { mark - self.last_mark } else { 0 };
        let stats = self.record_frame(frame_nanos);
        self.last_mark = mark;
        stats
    }
}

/// The shortest and longest frame times of a non-empty window are frame times of the
/// window, and bound every frame in it.
pub proof fn lemma_min_max_bound_frames(s: Seq<u128>)
    requires
        s.len() >= 1,
    ensures
        forall|i: int| 0 <= i < s.len() ==> seq_min(s) <= #[trigger] s[i] <= seq_max(s),
        exists|i: int| 0 <= i < s.len() && s[i] == seq_min(s),
        exists|i: int| 0 <= i < s.len() && s[i] == seq_max(s),
    decreases s.len(),
{
    if s.len() > 1 {
        let p = s.drop_last();
        lemma_min_max_bound_frames(p);
        assert forall|i: int| 0 <= i < s.len() implies seq_min(s) <= #[trigger] s[i] <= seq_max(s) by {
            if i < p.len() {
                assert(s[i] == p[i]);
            }
        }
        let a = choose|i: int| 0 <= i < p.len() && p[i] == seq_min(p);
        let b = choose|i: int| 0 <= i < p.len() && p[i] == seq_max(p);
        let last = s.len() - 1;
        assert(s[a] == p[a]);
        assert(s[b] == p[b]);
        assert(s[last] == s.last());
        if s.last() < seq_min(p) {
            assert(s[last] == seq_min(s));
        } else {
            assert(s[a] == seq_min(s));
        }
        if s.last() > seq_max(p) {
            assert(s[last] == seq_max(s));
        } else {
            assert(s[b] == seq_max(s));
        }
    } else {
        assert(s[0] == seq_min(s));
        assert(s[0] == seq_max(s));
    }
}

/// The average frame time lies between the shortest and the longest: for statistics over
/// `n` frames, `n * shortest <= total <= n * longest`.
pub proof fn lemma_average_between_min_and_max(s: Seq<u128>)
    requires
        s.len() >= 1,
    ensures
        s.len() * seq_min(s) <= seq_total(s) <= s.len() * seq_max(s),
    decreases s.len(),
{
    if s.len() == 1 {
        assert(s.drop_last() =~= Seq::<u128>::empty());
        assert(seq_total(Seq::<u128>::empty()) == 0);
    } else {
        let p = s.drop_last();
        lemma_average_between_min_and_max(p);
        let n = p.len() as int;
        assert(seq_min(s) <= seq_min(p));
        assert(seq_max(s) >= seq_max(p));
        assert(n * seq_min(s) <= n * seq_min(p)) by (nonlinear_arith)
            requires
                seq_min(s) <= seq_min(p),
                n >= 1,
        ;
        assert(n * seq_max(p) <= n * seq_max(s)) by (nonlinear_arith)
            requires
                seq_max(s) >= seq_max(p),
                n >= 1,
        ;
        assert(s.len() * seq_min(s) == n * seq_min(s) + seq_min(s)) by (nonlinear_arith)
            requires
                s.len() == n + 1,
        ;
        assert(s.len() * seq_max(s) == n * seq_max(s) + seq_max(s)) by (nonlinear_arith)
            requires
                s.len() == n + 1,
        ;
    }
}

/// Recording a frame into a window that respects its capacity keeps `min(len + 1,
/// capacity)` frames, the new one first, followed by the newest of the old ones in order.
pub proof fn lemma_window_after(window: Seq<u128>, capacity: nat, frame: u128)
    requires
        capacity >= 1,
        window.len() <= capacity,
    ensures
        window_after(window, capacity, frame).len() == if window.len() < capacity {
            window.len() + 1int
        } else {
            capacity as int
        },
        window_after(window, capacity, frame)[0] == frame,
        forall|i: int|
            1 <= i < window_after(window, capacity, frame).len() ==> window_after(
                window,
                capacity,
                frame,
            )[i] == window[i - 1],
{
}

/// The window of a timer with room for `capacity` frames that started empty and has
/// recorded `frames` in order (oldest first).
pub open spec fn window_after_frames(capacity: nat, frames: Seq<u128>) -> Seq<u128>
    decreases frames.len(),
{
    if frames.len() == 0 {
        Seq::empty()
    } else {
        window_after(window_after_frames(capacity, frames.drop_last()), capacity, frames.last())
    }
}

/// After `k` frames, a timer made with room for `capacity` frames holds `min(k, capacity)`
/// of them: the newest first, each preceded by the one recorded after it. Statistics that
/// describe that window therefore cover `min(k, capacity)` samples.
pub proof fn lemma_window_after_frames(capacity: nat, frames: Seq<u128>)
    requires
        capacity >= 1,
    ensures
        window_after_frames(capacity, frames).len() == if frames.len() < capacity {
            frames.len() as int
        } else {
            capacity as int
        },
        forall|i: int|
            0 <= i < window_after_frames(capacity, frames).len() ==> #[trigger] window_after_frames(
                capacity,
                frames,
            )[i] == frames[frames.len() - 1 - i],
        forall|stats: FrameStats|
            #[trigger] stats.describes(window_after_frames(capacity, frames))
                ==> stats.sample_count() == window_after_frames(capacity, frames).len(),
    decreases frames.len(),
{
    if frames.len() > 0 {
        let before = frames.drop_last();
        lemma_window_after_frames(capacity, before);
        let w = window_after_frames(capacity, before);
        lemma_window_after(w, capacity, frames.last());
        let w2 = window_after_frames(capacity, frames);
        assert forall|i: int| 0 <= i < w2.len() implies #[trigger] w2[i] == frames[frames.len() - 1 - i] by {
            if i > 0 {
                assert(w2[i] == w[i - 1]);
                assert(w[i - 1] == before[before.len() - 1 - (i - 1)]);
            }
        }
    }
}

/// The running total of frame times never decreases as more frames are counted.
proof fn lemma_total_prefix_monotone(s: Seq<u128>, i: int, j: int)
    requires
        0 <= i <= j <= s.len(),
    ensures
        seq_total(s.take(i)) <= seq_total(s.take(j)),
    decreases j - i,
{
    if i < j {
        lemma_total_prefix_monotone(s, i, j - 1);
        assert(s.take(j).drop_last() =~= s.take(j - 1));
    }
}

} // verus!
