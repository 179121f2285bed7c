//! The timeline: time-ranged segments of patterns, kept sorted by start
//! time, plus the playback position and transport state the audio callback
//! reads. Times are in microseconds, tempo in thousandths of a beat per
//! minute. A segment's duration is derived from its meter, loop count and
//! tempo; every mutation of those recomputes it.

use vstd::prelude::*;
use vstd::string::StringExecFns;
use crate::pattern::Pattern;
use crate::text::{dec_str, append_dec};
use crate::time_signature::TimeSignature;

verus! {

/// The transport state of the timeline.
#[derive(Debug, Clone, Copy, PartialEq, Eq, Structural)]
pub enum PlaybackState {
    Stopped,
    Playing,
    Paused,
}

/// Microseconds a segment spans: `numerator * loop_count` beats at `bpm`
/// thousandths of a beat per minute, each minute 60 million microseconds.
pub open spec fn duration_of(numerator: int, loop_count: int, bpm: int) -> int {
    numerator * loop_count * 60_000_000_000 / bpm
}

/// A time-ranged placement of a set of patterns with its own loop count,
/// tempo and meter. The patterns are this segment's own copies, shared with
/// no other segment.
#[derive(Debug)]
pub struct TimelineSegment {
    pub id: String,
    pub start_time: u64,
    pub duration: u64,
    pub pattern_id: String,
    pub patterns: Vec<Pattern>,
    pub loop_count: usize,
    pub time_signature: TimeSignature,
    pub bpm: u32,
}

/// Two pattern lists with the same names, sample bindings and steps.
pub open spec fn patterns_equal(a: Seq<Pattern>, b: Seq<Pattern>) -> bool {
    &&& a.len() == b.len()
    &&& forall|i: int|
        0 <= i < a.len() ==> #[trigger] a[i].name@ == b[i].name@ && a[i].sample_name@
            == b[i].sample_name@ && a[i].steps@ == b[i].steps@
}

/// Two segments that play identically: every field agrees up to string
/// contents, the identifier included.
pub open spec fn segments_equal(a: TimelineSegment, b: TimelineSegment) -> bool {
    &&& a.id@ == b.id@
    &&& a.start_time == b.start_time
    &&& a.duration == b.duration
    &&& a.pattern_id@ == b.pattern_id@
    &&& patterns_equal(a.patterns@, b.patterns@)
    &&& a.loop_count == b.loop_count
    &&& a.time_signature == b.time_signature
    &&& a.bpm == b.bpm
}

/// The segment's end fits the clock: its start plus duration stays within a
/// `u64` of microseconds, and its loop count leaves room for the split
/// arithmetic.
pub open spec fn seg_fits(s: TimelineSegment) -> bool {
    &&& s.start_time + s.duration <= u64::MAX
    &&& s.loop_count <= u32::MAX
}

impl TimelineSegment {
    /// Builds a segment with a derived duration and an identifier still to be
    /// assigned by the timeline that adopts it.
    pub fn new(
        pattern_id: String,
        patterns: Vec<Pattern>,
        start_time: u64,
        loop_count: usize,
        time_signature: TimeSignature,
        bpm: u32,
    ) -> (r: TimelineSegment)
        requires
            bpm >= 1,
            start_time + duration_of(time_signature.numerator as int, loop_count as int, bpm as int)
                <= u64::MAX,
        ensures
            r.id@.len() == 0,
            r.start_time == start_time,
            r.duration == duration_of(
                time_signature.numerator as int,
                loop_count as int,
                bpm as int,
            ),
            r.pattern_id == pattern_id,
            r.patterns == patterns,
            r.loop_count == loop_count,
            r.time_signature == time_signature,
            r.bpm == bpm,
    {
        let duration = duration_micros(time_signature.numerator, loop_count, bpm);
        TimelineSegment {
            id: String::new(),
            start_time,
            duration,
            pattern_id,
            patterns,
            loop_count,
            time_signature,
            bpm,
        }
    }

    /// Where the segment ends: its start plus its duration.
    pub fn end_time(&self) -> (r: u64)
        requires
            self.start_time + self.duration <= u64::MAX,
        ensures
            r == self.start_time + self.duration,
    {
        self.start_time + self.duration
    }

    /// Whether `time` lies in the half-open interval the segment covers.
    pub open spec fn spec_contains_time(self, time: int) -> bool {
        self.start_time <= time < self.start_time + self.duration
    }

    /// See `spec_contains_time`.
    pub fn contains_time(&self, time: u64) -> (r: bool)
        requires
            self.start_time + self.duration <= u64::MAX,
        ensures
            r == self.spec_contains_time(time as int),
    {
        time >= self.start_time && time < self.end_time()
    }

    /// Recomputes the duration from the current meter, loop count and tempo.
    pub fn update_duration(&mut self)
        requires
            old(self).bpm >= 1,
            old(self).start_time + duration_of(
                old(self).time_signature.numerator as int,
                old(self).loop_count as int,
                old(self).bpm as int,
            ) <= u64::MAX,
        ensures
            final(self).duration == duration_of(
                old(self).time_signature.numerator as int,
                old(self).loop_count as int,
                old(self).bpm as int,
            ),
            *final(self) == (TimelineSegment { duration: final(self).duration, ..*old(self) }),
    {
        self.duration = duration_micros(self.time_signature.numerator, self.loop_count, self.bpm);
    }

    /// Sets the loop count, held to at least 1, and recomputes the duration.
    pub fn set_loop_count(&mut self, loop_count: usize)
        requires
            old(self).bpm >= 1,
            old(self).start_time + duration_of(
                old(self).time_signature.numerator as int,
                if loop_count >= 1 {
                    loop_count as int
                } else {
                    1
                },
                old(self).bpm as int,
            ) <= u64::MAX,
        ensures
            final(self).loop_count == if loop_count >= 1 {
                loop_count as int
            } else {
                1
            },
            final(self).duration == duration_of(
                old(self).time_signature.numerator as int,
                final(self).loop_count as int,
                old(self).bpm as int,
            ),
            *final(self) == (TimelineSegment {
                loop_count: final(self).loop_count,
                duration: final(self).duration,
                ..*old(self)
            }),
    {
        self.loop_count = if loop_count >= 1 {
            loop_count
        } else {
            1
        };
        self.update_duration();
    }

    /// Sets the tempo, clamped to 60..=300 beats per minute, and recomputes
    /// the duration.
    pub fn set_bpm(&mut self, bpm: u32)
        requires
            old(self).start_time + duration_of(
                old(self).time_signature.numerator as int,
                old(self).loop_count as int,
                clamp_bpm(bpm as int),
            ) <= u64::MAX,
        ensures
            final(self).bpm == clamp_bpm(bpm as int),
            final(self).duration == duration_of(
                old(self).time_signature.numerator as int,
                old(self).loop_count as int,
                final(self).bpm as int,
            ),
            *final(self) == (TimelineSegment {
                bpm: final(self).bpm,
                duration: final(self).duration,
                ..*old(self)
            }),
    {
        self.bpm = if bpm < 60_000 {
            60_000
        } else if bpm > 300_000 {
            300_000
        } else {
            bpm
        };
        self.update_duration();
    }

    /// Sets the meter and recomputes the duration.
    pub fn set_time_signature(&mut self, time_signature: TimeSignature)
        requires
            old(self).bpm >= 1,
            old(self).start_time + duration_of(
                time_signature.numerator as int,
                old(self).loop_count as int,
                old(self).bpm as int,
            ) <= u64::MAX,
        ensures
            final(self).time_signature == time_signature,
            final(self).duration == duration_of(
                time_signature.numerator as int,
                old(self).loop_count as int,
                old(self).bpm as int,
            ),
            *final(self) == (TimelineSegment {
                time_signature: time_signature,
                duration: final(self).duration,
                ..*old(self)
            }),
    {
        self.time_signature = time_signature;
        self.update_duration();
    }
}

/// A tempo clamped to the range 60..=300 beats per minute, in thousandths.
pub open spec fn clamp_bpm(bpm: int) -> int {
    if bpm < 60_000 {
        60_000
    } else if bpm > 300_000 {
        300_000
    } else {
        bpm
    }
}

/// Computes `duration_of` in microseconds, exactly.
fn duration_micros(numerator: u8, loop_count: usize, bpm: u32) -> (r: u64)
    requires
        bpm >= 1,
        duration_of(numerator as int, loop_count as int, bpm as int) <= u64::MAX,
    ensures
        r == duration_of(numerator as int, loop_count as int, bpm as int),
{
    proof {
        lemma_duration_product_fits(numerator as int, loop_count as int);
        vstd::arithmetic::div_mod::lemma_div_pos_is_pos(
            numerator as int * loop_count as int * 60_000_000_000,
            bpm as int,
        );
    }
    let beats = (numerator as u128) * (loop_count as u128);
    let micros = beats * 60_000_000_000u128 / (bpm as u128);
    micros as u64
}

/// A beat count times the microseconds of its measure stays far inside the
/// range a `u128` holds.
proof fn lemma_duration_product_fits(numerator: int, loop_count: int)
    requires
        0 <= numerator <= 255,
        0 <= loop_count <= u64::MAX,
    ensures
        0 <= numerator * loop_count <= 255 * (u64::MAX as int),
        0 <= numerator * loop_count * 60_000_000_000 <= 255 * (u64::MAX as int) * 60_000_000_000,
{
    vstd::arithmetic::mul::lemma_mul_upper_bound(numerator, 255, loop_count, u64::MAX as int);
    vstd::arithmetic::mul::lemma_mul_nonnegative(numerator, loop_count);
    vstd::arithmetic::mul::lemma_mul_inequality(
        numerator * loop_count,
        255 * (u64::MAX as int),
        60_000_000_000,
    );
    vstd::arithmetic::mul::lemma_mul_nonnegative(numerator * loop_count, 60_000_000_000);
}

/// Segments in nondecreasing order of start time.
pub open spec fn sorted_by_start(s: Seq<TimelineSegment>) -> bool {
    forall|i: int, j: int| 0 <= i < j < s.len() ==> s[i].start_time <= s[j].start_time
}

/// The end of the last-ending segment; zero with no segments.
pub open spec fn max_end(s: Seq<TimelineSegment>) -> int
    decreases s.len(),
{
    if s.len() == 0 {
        0
    } else if s.last().start_time + s.last().duration >= max_end(s.drop_last()) {
        s.last().start_time + s.last().duration
    } else {
        max_end(s.drop_last())
    }
}

/// The sum of the segments' tempos.
pub open spec fn sum_bpm(s: Seq<TimelineSegment>) -> int
    decreases s.len(),
{
    if s.len() == 0 {
        0
    } else {
        sum_bpm(s.drop_last()) + s.last().bpm
    }
}

/// The first segment at or after `i` containing `pos`, if any.
pub open spec fn first_containing(s: Seq<TimelineSegment>, pos: int, i: int) -> Option<int>
    decreases s.len() - i,
{
    if i < 0 || i >= s.len() {
        None
    } else if s[i].spec_contains_time(pos) {
        Some(i)
    } else {
        first_containing(s, pos, i + 1)
    }
}

/// A hit reported by `first_containing` lies in range and contains the
/// position.
pub proof fn lemma_first_containing_props(s: Seq<TimelineSegment>, pos: int, i: int)
    ensures
        first_containing(s, pos, i) matches Some(k) ==> i <= k < s.len()
            && s[k].spec_contains_time(pos),
    decreases s.len() - i,
{
    if 0 <= i < s.len() && !s[i].spec_contains_time(pos) {
        lemma_first_containing_props(s, pos, i + 1);
    }
}

/// The identifier the timeline hands to the `n`-th segment it names.
pub open spec fn spec_segment_id(n: int) -> Seq<char> {
    "segment_"@ + dec_str(n)
}

/// The ordered collection of segments plus the playback cursor and transport
/// state: the one object the interface thread edits and the audio callback
/// reads. Fresh segment identifiers are drawn from a counter the timeline
/// itself owns, so the core keeps no process-wide state.
#[derive(Debug, Clone)]
pub struct Timeline {
    pub segments: Vec<TimelineSegment>,
    pub current_position: u64,
    pub playback_state: PlaybackState,
    pub next_segment_id: u64,
}

impl Timeline {
    /// Every segment's end fits the clock (needed before any end-time
    /// arithmetic).
    pub open spec fn wf(self) -> bool {
        forall|i: int| 0 <= i < self.segments@.len() ==> seg_fits(#[trigger] self.segments@[i])
    }

    /// Segments stand in start-time order.
    pub open spec fn sorted(self) -> bool {
        sorted_by_start(self.segments@)
    }

    /// An empty, stopped timeline at position zero.
    pub fn new() -> (r: Timeline)
        ensures
            r.segments@.len() == 0,
            r.current_position == 0,
            r.playback_state == PlaybackState::Stopped,
            r.next_segment_id == 0,
            r.wf(),
            r.sorted(),
    {
        Timeline {
            segments: Vec::new(),
            current_position: 0,
            playback_state: PlaybackState::Stopped,
            next_segment_id: 0,
        }
    }

    /// Hands out the next fresh segment identifier.
    #[verifier::loop_isolation(false)]
    pub fn generate_segment_id(&mut self) -> (r: String)
        requires
            old(self).next_segment_id < u64::MAX,
        ensures
            r@ == spec_segment_id(old(self).next_segment_id as int),
            final(self).next_segment_id == old(self).next_segment_id + 1,
            final(self).segments == old(self).segments,
            final(self).current_position == old(self).current_position,
            final(self).playback_state == old(self).playback_state,
    {
        let mut id = String::from_str("segment_");
        proof {
            reveal_strlit("segment_");
        }
        append_dec(&mut id, self.next_segment_id as u128);
        self.next_segment_id = self.next_segment_id + 1;
        id
    }

    /// Total playable length: the end of the last-ending segment.
    #[verifier::loop_isolation(false)]
    pub fn total_duration(&self) -> (r: u64)
        requires
            self.wf(),
        ensures
            r == max_end(self.segments@),
    {
        let mut best: u64 = 0;
        let mut i: usize = 0;
        proof {
            assert(self.segments@.take(0) =~= Seq::<TimelineSegment>::empty());
        }
        while i < self.segments.len()
            invariant
                i <= self.segments@.len(),
                best == max_end(self.segments@.take(i as int)),
            decreases self.segments@.len() - i,
        {
            let end = self.segments[i].end_time();
            if end > best {
                best = end;
            }
            i = i + 1;
            proof {
                assert(self.segments@.take(i as int).drop_last() =~= self.segments@.take(
                    i as int - 1,
                ));
                assert(self.segments@.take(i as int).last() == self.segments@[i as int - 1]);
            }
        }
        proof {
            assert(self.segments@.take(self.segments@.len() as int) =~= self.segments@);
        }
        best
    }

    /// Inserts a segment in start-time order, after any segment starting at
    /// the same time, and returns the position it took.
    #[verifier::loop_isolation(false)]
    fn insert_sorted(&mut self, segment: TimelineSegment) -> (k: usize)
        ensures
            0 <= k <= old(self).segments@.len(),
            final(self).segments@ == old(self).segments@.insert(k as int, segment),
            forall|j: int|
                0 <= j < k ==> #[trigger] old(self).segments@[j].start_time
                    <= segment.start_time,
            old(self).sorted() ==> final(self).sorted(),
            old(self).wf() && seg_fits(segment) ==> final(self).wf(),
            final(self).current_position == old(self).current_position,
            final(self).playback_state == old(self).playback_state,
            final(self).next_segment_id == old(self).next_segment_id,
    {
        let mut idx: usize = 0;
        while idx < self.segments.len() && self.segments[idx].start_time <= segment.start_time
            invariant
                idx <= self.segments@.len(),
                forall|j: int|
                    0 <= j < idx ==> #[trigger] self.segments@[j].start_time
                        <= segment.start_time,
            decreases self.segments@.len() - idx,
        {
            idx = idx + 1;
        }
        let ghost pre = self.segments@;
        let ghost k = idx as int;
        self.segments.insert(idx, segment);
        proof {
            assert(self.segments@[k] == segment);
            if sorted_by_start(pre) {
                assert forall|a: int, b: int|
                    0 <= a < b < self.segments@.len() implies self.segments@[a].start_time
                        <= self.segments@[b].start_time by {
                    if a < k && b == k {
                        assert(self.segments@[a] == pre[a]);
                    } else if a == k && b > k {
                        assert(self.segments@[b] == pre[b - 1]);
                    } else if b < k {
                        assert(self.segments@[a] == pre[a]);
                        assert(self.segments@[b] == pre[b]);
                    } else if a < k && b > k {
                        assert(self.segments@[a] == pre[a]);
                        assert(self.segments@[b] == pre[b - 1]);
                    } else if a > k {
                        assert(self.segments@[a] == pre[a - 1]);
                        assert(self.segments@[b] == pre[b - 1]);
                    }
                }
            }
            if old(self).wf() && seg_fits(segment) {
                assert forall|j: int|
                    0 <= j < self.segments@.len() implies seg_fits(
                    #[trigger] self.segments@[j],
                ) by {
                    if j < k {
                        assert(self.segments@[j] == pre[j]);
                    } else if j > k {
                        assert(self.segments@[j] == pre[j - 1]);
                    }
                }
            }
        }
        idx
    }

    /// Adopts a segment, assigning it a fresh identifier if it carries none,
    /// and inserts it in start-time order after any segment starting at the
    /// same time. Returns the segment's identifier.
    pub fn add_segment(&mut self, segment: TimelineSegment) -> (r: String)
        requires
            old(self).next_segment_id < u64::MAX,
        ensures
            r@ == if segment.id@.len() == 0 {
                spec_segment_id(old(self).next_segment_id as int)
            } else {
                segment.id@
            },
            final(self).current_position == old(self).current_position,
            final(self).playback_state == old(self).playback_state,
            final(self).segments@.len() == old(self).segments@.len() + 1,
            exists|k: int|
                #![auto]
                0 <= k <= old(self).segments@.len() && final(self).segments@ == old(
                    self,
                ).segments@.insert(k, final(self).segments@[k]) && final(self).segments@[k].id@
                    == r@ && segments_equal(
                    final(self).segments@[k],
                    TimelineSegment { id: final(self).segments@[k].id, ..segment },
                ) && (forall|j: int|
                    0 <= j < k ==> old(self).segments@[j].start_time <= segment.start_time),
            old(self).sorted() ==> final(self).sorted(),
            old(self).wf() && seg_fits(segment) ==> final(self).wf(),
    {
        let mut segment = segment;
        let id = if segment.id.as_str().is_empty() {
            let fresh = self.generate_segment_id();
            segment.id = fresh;
            segment.id.clone()
        } else {
            segment.id.clone()
        };
        let ghost seg2 = segment;
        let k = self.insert_sorted(segment);
        proof {
            assert(final(self).segments@[k as int] == seg2);
        }
        id
    }

    /// The position of the first segment carrying `segment_id`, if any.
    #[verifier::loop_isolation(false)]
    pub fn find_segment_index(&self, segment_id: &str) -> (r: Option<usize>)
        ensures
            r matches Some(k) ==> 0 <= k < self.segments@.len() && self.segments@[k as int].id@
                == segment_id@ && (forall|j: int|
                0 <= j < k ==> self.segments@[j].id@ != segment_id@),
            r is None ==> forall|j: int|
                0 <= j < self.segments@.len() ==> self.segments@[j].id@ != segment_id@,
    {
        let owned = segment_id.to_owned();
        let mut i: usize = 0;
        while i < self.segments.len()
            invariant
                owned@ == segment_id@,
                i <= self.segments@.len(),
                forall|j: int| 0 <= j < i ==> self.segments@[j].id@ != segment_id@,
            decreases self.segments@.len() - i,
        {
            if self.segments[i].id == owned {
                return Some(i);
            }
            i = i + 1;
        }
        None
    }

    /// The first segment carrying `segment_id`, for editing, if any.
    pub fn get_segment_mut(&mut self, segment_id: &str) -> (r: Option<&mut TimelineSegment>)
        ensures
            r is None ==> *final(self) == *old(self) && (forall|j: int|
                0 <= j < old(self).segments@.len() ==> old(self).segments@[j].id@
                    != segment_id@),
            r matches Some(seg) ==> exists|k: int|
                #![auto]
                0 <= k < old(self).segments@.len() && old(self).segments@[k].id@ == segment_id@
                    && (forall|j: int| 0 <= j < k ==> old(self).segments@[j].id@ != segment_id@)
                    && *seg == old(self).segments@[k] && final(self).segments@ == old(
                    self,
                ).segments@.update(k, *final(seg)) && final(self).current_position == old(
                    self,
                ).current_position && final(self).playback_state == old(self).playback_state
                    && final(self).next_segment_id == old(self).next_segment_id,
    {
        match self.find_segment_index(segment_id) {
            Some(k) => Some(vstd::std_specs::vec::vec_index_mut(&mut self.segments, k)),
            None => None,
        }
    }

    /// The first segment carrying `segment_id`, if any.
    pub fn get_segment(&self, segment_id: &str) -> (r: Option<&TimelineSegment>)
        ensures
            r matches Some(s) ==> exists|k: int|
                #![auto]
                0 <= k < self.segments@.len() && *s == self.segments@[k] && self.segments@[k].id@
                    == segment_id@ && (forall|j: int|
                    0 <= j < k ==> self.segments@[j].id@ != segment_id@),
            r is None ==> forall|j: int|
                0 <= j < self.segments@.len() ==> self.segments@[j].id@ != segment_id@,
    {
        match self.find_segment_index(segment_id) {
            Some(k) => Some(&self.segments[k]),
            None => None,
        }
    }

    /// Removes and returns the first segment carrying `segment_id`, if any.
    pub fn remove_segment(&mut self, segment_id: &str) -> (r: Option<TimelineSegment>)
        ensures
            r is None ==> *final(self) == *old(self) && (forall|j: int|
                0 <= j < old(self).segments@.len() ==> old(self).segments@[j].id@
                    != segment_id@),
            r matches Some(seg) ==> exists|k: int|
                #![auto]
                0 <= k < old(self).segments@.len() && seg == old(self).segments@[k] && old(self).segments@[k].id@ == segment_id@ && (forall|j: int|
                    0 <= j < k ==> old(self).segments@[j].id@ != segment_id@) && final(self).segments@ == old(self).segments@.remove(k),
            final(self).current_position == old(self).current_position,
            final(self).playback_state == old(self).playback_state,
            final(self).next_segment_id == old(self).next_segment_id,
            old(self).wf() ==> final(self).wf(),
            old(self).sorted() ==> final(self).sorted(),
    {
        match self.find_segment_index(segment_id) {
            Some(k) => {
                let ghost pre = self.segments@;
                let seg = self.segments.remove(k);
                proof {
                    assert(forall|j: int| 0 <= j < k ==> self.segments@[j] == pre[j]);
                    assert(forall|j: int|
                        k <= j < self.segments@.len() ==> self.segments@[j] == pre[j + 1]);
                }
                Some(seg)
            },
            None => None,
        }
    }

    /// The first segment containing the playback cursor, if the cursor lies
    /// in one; in a gap or past the end there is none.
    #[verifier::loop_isolation(false)]
    pub fn get_current_segment(&self) -> (r: Option<&TimelineSegment>)
        requires
            self.wf(),
        ensures
            first_containing(self.segments@, self.current_position as int, 0) matches Some(k)
                ==> (r matches Some(s) && *s == self.segments@[k]
                && self.segments@[k].spec_contains_time(self.current_position as int)),
            first_containing(self.segments@, self.current_position as int, 0) is None ==> r
                is None,
    {
        let mut i: usize = 0;
        while i < self.segments.len()
            invariant
                i <= self.segments@.len(),
                first_containing(self.segments@, self.current_position as int, 0)
                    == first_containing(self.segments@, self.current_position as int, i as int),
            decreases self.segments@.len() - i,
        {
            if self.segments[i].contains_time(self.current_position) {
                return Some(&self.segments[i]);
            }
            i = i + 1;
        }
        None
    }

    /// Moves the first segment carrying `segment_id` to a new start time and
    /// restores start-time order; false when no segment carries it.
    #[verifier::loop_isolation(false)]
    pub fn move_segment(&mut self, segment_id: &str, new_start_time: u64) -> (r: bool)
        requires
            forall|i: int|
                0 <= i < old(self).segments@.len() ==> new_start_time + #[trigger] old(self).segments@[i].duration <= u64::MAX,
        ensures
            !r ==> *final(self) == *old(self) && (forall|j: int|
                0 <= j < old(self).segments@.len() ==> old(self).segments@[j].id@
                    != segment_id@),
            r ==> exists|k: int, k2: int|
                #![trigger old(self).segments@[k], final(self).segments@[k2]]
                {
                    &&& 0 <= k < old(self).segments@.len()
                    &&& old(self).segments@[k].id@ == segment_id@
                    &&& (forall|j: int| 0 <= j < k ==> old(self).segments@[j].id@ != segment_id@)
                    &&& 0 <= k2 <= old(self).segments@.len() - 1
                    &&& final(self).segments@ == old(self).segments@.remove(k).insert(
                        k2,
                        TimelineSegment { start_time: new_start_time, ..old(self).segments@[k] },
                    )
                },
            final(self).current_position == old(self).current_position,
            final(self).playback_state == old(self).playback_state,
            final(self).next_segment_id == old(self).next_segment_id,
            old(self).wf() ==> final(self).wf(),
            r && old(self).sorted() ==> final(self).sorted(),
    {
        let k = match self.find_segment_index(segment_id) {
            Some(k) => k,
            None => {
                return false;
            },
        };
        let ghost pre = self.segments@;
        let mut seg = self.segments.remove(k);
        seg.start_time = new_start_time;
        let ghost mid = self.segments@;
        proof {
            assert(forall|j: int| 0 <= j < k ==> mid[j] == pre[j]);
            assert(forall|j: int| k <= j < mid.len() ==> mid[j] == pre[j + 1]);
        }
        let mut idx: usize = 0;
        while idx < self.segments.len() && self.segments[idx].start_time <= seg.start_time
            invariant
                self.segments@ == mid,
                idx <= mid.len(),
                forall|j: int| 0 <= j < idx ==> #[trigger] mid[j].start_time <= seg.start_time,
            decreases mid.len() - idx,
        {
            idx = idx + 1;
        }
        let ghost k2 = idx as int;
        self.segments.insert(idx, seg);
        proof {
            assert(self.segments@[k2] == seg);
            if sorted_by_start(pre) {
                assert forall|a: int, b: int|
                    0 <= a < b < mid.len() implies mid[a].start_time <= mid[b].start_time by {
                    if b < k {
                    } else if a < k {
                        assert(mid[b] == pre[b + 1]);
                    } else {
                        assert(mid[a] == pre[a + 1]);
                        assert(mid[b] == pre[b + 1]);
                    }
                }
                assert forall|a: int, b: int|
                    0 <= a < b < self.segments@.len() implies self.segments@[a].start_time
                        <= self.segments@[b].start_time by {
                    if a < k2 && b == k2 {
                        assert(self.segments@[a] == mid[a]);
                    } else if a == k2 && b > k2 {
                        assert(self.segments@[b] == mid[b - 1]);
                    } else if b < k2 {
                        assert(self.segments@[a] == mid[a]);
                        assert(self.segments@[b] == mid[b]);
                    } else if a < k2 && b > k2 {
                        assert(self.segments@[a] == mid[a]);
                        assert(self.segments@[b] == mid[b - 1]);
                    } else if a > k2 {
                        assert(self.segments@[a] == mid[a - 1]);
                        assert(self.segments@[b] == mid[b - 1]);
                    }
                }
            }
        }
        true
    }

    /// Starts playback from the current position.
    pub fn play(&mut self)
        ensures
            *final(self) == (Timeline { playback_state: PlaybackState::Playing, ..*old(self) }),
    {
        self.playback_state = PlaybackState::Playing;
    }

    /// Pauses playback, keeping the current position.
    pub fn pause(&mut self)
        ensures
            *final(self) == (Timeline { playback_state: PlaybackState::Paused, ..*old(self) }),
    {
        self.playback_state = PlaybackState::Paused;
    }

    /// Stops playback and rewinds the cursor to zero, whatever the prior
    /// state or position.
    pub fn stop(&mut self)
        ensures
            *final(self) == (Timeline {
                playback_state: PlaybackState::Stopped,
                current_position: 0,
                ..*old(self)
            }),
    {
        self.playback_state = PlaybackState::Stopped;
        self.current_position = 0;
    }

    /// Moves the cursor to `position`, clamped to the playable range,
    /// whatever the playback state.
    pub fn seek(&mut self, position: u64)
        requires
            old(self).wf(),
        ensures
            final(self).current_position == if position <= max_end(old(self).segments@) {
                position as int
            } else {
                max_end(old(self).segments@)
            },
            *final(self) == (Timeline {
                current_position: final(self).current_position,
                ..*old(self)
            }),
    {
        let total = self.total_duration();
        self.current_position = if position <= total {
            position
        } else {
            total
        };
    }

    /// Whether the timeline is currently playing.
    pub fn is_playing(&self) -> (r: bool)
        ensures
            r == (self.playback_state == PlaybackState::Playing),
    {
        self.playback_state == PlaybackState::Playing
    }

    /// Whether the timeline holds no segments.
    pub fn is_empty(&self) -> (r: bool)
        ensures
            r == (self.segments@.len() == 0),
    {
        self.segments.len() == 0
    }

    /// Advances the cursor by `delta` while playing. Reaching or passing the
    /// end stops playback, rewinds to zero and returns false; when not
    /// playing nothing moves and the result is false.
    pub fn advance_position(&mut self, delta: u64) -> (r: bool)
        requires
            old(self).wf(),
        ensures
            old(self).playback_state != PlaybackState::Playing ==> *final(self) == *old(self)
                && !r,
            old(self).playback_state == PlaybackState::Playing ==> ({
                let np = if old(self).current_position + delta <= u64::MAX {
                    old(self).current_position + delta
                } else {
                    u64::MAX as int
                };
                &&& np >= max_end(old(self).segments@) ==> !r && *final(self) == (Timeline {
                    playback_state: PlaybackState::Stopped,
                    current_position: 0,
                    ..*old(self)
                })
                &&& np < max_end(old(self).segments@) ==> r && *final(self) == (Timeline {
                    current_position: np as u64,
                    ..*old(self)
                })
            }),
    {
        if self.playback_state == PlaybackState::Playing {
            let room = u64::MAX - self.current_position;
            let np = if delta <= room {
                self.current_position + delta
            } else {
                u64::MAX
            };
            self.current_position = np;
            if np >= self.total_duration() {
                self.stop();
                false
            } else {
                true
            }
        } else {
            false
        }
    }

    /// Sets every segment's tempo (clamped to 60..=300 beats per minute) and
    /// recomputes every duration.
    #[verifier::loop_isolation(false)]
    pub fn set_global_bpm(&mut self, bpm: u32)
        requires
            forall|i: int|
                0 <= i < old(self).segments@.len() ==> #[trigger] old(self).segments@[i].start_time + duration_of(
                    old(self).segments@[i].time_signature.numerator as int,
                    old(self).segments@[i].loop_count as int,
                    clamp_bpm(bpm as int),
                ) <= u64::MAX,
        ensures
            final(self).segments@.len() == old(self).segments@.len(),
            forall|i: int|
                0 <= i < old(self).segments@.len() ==> #[trigger] final(self).segments@[i] == (
                TimelineSegment {
                    bpm: clamp_bpm(bpm as int) as u32,
                    duration: duration_of(
                        old(self).segments@[i].time_signature.numerator as int,
                        old(self).segments@[i].loop_count as int,
                        clamp_bpm(bpm as int),
                    ) as u64,
                    ..old(self).segments@[i]
                }),
            final(self).current_position == old(self).current_position,
            final(self).playback_state == old(self).playback_state,
            final(self).next_segment_id == old(self).next_segment_id,
            old(self).sorted() ==> final(self).sorted(),
    {
        let mut i: usize = 0;
        while i < self.segments.len()
            invariant
                i <= self.segments@.len(),
                self.segments@.len() == old(self).segments@.len(),
                self.current_position == old(self).current_position,
                self.playback_state == old(self).playback_state,
                self.next_segment_id == old(self).next_segment_id,
                forall|j: int|
                    i <= j < self.segments@.len() ==> #[trigger] self.segments@[j] == old(self).segments@[j],
                forall|j: int|
                    0 <= j < i ==> #[trigger] self.segments@[j] == (TimelineSegment {
                        bpm: clamp_bpm(bpm as int) as u32,
                        duration: duration_of(
                            old(self).segments@[j].time_signature.numerator as int,
                            old(self).segments@[j].loop_count as int,
                            clamp_bpm(bpm as int),
                        ) as u64,
                        ..old(self).segments@[j]
                    }),
            decreases self.segments@.len() - i,
        {
            let ghost pre = self.segments@;
            let mut seg = self.segments.remove(i);
            seg.set_bpm(bpm);
            self.segments.insert(i, seg);
            proof {
                assert forall|j: int|
                    0 <= j < self.segments@.len() && j != i as int
                        implies #[trigger] self.segments@[j] == pre[j] by {
                    if j < i as int {
                        assert(pre.remove(i as int)[j] == pre[j]);
                    } else {
                        assert(pre.remove(i as int)[j - 1] == pre[j]);
                    }
                }
            }
            i = i + 1;
        }
        proof {
            if sorted_by_start(old(self).segments@) {
                assert forall|a: int, b: int|
                    0 <= a < b < self.segments@.len() implies self.segments@[a].start_time
                        <= self.segments@[b].start_time by {
                    assert(self.segments@[a].start_time == old(self).segments@[a].start_time);
                    assert(self.segments@[b].start_time == old(self).segments@[b].start_time);
                }
            }
        }
    }

    /// The mean of the segments' tempos, 120 beats per minute for an empty
    /// timeline.
    #[verifier::loop_isolation(false)]
    pub fn get_average_bpm(&self) -> (r: u32)
        ensures
            self.segments@.len() == 0 ==> r == 120_000,
            self.segments@.len() > 0 ==> r == sum_bpm(self.segments@) / self.segments@.len() as int,
    {
        if self.segments.len() == 0 {
            return 120_000;
        }
        let mut acc: u128 = 0;
        let mut i: usize = 0;
        proof {
            assert(self.segments@.take(0) =~= Seq::<TimelineSegment>::empty());
        }
        while i < self.segments.len()
            invariant
                i <= self.segments@.len(),
                acc == sum_bpm(self.segments@.take(i as int)),
                acc <= i * (u32::MAX as int),
            decreases self.segments@.len() - i,
        {
            acc = acc + (self.segments[i].bpm as u128);
            i = i + 1;
            proof {
                assert(self.segments@.take(i as int).drop_last() =~= self.segments@.take(
                    i as int - 1,
                ));
                assert(self.segments@.take(i as int).last() == self.segments@[i as int - 1]);
            }
        }
        proof {
            assert(self.segments@.take(self.segments@.len() as int) =~= self.segments@);
            lemma_avg_fits(
                sum_bpm(self.segments@),
                self.segments@.len() as int,
                u32::MAX as int,
            );
        }
        (acc / (self.segments.len() as u128)) as u32
    }
}

/// The mean of values each below a bound stays below that bound.
proof fn lemma_avg_fits(sum: int, n: int, bound: int)
    requires
        n >= 1,
        bound >= 0,
        0 <= sum <= n * bound,
    ensures
        0 <= sum / n <= bound,
    decreases n,
{
    vstd::arithmetic::div_mod::lemma_div_pos_is_pos(sum, n);
    vstd::arithmetic::div_mod::lemma_div_is_ordered(sum, n * bound, n);
    assert((n * bound) / n == bound) by {
        vstd::arithmetic::div_mod::lemma_div_multiples_vanish(bound, n);
    }
}


impl Clone for TimelineSegment {
    /// A deep copy: identical identifier, placement, meter, tempo and
    /// patterns.
    fn clone(&self) -> (r: Self)
        ensures
            r.id == self.id,
            r.start_time == self.start_time,
            r.duration == self.duration,
            r.pattern_id == self.pattern_id,
            r.patterns@.len() == self.patterns@.len(),
            forall|i: int|
                0 <= i < self.patterns@.len() ==> #[trigger] r.patterns@[i].name
                    == self.patterns@[i].name && r.patterns@[i].sample_name
                    == self.patterns@[i].sample_name && r.patterns@[i].steps@
                    == self.patterns@[i].steps@,
            r.loop_count == self.loop_count,
            r.time_signature == self.time_signature,
            r.bpm == self.bpm,
            segments_equal(r, *self),
    {
        let mut patterns: Vec<Pattern> = Vec::new();
        let mut i: usize = 0;
        while i < self.patterns.len()
            invariant
                i <= self.patterns@.len(),
                patterns@.len() == i,
                forall|j: int|
                    0 <= j < i ==> #[trigger] patterns@[j].name == self.patterns@[j].name
                        && patterns@[j].sample_name == self.patterns@[j].sample_name
                        && patterns@[j].steps@ == self.patterns@[j].steps@,
            decreases self.patterns@.len() - i,
        {
            let p = self.patterns[i].clone();
            patterns.push(p);
            i = i + 1;
        }
        TimelineSegment {
            id: self.id.clone(),
            start_time: self.start_time,
            duration: self.duration,
            pattern_id: self.pattern_id.clone(),
            patterns,
            loop_count: self.loop_count,
            time_signature: self.time_signature,
            bpm: self.bpm,
        }
    }
}

/// A split is due: some segment carries the identifier, and the split time
/// falls strictly inside the first segment that does.
pub open spec fn split_applies(
    s: Seq<TimelineSegment>,
    segment_id: Seq<char>,
    split_time: int,
) -> bool {
    exists|k: int|
        #![auto]
        0 <= k < s.len() && s[k].id@ == segment_id && (forall|j: int|
            0 <= j < k ==> s[j].id@ != segment_id) && s[k].start_time < split_time
            < s[k].start_time + s[k].duration
}

/// A loop count divided at a split point: the count scaled by the ratio of
/// one part to the whole, rounded to nearest, and held to at least 1.
pub open spec fn split_count(loop_count: int, part: int, whole: int) -> int {
    if (2 * loop_count * part + whole) / (2 * whole) < 1 {
        1
    } else {
        (2 * loop_count * part + whole) / (2 * whole)
    }
}

impl Timeline {
    /// Copies the first segment carrying `segment_id` to a new start time
    /// under a fresh identifier, and returns that identifier; with no such
    /// segment nothing changes.
    pub fn duplicate_segment(&mut self, segment_id: &str, new_start_time: u64) -> (r: Option<
        String,
    >)
        requires
            old(self).next_segment_id + 1 < u64::MAX,
            forall|i: int|
                0 <= i < old(self).segments@.len() ==> new_start_time + #[trigger] old(
                    self,
                ).segments@[i].duration <= u64::MAX,
        ensures
            r is None ==> *final(self) == *old(self) && (forall|j: int|
                0 <= j < old(self).segments@.len() ==> old(self).segments@[j].id@
                    != segment_id@),
            r matches Some(new_id) ==> new_id@ == spec_segment_id(
                old(self).next_segment_id as int,
            ) && exists|k: int, k2: int|
                #![trigger old(self).segments@[k], final(self).segments@[k2]]
                {
                    &&& 0 <= k < old(self).segments@.len()
                    &&& old(self).segments@[k].id@ == segment_id@
                    &&& (forall|j: int| 0 <= j < k ==> old(self).segments@[j].id@ != segment_id@)
                    &&& 0 <= k2 <= old(self).segments@.len()
                    &&& final(self).segments@ == old(self).segments@.insert(
                        k2,
                        final(self).segments@[k2],
                    )
                    &&& final(self).segments@[k2].id@ == new_id@
                    &&& final(self).segments@[k2].start_time == new_start_time
                    &&& final(self).segments@[k2].duration == old(self).segments@[k].duration
                    &&& final(self).segments@[k2].pattern_id == old(self).segments@[k].pattern_id
                    &&& patterns_equal(
                        final(self).segments@[k2].patterns@,
                        old(self).segments@[k].patterns@,
                    )
                    &&& final(self).segments@[k2].loop_count == old(self).segments@[k].loop_count
                    &&& final(self).segments@[k2].time_signature == old(
                        self,
                    ).segments@[k].time_signature
                    &&& final(self).segments@[k2].bpm == old(self).segments@[k].bpm
                },
            final(self).current_position == old(self).current_position,
            final(self).playback_state == old(self).playback_state,
            old(self).sorted() ==> final(self).sorted(),
            old(self).wf() ==> final(self).wf(),
    {
        let k = match self.find_segment_index(segment_id) {
            Some(k) => k,
            None => {
                return None;
            },
        };
        let fresh = self.generate_segment_id();
        let new_id = fresh.clone();
        let mut dup = self.segments[k].clone();
        dup.id = fresh;
        dup.start_time = new_start_time;
        let ghost dupg = dup;
        let ghost pre = self.segments@;
        let k2 = self.insert_sorted(dup);
        proof {
            assert(final(self).segments@[k2 as int] == dupg);
            assert(patterns_equal(dupg.patterns@, pre[k as int].patterns@));
        }
        Some(new_id)
    }

    /// Splits the first segment carrying `segment_id` at `split_time`,
    /// which must fall strictly inside it: the segment keeps its identifier
    /// and the stretch before the split, a new segment under a fresh
    /// identifier covers the stretch after it, and the loop count is divided
    /// between them in proportion to the elapsed time, rounded, each part at
    /// least 1. Returns the new segment's identifier.
    pub fn split_segment(&mut self, segment_id: &str, split_time: u64) -> (r: Option<String>)
        requires
            old(self).wf(),
            old(self).next_segment_id + 1 < u64::MAX,
        ensures
            r is Some <==> split_applies(old(self).segments@, segment_id@, split_time as int),
            r is None ==> *final(self) == *old(self),
            r matches Some(new_id) ==> new_id@ == spec_segment_id(
                old(self).next_segment_id as int,
            ) && exists|k: int, k2: int|
                #![trigger old(self).segments@[k], final(self).segments@[k2]]
                {
                    &&& 0 <= k < old(self).segments@.len()
                    &&& old(self).segments@[k].id@ == segment_id@
                    &&& (forall|j: int| 0 <= j < k ==> old(self).segments@[j].id@ != segment_id@)
                    &&& old(self).segments@[k].start_time < split_time < old(
                        self,
                    ).segments@[k].start_time + old(self).segments@[k].duration
                    &&& 0 <= k2 <= old(self).segments@.len()
                    &&& final(self).segments@ == old(self).segments@.update(
                        k,
                        TimelineSegment {
                            loop_count: split_count(
                                old(self).segments@[k].loop_count as int,
                                split_time - old(self).segments@[k].start_time,
                                old(self).segments@[k].duration as int,
                            ) as usize,
                            duration: (split_time - old(self).segments@[k].start_time) as u64,
                            ..old(self).segments@[k]
                        },
                    ).insert(k2, final(self).segments@[k2])
                    &&& final(self).segments@[k2].id@ == new_id@
                    &&& final(self).segments@[k2].start_time == split_time
                    &&& final(self).segments@[k2].duration == old(self).segments@[k].start_time
                        + old(self).segments@[k].duration - split_time
                    &&& final(self).segments@[k2].loop_count == split_count(
                        old(self).segments@[k].loop_count as int,
                        old(self).segments@[k].start_time + old(self).segments@[k].duration
                            - split_time,
                        old(self).segments@[k].duration as int,
                    )
                    &&& final(self).segments@[k2].pattern_id == old(self).segments@[k].pattern_id
                    &&& patterns_equal(
                        final(self).segments@[k2].patterns@,
                        old(self).segments@[k].patterns@,
                    )
                    &&& final(self).segments@[k2].time_signature == old(
                        self,
                    ).segments@[k].time_signature
                    &&& final(self).segments@[k2].bpm == old(self).segments@[k].bpm
                },
            final(self).current_position == old(self).current_position,
            final(self).playback_state == old(self).playback_state,
            old(self).sorted() ==> final(self).sorted(),
            final(self).wf(),
    {
        let k = match self.find_segment_index(segment_id) {
            Some(k) => k,
            None => {
                proof {
                    if split_applies(self.segments@, segment_id@, split_time as int) {
                        let kk = choose|kk: int|
                            #![auto]
                            0 <= kk < self.segments@.len() && self.segments@[kk].id@
                                == segment_id@ && (forall|j: int|
                                0 <= j < kk ==> self.segments@[j].id@ != segment_id@)
                                && self.segments@[kk].start_time < split_time
                                < self.segments@[kk].start_time + self.segments@[kk].duration;
                        assert(self.segments@[kk].id@ != segment_id@);
                    }
                }
                return None;
            },
        };
        let start = self.segments[k].start_time;
        let dur = self.segments[k].duration;
        if split_time <= start {
            proof {
                lemma_split_does_not_apply(
                    self.segments@,
                    segment_id@,
                    split_time as int,
                    k as int,
                );
            }
            return None;
        }
        let end = self.segments[k].end_time();
        if split_time >= end {
            proof {
                lemma_split_does_not_apply(
                    self.segments@,
                    segment_id@,
                    split_time as int,
                    k as int,
                );
            }
            return None;
        }
        proof {
            assert(split_applies(self.segments@, segment_id@, split_time as int)) by {
                assert(0 <= k < self.segments@.len() && self.segments@[k as int].id@
                    == segment_id@ && (forall|j: int|
                    0 <= j < k ==> self.segments@[j].id@ != segment_id@)
                    && self.segments@[k as int].start_time < split_time
                    < self.segments@[k as int].start_time + self.segments@[k as int].duration);
            }
        }
        let first_duration = split_time - start;
        let second_duration = end - split_time;
        let lc = self.segments[k].loop_count;
        proof {
            lemma_split_count_bounds(lc as int, first_duration as int, dur as int);
            lemma_split_count_bounds(lc as int, second_duration as int, dur as int);
        }
        let first_lc = split_count_exec(lc, first_duration, dur);
        let second_lc = split_count_exec(lc, second_duration, dur);
        let fresh = self.generate_segment_id();
        let new_id = fresh.clone();
        let mut second = self.segments[k].clone();
        second.id = fresh;
        second.start_time = split_time;
        second.loop_count = second_lc;
        second.duration = second_duration;
        let ghost pre = self.segments@;
        let mut first = self.segments.remove(k);
        first.loop_count = first_lc;
        first.duration = first_duration;
        self.segments.insert(k, first);
        proof {
            assert(self.segments@ =~= pre.update(
                k as int,
                TimelineSegment {
                    loop_count: split_count(lc as int, first_duration as int, dur as int) as usize,
                    duration: first_duration,
                    ..pre[k as int]
                },
            ));
            if sorted_by_start(pre) {
                assert forall|a: int, b: int|
                    0 <= a < b < self.segments@.len() implies self.segments@[a].start_time
                        <= self.segments@[b].start_time by {
                    assert(self.segments@[a].start_time == pre[a].start_time);
                    assert(self.segments@[b].start_time == pre[b].start_time);
                }
            }
        }
        let ghost mid2 = self.segments@;
        let ghost secondg = second;
        proof {
            assert(seg_fits(secondg));
            assert forall|j: int| 0 <= j < mid2.len() implies seg_fits(
                #[trigger] mid2[j],
            ) by {
                if j != k as int {
                    assert(mid2[j] == pre[j]);
                }
            }
            assert(patterns_equal(secondg.patterns@, pre[k as int].patterns@));
        }
        let k2 = self.insert_sorted(second);
        proof {
            assert(final(self).segments@[k2 as int] == secondg);
        }
        Some(new_id)
    }
}

/// Computes `split_count` exactly.
fn split_count_exec(loop_count: usize, part: u64, whole: u64) -> (r: usize)
    requires
        loop_count <= u32::MAX,
        1 <= whole,
        part <= whole,
    ensures
        r == split_count(loop_count as int, part as int, whole as int),
        r <= if loop_count >= 1 {
            loop_count as int
        } else {
            1
        },
        r >= 1,
{
    proof {
        lemma_split_count_bounds(loop_count as int, part as int, whole as int);
        vstd::arithmetic::mul::lemma_mul_upper_bound(
            2 * loop_count as int,
            2 * (u32::MAX as int),
            part as int,
            u64::MAX as int,
        );
        vstd::arithmetic::mul::lemma_mul_nonnegative(2 * loop_count as int, part as int);
    }
    let num = 2u128 * (loop_count as u128) * (part as u128) + (whole as u128);
    let q = num / (2u128 * (whole as u128));
    let r128 = if q < 1 {
        1u128
    } else {
        q
    };
    r128 as usize
}

/// The rounded proportional loop count lies between 1 and the whole count.
proof fn lemma_split_count_bounds(loop_count: int, part: int, whole: int)
    requires
        0 <= loop_count,
        1 <= whole,
        0 <= part <= whole,
    ensures
        1 <= split_count(loop_count, part, whole),
        split_count(loop_count, part, whole) <= if loop_count >= 1 {
            loop_count
        } else {
            1
        },
{
    let q = (2 * loop_count * part + whole) / (2 * whole);
    assert(2 * loop_count * part <= 2 * loop_count * whole) by {
        if loop_count > 0 {
            vstd::arithmetic::mul::lemma_mul_left_inequality(2 * loop_count, part, whole);
        } else {
            vstd::arithmetic::mul::lemma_mul_basics(part);
            vstd::arithmetic::mul::lemma_mul_basics(whole);
        }
    }
    assert(2 * loop_count * whole == loop_count * (2 * whole)) by {
        vstd::arithmetic::mul::lemma_mul_is_associative(2, loop_count, whole);
        vstd::arithmetic::mul::lemma_mul_is_commutative(2 * loop_count, whole);
        vstd::arithmetic::mul::lemma_mul_is_associative(loop_count, 2, whole);
        vstd::arithmetic::mul::lemma_mul_is_commutative(loop_count, 2);
    }
    vstd::arithmetic::div_mod::lemma_div_is_ordered(
        2 * loop_count * part + whole,
        loop_count * (2 * whole) + whole,
        2 * whole,
    );
    assert((loop_count * (2 * whole) + whole) / (2 * whole) == loop_count) by {
        vstd::arithmetic::div_mod::lemma_hoist_over_denominator(
            whole,
            loop_count,
            (2 * whole) as nat,
        );
        vstd::arithmetic::div_mod::lemma_basic_div(whole, 2 * whole);
    }
    assert(q <= loop_count);
    assert(0 <= 2 * loop_count * part) by {
        vstd::arithmetic::mul::lemma_mul_nonnegative(2 * loop_count, part);
    }
    vstd::arithmetic::div_mod::lemma_div_pos_is_pos(2 * loop_count * part + whole, 2 * whole);
}

/// When the first segment carrying the identifier does not contain the
/// split time strictly, no split is due: the first carrier is unique.
proof fn lemma_split_does_not_apply(
    s: Seq<TimelineSegment>,
    segment_id: Seq<char>,
    split_time: int,
    k: int,
)
    requires
        0 <= k < s.len(),
        s[k].id@ == segment_id,
        forall|j: int| 0 <= j < k ==> s[j].id@ != segment_id,
        !(s[k].start_time < split_time < s[k].start_time + s[k].duration),
    ensures
        !split_applies(s, segment_id, split_time),
{
    if split_applies(s, segment_id, split_time) {
        let kk = choose|kk: int|
            #![auto]
            0 <= kk < s.len() && s[kk].id@ == segment_id && (forall|j: int|
                0 <= j < kk ==> s[j].id@ != segment_id) && s[kk].start_time < split_time
                < s[kk].start_time + s[kk].duration;
        if kk < k {
            assert(s[kk].id@ != segment_id);
        } else if kk > k {
            assert(s[k].id@ != segment_id);
        }
    }
}

/// A plain value tree holding everything a timeline is, fit for an outside
/// collaborator to persist and hand back verbatim.
#[derive(Debug)]
pub struct TimelineSnapshot {
    pub segments: Vec<TimelineSegment>,
    pub current_position: u64,
    pub playback_state: PlaybackState,
}

impl Timeline {
    /// Copies the timeline into a plain snapshot value.
    pub fn to_snapshot(&self) -> (r: TimelineSnapshot)
        ensures
            r.segments@.len() == self.segments@.len(),
            forall|i: int|
                0 <= i < self.segments@.len() ==> segments_equal(
                    #[trigger] r.segments@[i],
                    self.segments@[i],
                ),
            r.current_position == self.current_position,
            r.playback_state == self.playback_state,
    {
        let mut segments: Vec<TimelineSegment> = Vec::new();
        let mut i: usize = 0;
        while i < self.segments.len()
            invariant
                i <= self.segments@.len(),
                segments@.len() == i,
                forall|j: int|
                    0 <= j < i ==> segments_equal(
                        #[trigger] segments@[j],
                        self.segments@[j],
                    ),
            decreases self.segments@.len() - i,
        {
            let s = self.segments[i].clone();
            segments.push(s);
            i = i + 1;
        }
        TimelineSnapshot {
            segments,
            current_position: self.current_position,
            playback_state: self.playback_state,
        }
    }

    /// Rebuilds a timeline from a snapshot, adopting its segments, position
    /// and state verbatim; fresh identifiers start past the adopted count.
    pub fn from_snapshot(snapshot: TimelineSnapshot) -> (r: Timeline)
        ensures
            r.segments == snapshot.segments,
            r.current_position == snapshot.current_position,
            r.playback_state == snapshot.playback_state,
            r.next_segment_id == snapshot.segments@.len(),
    {
        let next = snapshot.segments.len() as u64;
        Timeline {
            segments: snapshot.segments,
            current_position: snapshot.current_position,
            playback_state: snapshot.playback_state,
            next_segment_id: next,
        }
    }
}

/// The round-trip law: a timeline rebuilt from its snapshot plays as the
/// original did. Segment for segment the two agree on identifier, placement,
/// loop count, meter, tempo and pattern contents, so they share the same
/// total duration, the same ordering of segments, and the same step data.
pub proof fn lemma_snapshot_round_trip(t: Timeline, u: Timeline)
    requires
        u.segments@.len() == t.segments@.len(),
        forall|i: int|
            0 <= i < t.segments@.len() ==> segments_equal(
                #[trigger] u.segments@[i],
                t.segments@[i],
            ),
        u.current_position == t.current_position,
        u.playback_state == t.playback_state,
    ensures
        max_end(u.segments@) == max_end(t.segments@),
        t.sorted() <==> u.sorted(),
{
    lemma_max_end_equal(u.segments@, t.segments@);
    assert forall|i: int, j: int|
        0 <= i < j < t.segments@.len() implies (u.segments@[i].start_time
        <= u.segments@[j].start_time) == (t.segments@[i].start_time
        <= t.segments@[j].start_time) by {
        assert(segments_equal(u.segments@[i], t.segments@[i]));
        assert(segments_equal(u.segments@[j], t.segments@[j]));
    }
}

/// Sequences of pairwise matching segments end at the same time.
proof fn lemma_max_end_equal(a: Seq<TimelineSegment>, b: Seq<TimelineSegment>)
    requires
        a.len() == b.len(),
        forall|i: int| 0 <= i < a.len() ==> segments_equal(#[trigger] a[i], b[i]),
    ensures
        max_end(a) == max_end(b),
    decreases a.len(),
{
    if a.len() > 0 {
        assert(segments_equal(a[a.len() - 1], b[b.len() - 1]));
        assert(forall|i: int|
            0 <= i < a.drop_last().len() ==> a.drop_last()[i] == a[i] && b.drop_last()[i]
                == b[i]);
        lemma_max_end_equal(a.drop_last(), b.drop_last());
    }
}

} // verus!
