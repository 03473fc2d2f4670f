use vstd::prelude::*;

use std::collections::VecDeque;

use crate::consts::HISTORY_SAMPLES;
use crate::nmea_0183::packets::satellites_in_view::{Satellite, SatellitesInView};
use crate::nmea_0183::Sentence;

verus! {

/// The mean signal-to-noise ratio over the satellites of one completed
/// view, kept exactly: the mean is `sum / count`. A count of zero records
/// that no satellite of the view reported a ratio, so the mean is
/// undefined.
#[derive(Debug, Clone, Copy, PartialEq, Eq, Structural)]
pub struct SnrAverage {
    /// The sum of the reported signal-to-noise ratios.
    pub sum: u128,
    /// How many satellites reported one.
    pub count: usize,
}

/// The sum of the signal-to-noise ratios that the satellites of `s` report.
pub open spec fn spec_snr_sum(s: Seq<Satellite>) -> int
    decreases s.len(),
{
    if s.len() == 0 {
        0
    } else {
        spec_snr_sum(s.drop_last()) + (match s.last().snr {
            Some(v) => v as int,
            None => 0,
        })
    }
}

/// How many satellites of `s` report a signal-to-noise ratio.
pub open spec fn spec_snr_count(s: Seq<Satellite>) -> int
    decreases s.len(),
{
    if s.len() == 0 {
        0
    } else {
        spec_snr_count(s.drop_last()) + (if s.last().snr is Some {
            1int
        } else {
            0int
        })
    }
}

/// The history after eviction: the oldest samples leave from the front
/// until the fixed capacity holds.
pub open spec fn spec_trim_history(s: Seq<SnrAverage>) -> Seq<SnrAverage>
    decreases s.len(),
{
    if s.len() > HISTORY_SAMPLES {
        spec_trim_history(s.drop_first())
    } else {
        s
    }
}

/// The history is a rolling window: after eviction it holds exactly the
/// newest samples, at most the fixed capacity of them, with the oldest
/// leaving first. So pushing more completed views than the capacity leaves
/// the history at exactly the capacity.
pub proof fn lemma_trim_history_keeps_newest(s: Seq<SnrAverage>)
    ensures
        spec_trim_history(s).len() == if s.len() <= HISTORY_SAMPLES {
            s.len()
        } else {
            HISTORY_SAMPLES as nat
        },
        spec_trim_history(s) == s.skip(
            if s.len() <= HISTORY_SAMPLES {
                0
            } else {
                s.len() - HISTORY_SAMPLES
            },
        ),
    decreases s.len(),
{
    if s.len() > HISTORY_SAMPLES {
        lemma_trim_history_keeps_newest(s.drop_first());
        assert(s.drop_first() =~= s.skip(1));
        if s.drop_first().len() <= HISTORY_SAMPLES {
            assert(s.skip(1).skip(0) =~= s.skip(s.len() - HISTORY_SAMPLES));
        } else {
            assert(s.skip(1).skip(s.skip(1).len() - HISTORY_SAMPLES) =~= s.skip(
                s.len() - HISTORY_SAMPLES,
            ));
        }
    } else {
        assert(s.skip(0) =~= s);
    }
}

/// How one satellites-in-view sentence carries the aggregate from `pre`
/// to `post`. A sentence whose number does not continue the cycle under
/// way (it is not greater than the last seen number) restarts the cycle:
/// the stale never-completed accumulation is discarded first. The
/// sentence's satellites then join the pending cycle and the reported
/// count is recorded; the sentence whose number equals the cycle total
/// publishes the pending satellites in one step, records the mean
/// signal-to-noise ratio of the published view, and evicts the oldest
/// history samples beyond the capacity.
pub open spec fn spec_gsv_step(
    pre: Satellites,
    post: Satellites,
    total_in_group: u8,
    sentence_number: u8,
    in_view: u16,
    sats: Seq<Satellite>,
) -> bool {
    let base = if sentence_number <= pre.last_seen_number {
        Seq::<Satellite>::empty()
    } else {
        pre.pending()
    };
    let merged = base + sats;
    &&& post.in_view == in_view
    &&& if total_in_group == sentence_number {
        &&& post.satellites@ == merged
        &&& post.pending() == Seq::<Satellite>::empty()
        &&& post.last_seen_number == 0
        &&& post.avg_sdr_history@ == spec_trim_history(
            pre.avg_sdr_history@.push(
                SnrAverage {
                    sum: spec_snr_sum(merged) as u128,
                    count: spec_snr_count(merged) as usize,
                },
            ),
        )
    } else {
        &&& post.satellites@ == pre.satellites@
        &&& post.pending() == merged
        &&& post.last_seen_number == sentence_number
        &&& post.avg_sdr_history@ == pre.avg_sdr_history@
    }
}

/// The satellite-visibility aggregate. Satellites of a visibility cycle
/// accumulate invisibly until the sentence that completes the cycle
/// arrives; only then is the published sequence replaced, in one step.
#[derive(Debug, Clone, PartialEq, Eq)]
pub struct Satellites {
    /// Number of satellites in view, as the last sentence reported it.
    pub in_view: u16,
    /// The satellites of the last completed view.
    pub satellites: Vec<Satellite>,
    /// The rolling history of mean signal-to-noise ratios, one sample per
    /// completed view, oldest first.
    pub avg_sdr_history: VecDeque<SnrAverage>,
    /// Holds the satellites of the cycle under way until its last sentence
    /// is received.
    pub new_satellites: Vec<Satellite>,
    /// The sentence number that last joined the cycle under way; zero when
    /// no cycle is under way. A sentence that does not continue the
    /// numbering restarts the cycle and discards the stale accumulation.
    pub last_seen_number: u8,
}

impl Satellites {
    /// The satellites accumulated for the cycle under way, which no reader
    /// of the published sequence can see yet.
    pub open spec fn pending(self) -> Seq<Satellite> {
        self.new_satellites@
    }

    pub fn new() -> (r: Satellites)
        ensures
            r.in_view == 0,
            r.satellites@ == Seq::<Satellite>::empty(),
            r.avg_sdr_history@ == Seq::<SnrAverage>::empty(),
            r.pending() == Seq::<Satellite>::empty(),
            r.last_seen_number == 0,
    {
        Satellites {
            in_view: 0,
            satellites: Vec::new(),
            avg_sdr_history: VecDeque::new(),
            new_satellites: Vec::new(),
            last_seen_number: 0,
        }
    }

    /// How many satellites of the published view are connected, that is,
    /// report a signal-to-noise ratio; wrapped to a byte as the display
    /// expects it.
    pub fn connected(&self) -> (r: u8)
        ensures
            r == (spec_snr_count(self.satellites@) % 256) as u8,
    {
        let ghost s = self.satellites@;
        let mut count: usize = 0;
        let mut i: usize = 0;
        proof {
            assert(s.subrange(0, 0) =~= Seq::<Satellite>::empty());
        }
        while i < self.satellites.len()
            invariant
                0 <= i <= s.len(),
                self.satellites@ == s,
                count == spec_snr_count(s.subrange(0, i as int)),
                0 <= count <= i,
            decreases s.len() - i,
        {
            proof {
                assert(s.subrange(0, i as int + 1).drop_last() =~= s.subrange(0, i as int));
                assert(s.subrange(0, i as int + 1).last() == s[i as int]);
            }
            if self.satellites[i].snr.is_some() {
                count = count + 1;
            }
            i = i + 1;
        }
        proof {
            assert(s.subrange(0, s.len() as int) =~= s);
        }
        (count % 256) as u8
    }

    /// Applies one decoded sentence to the aggregate. Only a
    /// satellites-in-view sentence touches it: its satellites join the
    /// pending cycle and its count is recorded, a sentence that restarts
    /// the cycle's numbering discards the stale accumulation first, and
    /// the sentence whose number equals the cycle total publishes the
    /// pending satellites in one step, records the mean signal-to-noise
    /// ratio of the published view, and evicts the oldest history samples
    /// beyond the capacity.
    pub fn handle(&mut self, sentence: &Sentence)
        ensures
            match *sentence {
                Sentence::Gsv(v) => spec_gsv_step(
                    *old(self),
                    *final(self),
                    v.total_in_group,
                    v.sentence_number,
                    v.in_view,
                    v.satellites@,
                ),
                _ => *final(self) == *old(self),
            },
    {
        if let Sentence::Gsv(sentence) = sentence {
            self.handle_inner(sentence);
        }
    }

    fn handle_inner(&mut self, sentence: &SatellitesInView)
        ensures
            spec_gsv_step(
                *old(self),
                *final(self),
                sentence.total_in_group,
                sentence.sentence_number,
                sentence.in_view,
                sentence.satellites@,
            ),
    {
        if sentence.sentence_number <= self.last_seen_number {
            // The numbering restarted before the cycle under way was
            // complete: the stale accumulation is discarded.
            self.new_satellites.clear();
        }
        let ghost pending0 = self.new_satellites@;
        self.in_view = sentence.in_view;

        let mut i: usize = 0;
        proof {
            assert(pending0 + sentence.satellites@.subrange(0, 0) =~= pending0);
        }
        while i < sentence.satellites.len()
            invariant
                0 <= i <= sentence.satellites@.len(),
                self.new_satellites@ == pending0 + sentence.satellites@.subrange(0, i as int),
                self.in_view == sentence.in_view,
                self.satellites@ == old(self).satellites@,
                self.avg_sdr_history@ == old(self).avg_sdr_history@,
                self.last_seen_number == old(self).last_seen_number,
            decreases sentence.satellites@.len() - i,
        {
            proof {
                assert(pending0 + sentence.satellites@.subrange(0, i as int + 1) =~= (pending0
                    + sentence.satellites@.subrange(0, i as int)).push(
                    sentence.satellites@[i as int],
                ));
            }
            self.new_satellites.push(sentence.satellites[i]);
            i = i + 1;
        }
        proof {
            assert(sentence.satellites@.subrange(0, sentence.satellites@.len() as int)
                =~= sentence.satellites@);
        }

        if sentence.total_in_group == sentence.sentence_number {
            std::mem::swap(&mut self.new_satellites, &mut self.satellites);
            self.new_satellites.clear();

            let avg = self.published_average();
            self.avg_sdr_history.push_back(avg);
            let ghost pushed = self.avg_sdr_history@;
            while self.avg_sdr_history.len() > HISTORY_SAMPLES
                invariant
                    spec_trim_history(self.avg_sdr_history@) == spec_trim_history(pushed),
                    self.in_view == sentence.in_view,
                    self.satellites@ == pending0 + sentence.satellites@,
                    self.new_satellites@ == Seq::<Satellite>::empty(),
                decreases self.avg_sdr_history@.len(),
            {
                self.avg_sdr_history.pop_front();
            }
            self.last_seen_number = 0;
        } else {
            self.last_seen_number = sentence.sentence_number;
        }
    }

    /// Computes the mean signal-to-noise ratio of the published view.
    fn published_average(&self) -> (r: SnrAverage)
        ensures
            r.sum == spec_snr_sum(self.satellites@),
            r.count == spec_snr_count(self.satellites@),
    {
        let ghost s = self.satellites@;
        let mut sum: u128 = 0;
        let mut count: usize = 0;
        let mut i: usize = 0;
        proof {
            assert(s.subrange(0, 0) =~= Seq::<Satellite>::empty());
        }
        while i < self.satellites.len()
            invariant
                0 <= i <= s.len(),
                self.satellites@ == s,
                sum == spec_snr_sum(s.subrange(0, i as int)),
                count == spec_snr_count(s.subrange(0, i as int)),
                sum <= 255 * i,
                0 <= count <= i,
            decreases s.len() - i,
        {
            proof {
                assert(s.subrange(0, i as int + 1).drop_last() =~= s.subrange(0, i as int));
                assert(s.subrange(0, i as int + 1).last() == s[i as int]);
            }
            match self.satellites[i].snr {
                Some(v) => {
                    sum = sum + (v as u128);
                    count = count + 1;
                },
                None => {},
            }
            i = i + 1;
        }
        proof {
            assert(s.subrange(0, s.len() as int) =~= s);
        }
        SnrAverage { sum, count }
    }
}

} // verus!
