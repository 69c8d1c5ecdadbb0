//! Ranking of class probabilities.
//!
//! A probability travels through this module as the bit pattern of an
//! IEEE-754 single-precision number. Patterns are ordered by [`ordinal`],
//! which rises with the number that a pattern encodes.

use vstd::prelude::*;
use crate::error::PredictionMismatch;

verus! {

/// The place of a single-precision bit pattern in the order of the numbers
/// encoded. A pattern below `2^31` has a clear sign bit and encodes a
/// non-negative number, larger as the pattern is larger; a pattern from
/// `2^31` on encodes the negative of what the pattern without its sign bit
/// encodes. Both zeros get the place `0`. The patterns that encode no number
/// lie beyond the infinity of their sign.
pub open spec fn ordinal(bits: u32) -> int {
    if bits < 0x8000_0000 {
        bits as int
    } else {
        0x8000_0000 - bits
    }
}

/// Computes [`ordinal`].
pub fn ordinal_of(bits: u32) -> (place: i64)
    ensures
        place == ordinal(bits),
{
    if bits < 0x8000_0000 {
        bits as i64
    } else {
        0x8000_0000i64 - (bits as i64)
    }
}

/// A class together with its probability.
#[derive(Debug, Clone, Copy, PartialEq, Eq, Structural)]
pub struct RankedEntry {
    /// The index of the class among the scores that were ranked.
    pub class_index: usize,
    /// The probability, as the bit pattern of a single-precision number.
    pub probability_bits: u32,
}

/// `a` stands before `b` in a ranking: its probability is the higher one, or
/// the two are equal and its class index is the lower one.
pub open spec fn outranks(a: RankedEntry, b: RankedEntry) -> bool {
    ||| ordinal(a.probability_bits) > ordinal(b.probability_bits)
    ||| (ordinal(a.probability_bits) == ordinal(b.probability_bits) && a.class_index < b.class_index)
}

/// Each entry stands before all that follow it.
pub open spec fn is_descending(entries: Seq<RankedEntry>) -> bool {
    forall|i: int, j: int| 0 <= i < j < entries.len() ==> outranks(#[trigger] entries[i], #[trigger] entries[j])
}

/// Some entry is that of class `c`.
pub open spec fn holds_class(entries: Seq<RankedEntry>, c: int) -> bool {
    exists|k: int| 0 <= k < entries.len() && (#[trigger] entries[k]).class_index == c
}

/// The entries are those of the classes `0 .. entries.len()`, each entry
/// before all that it outranks.
pub open spec fn is_ranked(entries: Seq<RankedEntry>) -> bool {
    &&& forall|k: int| 0 <= k < entries.len() ==> (#[trigger] entries[k]).class_index < entries.len()
    &&& forall|c: int| 0 <= c < entries.len() ==> #[trigger] holds_class(entries, c)
    &&& is_descending(entries)
}

/// `entries` is the ranking of `scores`: every class occurs in it with its own
/// score, and each entry stands before all that follow it.
pub open spec fn is_ranking(scores: Seq<u32>, entries: Seq<RankedEntry>) -> bool {
    &&& entries.len() == scores.len()
    &&& is_ranked(entries)
    &&& forall|k: int|
        0 <= k < entries.len() ==> (#[trigger] entries[k]).probability_bits
            == scores[entries[k].class_index as int]
}

/// Putting the last class at the slot where everything before outranks it and
/// it outranks everything after extends the ranking of the classes before it.
proof fn lemma_insert_extends_ranking(scores: Seq<u32>, entries: Seq<RankedEntry>, slot: int, entry: RankedEntry)
    requires
        scores.len() >= 1,
        is_ranking(scores.drop_last(), entries),
        entry.class_index == scores.len() - 1,
        entry.probability_bits == scores.last(),
        0 <= slot <= entries.len(),
        forall|k: int| 0 <= k < slot ==> outranks(#[trigger] entries[k], entry),
        forall|k: int| slot <= k < entries.len() ==> outranks(entry, #[trigger] entries[k]),
    ensures
        is_ranking(scores, entries.insert(slot, entry)),
{
    let before = scores.drop_last();
    let after = entries.insert(slot, entry);
    assert forall|k: int| 0 <= k < after.len() implies (#[trigger] after[k]).class_index < after.len()
        && after[k].probability_bits == scores[after[k].class_index as int] by {
        if k < slot {
            assert(after[k] == entries[k]);
            assert(before[entries[k].class_index as int] == scores[entries[k].class_index as int]);
        } else if k > slot {
            assert(after[k] == entries[k - 1]);
            assert(before[entries[k - 1].class_index as int] == scores[entries[k - 1].class_index as int]);
        }
    }
    assert forall|c: int| 0 <= c < scores.len() implies #[trigger] holds_class(after, c) by {
        if c == scores.len() - 1 {
            assert(after[slot].class_index == c);
        } else {
            assert(holds_class(entries, c));
            let k = choose|k: int| 0 <= k < entries.len() && (#[trigger] entries[k]).class_index == c;
            if k < slot {
                assert(after[k].class_index == c);
            } else {
                assert(after[k + 1] == entries[k]);
                assert(after[k + 1].class_index == c);
            }
        }
    }
    assert forall|i: int, j: int| 0 <= i < j < after.len() implies outranks(
        #[trigger] after[i],
        #[trigger] after[j],
    ) by {
        let a = if i < slot { i } else { i - 1 };
        let b = if j < slot { j } else { j - 1 };
        if i != slot && j != slot {
            assert(after[i] == entries[a]);
            assert(after[j] == entries[b]);
        } else if i == slot {
            assert(after[j] == entries[b]);
        } else {
            assert(after[i] == entries[a]);
        }
    }
}

/// The first slot of a ranking whose entry has a lower probability than
/// `entry`, or its length if there is none.
fn insertion_slot(entries: &Vec<RankedEntry>, entry: RankedEntry) -> (slot: usize)
    requires
        is_descending(entries@),
        forall|k: int| 0 <= k < entries@.len() ==> (#[trigger] entries@[k]).class_index < entry.class_index,
    ensures
        slot <= entries@.len(),
        forall|k: int| 0 <= k < slot ==> outranks(#[trigger] entries@[k], entry),
        forall|k: int| slot <= k < entries@.len() ==> outranks(entry, #[trigger] entries@[k]),
{
    let place: i64 = ordinal_of(entry.probability_bits);
    let mut slot: usize = 0;
    while slot < entries.len() && ordinal_of(entries[slot].probability_bits) >= place
        invariant
            slot <= entries@.len(),
            place == ordinal(entry.probability_bits),
            forall|k: int| 0 <= k < entries@.len() ==> (#[trigger] entries@[k]).class_index < entry.class_index,
            forall|k: int| 0 <= k < slot ==> outranks(#[trigger] entries@[k], entry),
        decreases entries@.len() - slot,
    {
        slot += 1;
    }
    proof {
        if slot < entries@.len() {
            assert forall|k: int| slot <= k < entries@.len() implies outranks(entry, #[trigger] entries@[k]) by {
                if k > slot {
                    assert(outranks(entries@[slot as int], entries@[k]));
                }
            }
        }
    }
    slot
}

/// The classes of a score vector, best first.
#[derive(Debug, PartialEq, Eq)]
pub struct RankedResult {
    entries: Vec<RankedEntry>,
}

impl View for RankedResult {
    type V = Seq<RankedEntry>;

    closed spec fn view(&self) -> Seq<RankedEntry> {
        self.entries@
    }
}

impl RankedResult {
    /// Every class index below the length occurs, and each entry stands
    /// before all that follow it.
    #[verifier::type_invariant]
    pub open spec fn wf(&self) -> bool {
        is_ranked(self@)
    }

    /// Number of classes.
    pub fn len(&self) -> (n: usize)
        ensures
            n == self@.len(),
    {
        self.entries.len()
    }

    /// The entries, best first.
    pub fn entries(&self) -> (e: &Vec<RankedEntry>)
        ensures
            e@ == self@,
            is_ranked(self@),
    {
        proof {
            use_type_invariant(self);
        }
        &self.entries
    }

    /// The entry ranked first, if there is any class at all.
    pub fn top(&self) -> (best: Option<RankedEntry>)
        ensures
            best == if self@.len() > 0 {
                Some(self@[0])
            } else {
                None
            },
    {
        if self.entries.len() > 0 {
            Some(self.entries[0])
        } else {
            None
        }
    }

    /// Holds the class ranked first against the label that was expected.
    /// Succeeds exactly when there is a first entry and its class is
    /// `expected`; otherwise reports both.
    pub fn check_prediction(&self, expected: usize) -> (out: Result<(), PredictionMismatch>)
        ensures
            match out {
                Ok(_) => self@.len() > 0 && self@[0].class_index == expected,
                Err(mismatch) => !(self@.len() > 0 && self@[0].class_index == expected)
                    && mismatch == (PredictionMismatch {
                    expected,
                    predicted: if self@.len() > 0 {
                        Some(self@[0].class_index)
                    } else {
                        None
                    },
                }),
            },
    {
        match self.top() {
            Some(best) => {
                if best.class_index == expected {
                    Ok(())
                } else {
                    Err(PredictionMismatch { expected, predicted: Some(best.class_index) })
                }
            },
            None => Err(PredictionMismatch { expected, predicted: None }),
        }
    }
}

/// Ranks the classes of a probability vector, given as single-precision bit
/// patterns: descending by probability, and where two probabilities are
/// equal, the lower class index first.
pub fn rank(probabilities: &[u32]) -> (out: RankedResult)
    ensures
        out.wf(),
        is_ranking(probabilities@, out@),
{
    let mut entries: Vec<RankedEntry> = Vec::new();
    let mut class: usize = 0;
    while class < probabilities.len()
        invariant
            class <= probabilities@.len(),
            is_ranking(probabilities@.take(class as int), entries@),
        decreases probabilities@.len() - class,
    {
        let entry = RankedEntry { class_index: class, probability_bits: probabilities[class] };
        let slot: usize = insertion_slot(&entries, entry);
        proof {
            let seen = probabilities@.take(class + 1);
            assert(seen.drop_last() =~= probabilities@.take(class as int));
            lemma_insert_extends_ranking(seen, entries@, slot as int, entry);
        }
        entries.insert(slot, entry);
        class += 1;
    }
    proof {
        assert(probabilities@.take(class as int) =~= probabilities@);
    }
    RankedResult { entries }
}


/// Ranked entries are sorted: of two of them, the earlier has a probability at
/// least as high, and where the two probabilities are equal, the lower class
/// index.
pub proof fn lemma_ranked_is_sorted(entries: Seq<RankedEntry>, i: int, j: int)
    requires
        is_ranked(entries),
        0 <= i < j < entries.len(),
    ensures
        ordinal(entries[i].probability_bits) >= ordinal(entries[j].probability_bits),
        ordinal(entries[i].probability_bits) == ordinal(entries[j].probability_bits) ==> entries[i].class_index
            < entries[j].class_index,
{
    assert(outranks(entries[i], entries[j]));
}

/// The first entry of a ranking has a probability that no class exceeds, and
/// the lowest index among the classes that reach it.
pub proof fn lemma_top_is_best(scores: Seq<u32>, entries: Seq<RankedEntry>, c: int)
    requires
        is_ranking(scores, entries),
        0 <= c < scores.len(),
    ensures
        ordinal(entries[0].probability_bits) >= ordinal(scores[c]),
        ordinal(entries[0].probability_bits) == ordinal(scores[c]) ==> entries[0].class_index <= c,
{
    assert(holds_class(entries, c));
    let k = choose|k: int| 0 <= k < entries.len() && (#[trigger] entries[k]).class_index == c;
    if k > 0 {
        assert(outranks(entries[0], entries[k]));
    }
}

/// No class occurs twice in a ranking.
pub proof fn lemma_classes_are_distinct(scores: Seq<u32>, entries: Seq<RankedEntry>, i: int, j: int)
    requires
        is_ranking(scores, entries),
        0 <= i < j < entries.len(),
    ensures
        entries[i].class_index != entries[j].class_index,
{
    assert(outranks(entries[i], entries[j]));
}

/// Two rankings of the same scores agree up to any position.
proof fn lemma_rankings_agree_below(scores: Seq<u32>, a: Seq<RankedEntry>, b: Seq<RankedEntry>, n: int)
    requires
        is_ranking(scores, a),
        is_ranking(scores, b),
        0 <= n <= scores.len(),
    ensures
        forall|i: int| 0 <= i < n ==> a[i] == b[i],
    decreases n,
{
    if n > 0 {
        let i = n - 1;
        lemma_rankings_agree_below(scores, a, b, i);
        assert(holds_class(a, b[i].class_index as int));
        let k = choose|k: int| 0 <= k < a.len() && (#[trigger] a[k]).class_index == b[i].class_index;
        assert(holds_class(b, a[i].class_index as int));
        let m = choose|m: int| 0 <= m < b.len() && (#[trigger] b[m]).class_index == a[i].class_index;
        assert(a[k] == b[i]);
        assert(b[m] == a[i]);
        if k < i {
            assert(a[k] == b[k]);
            assert(outranks(b[k], b[i]));
        }
        if m < i {
            assert(a[m] == b[m]);
            assert(outranks(a[m], a[i]));
        }
        if k > i && m > i {
            assert(outranks(a[i], a[k]));
            assert(outranks(b[i], b[m]));
        }
    }
}

/// A score vector has one ranking only.
pub proof fn lemma_ranking_is_unique(scores: Seq<u32>, a: Seq<RankedEntry>, b: Seq<RankedEntry>)
    requires
        is_ranking(scores, a),
        is_ranking(scores, b),
    ensures
        a == b,
{
    lemma_rankings_agree_below(scores, a, b, scores.len() as int);
    assert(a =~= b);
}

} // verus!
