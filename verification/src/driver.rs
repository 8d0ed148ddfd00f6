//! The grid driver: walks the batch through its phases — build every glyph of
//! the first alphabet's orientation, then of the second, then compose every
//! ordered pair — while an unverified shell performs the font, kernel and
//! export work and reports each outcome back as an event.
//!
//! The driver owns every decision: which glyph to build next, which pair to
//! compose or to skip, and the batch report. Each per-glyph solid is requested
//! exactly once and reused across every pair that needs it: each step advances
//! the driver's position by exactly one, so no state — and so no build
//! request — ever recurs. A failed pair only moves the cursor to the next
//! pair; it never ends the batch.

use vstd::prelude::*;

verus! {

/// Where the batch stands. No transition skips a phase.
#[derive(Clone, Copy, PartialEq, Eq, Structural, Debug)]
pub enum Phase {
    Idle,
    BuildingAlphabet1,
    BuildingAlphabet2,
    ComposingPairs,
    Done,
}

/// How one ordered character pair ended.
#[derive(Clone, Copy, PartialEq, Eq, Structural, Debug)]
pub enum PairStatus {
    /// Both solids existed and the composed cross-shape was exported.
    Exported,
    /// Both solids existed but composition or export failed.
    Failed,
    /// At least one of the two glyph solids was never built.
    Skipped,
}

/// One line of the batch report: the pair `(row, col)` and how it ended.
#[derive(Clone, Copy, PartialEq, Eq, Structural, Debug)]
pub struct PairRecord {
    pub row: usize,
    pub col: usize,
    pub status: PairStatus,
}

/// What the shell must do next.
#[derive(Clone, Copy, PartialEq, Eq, Structural, Debug)]
pub enum Action {
    /// Load resources and answer with `Event::Begin`.
    Start,
    /// Build the net solid for the character at `index`, under the first
    /// orientation when `second_alphabet` is false, else under the second.
    BuildGlyph { second_alphabet: bool, index: usize },
    /// Compose the two cached solids of this pair and export the result.
    ComposePair { row: usize, col: usize },
    /// A solid of this pair is missing; do nothing and answer `Continue`.
    SkipPair { row: usize, col: usize },
    /// The batch is over.
    Finished,
}

/// What the shell reports back.
#[derive(Clone, Copy, PartialEq, Eq, Structural, Debug)]
pub enum Event {
    Begin,
    GlyphDone { ok: bool },
    PairDone { ok: bool },
    Continue,
}

/// The success carried by an event, if any.
pub open spec fn event_ok(e: Event) -> bool {
    match e {
        Event::GlyphDone { ok } => ok,
        Event::PairDone { ok } => ok,
        _ => false,
    }
}

/// The grid driver's whole state.
pub struct GridDriver {
    /// Alphabet size; the grid is `n * n` ordered pairs.
    pub n: usize,
    pub phase: Phase,
    /// Cursor within a building phase.
    pub index: usize,
    /// Cursor within the composing phase.
    pub row: usize,
    pub col: usize,
    /// Whether the net solid of each character was built, per orientation.
    pub built1: Vec<bool>,
    pub built2: Vec<bool>,
    /// One record per processed pair, in row-major order.
    pub records: Vec<PairRecord>,
}

impl GridDriver {
    /// State invariant: cursors in range and the report complete and correct
    /// for every pair behind the cursor.
    pub open spec fn wf(self) -> bool {
        &&& self.n >= 1
        &&& self.built1@.len() == self.n
        &&& self.built2@.len() == self.n
        &&& match self.phase {
            Phase::Idle => self.records@.len() == 0,
            Phase::BuildingAlphabet1 => self.index < self.n && self.records@.len() == 0,
            Phase::BuildingAlphabet2 => self.index < self.n && self.records@.len() == 0,
            Phase::ComposingPairs => self.row < self.n && self.col < self.n
                && self.records@.len() == self.row * self.n + self.col,
            Phase::Done => self.records@.len() == self.n * self.n,
        }
        &&& forall|k: int| 0 <= k < self.records@.len() ==> self.record_wf(k)
    }

    /// The record at position `k` belongs to pair `k` of the row-major order
    /// and is `Skipped` exactly when one of its solids is missing.
    pub open spec fn record_wf(self, k: int) -> bool {
        let r = self.records@[k];
        &&& r.row < self.n
        &&& r.col < self.n
        &&& r.row * self.n + r.col == k
        &&& (r.status == PairStatus::Skipped <==> !(self.built1@[r.row as int]
            && self.built2@[r.col as int]))
    }

    /// The driver's position in the batch: it grows by exactly one at each
    /// step, so no state — and no requested action — ever recurs.
    pub open spec fn pos(self) -> int {
        match self.phase {
            Phase::Idle => 0,
            Phase::BuildingAlphabet1 => 1 + self.index,
            Phase::BuildingAlphabet2 => 1 + self.n + self.index,
            Phase::ComposingPairs => 1 + 2 * self.n + self.row * self.n + self.col,
            Phase::Done => 1 + 2 * self.n + self.n * self.n,
        }
    }

    /// The rank of a phase in the fixed phase order.
    pub open spec fn phase_rank(p: Phase) -> int {
        match p {
            Phase::Idle => 0,
            Phase::BuildingAlphabet1 => 1,
            Phase::BuildingAlphabet2 => 2,
            Phase::ComposingPairs => 3,
            Phase::Done => 4,
        }
    }

    /// Whether both solids of the pair at the composing cursor exist.
    pub open spec fn cursor_composable(self) -> bool {
        self.built1@[self.row as int] && self.built2@[self.col as int]
    }

    /// The action the shell must perform at this state.
    pub open spec fn spec_action(self) -> Action {
        match self.phase {
            Phase::Idle => Action::Start,
            Phase::BuildingAlphabet1 => Action::BuildGlyph {
                second_alphabet: false,
                index: self.index,
            },
            Phase::BuildingAlphabet2 => Action::BuildGlyph {
                second_alphabet: true,
                index: self.index,
            },
            Phase::ComposingPairs => if self.cursor_composable() {
                Action::ComposePair { row: self.row, col: self.col }
            } else {
                Action::SkipPair { row: self.row, col: self.col }
            },
            Phase::Done => Action::Finished,
        }
    }

    /// The event the shell owes for the driver's current action.
    pub open spec fn event_matches(self, e: Event) -> bool {
        match self.phase {
            Phase::Idle => e == Event::Begin,
            Phase::BuildingAlphabet1 => e is GlyphDone,
            Phase::BuildingAlphabet2 => e is GlyphDone,
            Phase::ComposingPairs => if self.cursor_composable() {
                e is PairDone
            } else {
                e == Event::Continue
            },
            Phase::Done => false,
        }
    }

    /// A fresh driver for an `n`-character alphabet, idle, with no solid
    /// built and an empty report.
    pub fn new(n: usize) -> (d: GridDriver)
        requires
            n >= 1,
        ensures
            d.wf(),
            d.n == n,
            d.phase == Phase::Idle,
            forall|i: int| 0 <= i < n ==> !(#[trigger] d.built1@[i]),
            forall|i: int| 0 <= i < n ==> !(#[trigger] d.built2@[i]),
            d.records@.len() == 0,
    {
        GridDriver {
            n,
            phase: Phase::Idle,
            index: 0,
            row: 0,
            col: 0,
            built1: falses(n),
            built2: falses(n),
            records: Vec::new(),
        }
    }

    /// The action the shell must perform next.
    pub fn next_action(&self) -> (a: Action)
        requires
            self.wf(),
        ensures
            a == self.spec_action(),
    {
        match self.phase {
            Phase::Idle => Action::Start,
            Phase::BuildingAlphabet1 => Action::BuildGlyph {
                second_alphabet: false,
                index: self.index,
            },
            Phase::BuildingAlphabet2 => Action::BuildGlyph {
                second_alphabet: true,
                index: self.index,
            },
            Phase::ComposingPairs => {
                if self.built1[self.row] && self.built2[self.col] {
                    Action::ComposePair { row: self.row, col: self.col }
                } else {
                    Action::SkipPair { row: self.row, col: self.col }
                }
            },
            Phase::Done => Action::Finished,
        }
    }

    /// Consumes the outcome of the current action and advances the batch by
    /// exactly one position. A glyph outcome is recorded in the solid table;
    /// a pair outcome is appended to the report; a failure never moves the
    /// batch anywhere but to the next position.
    pub fn step(&mut self, e: Event)
        requires
            old(self).wf(),
            old(self).event_matches(e),
        ensures
            final(self).wf(),
            final(self).n == old(self).n,
            final(self).pos() == old(self).pos() + 1,
            Self::phase_rank(final(self).phase) - Self::phase_rank(old(self).phase) == 0
                || Self::phase_rank(final(self).phase) - Self::phase_rank(old(self).phase) == 1,
            old(self).phase == Phase::Idle ==> {
                &&& final(self).phase == Phase::BuildingAlphabet1
                &&& final(self).index == 0
                &&& final(self).built1 == old(self).built1
                &&& final(self).built2 == old(self).built2
                &&& final(self).records == old(self).records
            },
            old(self).phase == Phase::BuildingAlphabet1 ==> {
                &&& final(self).built1@ == old(self).built1@.update(
                    old(self).index as int,
                    event_ok(e),
                )
                &&& final(self).built2 == old(self).built2
                &&& final(self).records == old(self).records
                &&& if old(self).index + 1 < old(self).n {
                    final(self).phase == Phase::BuildingAlphabet1
                        && final(self).index == old(self).index + 1
                } else {
                    final(self).phase == Phase::BuildingAlphabet2 && final(self).index == 0
                }
            },
            old(self).phase == Phase::BuildingAlphabet2 ==> {
                &&& final(self).built2@ == old(self).built2@.update(
                    old(self).index as int,
                    event_ok(e),
                )
                &&& final(self).built1 == old(self).built1
                &&& final(self).records == old(self).records
                &&& if old(self).index + 1 < old(self).n {
                    final(self).phase == Phase::BuildingAlphabet2
                        && final(self).index == old(self).index + 1
                } else {
                    final(self).phase == Phase::ComposingPairs && final(self).row == 0
                        && final(self).col == 0
                }
            },
            old(self).phase == Phase::ComposingPairs ==> {
                &&& final(self).built1 == old(self).built1
                &&& final(self).built2 == old(self).built2
                &&& final(self).records@ == old(self).records@.push(
                    PairRecord {
                        row: old(self).row,
                        col: old(self).col,
                        status: if !old(self).cursor_composable() {
                            PairStatus::Skipped
                        } else if event_ok(e) {
                            PairStatus::Exported
                        } else {
                            PairStatus::Failed
                        },
                    },
                )
                &&& if old(self).col + 1 < old(self).n {
                    final(self).phase == Phase::ComposingPairs && final(self).row == old(self).row
                        && final(self).col == old(self).col + 1
                } else if old(self).row + 1 < old(self).n {
                    final(self).phase == Phase::ComposingPairs && final(self).row == old(self).row
                        + 1 && final(self).col == 0
                } else {
                    final(self).phase == Phase::Done
                }
            },
    {
        match self.phase {
            Phase::Idle => {
                self.phase = Phase::BuildingAlphabet1;
                self.index = 0;
            },
            Phase::BuildingAlphabet1 => {
                let ok = match e {
                    Event::GlyphDone { ok } => ok,
                    _ => false,
                };
                self.built1[self.index] = ok;
                if self.index + 1 < self.n {
                    self.index = self.index + 1;
                } else {
                    self.phase = Phase::BuildingAlphabet2;
                    self.index = 0;
                }
            },
            Phase::BuildingAlphabet2 => {
                let ok = match e {
                    Event::GlyphDone { ok } => ok,
                    _ => false,
                };
                self.built2[self.index] = ok;
                if self.index + 1 < self.n {
                    self.index = self.index + 1;
                } else {
                    self.phase = Phase::ComposingPairs;
                    self.row = 0;
                    self.col = 0;
                }
            },
            Phase::ComposingPairs => {
                let composable = self.built1[self.row] && self.built2[self.col];
                let status = if !composable {
                    PairStatus::Skipped
                } else {
                    let ok = match e {
                        Event::PairDone { ok } => ok,
                        _ => false,
                    };
                    if ok {
                        PairStatus::Exported
                    } else {
                        PairStatus::Failed
                    }
                };
                self.records.push(PairRecord { row: self.row, col: self.col, status });
                if self.col + 1 < self.n {
                    self.col = self.col + 1;
                } else if self.row + 1 < self.n {
                    self.row = self.row + 1;
                    self.col = 0;
                } else {
                    self.phase = Phase::Done;
                }
                proof {
                    if old(self).col + 1 >= old(self).n {
                        lemma_row_major_next_row(old(self).row as int, old(self).n as int);
                    }
                    assert forall|k: int| 0 <= k < self.records@.len() implies self.record_wf(
                        k,
                    ) by {
                        if k < self.records@.len() - 1 {
                            assert(old(self).record_wf(k));
                            assert(self.records@[k] == old(self).records@[k]);
                        } else {
                            assert(self.records@[k].row == old(self).row);
                            assert(self.records@[k].col == old(self).col);
                            assert(old(self).row * old(self).n + old(self).col == k);
                        }
                    }
                }
            },
            Phase::Done => {
                proof {
                    assert(false);
                }
            },
        }
    }
}

/// Stepping past the last column of a row lands on the first cell of the next
/// row in row-major position arithmetic.
proof fn lemma_row_major_next_row(row: int, n: int)
    requires
        n >= 1,
    ensures
        row * n + (n - 1) + 1 == (row + 1) * n,
{
    assert(row * n + (n - 1) + 1 == (row + 1) * n) by (nonlinear_arith);
}

/// How many records of the report ended with the given status.
pub open spec fn count_status(rs: Seq<PairRecord>, st: PairStatus) -> int
    decreases rs.len(),
{
    if rs.len() == 0 {
        0
    } else {
        count_status(rs.drop_last(), st) + if rs.last().status == st {
            1int
        } else {
            0int
        }
    }
}

/// Every record carries exactly one status, so the three counts partition the
/// report: exported plus failed plus skipped is the number of pairs.
pub proof fn lemma_counts_partition(rs: Seq<PairRecord>)
    ensures
        count_status(rs, PairStatus::Exported) + count_status(rs, PairStatus::Failed)
            + count_status(rs, PairStatus::Skipped) == rs.len(),
    decreases rs.len(),
{
    if rs.len() > 0 {
        lemma_counts_partition(rs.drop_last());
    }
}

impl GridDriver {
    /// How many pairs of the report so far ended with the given status.
    pub fn count_with_status(&self, st: PairStatus) -> (c: usize)
        ensures
            c == count_status(self.records@, st),
    {
        let mut c: usize = 0;
        let mut i: usize = 0;
        while i < self.records.len()
            invariant
                i <= self.records@.len(),
                c <= i,
                c == count_status(self.records@.take(i as int), st),
            decreases self.records@.len() - i,
        {
            proof {
                assert(self.records@.take(i + 1 as int).drop_last() =~= self.records@.take(
                    i as int,
                ));
                assert(self.records@.take(i + 1 as int).last() == self.records@[i as int]);
            }
            if self.records[i].status == st {
                c = c + 1;
            }
            i = i + 1;
        }
        proof {
            assert(self.records@.take(self.records@.len() as int) =~= self.records@);
        }
        c
    }
}

/// The batch's character set: the twenty-six capital letters followed by the
/// ten digits, thirty-six symbols in all.
pub fn default_alphabet() -> (v: Vec<char>)
    ensures
        v@ == seq!['A', 'B', 'C', 'D', 'E', 'F', 'G', 'H', 'I', 'J', 'K', 'L', 'M', 'N', 'O', 'P', 'Q', 'R', 'S', 'T', 'U', 'V', 'W', 'X', 'Y', 'Z', '0', '1', '2', '3', '4', '5', '6', '7', '8', '9'],
{
    let v = vec!['A', 'B', 'C', 'D', 'E', 'F', 'G', 'H', 'I', 'J', 'K', 'L', 'M', 'N', 'O', 'P', 'Q', 'R', 'S', 'T', 'U', 'V', 'W', 'X', 'Y', 'Z', '0', '1', '2', '3', '4', '5', '6', '7', '8', '9'];
    proof {
        assert(v@ =~= seq!['A', 'B', 'C', 'D', 'E', 'F', 'G', 'H', 'I', 'J', 'K', 'L', 'M', 'N', 'O', 'P', 'Q', 'R', 'S', 'T', 'U', 'V', 'W', 'X', 'Y', 'Z', '0', '1', '2', '3', '4', '5', '6', '7', '8', '9']);
    }
    v
}


/// The batch position never exceeds the total number of steps, and reaches it
/// only in the final phase.
proof fn lemma_pos_bounded(d: GridDriver)
    requires
        d.wf(),
    ensures
        d.pos() <= 1 + 2 * d.n + d.n * d.n,
        d.phase != Phase::Done ==> d.pos() < 1 + 2 * d.n + d.n * d.n,
{
    let n = d.n as int;
    if d.phase is ComposingPairs {
        assert(d.row * n + d.col < n * n) by (nonlinear_arith)
            requires
                0 <= d.row < n,
                0 <= d.col < n,
        ;
    }
    if d.phase is Done {
        assert(n * n >= 0) by (nonlinear_arith);
    }
}

/// Runs one whole batch against the driver: asks the shell (through the two
/// closures) to build each glyph solid once per orientation and to compose
/// and export each pair, and returns the finished driver with its complete
/// report. Terminates after exactly as many steps as the batch has positions.
pub fn run_batch<B: FnMut(bool, usize) -> bool, C: FnMut(usize, usize) -> bool>(
    n: usize,
    build: B,
    compose: C,
) -> (d: GridDriver)
    requires
        n >= 1,
        forall|args: (bool, usize)| #[trigger] call_requires(build, args),
        forall|args: (usize, usize)| #[trigger] call_requires(compose, args),
    ensures
        d.wf(),
        d.n == n,
        d.phase == Phase::Done,
        d.records@.len() == n * n,
{
    let mut build = build;
    let mut compose = compose;
    let mut d = GridDriver::new(n);
    loop
        invariant
            d.wf(),
            d.n == n,
            forall|args: (bool, usize)| #[trigger] call_requires(build, args),
            forall|args: (usize, usize)| #[trigger] call_requires(compose, args),
        ensures
            d.wf() && d.n == n && d.phase == Phase::Done,
        decreases 1 + 2 * d.n + d.n * d.n - d.pos(),
    {
        proof {
            lemma_pos_bounded(d);
        }
        match d.next_action() {
            Action::Start => d.step(Event::Begin),
            Action::BuildGlyph { second_alphabet, index } => {
                let ok = build(second_alphabet, index);
                d.step(Event::GlyphDone { ok });
            },
            Action::ComposePair { row, col } => {
                let ok = compose(row, col);
                d.step(Event::PairDone { ok });
            },
            Action::SkipPair { .. } => d.step(Event::Continue),
            Action::Finished => {
                break ;
            },
        }
    }
    d
}

/// A vector of `n` entries, all false.
fn falses(n: usize) -> (v: Vec<bool>)
    ensures
        v@.len() == n,
        forall|i: int| 0 <= i < n ==> !(#[trigger] v@[i]),
{
    let mut v: Vec<bool> = Vec::new();
    let mut i: usize = 0;
    while i < n
        invariant
            i <= n,
            v@.len() == i,
            forall|j: int| 0 <= j < i ==> !(#[trigger] v@[j]),
        decreases n - i,
    {
        v.push(false);
        i = i + 1;
    }
    v
}

} // verus!
