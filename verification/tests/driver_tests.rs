use crossglyph::driver::{
    default_alphabet, run_batch, Action, Event, GridDriver, PairStatus, Phase,
};
use crossglyph::errors::GlyphError;
use crossglyph::solid::fold_solids;

/// Runs a whole batch. `glyph_ok` decides each build outcome per
/// (second_alphabet, index); `pair_ok` decides each composition outcome per
/// (row, col).
fn drive(
    n: usize,
    glyph_ok: impl Fn(bool, usize) -> bool,
    pair_ok: impl Fn(usize, usize) -> bool,
) -> GridDriver {
    run_batch(
        n,
        |second_alphabet, index| glyph_ok(second_alphabet, index),
        |row, col| pair_ok(row, col),
    )
}

#[test]
fn batch_isolates_one_failed_pair() {
    // a three-by-three grid with one forced composition failure: exactly one
    // failed record and eight exported ones
    let d = drive(3, |_, _| true, |row, col| !(row == 1 && col == 1));
    assert_eq!(d.phase, Phase::Done);
    assert_eq!(d.records.len(), 9);
    assert_eq!(d.count_with_status(PairStatus::Exported), 8);
    assert_eq!(d.count_with_status(PairStatus::Failed), 1);
    assert_eq!(d.count_with_status(PairStatus::Skipped), 0);
    let failed: Vec<_> = d
        .records
        .iter()
        .filter(|r| r.status == PairStatus::Failed)
        .collect();
    assert_eq!(failed.len(), 1);
    assert_eq!((failed[0].row, failed[0].col), (1, 1));
}

#[test]
fn batch_skips_pairs_of_a_missing_glyph() {
    // the first character of the first alphabet never builds: its whole row
    // of pairs is skipped, everything else is exported
    let d = drive(2, |second, index| second || index != 0, |_, _| true);
    assert_eq!(d.records.len(), 4);
    assert_eq!(d.count_with_status(PairStatus::Skipped), 2);
    assert_eq!(d.count_with_status(PairStatus::Exported), 2);
    for r in &d.records {
        if r.row == 0 {
            assert_eq!(r.status, PairStatus::Skipped);
        } else {
            assert_eq!(r.status, PairStatus::Exported);
        }
    }
}

#[test]
fn batch_visits_every_pair_in_row_major_order() {
    let d = drive(3, |_, _| true, |_, _| true);
    assert_eq!(d.records.len(), 9);
    for (k, r) in d.records.iter().enumerate() {
        assert_eq!(r.row, k / 3);
        assert_eq!(r.col, k % 3);
    }
}

#[test]
fn phases_run_in_order_without_skipping() {
    let mut d = GridDriver::new(1);
    assert_eq!(d.phase, Phase::Idle);
    d.step(Event::Begin);
    assert_eq!(d.phase, Phase::BuildingAlphabet1);
    d.step(Event::GlyphDone { ok: true });
    assert_eq!(d.phase, Phase::BuildingAlphabet2);
    d.step(Event::GlyphDone { ok: true });
    assert_eq!(d.phase, Phase::ComposingPairs);
    assert_eq!(d.next_action(), Action::ComposePair { row: 0, col: 0 });
    d.step(Event::PairDone { ok: false });
    assert_eq!(d.phase, Phase::Done);
    assert_eq!(d.next_action(), Action::Finished);
    // the failure was recorded, not escalated
    assert_eq!(d.count_with_status(PairStatus::Failed), 1);
}

#[test]
fn fold_of_no_parts_is_an_empty_glyph() {
    let parts: Vec<u64> = vec![];
    let r = fold_solids(parts, |a: u64, b: u64| Some(a | b));
    assert_eq!(r.unwrap_err(), GlyphError::EmptyGlyph);
}

#[test]
fn fold_of_one_part_returns_it_untouched() {
    // the single-contour fold is a no-op: the operator is never consulted
    let parts: Vec<u64> = vec![42];
    let r = fold_solids(parts, |_: u64, _: u64| None);
    assert_eq!(r.unwrap(), 42);
}

#[test]
fn fold_combines_left_to_right() {
    let parts: Vec<u64> = vec![1, 2, 4];
    let r = fold_solids(parts, |a: u64, b: u64| Some(a * 10 + b));
    // ((1 op 2) op 4) = (12 op 4) = 124
    assert_eq!(r.unwrap(), 124);
}

#[test]
fn fold_reports_a_rejected_step() {
    let parts: Vec<u64> = vec![1, 2, 4];
    let r = fold_solids(parts, |a: u64, b: u64| if b == 4 { None } else { Some(a | b) });
    assert_eq!(r.unwrap_err(), GlyphError::BooleanFailure);
}

#[test]
fn alphabet_has_the_thirty_six_symbols() {
    let chars = default_alphabet();
    assert_eq!(chars.len(), 36);
    let expected: Vec<char> = ('A'..='Z').chain('0'..='9').collect();
    assert_eq!(chars, expected);
}
