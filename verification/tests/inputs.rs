//! Times and recorded inputs.
use tetro_tui::button::{Button, ButtonChange};
use tetro_tui::input_history::CompressedInputHistory;
use tetro_tui::time::{ExtDuration, InGameTime};

fn millis(ms: u64) -> InGameTime {
    InGameTime::from_millis(ms)
}

#[test]
fn times_are_counted_in_nanoseconds() {
    assert_eq!(millis(1_234), InGameTime { secs: 1, subsec_nanos: 234_000_000 });
    assert_eq!(InGameTime::from_nanos(3_000_000_007), InGameTime { secs: 3, subsec_nanos: 7 });
    assert_eq!(millis(1_234).as_nanos(), 1_234_000_000);
    assert_eq!(InGameTime { secs: 1, subsec_nanos: 999_999 }.as_millis(), 1_000);
    assert!(InGameTime::zero().is_zero());
    assert!(!millis(1).is_zero());
}

#[test]
fn times_saturate() {
    assert_eq!(millis(5).saturating_sub(millis(7)), InGameTime::zero());
    assert_eq!(millis(7).saturating_sub(millis(5)), millis(2));
    assert_eq!(millis(7).saturating_add(millis(5)), millis(12));
    assert_eq!(InGameTime::max().saturating_add(millis(1)), InGameTime::max());
    assert_eq!(millis(7).later(millis(9)), millis(9));
    assert!(millis(7).before(millis(9)));
    assert!(!millis(7).before(millis(7)));
    assert_eq!(ExtDuration::Infinite.saturating_duration(), InGameTime::max());
    assert_eq!(ExtDuration::Finite(millis(3)).saturating_duration(), millis(3));
}

#[test]
fn times_beyond_a_second_are_not_well_formed() {
    assert!(millis(3).is_wf());
    assert!(!InGameTime { secs: 0, subsec_nanos: 1_000_000_000 }.is_wf());
    assert!(ExtDuration::Infinite.is_wf());
    assert!(!ExtDuration::Finite(InGameTime { secs: 0, subsec_nanos: u32::MAX }).is_wf());
}

#[test]
fn an_input_is_packed_into_a_number() {
    let press = ButtonChange::Press(Button::HoldPiece);
    let release = ButtonChange::Release(Button::MoveRight);
    assert_eq!(CompressedInputHistory::compress_buttonchange(&press), 21);
    assert_eq!(CompressedInputHistory::compress_buttonchange(&release), 2);
    assert_eq!(CompressedInputHistory::compress_input((millis(100), press)), 100 * 32 + 21);
    assert_eq!(CompressedInputHistory::decompress_input(3_221), (millis(100), press));
    assert_eq!(CompressedInputHistory::decompress_buttonchange(2), release);
    assert_eq!(CompressedInputHistory::BUTTON_CHANGE_BITSIZE, 5);
}

#[test]
fn every_button_change_survives_packing() {
    for button in Button::VARIANTS {
        for change in [ButtonChange::Press(button), ButtonChange::Release(button)] {
            let code = CompressedInputHistory::compress_buttonchange(&change);
            assert_eq!(CompressedInputHistory::decompress_buttonchange(code), change);
        }
    }
}

#[test]
fn whole_milliseconds_survive_packing() {
    let history = vec![
        (millis(17), ButtonChange::Press(Button::MoveLeft)),
        (millis(17), ButtonChange::Press(Button::RotateRight)),
        (millis(250), ButtonChange::Release(Button::MoveLeft)),
        (millis(61_000), ButtonChange::Press(Button::DropHard)),
    ];
    let packed = CompressedInputHistory::new(&history);
    assert_eq!(packed.0, vec![17 * 32 + 1, 7, 233 * 32, 60_750 * 32 + 13]);
    assert!(packed.is_valid());
    assert_eq!(packed.decompress(), history);
}

#[test]
fn parts_of_milliseconds_are_lost() {
    let odd = InGameTime::from_nanos(17_999_999);
    let history = vec![
        (odd, ButtonChange::Press(Button::MoveLeft)),
        (InGameTime::from_nanos(19_500_000), ButtonChange::Release(Button::MoveLeft)),
    ];
    let back = CompressedInputHistory::new(&history).decompress();
    assert_eq!(back[0].0, millis(17));
    assert_eq!(back[1].0, millis(18));
}

#[test]
fn inputs_out_of_order_are_put_at_the_same_time() {
    let history = vec![
        (millis(20), ButtonChange::Press(Button::MoveLeft)),
        (millis(10), ButtonChange::Release(Button::MoveLeft)),
    ];
    let back = CompressedInputHistory::new(&history).decompress();
    assert_eq!(back[1].0, millis(20));
}

#[test]
fn packed_numbers_survive_unpacking() {
    let packed = CompressedInputHistory(vec![5 * 32, 32 + 21, 7 * 32 + 20]);
    assert!(packed.is_valid());
    assert_eq!(CompressedInputHistory::new(&packed.decompress()), packed);
}

#[test]
fn numbers_that_stand_for_nothing_are_not_valid() {
    assert!(!CompressedInputHistory(vec![22]).is_valid());
    assert!(!CompressedInputHistory(vec![u128::MAX - 31]).is_valid());
    assert!(CompressedInputHistory(vec![]).is_valid());
    assert!(CompressedInputHistory::new(&vec![]).0.is_empty());
}
