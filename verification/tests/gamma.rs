use night_light::gamma_control::{ControlEvent, GammaControlState, SetGammaAction};
use night_light::gamma_table::{
    native_byte_order, parse_gamma_ramps, read_gamma_ramps, ByteOrder, GammaTableError,
};

fn native_table(ramps: [&[u16]; 3]) -> Vec<u8> {
    let mut bytes = Vec::new();
    for ramp in ramps {
        for value in ramp {
            bytes.extend_from_slice(&value.to_ne_bytes());
        }
    }
    bytes
}

fn state() -> GammaControlState<&'static str> {
    GammaControlState::new("global")
}

#[test]
fn tables_are_read_in_either_order() {
    let bytes = vec![1, 2, 3, 4, 5, 6, 7, 8, 9, 10, 255, 254];
    assert_eq!(
        parse_gamma_ramps(&bytes, 2, ByteOrder::Little),
        Ok((vec![0x0201, 0x0403], vec![0x0605, 0x0807], vec![0x0a09, 0xfeff]))
    );
    assert_eq!(
        parse_gamma_ramps(&bytes, 2, ByteOrder::Big),
        Ok((vec![0x0102, 0x0304], vec![0x0506, 0x0708], vec![0x090a, 0xfffe]))
    );
}

#[test]
fn native_tables_read_back() {
    let red = [0u16, 1, 256, 65535];
    let green = [7u16, 0x1234, 0xfedc, 2];
    let blue = [9u16, 8, 7, 6];
    let bytes = native_table([&red, &green, &blue]);
    assert_eq!(
        read_gamma_ramps(&bytes, 4),
        Ok((red.to_vec(), green.to_vec(), blue.to_vec()))
    );
}

#[test]
fn native_order_is_that_of_the_machine() {
    let order = native_byte_order();
    assert_eq!(order == ByteOrder::Little, u16::from_ne_bytes([1, 0]) == 1);
}

#[test]
fn tables_of_a_wrong_size_are_refused() {
    assert_eq!(
        read_gamma_ramps(&vec![0; 11], 2),
        Err(GammaTableError { expected: 12, got: 11 })
    );
    assert_eq!(
        read_gamma_ramps(&vec![0; 13], 2),
        Err(GammaTableError { expected: 12, got: 13 })
    );
    assert_eq!(read_gamma_ramps(&Vec::new(), 0), Ok((Vec::new(), Vec::new(), Vec::new())));
}

#[test]
fn every_byte_of_a_table_counts() {
    let bytes: Vec<u8> = (0..12).collect();
    let ramps = parse_gamma_ramps(&bytes, 2, ByteOrder::Little);
    for i in 0..bytes.len() {
        let mut other = bytes.clone();
        other[i] += 1;
        assert_ne!(parse_gamma_ramps(&other, 2, ByteOrder::Little), ramps);
    }
}

#[test]
fn new_state_keeps_its_global() {
    assert_eq!(state().global_id(), "global");
    assert_eq!(state().announced_size(1), None);
}

#[test]
fn a_free_output_is_granted() {
    let mut state = state();
    assert!(!state.is_taken(10));
    assert_eq!(state.get_gamma_control(1, Some(10), Some(256)), ControlEvent::GammaSize(256));
    assert!(state.is_taken(10));
    assert!(!state.is_taken(11));
    assert_eq!(state.announced_size(1), Some(256));
}

#[test]
fn a_taken_output_is_refused() {
    let mut state = state();
    state.get_gamma_control(1, Some(10), Some(256));
    assert_eq!(state.get_gamma_control(2, Some(10), Some(256)), ControlEvent::Failed);
    assert_eq!(state.announced_size(1), Some(256));
    assert_eq!(state.announced_size(2), None);
    assert_eq!(state.get_gamma_control(3, Some(11), Some(64)), ControlEvent::GammaSize(64));
}

#[test]
fn no_output_and_no_tables_are_refused() {
    let mut state = state();
    assert_eq!(state.get_gamma_control(1, None, Some(256)), ControlEvent::Failed);
    assert_eq!(state.get_gamma_control(2, Some(10), None), ControlEvent::Failed);
    assert!(!state.is_taken(10));
    assert_eq!(state.get_gamma_control(3, Some(10), Some(4)), ControlEvent::GammaSize(4));
}

#[test]
fn a_size_is_announced_in_thirty_two_bits() {
    let mut state = state();
    assert_eq!(
        state.get_gamma_control(1, Some(10), Some(0x1_0000_0002)),
        ControlEvent::GammaSize(2)
    );
}

#[test]
fn ramps_are_applied_to_the_output() {
    let mut state = state();
    state.get_gamma_control(1, Some(10), Some(2));
    let bytes = native_table([&[1, 2], &[3, 4], &[5, 6]]);
    let ramps = (vec![1, 2], vec![3, 4], vec![5, 6]);
    assert_eq!(
        state.set_gamma(1, Some(bytes), true),
        SetGammaAction::Apply { output: 10, ramps }
    );
    assert_eq!(state.announced_size(1), Some(2));
}

#[test]
fn byte_order_may_be_given() {
    let mut state = state();
    state.get_gamma_control(1, Some(10), Some(1));
    assert_eq!(
        state.set_gamma_ordered(1, Some(vec![1, 0, 2, 0, 3, 0]), ByteOrder::Big, true),
        SetGammaAction::Apply { output: 10, ramps: (vec![256], vec![512], vec![768]) }
    );
}

#[test]
fn a_wrong_table_fails_the_control() {
    let mut state = state();
    state.get_gamma_control(1, Some(10), Some(2));
    assert_eq!(
        state.set_gamma(1, Some(vec![0; 6]), true),
        SetGammaAction::Failed { error: Some(GammaTableError { expected: 12, got: 6 }) }
    );
    assert_eq!(state.announced_size(1), None);
    assert!(!state.is_taken(10));
    assert_eq!(state.set_gamma(1, Some(vec![0; 12]), true), SetGammaAction::Ignored);
    assert_eq!(state.destroyed(1, true), None);
}

#[test]
fn an_unreadable_table_fails_the_control() {
    let mut state = state();
    state.get_gamma_control(1, Some(10), Some(2));
    assert_eq!(state.set_gamma(1, None, true), SetGammaAction::Failed { error: None });
    assert_eq!(state.announced_size(1), None);
    // No table is measured, however long it would be.
    state.get_gamma_control(2, Some(10), Some(usize::MAX));
    assert_eq!(state.set_gamma(2, None, true), SetGammaAction::Failed { error: None });
    assert_eq!(state.announced_size(2), None);
}

#[test]
fn a_lost_output_fails_the_control() {
    let mut state = state();
    state.get_gamma_control(1, Some(10), Some(1));
    assert_eq!(
        state.set_gamma(1, Some(vec![0; 6]), false),
        SetGammaAction::Failed { error: None }
    );
    assert_eq!(state.announced_size(1), None);
}

#[test]
fn unknown_controls_are_ignored() {
    let mut state = state();
    assert_eq!(state.set_gamma(5, Some(vec![0; 6]), true), SetGammaAction::Ignored);
    state.invalidate_control(5);
    assert_eq!(state.destroyed(5, true), None);
}

#[test]
fn destroying_a_valid_control_restores_its_output() {
    let mut state = state();
    state.get_gamma_control(1, Some(10), Some(2));
    state.get_gamma_control(2, Some(11), Some(2));
    assert_eq!(state.destroyed(1, true), Some(10));
    assert_eq!(state.destroyed(1, true), None);
    assert_eq!(state.destroyed(2, false), None);
    assert_eq!(state.get_gamma_control(3, Some(10), Some(2)), ControlEvent::GammaSize(2));
}

#[test]
fn invalidated_controls_restore_nothing() {
    let mut state = state();
    state.get_gamma_control(1, Some(10), Some(2));
    state.invalidate_control(1);
    assert_eq!(state.destroyed(1, true), None);
}

#[test]
fn failed_controls_stay_failed_and_newcomers_take_nothing() {
    let mut state = state();
    state.get_gamma_control(1, Some(10), Some(1));
    assert_eq!(state.get_gamma_control(2, Some(10), Some(1)), ControlEvent::Failed);
    assert_eq!(state.set_gamma(2, Some(vec![0; 5]), true), SetGammaAction::Ignored);
    assert!(matches!(state.set_gamma(1, Some(vec![0; 5]), true), SetGammaAction::Failed { .. }));
    assert_eq!(state.set_gamma(1, Some(vec![0; 5]), true), SetGammaAction::Ignored);
    assert_eq!(state.get_gamma_control(3, Some(10), Some(1)), ControlEvent::GammaSize(1));
    assert_eq!(state.announced_size(1), None);
    assert_eq!(state.announced_size(2), None);
    assert_eq!(state.announced_size(3), Some(1));
    assert_eq!(state.destroyed(1, true), None);
    assert_eq!(state.announced_size(3), Some(1));
}
