use night_light::gamma_control::{ControlEvent, GammaControlState};
use night_light::kms::{
    kms_surfaces, kms_surfaces_for_output, BackendData, Device, State, Surface, SurfaceId,
};
use night_light::ramps::GammaRamps;

fn surface(output: u64, mirroring: Option<u64>, crtc: u32) -> Surface {
    Surface { output, mirroring, crtc, gamma: None }
}

/// Two devices; the output 3 mirrors the output 1.
fn state() -> State<u8> {
    State {
        backend: BackendData::Kms(vec![
            Device { surfaces: vec![surface(1, None, 41), surface(2, None, 42)] },
            Device { surfaces: Vec::new() },
            Device { surfaces: vec![surface(3, Some(1), 43), surface(1, None, 44)] },
        ]),
        gamma_control_state: GammaControlState::new(0),
    }
}

fn place(device: usize, surface: usize) -> SurfaceId {
    SurfaceId { device, surface }
}

fn gamma(state: &State<u8>, id: SurfaceId) -> &Option<GammaRamps> {
    match &state.backend {
        BackendData::Kms(devices) => &devices[id.device].surfaces[id.surface].gamma,
        BackendData::Other => panic!("no surfaces"),
    }
}

#[test]
fn surfaces_are_walked_device_by_device() {
    assert_eq!(
        kms_surfaces(&state()),
        vec![place(0, 0), place(0, 1), place(2, 0), place(2, 1)]
    );
}

#[test]
fn other_backends_have_no_surfaces() {
    let mut state: State<u8> = State {
        backend: BackendData::Other,
        gamma_control_state: GammaControlState::new(0),
    };
    assert_eq!(kms_surfaces(&state), Vec::new());
    assert_eq!(kms_surfaces_for_output(&state, 1), Vec::new());
    assert_eq!(state.gamma_size(1, &|_: usize, _: u32| Some(256)), None);
    state.set_gamma(1, None);
    assert!(matches!(state.backend, BackendData::Other));
}

#[test]
fn mirrors_show_the_output_too() {
    assert_eq!(
        kms_surfaces_for_output(&state(), 1),
        vec![place(0, 0), place(2, 0), place(2, 1)]
    );
    assert_eq!(kms_surfaces_for_output(&state(), 2), vec![place(0, 1)]);
    assert_eq!(kms_surfaces_for_output(&state(), 3), vec![place(2, 0)]);
    assert_eq!(kms_surfaces_for_output(&state(), 4), Vec::new());
}

#[test]
fn gamma_size_is_that_of_the_first_surface() {
    let state = state();
    let length = |device: usize, crtc: u32| Some(1000 * device as u32 + crtc);
    assert_eq!(state.gamma_size(1, &length), Some(41));
    assert_eq!(state.gamma_size(2, &length), Some(42));
    assert_eq!(state.gamma_size(3, &length), Some(2043));
    assert_eq!(state.gamma_size(4, &length), None);
}

#[test]
fn gamma_size_is_unknown_without_a_controller() {
    // The first surface decides, though a later one would answer.
    let length = |_: usize, crtc: u32| if crtc == 44 { Some(256) } else { None };
    assert_eq!(state().gamma_size(1, &length), None);
}

#[test]
fn gamma_reaches_all_surfaces_that_show_the_output() {
    let mut state = state();
    let ramps = (vec![0, 1], vec![2, 3], vec![4, 5]);
    state.set_gamma(1, Some(ramps.clone()));
    assert_eq!(gamma(&state, place(0, 0)), &Some(ramps.clone()));
    assert_eq!(gamma(&state, place(0, 1)), &None);
    assert_eq!(gamma(&state, place(2, 0)), &Some(ramps.clone()));
    assert_eq!(gamma(&state, place(2, 1)), &Some(ramps));
}

#[test]
fn later_gamma_replaces_earlier() {
    let mut state = state();
    state.set_gamma(3, Some((vec![1], vec![1], vec![1])));
    state.set_gamma(1, Some((vec![2], vec![2], vec![2])));
    assert_eq!(gamma(&state, place(2, 0)), &Some((vec![2], vec![2], vec![2])));
    state.set_gamma(1, None);
    for id in kms_surfaces(&state) {
        assert_eq!(gamma(&state, id), &None);
    }
}

#[test]
fn setting_gamma_keeps_the_surfaces() {
    let mut changed = state();
    changed.set_gamma(1, Some((vec![2], vec![2], vec![2])));
    assert_eq!(kms_surfaces(&changed), kms_surfaces(&state()));
    assert_eq!(kms_surfaces_for_output(&changed, 1), kms_surfaces_for_output(&state(), 1));
}

#[test]
fn the_protocol_state_is_at_hand() {
    let mut state = state();
    let protocol = state.gamma_control_state();
    assert_eq!(protocol.get_gamma_control(1, Some(1), Some(2)), ControlEvent::GammaSize(2));
    assert!(state.gamma_control_state.is_taken(1));
    assert_eq!(kms_surfaces(&state).len(), 4);
}
