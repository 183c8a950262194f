use night_light::ramps::temperature_to_ramps;

fn entry(numerator: usize, denominator: usize, multiplier: f32) -> u16 {
    (numerator as f32 / denominator as f32 * multiplier * u16::MAX as f32) as u16
}

#[test]
fn ramps_rise_from_nothing_to_the_multiplier() {
    let multipliers = |_: f32| [1.0f32, 0.5, 0.0];
    let (red, green, blue) = temperature_to_ramps(4000.0f32, 256, &multipliers, &entry);
    assert_eq!(red.len(), 256);
    assert_eq!(red[0], 0);
    assert_eq!(red[255], 65535);
    for i in 0..256usize {
        assert_eq!(red[i], (i as f32 / 255.0 * 65535.0) as u16);
    }
    assert_eq!(green[0], 0);
    assert_eq!(green[255], 32767);
    assert_eq!(blue, vec![0; 256]);
}

#[test]
fn a_ramp_of_one_entry_is_full() {
    let multipliers = |kelvin: f32| {
        assert_eq!(kelvin, 3000.0);
        [1.0f32, 0.25, 0.0]
    };
    assert_eq!(
        temperature_to_ramps(3000.0f32, 1, &multipliers, &entry),
        (vec![65535], vec![16383], vec![0])
    );
}

#[test]
fn a_ramp_of_two_entries_has_both_ends() {
    let multipliers = |_: f32| [1.0f32; 3];
    let ends = vec![0, 65535];
    assert_eq!(
        temperature_to_ramps(3000.0f32, 2, &multipliers, &entry),
        (ends.clone(), ends.clone(), ends)
    );
}

#[test]
fn no_entries_need_no_multipliers() {
    let multipliers = |_: f32| -> [f32; 3] { panic!("not asked for") };
    assert_eq!(
        temperature_to_ramps(3000.0f32, 0, &multipliers, &entry),
        (Vec::new(), Vec::new(), Vec::new())
    );
}

#[test]
fn ramps_are_sorted_and_end_at_full_scale() {
    let channels = [1.0f32, 0.73, 0.31];
    let multipliers = |_: f32| channels;
    for size in [1usize, 2, 3, 17, 256, 1024] {
        let (red, green, blue) = temperature_to_ramps(4000.0f32, size, &multipliers, &entry);
        for (ramp, multiplier) in [red, green, blue].into_iter().zip(channels) {
            assert_eq!(ramp.len(), size);
            assert!(ramp.windows(2).all(|pair| pair[0] <= pair[1]));
            assert_eq!(ramp[size - 1], (multiplier * 65535.0) as u16);
            if size >= 2 {
                assert_eq!(ramp[0], 0);
            }
        }
    }
}
