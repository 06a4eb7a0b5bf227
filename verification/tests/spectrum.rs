//! The spectrum: its statistics, its lookups, its scaling and its views.

use spectrum_analyzer::arithmetic::{Arithmetic, Operation};
use spectrum_analyzer::error::SpectrumAnalyzerError;
use spectrum_analyzer::frequency::{Frequency, FrequencyValue, OrderableF32};
use spectrum_analyzer::log_spectrum::{next_boundary, shrink_factor};
use spectrum_analyzer::scaling::{divide_by_N, scale_to_zero_to_one, SpectrumDataStats};
use spectrum_analyzer::spectrum::{hertz_to_mel, mel_to_hertz};
use spectrum_analyzer::FrequencySpectrum;

fn ieee754(op: Operation) -> u32 {
    match op {
        Operation::Add(a, b) => (f32::from_bits(a) + f32::from_bits(b)).to_bits(),
        Operation::Sub(a, b) => (f32::from_bits(a) - f32::from_bits(b)).to_bits(),
        Operation::Mul(a, b) => (f32::from_bits(a) * f32::from_bits(b)).to_bits(),
        Operation::Div(a, b) => (f32::from_bits(a) / f32::from_bits(b)).to_bits(),
        Operation::Sqrt(a) => libm::sqrtf(f32::from_bits(a)).to_bits(),
        Operation::Log10(a) => libm::log10f(f32::from_bits(a)).to_bits(),
        Operation::Pow(a, b) => libm::powf(f32::from_bits(a), f32::from_bits(b)).to_bits(),
        Operation::Cos(a) => libm::cosf(f32::from_bits(a)).to_bits(),
        Operation::FromInt(n) => (n as f32).to_bits(),
    }
}

fn arithmetic() -> Arithmetic<fn(Operation) -> u32> {
    Arithmetic::new(ieee754)
}

fn bits(x: f32) -> u32 {
    x.to_bits()
}

fn num(x: OrderableF32) -> f32 {
    f32::from_bits(x.val())
}

fn of(x: f32) -> OrderableF32 {
    OrderableF32::from_bits(x.to_bits())
}

fn pair(fr: f32, val: f32) -> (Frequency, FrequencyValue) {
    (of(fr), of(val))
}

fn pairs(points: &[(f32, f32)]) -> Vec<(Frequency, FrequencyValue)> {
    points.iter().map(|(fr, val)| pair(*fr, *val)).collect()
}

fn numbers(entries: &[(Frequency, FrequencyValue)]) -> Vec<(f32, f32)> {
    entries.iter().map(|(fr, val)| (num(*fr), num(*val))).collect()
}

/// A spectrum of the given points, with a frequency resolution of 50 Hz.
fn spectrum_of(points: &[(f32, f32)]) -> FrequencySpectrum {
    let mut spectrum_vector = pairs(points);
    FrequencySpectrum::new(
        spectrum_vector.clone(),
        bits(50.0),
        spectrum_vector.len() as _,
        &mut spectrum_vector,
        &arithmetic(),
    )
}

fn basic_points() -> Vec<(f32, f32)> {
    vec![
        (0.0_f32, 5.0_f32),
        (50.0, 50.0),
        (100.0, 100.0),
        (150.0, 150.0),
        (200.0, 100.0),
        (250.0, 20.0),
        (300.0, 0.0),
        (450.0, 200.0),
        (500.0, 100.0),
    ]
}

/// A spectrum can be sent to other threads.
fn consume(s: FrequencySpectrum) {
    let _: &dyn Send = &s;
}

#[test]
fn test_impl_send() {
    consume(spectrum_of(&[(0.0, 0.0), (1.0, 1.0)]));
}

#[test]
fn test_spectrum_basic() {
    let arith = arithmetic();
    let mut spectrum_vector = pairs(&basic_points());

    let spectrum = FrequencySpectrum::new(
        spectrum_vector.clone(),
        bits(50.0),
        spectrum_vector.len() as _,
        &mut spectrum_vector,
        &arith,
    );

    // test inner vector is ordered
    {
        assert_eq!(pair(0.0, 5.0), spectrum.data()[0], "Vector must be ordered");
        assert_eq!(pair(50.0, 50.0), spectrum.data()[1], "Vector must be ordered");
        assert_eq!(pair(100.0, 100.0), spectrum.data()[2], "Vector must be ordered");
        assert_eq!(pair(150.0, 150.0), spectrum.data()[3], "Vector must be ordered");
        assert_eq!(pair(200.0, 100.0), spectrum.data()[4], "Vector must be ordered");
        assert_eq!(pair(250.0, 20.0), spectrum.data()[5], "Vector must be ordered");
        assert_eq!(pair(300.0, 0.0), spectrum.data()[6], "Vector must be ordered");
        assert_eq!(pair(450.0, 200.0), spectrum.data()[7], "Vector must be ordered");
        assert_eq!(pair(500.0, 100.0), spectrum.data()[8], "Vector must be ordered");
    }

    // test DC component getter
    assert_eq!(
        Some(of(5.0)),
        spectrum.dc_component(),
        "Spectrum must contain DC component"
    );

    // test getters
    {
        assert_eq!(0.0, num(spectrum.min_fr()), "min_fr() must work");
        assert_eq!(500.0, num(spectrum.max_fr()), "max_fr() must work");
        assert_eq!(pair(300.0, 0.0), spectrum.min(), "min() must work");
        assert_eq!(pair(450.0, 200.0), spectrum.max(), "max() must work");
        assert_eq!(200.0 - 0.0, num(spectrum.range(&arith)), "range() must work");
        assert_eq!(80.55556, num(spectrum.average()), "average() must work");
        assert_eq!(
            (50 + 100) as f32 / 2.0,
            num(spectrum.median()),
            "median() must work"
        );
        assert_eq!(
            50.0,
            f32::from_bits(spectrum.frequency_resolution()),
            "frequency resolution must be returned"
        );
    }

    // test get frequency exact
    {
        assert_eq!(5.0, num(spectrum.freq_val_exact(bits(0.0), &arith)),);
        assert_eq!(50.0, num(spectrum.freq_val_exact(bits(50.0), &arith)),);
        assert_eq!(150.0, num(spectrum.freq_val_exact(bits(150.0), &arith)),);
        assert_eq!(100.0, num(spectrum.freq_val_exact(bits(200.0), &arith)),);
        assert_eq!(20.0, num(spectrum.freq_val_exact(bits(250.0), &arith)),);
        assert_eq!(0.0, num(spectrum.freq_val_exact(bits(300.0), &arith)),);
        assert_eq!(100.0, num(spectrum.freq_val_exact(bits(375.0), &arith)),);
        assert_eq!(200.0, num(spectrum.freq_val_exact(bits(450.0), &arith)),);
    }

    // test get frequency closest
    {
        assert_eq!(pair(0.0, 5.0), spectrum.freq_val_closest(bits(0.0), &arith),);
        assert_eq!(pair(50.0, 50.0), spectrum.freq_val_closest(bits(50.0), &arith),);
        assert_eq!(
            pair(450.0, 200.0),
            spectrum.freq_val_closest(bits(450.0), &arith),
        );
        assert_eq!(
            pair(450.0, 200.0),
            spectrum.freq_val_closest(bits(448.0), &arith),
        );
        assert_eq!(
            pair(450.0, 200.0),
            spectrum.freq_val_closest(bits(400.0), &arith),
        );
        assert_eq!(pair(50.0, 50.0), spectrum.freq_val_closest(bits(47.3), &arith),);
        assert_eq!(pair(50.0, 50.0), spectrum.freq_val_closest(bits(51.3), &arith),);
    }
}

#[test]
fn test_statistics_come_from_the_sorted_values() {
    let arith = arithmetic();
    let points = basic_points();
    let mut buffer = pairs(&points);
    let spectrum =
        FrequencySpectrum::new(pairs(&points), bits(50.0), 1024, &mut buffer, &arith);
    // the buffer comes back sorted by value; equal values keep their order
    assert_eq!(
        numbers(&buffer),
        vec![
            (300.0, 0.0),
            (0.0, 5.0),
            (250.0, 20.0),
            (50.0, 50.0),
            (100.0, 100.0),
            (200.0, 100.0),
            (500.0, 100.0),
            (150.0, 150.0),
            (450.0, 200.0),
        ]
    );
    assert_eq!(spectrum.samples_len(), 1024);
    // the values are added up in that order
    let sum = 0.0_f32 + 0.0 + 5.0 + 20.0 + 50.0 + 100.0 + 100.0 + 100.0 + 150.0 + 200.0;
    assert_eq!(num(spectrum.average()), sum / 9.0);
    // of nine entries the two in the middle are the fourth and the fifth
    assert_eq!(num(spectrum.median()), (50.0 + 100.0) / 2.0);
    assert!(spectrum.min().1 <= spectrum.max().1);
    for (_, value) in spectrum.data() {
        assert!(spectrum.min().1 <= *value && *value <= spectrum.max().1);
    }
}

#[test]
fn test_extremes_among_equal_values() {
    // of equal lowest values the first entry is the minimum, of equal
    // highest values the last entry is the maximum
    let spectrum = spectrum_of(&[
        (10.0, 7.0),
        (20.0, 1.0),
        (30.0, 7.0),
        (40.0, 1.0),
        (50.0, 3.0),
    ]);
    assert_eq!(numbers(&[spectrum.min()]), vec![(20.0, 1.0)]);
    assert_eq!(numbers(&[spectrum.max()]), vec![(30.0, 7.0)]);
    assert_eq!(spectrum.min().0.val(), bits(20.0));
    assert_eq!(spectrum.max().0.val(), bits(30.0));
    // sorted: 1, 1, 3, 7, 7: the entries at 1 and 2 are in the middle
    assert_eq!(num(spectrum.median()), 2.0);
    assert_eq!(num(spectrum.average()), 19.0 / 5.0);
}

#[test]
fn test_median_of_an_even_number_of_entries() {
    let spectrum = spectrum_of(&[(1.0, 4.0), (2.0, 1.0), (3.0, 3.0), (4.0, 2.0)]);
    assert_eq!(num(spectrum.median()), 2.5);
    assert_eq!(num(spectrum.average()), 2.5);
    let two = spectrum_of(&[(1.0, 4.0), (2.0, 1.0)]);
    assert_eq!(num(two.median()), 2.5);
    assert_eq!(numbers(&[two.min(), two.max()]), vec![(2.0, 1.0), (1.0, 4.0)]);
}

#[test]
fn test_negative_values_are_ordered() {
    let spectrum = spectrum_of(&[(1.0, -4.0), (2.0, 1.0), (3.0, -30.0), (4.0, 0.5)]);
    assert_eq!(numbers(&[spectrum.min()]), vec![(3.0, -30.0)]);
    assert_eq!(numbers(&[spectrum.max()]), vec![(2.0, 1.0)]);
    assert_eq!(num(spectrum.median()), (-4.0 + 0.5) / 2.0);
    assert_eq!(num(spectrum.range(&arithmetic())), 31.0);
}

#[test]
#[should_panic]
fn test_spectrum_get_frequency_value_exact_panic_below_min() {
    let spectrum = spectrum_of(&[(0.0, 5.0), (450.0, 200.0)]);

    // -1 not included, expect panic
    spectrum.checked_freq_val_exact(bits(-1.0), &arithmetic()).unwrap().val();
}

#[test]
#[should_panic]
fn test_spectrum_get_frequency_value_exact_panic_below_max() {
    let spectrum = spectrum_of(&[(0.0, 5.0), (450.0, 200.0)]);

    // 451 not included, expect panic
    spectrum.checked_freq_val_exact(bits(451.0), &arithmetic()).unwrap().val();
}

#[test]
#[should_panic]
fn test_spectrum_get_frequency_value_closest_panic_below_min() {
    let spectrum = spectrum_of(&[(0.0, 5.0), (450.0, 200.0)]);
    // -1 not included, expect panic
    let _ = spectrum.checked_freq_val_closest(bits(-1.0), &arithmetic()).unwrap();
}

#[test]
#[should_panic]
fn test_spectrum_get_frequency_value_closest_panic_below_max() {
    let spectrum = spectrum_of(&[(0.0, 5.0), (450.0, 200.0)]);

    // 451 not included, expect panic
    let _ = spectrum.checked_freq_val_closest(bits(451.0), &arithmetic()).unwrap();
}

#[test]
fn test_closest_entry_of_a_nan_is_refused() {
    let spectrum = spectrum_of(&[(0.0, 5.0), (450.0, 200.0)]);
    assert!(spectrum.checked_freq_val_closest(bits(f32::NAN), &arithmetic()).is_none());
    assert!(spectrum.checked_freq_val_exact(bits(-f32::NAN), &arithmetic()).is_none());
}

#[test]
fn test_checked_lookups_inside_the_spectrum() {
    let spectrum = spectrum_of(&[(0.0, 5.0), (450.0, 200.0)]);
    let arith = arithmetic();
    assert_eq!(spectrum.checked_freq_val_exact(bits(450.0), &arith).map(num), Some(200.0));
    assert_eq!(spectrum.checked_freq_val_exact(bits(225.0), &arith).map(num), Some(102.5));
    assert_eq!(
        spectrum.checked_freq_val_closest(bits(0.0), &arith).map(|entry| num(entry.1)),
        Some(5.0)
    );
    assert!(spectrum.checked_freq_val_exact(bits(450.1), &arith).is_none());
    assert!(spectrum.checked_freq_val_exact(bits(f32::NAN), &arith).is_none());
    assert!(spectrum.checked_freq_val_closest(bits(f32::NAN), &arith).is_none());
    assert!(spectrum.checked_freq_val_closest(bits(-0.1), &arith).is_none());
    // 450 mel are 343.6 Hz
    assert_eq!(
        spectrum.checked_mel_val(bits(450.0), &arith).map(|value| value.val()),
        Some(spectrum.mel_val(bits(450.0), &arith).val())
    );
    assert!(spectrum.checked_mel_val(bits(-1.0), &arith).is_none());
    assert!(spectrum.checked_mel_val(bits(f32::NAN), &arith).is_none());
    // 1000 mel are 1000 Hz
    assert!(spectrum.checked_mel_val(bits(1000.0), &arith).is_none());
}

#[test]
fn test_frequency_outside_the_spectrum_is_not_covered() {
    let spectrum = spectrum_of(&[(0.0, 5.0), (450.0, 200.0)]);
    // -1 not included
    assert!(!spectrum.covers(bits(-1.0)));
    // 451 not included
    assert!(!spectrum.covers(bits(451.0)));
    assert!(spectrum.covers(bits(0.0)));
    assert!(spectrum.covers(bits(-0.0)));
    assert!(spectrum.covers(bits(450.0)));
    assert!(spectrum.covers(bits(200.0)));
    // the bound is a hard one: one step beyond an end is outside
    assert!(!spectrum.covers(bits(450.0) + 1));
    assert!(!spectrum.covers(bits(450.0) + 3));
    assert!(spectrum.covers(bits(450.0) - 1));
    assert!(!spectrum.covers(bits(-f32::from_bits(1))));
    assert!(spectrum.covers(1));
    assert!(!spectrum.covers(bits(f32::INFINITY)));
    // a NaN lies nowhere
    assert!(!spectrum.covers(bits(f32::NAN)));
    assert!(!spectrum.covers(bits(-f32::NAN)));
    assert!(!spectrum.covers(0x7f80_0001));
    let limited = spectrum_of(&[(100.0, 5.0), (150.0, 7.0), (200.0, 9.0)]);
    assert!(!limited.covers(bits(99.0)));
    assert!(!limited.covers(bits(0.0)));
    assert!(limited.covers(bits(100.0)));
    assert!(!limited.covers(bits(100.0) - 1));
    assert!(!limited.covers(bits(100.0) - 3));
    assert!(limited.covers(bits(100.0) + 1));
    assert!(limited.covers(bits(200.0)));
    assert!(!limited.covers(bits(200.0) + 1));
    assert!(!limited.covers(bits(201.0)));
    let arith = arithmetic();
    assert!(limited.checked_freq_val_exact(bits(200.0) + 1, &arith).is_none());
    assert!(limited.checked_freq_val_closest(bits(200.0) + 1, &arith).is_none());
    assert!(limited.checked_freq_val_exact(bits(100.0) - 1, &arith).is_none());
    assert!(limited.checked_freq_val_closest(bits(100.0) - 1, &arith).is_none());
    assert_eq!(limited.checked_freq_val_exact(bits(200.0), &arith).map(num), Some(9.0));
}

#[test]
fn test_exact_value_lies_on_the_line() {
    let arith = arithmetic();
    let spectrum = spectrum_of(&[(0.0, 1.0), (100.0, 3.0), (200.0, -1.0), (300.0, 0.0)]);
    let value = |fr: f32| num(spectrum.freq_val_exact(bits(fr), &arith));
    // the ends are read, not computed
    assert_eq!(value(0.0), 1.0);
    assert_eq!(value(300.0), 0.0);
    assert_eq!(spectrum.freq_val_exact(bits(300.0) - 3, &arith).val(), bits(0.0));
    // between two entries
    assert_eq!(value(50.0), 2.0);
    assert_eq!(value(25.0), 1.5);
    assert_eq!(value(150.0), 1.0);
    assert_eq!(value(250.0), -0.5);
    for fr in [10.0_f32, 33.0, 99.0, 120.0, 199.0, 260.0] {
        let (lower, upper) = if fr < 100.0 {
            (1.0_f32, 3.0_f32)
        } else if fr < 200.0 {
            (-1.0, 3.0)
        } else {
            (-1.0, 0.0)
        };
        assert!(lower <= value(fr) && value(fr) <= upper, "at {fr}");
    }
    // within three steps above an entry its value is read
    assert_eq!(spectrum.freq_val_exact(bits(100.0) + 3, &arith).val(), bits(3.0));
    // at the frequency of an entry the value of the entry is read
    assert_eq!(spectrum.freq_val_exact(bits(100.0), &arith).val(), bits(3.0));
    assert_eq!(spectrum.freq_val_exact(bits(200.0), &arith).val(), bits(-1.0));
}

#[test]
fn test_exact_value_at_an_entry_in_the_middle_is_the_stored_one() {
    let arith = arithmetic();
    let points = [
        (0.0_f32, 0.0_f32),
        (21.533203, 5.1524887),
        (24.224854, 20.706167),
        (30.0, 0.0),
    ];
    let spectrum = spectrum_of(&points);
    // on the line from the entry before it, the value at 24.224854 Hz would
    // come out one step beside the value of the entry
    let slope = (20.706167_f32 - 5.1524887) / (24.224854 - 21.533203);
    let c = 5.1524887 - slope * 21.533203;
    assert_eq!(bits(slope * 24.224854 + c), bits(20.706167) + 1);
    // but the entry is there, and its value is read
    let value = spectrum.freq_val_exact(bits(24.224854), &arith);
    assert_eq!(value.val(), bits(20.706167));
    for (frequency, stored) in points {
        assert_eq!(spectrum.freq_val_exact(bits(frequency), &arith).val(), bits(stored));
        assert_eq!(
            numbers(&[spectrum.freq_val_closest(bits(frequency), &arith)]),
            vec![(frequency, stored)]
        );
    }
    // one step below the entry there is no entry, and the line is taken
    let below = f32::from_bits(bits(24.224854) - 1);
    assert_eq!(num(spectrum.freq_val_exact(bits(below), &arith)), slope * below + c);
}

#[test]
fn test_entries_close_to_each_other_do_not_shadow_each_other() {
    let arith = arithmetic();
    let second = f32::from_bits(bits(100.0) + 2);
    let fourth = f32::from_bits(bits(300.0) - 2);
    let points = [(100.0_f32, 1.0_f32), (second, 2.0), (200.0, 3.0), (fourth, 4.0), (300.0, 5.0)];
    let spectrum = spectrum_of(&points);
    for (frequency, stored) in points {
        assert_eq!(spectrum.freq_val_exact(bits(frequency), &arith).val(), bits(stored));
        assert_eq!(
            numbers(&[spectrum.freq_val_closest(bits(frequency), &arith)]),
            vec![(frequency, stored)]
        );
    }
    // between the first two entries there is no entry: the lowest one is
    // close enough
    assert_eq!(spectrum.freq_val_exact(bits(100.0) + 1, &arith).val(), bits(1.0));
}

#[test]
fn test_closest_entry() {
    let arith = arithmetic();
    let spectrum = spectrum_of(&[(100.0, 0.0), (150.0, 1.0), (200.0, 0.5), (250.0, 0.1)]);
    let closest = |fr: f32| numbers(&[spectrum.freq_val_closest(bits(fr), &arith)])[0];
    assert_eq!(closest(100.0), (100.0, 0.0));
    assert_eq!(closest(250.0), (250.0, 0.1));
    assert_eq!(closest(160.0), (150.0, 1.0));
    assert_eq!(closest(174.9), (150.0, 1.0));
    // half the resolution above the lower entry the upper one is taken
    assert_eq!(closest(175.0), (200.0, 0.5));
    assert_eq!(closest(190.0), (200.0, 0.5));
    assert_eq!(closest(200.0), (200.0, 0.5));
    assert_eq!(closest(220.0), (200.0, 0.5));
    assert_eq!(closest(230.0), (250.0, 0.1));
}

#[test]
fn test_nan_safety() {
    let spectrum_vector: Vec<(Frequency, FrequencyValue)> = vec![pair(0.0, 0.0); 8];
    let mut buffer = spectrum_vector.clone();

    let spectrum = FrequencySpectrum::new(
        spectrum_vector.clone(),
        // not important here, any value
        bits(50.0),
        spectrum_vector.len() as _,
        &mut buffer,
        &arithmetic(),
    );

    assert_ne!(f32::NAN, num(spectrum.min().1), "NaN is not valid, must be 0.0!");
    assert_ne!(f32::NAN, num(spectrum.max().1), "NaN is not valid, must be 0.0!");
    assert_ne!(f32::NAN, num(spectrum.average()), "NaN is not valid, must be 0.0!");
    assert_ne!(f32::NAN, num(spectrum.median()), "NaN is not valid, must be 0.0!");

    assert_ne!(
        f32::INFINITY,
        num(spectrum.min().1),
        "INFINITY is not valid, must be 0.0!"
    );
    assert_ne!(
        f32::INFINITY,
        num(spectrum.max().1),
        "INFINITY is not valid, must be 0.0!"
    );
    assert_ne!(
        f32::INFINITY,
        num(spectrum.average()),
        "INFINITY is not valid, must be 0.0!"
    );
    assert_ne!(
        f32::INFINITY,
        num(spectrum.median()),
        "INFINITY is not valid, must be 0.0!"
    );
    assert_eq!(num(spectrum.min().1), 0.0);
    assert_eq!(num(spectrum.max().1), 0.0);
    assert_eq!(num(spectrum.average()), 0.0);
    assert_eq!(num(spectrum.median()), 0.0);
    assert!(spectrum.average().is_valid() && spectrum.median().is_valid());
}

#[test]
fn test_no_dc_component() {
    let spectrum = spectrum_of(&[(150.0, 150.0), (200.0, 100.0)]);

    assert!(
        spectrum.dc_component().is_none(),
        "This spectrum should not contain a DC component!"
    )
}

#[test]
fn test_dc_component_at_negative_zero() {
    let spectrum = spectrum_of(&[(-0.0, 3.0), (200.0, 100.0)]);
    assert_eq!(spectrum.dc_component().map(num), Some(3.0));
    let spectrum = spectrum_of(&[(f32::MIN_POSITIVE, 3.0), (200.0, 100.0)]);
    assert!(spectrum.dc_component().is_none());
}

#[test]
fn test_max() {
    let maximum: (Frequency, FrequencyValue) = pair(34.991455, 86.791145);
    let spectrum_vector: Vec<(Frequency, FrequencyValue)> = vec![
        pair(2.6916504, 22.81816),
        pair(5.383301, 2.1004658),
        pair(8.074951, 8.704016),
        pair(10.766602, 3.4043686),
        pair(13.458252, 8.649045),
        pair(16.149902, 9.210494),
        pair(18.841553, 14.937911),
        pair(21.533203, 5.1524887),
        pair(24.224854, 20.706167),
        pair(26.916504, 8.359295),
        pair(29.608154, 3.7514696),
        pair(32.299805, 15.109907),
        maximum,
        pair(37.683105, 52.140736),
        pair(40.374756, 24.108875),
        pair(43.066406, 11.070151),
        pair(45.758057, 10.569871),
        pair(48.449707, 6.1969466),
        pair(51.141357, 16.722788),
        pair(53.833008, 8.93011),
    ];
    let mut buffer = spectrum_vector.clone();

    let spectrum = FrequencySpectrum::new(
        spectrum_vector.clone(),
        bits(44100.0),
        spectrum_vector.len() as _,
        &mut buffer,
        &arithmetic(),
    );

    assert_eq!(
        spectrum.max(),
        maximum,
        "Should return the maximum frequency value!"
    )
}

#[test]
fn test_mel_getter() {
    let spectrum = spectrum_of(&[(0.0, 5.0), (450.0, 200.0)]);
    let _ = spectrum.mel_val(bits(450.0), &arithmetic());
}

#[test]
fn test_mel_val_is_the_value_at_the_frequency() {
    let arith = arithmetic();
    let spectrum = spectrum_of(&[(0.0, 5.0), (450.0, 200.0)]);
    let hz = mel_to_hertz(bits(450.0), &arith);
    assert!(spectrum.covers(hz));
    assert_eq!(
        spectrum.mel_val(bits(450.0), &arith).val(),
        spectrum.freq_val_exact(hz, &arith).val()
    );
}

#[test]
fn test_to_map_truncates_the_frequencies() {
    let arith = arithmetic();
    let spectrum = spectrum_of(&[
        (0.0, 1.0),
        (21.5, 2.0),
        (21.9, 3.0),
        (43.066406, 4.0),
        (64.6, 5.0),
    ]);
    let map = spectrum.to_map();
    let entries: Vec<(u32, f32)> = map.iter().map(|(k, v)| (*k, f32::from_bits(*v))).collect();
    // 21.5 and 21.9 share a key: the later one stays
    assert_eq!(entries, vec![(0, 1.0), (21, 3.0), (43, 4.0), (64, 5.0)]);
}

#[test]
fn test_to_mel_map_keys_are_mel() {
    let arith = arithmetic();
    let spectrum = spectrum_of(&[(0.0, 1.0), (500.0, 2.0), (5000.0, 3.0)]);
    let map = spectrum.to_mel_map(&arith);
    let entries: Vec<(u32, f32)> = map.iter().map(|(k, v)| (*k, f32::from_bits(*v))).collect();
    assert_eq!(entries, vec![(0, 1.0), (607, 2.0), (2363, 3.0)]);
    assert_eq!(f32::from_bits(hertz_to_mel(bits(500.0), &arith)) as u32, 607);
}

fn stats_of(spectrum: &FrequencySpectrum) -> (f32, f32, f32, f32) {
    (
        num(spectrum.min().1),
        num(spectrum.max().1),
        num(spectrum.average()),
        num(spectrum.median()),
    )
}

#[test]
fn test_scaling_sees_the_statistics_before_the_call() {
    let arith = arithmetic();
    let points = [(0.0_f32, 4.0_f32), (50.0, 1.0), (100.0, 3.0), (150.0, 2.0)];
    let mut buffer = pairs(&points);
    let mut spectrum =
        FrequencySpectrum::new(pairs(&points), bits(50.0), 16, &mut buffer, &arith);
    assert_eq!(stats_of(&spectrum), (1.0, 4.0, 2.5, 2.5));
    let seen = std::cell::RefCell::new(Vec::new());
    let scaling_fn = |value: u32, stats: &SpectrumDataStats| {
        seen.borrow_mut().push((
            f32::from_bits(stats.min),
            f32::from_bits(stats.max),
            f32::from_bits(stats.average),
            f32::from_bits(stats.median),
            f32::from_bits(stats.n),
        ));
        (f32::from_bits(value) - f32::from_bits(stats.min)).to_bits()
    };
    spectrum.apply_scaling_fn(&scaling_fn, &mut buffer, &arith).unwrap();
    // one snapshot for every value, and the number of samples, not of entries
    assert_eq!(seen.borrow().clone(), vec![(1.0, 4.0, 2.5, 2.5, 16.0); 4]);
    assert_eq!(
        numbers(spectrum.data()),
        vec![(0.0, 3.0), (50.0, 0.0), (100.0, 2.0), (150.0, 1.0)]
    );
    assert_eq!(stats_of(&spectrum), (0.0, 3.0, 1.5, 1.5));
    assert_eq!(numbers(&[spectrum.min(), spectrum.max()]), vec![(50.0, 0.0), (0.0, 3.0)]);
    // a second pass sees the statistics that the first one left
    spectrum
        .apply_scaling_fn(
            &|value: u32, stats: &SpectrumDataStats| scale_to_zero_to_one(value, stats, &arith),
            &mut buffer,
            &arith,
        )
        .unwrap();
    assert_eq!(
        numbers(spectrum.data()),
        vec![(0.0, 1.0), (50.0, 0.0), (100.0, 2.0 / 3.0), (150.0, 1.0 / 3.0)]
    );
    assert_eq!(spectrum.samples_len(), 16);
    assert_eq!(spectrum.frequency_resolution(), bits(50.0));
}

#[test]
fn test_divide_by_n_uses_the_number_of_samples() {
    let arith = arithmetic();
    let points = [(0.0_f32, 4.0_f32), (50.0, 1.0), (100.0, 3.0), (150.0, 2.0)];
    let mut buffer = pairs(&points);
    let mut spectrum =
        FrequencySpectrum::new(pairs(&points), bits(50.0), 16, &mut buffer, &arith);
    spectrum
        .apply_scaling_fn(
            &|value: u32, stats: &SpectrumDataStats| divide_by_N(value, stats, &arith),
            &mut buffer,
            &arith,
        )
        .unwrap();
    assert_eq!(
        numbers(spectrum.data()),
        vec![(0.0, 0.25), (50.0, 0.0625), (100.0, 0.1875), (150.0, 0.125)]
    );
}

#[test]
fn test_failed_scaling_keeps_what_was_scaled() {
    let arith = arithmetic();
    let points = [(0.0_f32, 5.0_f32), (450.0, 200.0)];
    let mut buffer = pairs(&points);
    let mut spectrum = FrequencySpectrum::new(pairs(&points), bits(50.0), 2, &mut buffer, &arith);
    let before = stats_of(&spectrum);
    let scaling_fn = |value: u32, _stats: &SpectrumDataStats| {
        let value = f32::from_bits(value);
        (if value > 100.0 { f32::NAN } else { value * 2.0 }).to_bits()
    };
    let err = spectrum.apply_scaling_fn(&scaling_fn, &mut buffer, &arith).unwrap_err();
    assert!(matches!(
        err,
        SpectrumAnalyzerError::ScalingError(value, produced)
            if value == bits(200.0) && f32::from_bits(produced).is_nan()
    ));
    // the first value is scaled and stays so, the second one is untouched
    assert_eq!(num(spectrum.data()[0].1), 10.0);
    assert_eq!(num(spectrum.data()[1].1), 200.0);
    assert_eq!(numbers(spectrum.data()), vec![(0.0, 10.0), (450.0, 200.0)]);
    assert!(spectrum.data().iter().all(|(fr, value)| fr.is_valid() && value.is_valid()));
    // the statistics are those of before the call
    assert_eq!(stats_of(&spectrum), before);
    assert_eq!(numbers(&[spectrum.min(), spectrum.max()]), vec![(0.0, 5.0), (450.0, 200.0)]);
    assert_eq!(spectrum.samples_len(), 2);
    assert_eq!(spectrum.frequency_resolution(), bits(50.0));
}

#[test]
fn test_failed_scaling_stops_at_the_first_failure() {
    let arith = arithmetic();
    let points = [(0.0_f32, 4.0_f32), (50.0, 1.0), (100.0, 3.0), (150.0, 2.0), (200.0, 3.0)];
    let mut buffer = pairs(&points);
    let mut spectrum =
        FrequencySpectrum::new(pairs(&points), bits(50.0), 16, &mut buffer, &arith);
    let before = stats_of(&spectrum);
    // fails at the third value, and would fail at the fifth
    let seen = std::cell::RefCell::new(Vec::new());
    let scaling_fn = |value: u32, _stats: &SpectrumDataStats| {
        seen.borrow_mut().push(f32::from_bits(value));
        (10.0 / (f32::from_bits(value) - 3.0)).to_bits()
    };
    let err = spectrum.apply_scaling_fn(&scaling_fn, &mut buffer, &arith).unwrap_err();
    assert!(matches!(
        err,
        SpectrumAnalyzerError::ScalingError(value, produced)
            if value == bits(3.0) && produced == bits(f32::INFINITY)
    ));
    // the function was not asked for what follows the failure
    assert_eq!(seen.borrow().clone(), vec![4.0, 1.0, 3.0]);
    assert_eq!(
        numbers(spectrum.data()),
        vec![(0.0, 10.0), (50.0, -5.0), (100.0, 3.0), (150.0, 2.0), (200.0, 3.0)]
    );
    assert_eq!(stats_of(&spectrum), before);
    // a failure at the first value leaves every entry
    let err = spectrum
        .apply_scaling_fn(&|_: u32, _: &SpectrumDataStats| bits(f32::NAN), &mut buffer, &arith)
        .unwrap_err();
    assert!(matches!(
        err,
        SpectrumAnalyzerError::ScalingError(value, produced)
            if value == bits(10.0) && f32::from_bits(produced).is_nan()
    ));
    assert_eq!(
        numbers(spectrum.data()),
        vec![(0.0, 10.0), (50.0, -5.0), (100.0, 3.0), (150.0, 2.0), (200.0, 3.0)]
    );
    // a scaling that succeeds afterwards brings the statistics up to date
    spectrum
        .apply_scaling_fn(
            &|value: u32, _: &SpectrumDataStats| (f32::from_bits(value) + 1.0).to_bits(),
            &mut buffer,
            &arith,
        )
        .unwrap();
    assert_eq!(
        numbers(spectrum.data()),
        vec![(0.0, 11.0), (50.0, -4.0), (100.0, 4.0), (150.0, 3.0), (200.0, 4.0)]
    );
    assert_eq!(numbers(&[spectrum.min(), spectrum.max()]), vec![(50.0, -4.0), (0.0, 11.0)]);
    assert_eq!(num(spectrum.median()), (3.0 + 4.0) / 2.0);
}

#[test]
fn test_log_spectrum_boundaries() {
    assert_eq!(shrink_factor(bits(0.0)), 1);
    assert_eq!(shrink_factor(bits(128.0)), 1);
    assert_eq!(shrink_factor(bits(128.1)), 2);
    assert_eq!(shrink_factor(bits(256.0)), 2);
    assert_eq!(shrink_factor(bits(256.1)), 4);
    assert_eq!(shrink_factor(bits(1024.0)), 4);
    assert_eq!(shrink_factor(bits(1024.1)), 8);
    assert_eq!(shrink_factor(bits(20000.0)), 8);
    assert_eq!(next_boundary(bits(256.0), bits(200.0)), bits(256.0));
    assert_eq!(next_boundary(bits(256.0), bits(256.0)), bits(256.0));
    assert_eq!(next_boundary(bits(256.0), bits(257.0)), bits(512.0));
    assert_eq!(next_boundary(bits(256.0), bits(5000.0)), bits(8192.0));
    assert_eq!(next_boundary(bits(1024.0), bits(2048.5)), bits(4096.0));
    assert_eq!(next_boundary(bits(256.0), bits(f32::MAX)), bits(f32::INFINITY));
    assert_eq!(next_boundary(bits(256.0), bits(f32::INFINITY)), bits(f32::INFINITY));
}

#[test]
fn test_log_spectrum() {
    let arith = arithmetic();
    let spectrum = spectrum_of(&[
        // up to 128 Hz every entry is kept
        (2.0, 10.0),
        (4.0, 10.0),
        (8.0, 10.0),
        (16.0, 10.0),
        (32.0, 10.0),
        (64.0, 10.0),
        (128.0, 10.0),
        // up to 256 Hz two entries make one
        (130.0, 20.0),
        (140.0, 30.0),
        // a bucket is closed before the boundary
        (250.0, 20.0),
        // up to 512 Hz, and up to 1024 Hz, four entries make one
        (260.0, 30.0),
        (300.0, 20.0),
        (400.0, 30.0),
        (500.0, 20.0),
        (520.0, 20.0),
        (600.0, 30.0),
        (700.0, 20.0),
        (1024.0, 30.0),
        // above 1024 Hz eight entries make one
        (1030.0, 20.0),
        (1100.0, 30.0),
        (1200.0, 20.0),
        (1300.0, 30.0),
        (1400.0, 20.0),
        (1500.0, 30.0),
        (1600.0, 20.0),
        (1700.0, 30.0),
        (2000.0, 20.0),
        (2040.0, 30.0),
        (2050.0, 20.0),
        (3000.0, 30.0),
        // the last bucket is closed at the end
        (5000.0, 30.0),
    ]);
    let log_spectrum = spectrum.to_log_spectrum(&arith);
    assert_eq!(
        numbers(&log_spectrum),
        vec![
            (2.0, 10.0),
            (4.0, 10.0),
            (8.0, 10.0),
            (16.0, 10.0),
            (32.0, 10.0),
            (64.0, 10.0),
            (128.0, 10.0),
            (135.0, 25.0),
            (250.0, 20.0),
            (365.0, 25.0),
            (711.0, 25.0),
            (1353.75, 25.0),
            (2020.0, 25.0),
            (2525.0, 25.0),
            (5000.0, 30.0),
        ]
    );
}

#[test]
fn test_log_spectrum_of_low_frequencies_is_the_spectrum() {
    let points = [(0.0_f32, 1.0_f32), (50.0, 2.0), (100.0, 3.0), (128.0, 4.0)];
    let spectrum = spectrum_of(&points);
    assert_eq!(numbers(&spectrum.to_log_spectrum(&arithmetic())), points.to_vec());
}

#[test]
fn test_log_spectrum_averages_in_order() {
    let arith = arithmetic();
    // eight entries in one bucket: the mean is the sum from the first to
    // the last over eight
    let values = [1.0e8_f32, 1.0, -1.0e8, 1.0, 3.0, 5.0, 7.0, 9.0];
    let points: Vec<(f32, f32)> = values
        .iter()
        .enumerate()
        .map(|(i, value)| (1100.0 + i as f32, *value))
        .collect();
    let spectrum = spectrum_of(&points);
    let sum = values.iter().fold(0.0_f32, |a, b| a + b);
    let frequencies = points.iter().fold(0.0_f32, |a, b| a + b.0);
    assert_eq!(
        numbers(&spectrum.to_log_spectrum(&arith)),
        vec![(frequencies / 8.0, sum / 8.0)]
    );
}
