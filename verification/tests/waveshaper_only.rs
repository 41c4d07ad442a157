use digidist::effect::DigiDist;
use digidist::scale::{FLOOR, ONE};

#[test]
fn without_a_filter_the_output_is_the_waveshapers() {
    let mut d = DigiDist::new(false);
    // At a threshold of 1.0: 0.5 stays, 2.0 and -3.0 are clipped.
    assert_eq!(d.process_sample(500_000_000), 500_000_000);
    assert_eq!(d.process_sample(2_000_000_000), ONE);
    assert_eq!(d.process_sample(-3_000_000_000), -ONE);
    // At a threshold of 0.5, 0.25 becomes 0.5.
    d.set_parameter(0, 500_000_000);
    assert_eq!(d.process_sample(250_000_000), 500_000_000);
    let stages = d.filter_state();
    assert_eq!((stages.first, stages.second), (0, 0));
}

#[test]
fn without_a_filter_there_is_one_parameter() {
    let mut d = DigiDist::new(false);
    assert_eq!(d.get_info().parameters, 1);
    assert_eq!(d.get_info().inputs, 2);
    assert_eq!(d.get_info().outputs, 2);
    assert_eq!(d.get_parameter(0), ONE);
    assert_eq!(d.get_parameter(1), 0);
    d.set_parameter(1, 300_000_000);
    assert_eq!(d.get_parameter(1), 0);
    assert_eq!(d.get_parameter(0), ONE);
    assert_eq!(d.get_parameter_name(0), "Threshold");
    assert_eq!(d.get_parameter_name(1), "");
    assert_eq!(d.get_parameter_text(0), "100");
    assert_eq!(d.get_parameter_text(1), "");
    assert_eq!(d.get_parameter_label(0), "%");
    assert_eq!(d.get_parameter_label(1), "");
    d.set_parameter(0, 1);
    assert_eq!(d.get_parameter(0), FLOOR);
}

#[test]
fn without_a_filter_a_block_is_shaped_sample_by_sample() {
    let mut d = DigiDist::new(false);
    d.set_parameter(0, 500_000_000);
    let inputs = vec![vec![250_000_000, -ONE, 0], vec![ONE, 100_000_000, -400_000_000]];
    let mut outputs = vec![vec![0; 3], vec![0; 3]];
    d.process(&inputs, &mut outputs);
    assert_eq!(outputs[0], vec![500_000_000, -ONE, 0]);
    assert_eq!(outputs[1], vec![ONE, 200_000_000, -800_000_000]);
    // The same block again gives the same output: nothing is remembered.
    let mut again = vec![vec![0; 3], vec![0; 3]];
    d.process(&inputs, &mut again);
    assert_eq!(again, outputs);
}

#[test]
fn with_a_filter_the_same_block_twice_differs() {
    let mut d = DigiDist::new(true);
    d.set_parameter(1, 500_000_000);
    let inputs = vec![vec![ONE, ONE]];
    let mut first = vec![vec![0; 2]];
    let mut second = vec![vec![0; 2]];
    d.process(&inputs, &mut first);
    d.process(&inputs, &mut second);
    assert_eq!(first, vec![vec![750_000_000, 500_000_000]]);
    assert_eq!(second, vec![vec![312_500_000, 187_500_000]]);
}

#[test]
fn new_with_a_filter_is_the_default() {
    let (a, b) = (DigiDist::new(true), DigiDist::default());
    assert_eq!(a.get_info().parameters, 2);
    assert_eq!(b.get_info().parameters, 2);
    for index in 0..3 {
        assert_eq!(a.get_parameter(index), b.get_parameter(index));
        assert_eq!(a.get_parameter_name(index), b.get_parameter_name(index));
    }
}
