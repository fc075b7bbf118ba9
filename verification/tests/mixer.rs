use std::f32::consts::PI;

use rix::bits::sample_eq;
use rix::bits::sample_lt;
use rix::bits::GAIN_UNITY_BITS;
use rix::bits::PAN_CENTER_BITS;
use rix::mixer::process_matrix;
use rix::mixer::Buffer;
use rix::mixer::Channel;
use rix::mixer::Link;
use rix::mixer::MatrixError;
use rix::mixer::MixOp;
use rix::mixer::MixProperty;
use rix::mixer::Mixer;
use rix::mixer::BUFFER_SIZE;
use rix::mixer::INPUTS;

fn kernel(op: MixOp) -> u32 {
    match op {
        MixOp::BipolarOffset { out, gain, pan } => {
            let out = f32::from_bits(out);
            let gain = f32::from_bits(gain);
            let pan = f32::from_bits(pan);
            let scale = 2. * pan - 1.;
            (out + gain * scale).to_bits()
        }
        MixOp::ScaledAdd { out, input, gain } => {
            (f32::from_bits(out) + f32::from_bits(input) * f32::from_bits(gain)).to_bits()
        }
        MixOp::RotatedDownmix { out, left, right, gain, pan } => {
            let rad = f32::from_bits(pan) * 0.5 * PI;
            (f32::from_bits(out)
                + (f32::from_bits(left) * rad.cos() + f32::from_bits(right) * rad.sin())
                    * f32::from_bits(gain))
            .to_bits()
        }
        MixOp::PannedBipolar { out, gain, pan, sine } => {
            let rad = f32::from_bits(pan) * 0.5 * PI;
            let bipolar = 2. * f32::from_bits(gain) - 1.;
            let trig = if sine { rad.sin() } else { rad.cos() };
            (f32::from_bits(out) + trig * bipolar).to_bits()
        }
        MixOp::PannedAdd { out, input, gain, pan, sine } => {
            let rad = f32::from_bits(pan) * 0.5 * PI;
            let trig = if sine { rad.sin() } else { rad.cos() };
            (f32::from_bits(out) + f32::from_bits(input) * trig * f32::from_bits(gain)).to_bits()
        }
        MixOp::Separate { main, other, gain, pan } => {
            let ratio = f32::from_bits(pan) * PI;
            ((f32::from_bits(main) + f32::from_bits(other) * ratio) * f32::from_bits(gain))
                .to_bits()
        }
        MixOp::Merge { main, other, gain, pan } => {
            let pan = f32::from_bits(pan);
            let ratio1 = ((1.5 - pan) * 0.5 * PI).cos();
            let ratio2 = ((pan - 0.5) * 0.5 * PI).sin();
            ((f32::from_bits(main) * ratio1 + f32::from_bits(other) * ratio2)
                * f32::from_bits(gain))
            .to_bits()
        }
    }
}

fn mono_const(v: f32, n: usize) -> Buffer {
    let mut c = Channel::new();
    let mut k: usize = 0;
    while k < n {
        c.push(v.to_bits());
        k += 1;
    }
    Buffer::Mono(c)
}

fn stereo_const(lv: f32, rv: f32, n: usize) -> Buffer {
    let mut l = Channel::new();
    let mut r = Channel::new();
    let mut k: usize = 0;
    while k < n {
        l.push(lv.to_bits());
        r.push(rv.to_bits());
        k += 1;
    }
    Buffer::Stereo { l, r }
}

fn link(active: bool, gain: f32, pan: f32, mute: bool) -> Link {
    Link {
        active,
        property: MixProperty { gain: gain.to_bits(), pan: pan.to_bits(), mute },
    }
}

fn mono_samples(b: &Buffer) -> Vec<f32> {
    match b {
        Buffer::Mono(c) => {
            let mut v: Vec<f32> = Vec::new();
            let mut k: usize = 0;
            while k < c.len() {
                v.push(f32::from_bits(c.get(k)));
                k += 1;
            }
            v
        }
        _ => panic!("expected a mono buffer"),
    }
}

fn stereo_samples(b: &Buffer) -> (Vec<f32>, Vec<f32>) {
    match b {
        Buffer::Stereo { l, r } => {
            let mut lv: Vec<f32> = Vec::new();
            let mut rv: Vec<f32> = Vec::new();
            let mut k: usize = 0;
            while k < l.len() {
                lv.push(f32::from_bits(l.get(k)));
                k += 1;
            }
            let mut k: usize = 0;
            while k < r.len() {
                rv.push(f32::from_bits(r.get(k)));
                k += 1;
            }
            (lv, rv)
        }
        _ => panic!("expected a stereo buffer"),
    }
}

#[test]
fn it_works() {
    let mut mxr = Mixer::new();
    mxr.process(kernel);
    println!("{:#?}", mxr);
}

#[test]
fn constants_match_the_encodings() {
    assert_eq!(GAIN_UNITY_BITS, 1.0f32.to_bits());
    assert_eq!(PAN_CENTER_BITS, 0.5f32.to_bits());
}

#[test]
fn sample_comparisons_follow_float_semantics() {
    let values: [f32; 12] = [
        0.0,
        -0.0,
        1.0,
        -1.0,
        0.5,
        -0.5,
        1.0e-40,
        f32::INFINITY,
        f32::NEG_INFINITY,
        f32::NAN,
        3.25,
        -7.5,
    ];
    for a in values.iter() {
        for b in values.iter() {
            assert_eq!(sample_eq(a.to_bits(), b.to_bits()), a == b);
            assert_eq!(sample_lt(a.to_bits(), b.to_bits()), a < b);
        }
    }
}

#[test]
fn dimension_mismatch_is_rejected_and_outputs_untouched() {
    let matrix: Vec<Link> = vec![Link::default(), Link::default(), Link::default()];
    let inputs: Vec<Buffer> = vec![mono_const(0.5, 4), mono_const(0.5, 4)];
    let mut outputs: Vec<Buffer> = vec![mono_const(7.5, 4), mono_const(7.5, 4)];
    let r = process_matrix(&matrix, &inputs, &mut outputs, kernel);
    assert_eq!(r, Err(MatrixError::DimensionMismatch));
    for b in outputs.iter() {
        for s in mono_samples(b) {
            assert_eq!(s, 7.5);
        }
    }
}

#[test]
fn muted_and_inactive_links_contribute_nothing() {
    let inputs: Vec<Buffer> = vec![mono_const(1.0, 8)];
    let mut outputs: Vec<Buffer> = vec![mono_const(0.0, 8)];
    let muted: Vec<Link> = vec![link(true, 100.0, 0.5, true)];
    process_matrix(&muted, &inputs, &mut outputs, kernel).unwrap();
    for s in mono_samples(&outputs[0]) {
        assert_eq!(s, 0.0);
    }
    let inactive: Vec<Link> = vec![link(false, 100.0, 0.5, false)];
    process_matrix(&inactive, &inputs, &mut outputs, kernel).unwrap();
    for s in mono_samples(&outputs[0]) {
        assert_eq!(s, 0.0);
    }
}

#[test]
fn mono_to_mono_identity_at_unity_gain() {
    let matrix: Vec<Link> = vec![link(true, 1.0, 0.5, false)];
    let inputs: Vec<Buffer> = vec![mono_const(0.25, BUFFER_SIZE)];
    let mut outputs: Vec<Buffer> = vec![mono_const(0.0, BUFFER_SIZE)];
    process_matrix(&matrix, &inputs, &mut outputs, kernel).unwrap();
    let got = mono_samples(&outputs[0]);
    assert_eq!(got.len(), BUFFER_SIZE);
    for s in got {
        assert_eq!(s, 0.25);
    }
}

#[test]
fn center_pan_stereo_passthrough() {
    let matrix: Vec<Link> = vec![link(true, 1.0, 0.5, false)];
    let inputs: Vec<Buffer> = vec![stereo_const(0.3, -0.2, 8)];
    let mut outputs: Vec<Buffer> = vec![stereo_const(0.0, 0.0, 8)];
    process_matrix(&matrix, &inputs, &mut outputs, kernel).unwrap();
    let (lv, rv) = stereo_samples(&outputs[0]);
    for s in lv {
        assert_eq!(s, 0.3);
    }
    for s in rv {
        assert_eq!(s, -0.2);
    }
}

#[test]
fn equal_power_mono_to_stereo_at_center_pan() {
    let matrix: Vec<Link> = vec![link(true, 1.0, 0.5, false)];
    let inputs: Vec<Buffer> = vec![mono_const(1.0, 4)];
    let mut outputs: Vec<Buffer> = vec![stereo_const(0.0, 0.0, 4)];
    process_matrix(&matrix, &inputs, &mut outputs, kernel).unwrap();
    let rad = 0.5f32 * 0.5 * PI;
    let expected_l = 0.0 + 1.0 * rad.cos() * 1.0;
    let expected_r = 0.0 + 1.0 * rad.sin() * 1.0;
    assert!((expected_l - 0.7071).abs() < 1.0e-3);
    assert!((expected_r - 0.7071).abs() < 1.0e-3);
    let (lv, rv) = stereo_samples(&outputs[0]);
    for s in lv {
        assert_eq!(s, expected_l);
    }
    for s in rv {
        assert_eq!(s, expected_r);
    }
}

#[test]
fn separation_branch_assigns_instead_of_accumulating() {
    let matrix: Vec<Link> = vec![link(true, 1.0, 0.25, false)];
    let inputs: Vec<Buffer> = vec![stereo_const(1.0, 0.0, 4)];
    let mut outputs: Vec<Buffer> = vec![stereo_const(5.0, 5.0, 4)];
    process_matrix(&matrix, &inputs, &mut outputs, kernel).unwrap();
    let ratio = 0.25f32 * PI;
    let expected_l = (1.0 + 0.0 * ratio) * 1.0;
    let expected_r = (0.0 + 1.0 * ratio) * 1.0;
    let (lv, rv) = stereo_samples(&outputs[0]);
    for s in lv {
        assert_eq!(s, expected_l);
    }
    for s in rv {
        assert_eq!(s, expected_r);
    }
}

#[test]
fn merging_branch_assigns_the_rotated_mix() {
    let matrix: Vec<Link> = vec![link(true, 1.0, 0.75, false)];
    let inputs: Vec<Buffer> = vec![stereo_const(1.0, 0.0, 4)];
    let mut outputs: Vec<Buffer> = vec![stereo_const(5.0, 5.0, 4)];
    process_matrix(&matrix, &inputs, &mut outputs, kernel).unwrap();
    let ratio1 = ((1.5f32 - 0.75) * 0.5 * PI).cos();
    let ratio2 = ((0.75f32 - 0.5) * 0.5 * PI).sin();
    let expected_l = (1.0 * ratio1 + 0.0 * ratio2) * 1.0;
    let expected_r = (0.0 * ratio1 + 1.0 * ratio2) * 1.0;
    let (lv, rv) = stereo_samples(&outputs[0]);
    for s in lv {
        assert_eq!(s, expected_l);
    }
    for s in rv {
        assert_eq!(s, expected_r);
    }
}

#[test]
fn equal_stereo_samples_accumulate_even_off_center() {
    let matrix: Vec<Link> = vec![link(true, 1.0, 0.25, false)];
    let inputs: Vec<Buffer> = vec![stereo_const(0.5, 0.5, 4)];
    let mut outputs: Vec<Buffer> = vec![stereo_const(1.0, 2.0, 4)];
    process_matrix(&matrix, &inputs, &mut outputs, kernel).unwrap();
    let (lv, rv) = stereo_samples(&outputs[0]);
    for s in lv {
        assert_eq!(s, 1.5);
    }
    for s in rv {
        assert_eq!(s, 2.5);
    }
}

#[test]
fn two_mono_inputs_sum_into_one_output() {
    let matrix: Vec<Link> = vec![link(true, 1.0, 0.5, false), link(true, 2.0, 0.5, false)];
    let inputs: Vec<Buffer> = vec![mono_const(0.25, 8), mono_const(0.5, 8)];
    let mut outputs: Vec<Buffer> = vec![mono_const(0.0, 8)];
    process_matrix(&matrix, &inputs, &mut outputs, kernel).unwrap();
    for s in mono_samples(&outputs[0]) {
        assert_eq!(s, 0.25 * 1.0 + 0.5 * 2.0);
    }
}

#[test]
fn silence_into_mono_injects_the_bipolar_gain_term() {
    let matrix: Vec<Link> = vec![link(true, 2.0, 0.75, false)];
    let inputs: Vec<Buffer> = vec![Buffer::Absent];
    let mut outputs: Vec<Buffer> = vec![mono_const(0.0, 4)];
    process_matrix(&matrix, &inputs, &mut outputs, kernel).unwrap();
    for s in mono_samples(&outputs[0]) {
        assert_eq!(s, 2.0 * (2.0 * 0.75 - 1.0));
    }
}

#[test]
fn silence_into_stereo_injects_panned_bipolar_gain() {
    let matrix: Vec<Link> = vec![link(true, 1.0, 0.0, false)];
    let inputs: Vec<Buffer> = vec![Buffer::Absent];
    let mut outputs: Vec<Buffer> = vec![stereo_const(0.0, 0.0, 4)];
    process_matrix(&matrix, &inputs, &mut outputs, kernel).unwrap();
    let rad = 0.0f32 * 0.5 * PI;
    let bipolar = 2.0f32 * 1.0 - 1.0;
    let (lv, rv) = stereo_samples(&outputs[0]);
    for s in lv {
        assert_eq!(s, rad.cos() * bipolar);
    }
    for s in rv {
        assert_eq!(s, rad.sin() * bipolar);
    }
}

#[test]
fn stereo_into_mono_downmixes_with_rotation() {
    let matrix: Vec<Link> = vec![link(true, 2.0, 0.25, false)];
    let inputs: Vec<Buffer> = vec![stereo_const(0.5, -0.25, 4)];
    let mut outputs: Vec<Buffer> = vec![mono_const(0.0, 4)];
    process_matrix(&matrix, &inputs, &mut outputs, kernel).unwrap();
    let rad = 0.25f32 * 0.5 * PI;
    let expected = 0.0 + (0.5 * rad.cos() + -0.25 * rad.sin()) * 2.0;
    for s in mono_samples(&outputs[0]) {
        assert_eq!(s, expected);
    }
}

#[test]
fn mono_into_stereo_uses_both_trig_legs() {
    let matrix: Vec<Link> = vec![link(true, 0.5, 0.25, false)];
    let inputs: Vec<Buffer> = vec![mono_const(0.8, 4)];
    let mut outputs: Vec<Buffer> = vec![stereo_const(0.0, 0.0, 4)];
    process_matrix(&matrix, &inputs, &mut outputs, kernel).unwrap();
    let rad = 0.25f32 * 0.5 * PI;
    let expected_l = 0.0 + 0.8 * rad.cos() * 0.5;
    let expected_r = 0.0 + 0.8 * rad.sin() * 0.5;
    let (lv, rv) = stereo_samples(&outputs[0]);
    for s in lv {
        assert_eq!(s, expected_l);
    }
    for s in rv {
        assert_eq!(s, expected_r);
    }
}

#[test]
fn empty_input_set_is_accepted_and_leaves_outputs_alone() {
    let matrix: Vec<Link> = Vec::new();
    let inputs: Vec<Buffer> = Vec::new();
    let mut outputs: Vec<Buffer> = vec![mono_const(1.5, 4)];
    assert_eq!(process_matrix(&matrix, &inputs, &mut outputs, kernel), Ok(()));
    for s in mono_samples(&outputs[0]) {
        assert_eq!(s, 1.5);
    }
}

#[test]
fn shorter_input_only_touches_the_zipped_prefix() {
    let matrix: Vec<Link> = vec![link(true, 1.0, 0.5, false)];
    let inputs: Vec<Buffer> = vec![mono_const(0.5, 2)];
    let mut outputs: Vec<Buffer> = vec![mono_const(1.0, 4)];
    process_matrix(&matrix, &inputs, &mut outputs, kernel).unwrap();
    assert_eq!(mono_samples(&outputs[0]), vec![1.5, 1.5, 1.0, 1.0]);
}

#[test]
fn absent_output_ignores_every_input() {
    let matrix: Vec<Link> = vec![link(true, 1.0, 0.5, false)];
    let inputs: Vec<Buffer> = vec![mono_const(1.0, 4)];
    let mut outputs: Vec<Buffer> = vec![Buffer::Absent];
    process_matrix(&matrix, &inputs, &mut outputs, kernel).unwrap();
    assert!(matches!(outputs[0], Buffer::Absent));
}

#[test]
fn buffer_clear_empties_every_channel() {
    let mut b = stereo_const(1.0, 2.0, 8);
    b.clear();
    match &b {
        Buffer::Stereo { l, r } => {
            assert_eq!(l.len(), 0);
            assert_eq!(r.len(), 0);
        }
        _ => panic!("arity changed"),
    }
    let mut m = mono_const(1.0, 8);
    m.clear();
    match &m {
        Buffer::Mono(c) => assert_eq!(c.len(), 0),
        _ => panic!("arity changed"),
    }
}

#[test]
fn channel_queue_keeps_order_and_writes_in_place() {
    let mut c = Channel::new();
    assert_eq!(c.len(), 0);
    c.push(10);
    c.push(20);
    c.push(30);
    assert_eq!(c.len(), 3);
    assert_eq!(c.get(0), 10);
    assert_eq!(c.get(1), 20);
    assert_eq!(c.get(2), 30);
    c.set(1, 99);
    assert_eq!(c.get(0), 10);
    assert_eq!(c.get(1), 99);
    assert_eq!(c.get(2), 30);
    c.clear();
    assert_eq!(c.len(), 0);
}

#[test]
fn mixer_routes_by_output_major_index() {
    let mut mxr = Mixer::new();
    assert_eq!(mxr.inputs.len(), INPUTS);
    mxr.inputs[3] = mono_const(0.5, 4);
    mxr.outputs[2] = mono_const(0.0, 4);
    mxr.intern[2 * INPUTS + 3] = link(true, 2.0, 0.5, false);
    mxr.process(kernel);
    let routed = mono_samples(&mxr.outputs[2]);
    assert_eq!(routed.len(), 4);
    for s in routed {
        assert_eq!(s, 1.0);
    }
    assert!(mono_samples(&mxr.outputs[0]).is_empty());
}

#[test]
fn default_links_are_active_but_muted() {
    let mxr = Mixer::new();
    for l in mxr.intern.iter() {
        assert!(l.active);
        assert!(l.property.mute);
        assert_eq!(l.property.gain, GAIN_UNITY_BITS);
        assert_eq!(l.property.pan, PAN_CENTER_BITS);
    }
}

#[test]
fn trim_settings_default_to_muted_unity_center() {
    let mxr = Mixer::default();
    assert_eq!(mxr.pre.len(), INPUTS);
    for p in mxr.pre.iter().chain(mxr.post.iter()) {
        assert_eq!(p.gain, 1.0f32.to_bits());
        assert_eq!(p.pan, 0.5f32.to_bits());
        assert!(p.mute);
    }
}
