use libmikoto::sample::{FromSample, Sample};
use libmikoto::view::BufferView;
use libmikoto::{AudioBuffer, AudioError};

#[derive(Clone, Copy, Debug, Default, PartialEq)]
struct Sf32(f32);

impl Sample for Sf32 {
    fn zero_spec() -> Self {
        Sf32(0.0)
    }
    fn add_spec(self, rhs: Self) -> Self {
        Sf32(self.0 + rhs.0)
    }
    fn sub_spec(self, rhs: Self) -> Self {
        Sf32(self.0 - rhs.0)
    }
    fn mul_spec(self, rhs: Self) -> Self {
        Sf32(self.0 * rhs.0)
    }
    fn div_spec(self, rhs: Self) -> Self {
        Sf32(self.0 / rhs.0)
    }
    fn neg_spec(self) -> Self {
        Sf32(-self.0)
    }
    fn from_count_spec(n: usize) -> Self {
        Sf32(n as f32)
    }
    fn zero() -> Self {
        Sf32(0.0)
    }
    fn add(self, rhs: Self) -> Self {
        Sf32(self.0 + rhs.0)
    }
    fn sub(self, rhs: Self) -> Self {
        Sf32(self.0 - rhs.0)
    }
    fn mul(self, rhs: Self) -> Self {
        Sf32(self.0 * rhs.0)
    }
    fn div(self, rhs: Self) -> Self {
        Sf32(self.0 / rhs.0)
    }
    fn neg(self) -> Self {
        Sf32(-self.0)
    }
    fn from_count(n: usize) -> Self {
        Sf32(n as f32)
    }
}

#[derive(Clone, Copy, Debug, Default, PartialEq)]
struct Sf64(f64);

impl Sample for Sf64 {
    fn zero_spec() -> Self {
        Sf64(0.0)
    }
    fn add_spec(self, rhs: Self) -> Self {
        Sf64(self.0 + rhs.0)
    }
    fn sub_spec(self, rhs: Self) -> Self {
        Sf64(self.0 - rhs.0)
    }
    fn mul_spec(self, rhs: Self) -> Self {
        Sf64(self.0 * rhs.0)
    }
    fn div_spec(self, rhs: Self) -> Self {
        Sf64(self.0 / rhs.0)
    }
    fn neg_spec(self) -> Self {
        Sf64(-self.0)
    }
    fn from_count_spec(n: usize) -> Self {
        Sf64(n as f64)
    }
    fn zero() -> Self {
        Sf64(0.0)
    }
    fn add(self, rhs: Self) -> Self {
        Sf64(self.0 + rhs.0)
    }
    fn sub(self, rhs: Self) -> Self {
        Sf64(self.0 - rhs.0)
    }
    fn mul(self, rhs: Self) -> Self {
        Sf64(self.0 * rhs.0)
    }
    fn div(self, rhs: Self) -> Self {
        Sf64(self.0 / rhs.0)
    }
    fn neg(self) -> Self {
        Sf64(-self.0)
    }
    fn from_count(n: usize) -> Self {
        Sf64(n as f64)
    }
}

impl FromSample<Sf64> for Sf32 {
    fn convertible_spec(s: Sf64) -> bool {
        !(s.0.is_finite() && s.0.abs() > f32::MAX as f64)
    }
    fn convert_spec(s: Sf64) -> Sf32 {
        Sf32(s.0 as f32)
    }
    fn try_convert(s: Sf64) -> Option<Sf32> {
        if s.0.is_finite() && s.0.abs() > f32::MAX as f64 {
            None
        } else {
            Some(Sf32(s.0 as f32))
        }
    }
}

fn ch(values: &[f32]) -> Vec<Sf32> {
    values.iter().map(|v| Sf32(*v)).collect()
}

fn buffer(chans: &[&[f32]]) -> AudioBuffer<Sf32> {
    let mut b: AudioBuffer<Sf32> = AudioBuffer::new_with_size(chans.len(), 0);
    for (i, c) in chans.iter().enumerate() {
        b.data[i] = ch(c);
    }
    b
}

#[test]
fn test_ops() {
    let mut buf1: AudioBuffer<Sf32> = AudioBuffer::new_with_size(2, 3);
    buf1.data[0] = ch(&[1.0, 2.0, 3.0]);
    buf1.data[1] = ch(&[4.0, 5.0, 6.0]);

    let mut buf2: AudioBuffer<Sf32> = AudioBuffer::new_with_size(2, 3);
    buf2.data[0] = ch(&[10.0, 20.0, 30.0]);
    buf2.data[1] = ch(&[40.0, 50.0, 60.0]);

    // Adding two buffers.
    let result = buf1.add(buf2);
    assert_eq!(result.data[0], ch(&[11.0, 22.0, 33.0]));
    assert_eq!(result.data[1], ch(&[44.0, 55.0, 66.0]));

    // Adding a scalar.
    let result = result.add_scalar(Sf32(5.0));
    assert_eq!(result.data[0], ch(&[16.0, 27.0, 38.0]));
    assert_eq!(result.data[1], ch(&[49.0, 60.0, 71.0]));

    // In-place addition.
    let mut buf3: AudioBuffer<Sf32> = AudioBuffer::new_with_size(2, 3);
    buf3.data[0] = ch(&[1.0, 1.0, 1.0]);
    buf3.data[1] = ch(&[2.0, 2.0, 2.0]);
    let rhs = buf3.clone();
    buf3.add_assign(&rhs);
    assert_eq!(buf3.data[0], ch(&[2.0, 2.0, 2.0]));
    assert_eq!(buf3.data[1], ch(&[4.0, 4.0, 4.0]));

    // In-place addition of a scalar.
    buf3.add_assign_scalar(Sf32(2.0));
    assert_eq!(buf3.data[0], ch(&[4.0, 4.0, 4.0]));
    assert_eq!(buf3.data[1], ch(&[6.0, 6.0, 6.0]));

    // Negation.
    let neg_buf = buf3.clone().neg();
    assert_eq!(neg_buf.data[0], ch(&[-4.0, -4.0, -4.0]));
    assert_eq!(neg_buf.data[1], ch(&[-6.0, -6.0, -6.0]));

    // Subtraction.
    let sub_buf = buf3.clone().sub_scalar(Sf32(2.0));
    assert_eq!(sub_buf.data[0], ch(&[2.0, 2.0, 2.0]));
    assert_eq!(sub_buf.data[1], ch(&[4.0, 4.0, 4.0]));

    // Multiplication.
    let mul_buf = buf3.clone().mul(Sf32(2.0));
    assert_eq!(mul_buf.data[0], ch(&[8.0, 8.0, 8.0]));
    assert_eq!(mul_buf.data[1], ch(&[12.0, 12.0, 12.0]));

    // Division.
    let div_buf = buf3.clone().div(Sf32(2.0));
    assert_eq!(div_buf.data[0], ch(&[2.0, 2.0, 2.0]));
    assert_eq!(div_buf.data[1], ch(&[3.0, 3.0, 3.0]));
}

#[test]
fn test_sample_round_trip() {
    let mut b: AudioBuffer<Sf32> = AudioBuffer::new_with_size(2, 4);
    assert_eq!(b.set_sample(1, 2, Sf32(0.25)), Ok(()));
    assert_eq!(b.get_sample(1, 2), Ok(Sf32(0.25)));
    // The last valid position works and keeps the exact value.
    assert_eq!(b.set_sample(1, 3, Sf32(-7.5)), Ok(()));
    assert_eq!(b.get_sample(1, 3), Ok(Sf32(-7.5)));
}

#[test]
fn test_bounds_kinds() {
    let mut b: AudioBuffer<Sf32> = AudioBuffer::new_with_size(2, 3);
    // channel == numChannels
    assert_eq!(b.get_sample(2, 0), Err(AudioError::ChannelOutOfBounds));
    assert_eq!(
        b.set_sample(2, 0, Sf32(1.0)),
        Err(AudioError::ChannelOutOfBounds)
    );
    assert_eq!(
        b.add_sample(2, 0, Sf32(1.0)),
        Err(AudioError::ChannelOutOfBounds)
    );
    // index == numSamples(channel)
    assert_eq!(b.get_sample(1, 3), Err(AudioError::SampleOutOfBounds));
    assert_eq!(
        b.set_sample(1, 3, Sf32(1.0)),
        Err(AudioError::SampleOutOfBounds)
    );
    assert_eq!(
        b.add_sample(1, 3, Sf32(1.0)),
        Err(AudioError::SampleOutOfBounds)
    );
    // The last valid index succeeds.
    assert_eq!(b.get_sample(1, 2), Ok(Sf32(0.0)));
    assert_eq!(b.set_sample(1, 2, Sf32(2.0)), Ok(()));
    assert_eq!(b.add_sample(1, 2, Sf32(0.5)), Ok(()));
    assert_eq!(b.get_sample(1, 2), Ok(Sf32(2.5)));
}

#[test]
fn test_add_sample_accumulates() {
    let mut b = buffer(&[&[1.0, 2.0]]);
    assert_eq!(b.add_sample(0, 1, Sf32(0.5)), Ok(()));
    assert_eq!(b.get_sample(0, 1), Ok(Sf32(2.5)));
    assert_eq!(b.get_sample(0, 0), Ok(Sf32(1.0)));
}

#[test]
fn test_set_size_clear() {
    let mut b = buffer(&[&[1.0, 2.0], &[3.0, 4.0]]);
    b.set_size(3, 4, true);
    assert_eq!(b.get_num_channels(), 3);
    assert_eq!(b.get_num_samples(), 4);
    for c in 0..3 {
        for i in 0..4 {
            assert_eq!(b.get_sample(c, i), Ok(Sf32(0.0)));
        }
    }
}

#[test]
fn test_set_size_grow_preserves() {
    let mut b = buffer(&[&[1.0, 2.0, 3.0], &[4.0, 5.0, 6.0]]);
    b.set_size(4, 5, false);
    assert_eq!(b.get_num_channels(), 4);
    assert_eq!(b.get_num_samples(), 5);
    assert_eq!(b.data[0], ch(&[1.0, 2.0, 3.0, 0.0, 0.0]));
    assert_eq!(b.data[1], ch(&[4.0, 5.0, 6.0, 0.0, 0.0]));
    assert_eq!(b.data[2], ch(&[0.0; 5]));
    assert_eq!(b.data[3], ch(&[0.0; 5]));
}

#[test]
fn test_set_size_shrink_keeps_extra_channels() {
    let mut b = buffer(&[&[1.0, 2.0, 3.0], &[4.0, 5.0, 6.0], &[7.0, 8.0, 9.0]]);
    b.set_size(2, 2, false);
    // The two requested channels are truncated; the third is left untouched.
    assert_eq!(b.get_num_channels(), 3);
    assert_eq!(b.data[0], ch(&[1.0, 2.0]));
    assert_eq!(b.data[1], ch(&[4.0, 5.0]));
    assert_eq!(b.data[2], ch(&[7.0, 8.0, 9.0]));
}

#[test]
fn test_clear_and_silence() {
    let mut b = buffer(&[&[1.0, 2.0], &[3.0, 4.0]]);
    b.silence();
    assert_eq!(b.get_num_channels(), 2);
    assert_eq!(b.get_num_samples(), 2);
    assert_eq!(b.data[0], ch(&[0.0, 0.0]));
    assert_eq!(b.data[1], ch(&[0.0, 0.0]));

    let mut c = buffer(&[&[1.0], &[2.0]]);
    c.clear_channels();
    assert_eq!(c.get_num_channels(), 2);
    assert_eq!(c.get_num_samples(), 0);

    let mut d = buffer(&[&[1.0], &[2.0]]);
    d.clear();
    assert_eq!(d.get_num_channels(), 0);
    assert_eq!(d.get_num_samples(), 0);
}

#[test]
fn test_copy_from_channel_mismatch() {
    // Channel counts differ; the lengths would fit, the copy still fails.
    let mut dest = buffer(&[&[1.0, 2.0], &[3.0, 4.0]]);
    let src = buffer(&[&[9.0, 9.0]]);
    assert_eq!(
        dest.copy_from(&src, 0, 0, 2),
        Err(AudioError::ChannelCountMismatch)
    );
    // Nothing was copied.
    assert_eq!(dest.data[0], ch(&[1.0, 2.0]));
    assert_eq!(dest.data[1], ch(&[3.0, 4.0]));
}

#[test]
fn test_copy_from_ranges_and_success() {
    let mut dest = buffer(&[&[0.0, 0.0, 0.0, 0.0], &[0.0, 0.0, 0.0, 0.0]]);
    let src = buffer(&[&[1.0, 2.0, 3.0], &[4.0, 5.0, 6.0]]);
    assert_eq!(
        dest.copy_from(&src, 0, 3, 2),
        Err(AudioError::DestinationRangeExceeded)
    );
    assert_eq!(
        dest.copy_from(&src, 2, 0, 2),
        Err(AudioError::SourceRangeExceeded)
    );
    assert_eq!(dest.copy_from(&src, 1, 2, 2), Ok(()));
    assert_eq!(dest.data[0], ch(&[0.0, 0.0, 2.0, 3.0]));
    assert_eq!(dest.data[1], ch(&[0.0, 0.0, 5.0, 6.0]));
}

#[test]
fn test_copy_from_with_typecast() {
    let mut dest: AudioBuffer<Sf32> = AudioBuffer::new_with_size(1, 3);
    let mut src: AudioBuffer<Sf64> = AudioBuffer::new_with_size(1, 3);
    src.data[0] = vec![Sf64(1.5), Sf64(-2.5), Sf64(3.25)];
    assert_eq!(dest.copy_from_with_typecast(&src, 0, 0, 3), Ok(()));
    assert_eq!(dest.data[0], ch(&[1.5, -2.5, 3.25]));
}

#[test]
fn test_copy_from_with_typecast_conversion_failure() {
    let mut dest = buffer(&[&[1.0, 2.0]]);
    let mut src: AudioBuffer<Sf64> = AudioBuffer::new_with_size(1, 2);
    src.data[0] = vec![Sf64(1.0), Sf64(1.0e308)];
    assert_eq!(
        dest.copy_from_with_typecast(&src, 0, 0, 2),
        Err(AudioError::ConversionFailed)
    );
    // All-or-nothing: nothing was written.
    assert_eq!(dest.data[0], ch(&[1.0, 2.0]));
}

#[test]
fn test_merge_channels() {
    let mut b = buffer(&[&[1.0, 2.0, 3.0], &[3.0, 4.0, 5.0]]);
    b.sample_rate = 48000;
    b.merge_channels();
    assert_eq!(b.get_num_channels(), 1);
    assert_eq!(b.get_num_samples(), 3);
    assert_eq!(b.data[0], ch(&[2.0, 3.0, 4.0]));
    assert_eq!(b.get_sample_rate(), 48000);

    let mut empty: AudioBuffer<Sf32> = AudioBuffer::new();
    empty.merge_channels();
    assert_eq!(empty.get_num_channels(), 1);
    assert_eq!(empty.get_num_samples(), 0);
}

#[test]
fn test_shape_mismatch_overlap_only() {
    // Overlap-only policy: mismatched shapes never fail; the left operand's
    // samples outside the overlap keep their values.
    let a = buffer(&[&[1.0, 2.0, 3.0], &[4.0, 5.0, 6.0]]);
    let b = buffer(&[&[10.0, 20.0]]);
    let r = a.add(b);
    assert_eq!(r.data[0], ch(&[11.0, 22.0, 3.0]));
    assert_eq!(r.data[1], ch(&[4.0, 5.0, 6.0]));
}

#[test]
fn test_sample_rates() {
    let b: AudioBuffer<Sf32> = AudioBuffer::new();
    assert_eq!(b.get_sample_rate(), 44100);
    let c: AudioBuffer<Sf32> = AudioBuffer::new_with_sample_rate(22050);
    assert_eq!(c.get_sample_rate(), 22050);
    let d: AudioBuffer<Sf32> = AudioBuffer::new_with_properties(2, 3, 96000);
    assert_eq!(d.get_sample_rate(), 96000);
    assert_eq!(d.get_num_channels(), 2);
    assert_eq!(d.get_num_samples(), 3);
}

#[test]
fn test_set_sample_rate() {
    let mut b = buffer(&[&[1.0, 2.0]]);
    b.sample_rate = 44100;
    // Equal rate: nothing to do.
    assert!(!b.set_sample_rate(44100, true));
    assert_eq!(b.get_sample_rate(), 44100);
    // Relabel without resampling: the data stays, only the label moves.
    assert!(!b.set_sample_rate(48000, false));
    assert_eq!(b.get_sample_rate(), 48000);
    assert_eq!(b.data[0], ch(&[1.0, 2.0]));
    // Resampling requested: the caller must run the external engine.
    assert!(b.set_sample_rate(96000, true));
    assert_eq!(b.get_sample_rate(), 48000);
    assert_eq!(b.data[0], ch(&[1.0, 2.0]));
    // Install what the engine produced.
    b.install_resampled(vec![ch(&[1.0, 1.5, 2.0, 2.0])], 96000);
    assert_eq!(b.get_sample_rate(), 96000);
    assert_eq!(b.data[0], ch(&[1.0, 1.5, 2.0, 2.0]));
}

#[test]
fn test_unchecked_access() {
    let mut b = buffer(&[&[1.0, 2.0], &[3.0, 4.0]]);
    assert_eq!(b.channel(1), &ch(&[3.0, 4.0]));
    assert_eq!(*b.sample_unchecked(0, 1), Sf32(2.0));
    *b.sample_unchecked_mut(0, 1) = Sf32(9.0);
    assert_eq!(b.get_sample(0, 1), Ok(Sf32(9.0)));
    b.channel_mut(1).push(Sf32(5.0));
    assert_eq!(b.data[1], ch(&[3.0, 4.0, 5.0]));
}

#[test]
fn test_interleaved_view_counts() {
    // Seven samples in two channels: three whole frames, the partial frame
    // is not addressable.
    let mut flat: Vec<Sf32> = ch(&[0.0; 7]);
    let mut view = BufferView::new(&mut flat, 2);
    assert_eq!(view.get_num_channels(), 2);
    assert_eq!(view.get_num_samples(), 3);
    assert_eq!(view.get_sample(1, 2), Ok(Sf32(0.0)));
    assert_eq!(view.get_sample(1, 3), Err(AudioError::SampleOutOfBounds));
    assert_eq!(view.get_sample(2, 0), Err(AudioError::ChannelOutOfBounds));
    assert_eq!(
        view.set_sample(0, 3, Sf32(1.0)),
        Err(AudioError::SampleOutOfBounds)
    );
}

#[test]
fn test_interleaved_view_read_write() {
    let mut flat: Vec<Sf32> = ch(&[0.0, 1.0, 2.0, 3.0, 4.0, 5.0]);
    let mut view = BufferView::new(&mut flat, 2);
    // Offset is index * channels + channel.
    assert_eq!(view.get_sample(0, 1), Ok(Sf32(2.0)));
    assert_eq!(view.get_sample(1, 2), Ok(Sf32(5.0)));
    assert_eq!(view.set_sample(1, 0, Sf32(9.0)), Ok(()));
    assert_eq!(view.get_sample(1, 0), Ok(Sf32(9.0)));
    assert_eq!(view.add_sample(0, 2, Sf32(0.5)), Ok(()));
    assert_eq!(view.get_sample(0, 2), Ok(Sf32(4.5)));
    assert_eq!(
        view.add_sample(0, 3, Sf32(0.5)),
        Err(AudioError::SampleOutOfBounds)
    );
    // The writes went to the borrowed storage itself.
    assert_eq!(flat, ch(&[0.0, 9.0, 2.0, 3.0, 4.5, 5.0]));
}

#[test]
fn test_interleaved_view_sample_mut() {
    let mut flat: Vec<Sf32> = ch(&[1.0, 2.0, 3.0, 4.0]);
    let mut view = BufferView::new(&mut flat, 2);
    {
        let p = view.sample_mut(1, 1).unwrap();
        assert_eq!(*p, Sf32(4.0));
        *p = Sf32(-4.0);
    }
    assert_eq!(view.get_sample(1, 1), Ok(Sf32(-4.0)));
    assert!(matches!(
        view.sample_mut(2, 0),
        Err(AudioError::ChannelOutOfBounds)
    ));
    assert!(matches!(
        view.sample_mut(0, 2),
        Err(AudioError::SampleOutOfBounds)
    ));
    assert_eq!(flat, ch(&[1.0, 2.0, 3.0, -4.0]));
}

#[test]
fn test_copy_from_with_typecast_same_type() {
    // Every sample type converts to itself, unchanged and without failure.
    let mut dest = buffer(&[&[0.0, 0.0, 0.0]]);
    let src = buffer(&[&[7.0, 8.0, 9.0]]);
    assert_eq!(dest.copy_from_with_typecast(&src, 0, 0, 3), Ok(()));
    assert_eq!(dest.data[0], ch(&[7.0, 8.0, 9.0]));
}

#[test]
fn test_ops_on_empty_and_zero_length_copy() {
    // Arithmetic with an empty operand touches nothing.
    let a = buffer(&[&[1.0, 2.0]]);
    let empty: AudioBuffer<Sf32> = AudioBuffer::new();
    let r = a.clone().add(empty.clone());
    assert_eq!(r.data[0], ch(&[1.0, 2.0]));
    let r = empty.clone().add(a.clone());
    assert_eq!(r.get_num_channels(), 0);

    // A zero-length copy still checks its starts against the bounds.
    let mut dest = buffer(&[&[1.0, 2.0]]);
    let src = buffer(&[&[9.0]]);
    assert_eq!(dest.copy_from(&src, 0, 0, 0), Ok(()));
    assert_eq!(dest.data[0], ch(&[1.0, 2.0]));
    assert_eq!(
        dest.copy_from(&src, 0, 3, 0),
        Err(AudioError::DestinationRangeExceeded)
    );
    assert_eq!(
        dest.copy_from(&src, 2, 0, 0),
        Err(AudioError::SourceRangeExceeded)
    );
}

#[test]
fn test_default_buffer() {
    let b: AudioBuffer<Sf32> = Default::default();
    assert_eq!(b.get_num_channels(), 0);
    assert_eq!(b.get_num_samples(), 0);
    assert_eq!(b.get_sample_rate(), 0);
}
