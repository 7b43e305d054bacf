//! In-memory representation of multi-channel digital audio.
//!
//! [`AudioBuffer`] owns planar (channel-major) sample data: one inner vector
//! per channel.  [`view::BufferView`] is a bounds-checked window over
//! interleaved (sample-major) data.  Both are generic over a sample type that
//! provides the arithmetic of the [`sample::Sample`] trait.

pub mod ops;
pub mod sample;
pub mod view;

use vstd::prelude::*;

use crate::sample::FromSample;
use crate::sample::Sample;

verus! {

/// Failure values returned by the checked operations.
///
/// Every checked operation either fully succeeds or fails with one of these
/// without mutating the buffer.
#[derive(Clone, Copy, Debug, PartialEq, Eq, Structural)]
pub enum AudioError {
    /// A channel index at or beyond the channel count.
    ChannelOutOfBounds,
    /// A sample index at or beyond the sample count of the addressed channel.
    SampleOutOfBounds,
    /// The two buffers of a copy do not have the same channel count.
    ChannelCountMismatch,
    /// The destination range of a copy ends beyond the destination's samples.
    DestinationRangeExceeded,
    /// The source range of a copy ends beyond the source's samples.
    SourceRangeExceeded,
    /// A sample of the source could not be represented in the destination's
    /// sample type.
    ConversionFailed,
}

/// The default sample rate, in hertz.
pub const DEFAULT_SAMPLE_RATE: u32 = 44100;

/// A channel of `length` silent samples.
pub open spec fn zero_channel<T: Sample>(length: nat) -> Seq<T> {
    Seq::new(length, |i: int| T::zero_spec())
}

/// `ch` brought to `length` samples: truncated on shrink, zero-padded on
/// growth.
pub open spec fn resized_channel<T: Sample>(ch: Seq<T>, length: nat) -> Seq<T> {
    if length <= ch.len() {
        ch.subrange(0, length as int)
    } else {
        ch + zero_channel((length - ch.len()) as nat)
    }
}

/// `d` with the sample at `(c, i)` replaced by `v`.
pub open spec fn with_sample<T>(d: Seq<Seq<T>>, c: int, i: int, v: T) -> Seq<Seq<T>> {
    d.update(c, d[c].update(i, v))
}

/// Whether the first `count` channels of `d` each hold at least `upto`
/// samples, so that reads below `upto` stay in bounds there.
pub open spec fn covers<T>(d: Seq<Seq<T>>, count: int, upto: int) -> bool {
    forall|c: int| 0 <= c < count && c < d.len() ==> (#[trigger] d[c]).len() >= upto
}

/// Whether every sample of `src` in channels `0..count` at indices
/// `start..start + len` is representable in `T`.
pub open spec fn region_convertible<T: FromSample<U>, U: Sample>(
    src: Seq<Seq<U>>,
    count: int,
    start: int,
    len: int,
) -> bool {
    forall|c: int, j: int|
        0 <= c < count && start <= j < start + len ==> T::convertible_spec(#[trigger] src[c][j])
}

/// The running average of the samples at index `i` of channels `0..upto`:
/// each divided by `div` and accumulated left to right, starting from zero.
pub open spec fn merged_sample<T: Sample>(d: Seq<Seq<T>>, i: int, upto: int, div: T) -> T
    decreases upto,
{
    if upto <= 0 {
        T::zero_spec()
    } else {
        merged_sample(d, i, upto - 1, div).add_spec(d[upto - 1][i].div_spec(div))
    }
}

/// A planar buffer of audio samples: one owned vector per channel, all
/// samples of a channel contiguous, plus the sample rate the data is declared
/// to have.
///
/// The inner vectors are meant to share one length, but nothing enforces it:
/// wherever a single sample count is needed the buffer trusts channel 0 (see
/// [`AudioBuffer::sample_count`]).
#[derive(Clone, Debug)]
pub struct AudioBuffer<T: Sample> {
    /// The per-channel sample data.
    pub data: Vec<Vec<T>>,
    /// The declared sample rate, in hertz.
    pub sample_rate: u32,
}

impl<T: Sample> AudioBuffer<T> {
    /// The buffer's contents: one sample sequence per channel.
    pub open spec fn channels(self) -> Seq<Seq<T>> {
        Seq::new(self.data@.len(), |c: int| self.data@[c]@)
    }

    /// The channel count.
    pub open spec fn channel_count(self) -> nat {
        self.channels().len()
    }

    /// The sample count the buffer reports: the length of channel 0, or zero
    /// where there is no channel.
    pub open spec fn sample_count(self) -> nat {
        if self.channels().len() == 0 {
            0
        } else {
            self.channels()[0].len()
        }
    }

    /// Whether `(channel, index)` addresses an existing sample.
    pub open spec fn valid_index(self, channel: int, index: int) -> bool {
        &&& 0 <= channel < self.channels().len()
        &&& 0 <= index < self.channels()[channel].len()
    }

    /// An empty buffer at the default sample rate.
    pub fn new() -> (r: Self)
        ensures
            r.channels() =~= Seq::<Seq<T>>::empty(),
            r.sample_rate == DEFAULT_SAMPLE_RATE,
    {
        Self { data: Vec::new(), sample_rate: DEFAULT_SAMPLE_RATE }
    }

    /// An empty buffer at the given sample rate.
    pub fn new_with_sample_rate(sample_rate: u32) -> (r: Self)
        ensures
            r.channels() =~= Seq::<Seq<T>>::empty(),
            r.sample_rate == sample_rate,
    {
        Self { data: Vec::new(), sample_rate }
    }

    /// A buffer of `channels` channels of `length` silent samples, at the
    /// given sample rate.
    pub fn new_with_properties(channels: usize, length: usize, sample_rate: u32) -> (r: Self)
        ensures
            r.channels() =~= Seq::new(channels as nat, |c: int| zero_channel::<T>(length as nat)),
            r.channel_count() == channels,
            channels > 0 ==> r.sample_count() == length,
            r.sample_rate == sample_rate,
    {
        let mut data: Vec<Vec<T>> = Vec::new();
        for _i in 0..channels
            invariant
                data@.len() == _i,
                forall|c: int| 0 <= c < _i ==> #[trigger] data@[c]@ =~= zero_channel::<T>(length as nat),
        {
            data.push(silent_channel(length));
        }
        Self { data, sample_rate }
    }

    /// A buffer of `channels` channels of `length` silent samples, at the
    /// default sample rate.
    pub fn new_with_size(channels: usize, length: usize) -> (r: Self)
        ensures
            r.channels() =~= Seq::new(channels as nat, |c: int| zero_channel::<T>(length as nat)),
            r.channel_count() == channels,
            channels > 0 ==> r.sample_count() == length,
            r.sample_rate == DEFAULT_SAMPLE_RATE,
    {
        Self::new_with_properties(channels, length, DEFAULT_SAMPLE_RATE)
    }

    /// The channel count.
    pub fn get_num_channels(&self) -> (r: usize)
        ensures
            r == self.channel_count(),
    {
        self.data.len()
    }

    /// The sample count: the length of channel 0, or zero on a buffer with no
    /// channels.
    pub fn get_num_samples(&self) -> (r: usize)
        ensures
            r == self.sample_count(),
    {
        if self.data.len() == 0 {
            0
        } else {
            self.data[0].len()
        }
    }

    /// The declared sample rate.
    pub fn get_sample_rate(&self) -> (r: u32)
        ensures
            r == self.sample_rate,
    {
        self.sample_rate
    }

    /// Reads the sample at `(channel, index)`, bounds-checked.
    pub fn get_sample(&self, channel: usize, index: usize) -> (r: Result<T, AudioError>)
        ensures
            r == (if channel >= self.channel_count() {
                Err::<T, AudioError>(AudioError::ChannelOutOfBounds)
            } else if index >= self.channels()[channel as int].len() {
                Err::<T, AudioError>(AudioError::SampleOutOfBounds)
            } else {
                Ok::<T, AudioError>(self.channels()[channel as int][index as int])
            }),
    {
        if channel >= self.data.len() {
            Err(AudioError::ChannelOutOfBounds)
        } else if index >= self.data[channel].len() {
            Err(AudioError::SampleOutOfBounds)
        } else {
            Ok(self.data[channel][index])
        }
    }

    /// Overwrites the sample at `(channel, index)`, bounds-checked; the
    /// buffer is unchanged on failure.
    pub fn set_sample(&mut self, channel: usize, index: usize, value: T) -> (r: Result<
        (),
        AudioError,
    >)
        ensures
            final(self).sample_rate == old(self).sample_rate,
            r == (if channel >= old(self).channel_count() {
                Err::<(), AudioError>(AudioError::ChannelOutOfBounds)
            } else if index >= old(self).channels()[channel as int].len() {
                Err::<(), AudioError>(AudioError::SampleOutOfBounds)
            } else {
                Ok::<(), AudioError>(())
            }),
            r is Ok ==> final(self).channels() =~~= with_sample(
                old(self).channels(),
                channel as int,
                index as int,
                value,
            ),
            r is Err ==> final(self).channels() =~~= old(self).channels(),
    {
        if channel >= self.data.len() {
            Err(AudioError::ChannelOutOfBounds)
        } else if index >= self.data[channel].len() {
            Err(AudioError::SampleOutOfBounds)
        } else {
            self.data[channel][index] = value;
            Ok(())
        }
    }

    /// Accumulates `value` onto the sample at `(channel, index)`,
    /// bounds-checked; the buffer is unchanged on failure.
    pub fn add_sample(&mut self, channel: usize, index: usize, value: T) -> (r: Result<
        (),
        AudioError,
    >)
        ensures
            final(self).sample_rate == old(self).sample_rate,
            r == (if channel >= old(self).channel_count() {
                Err::<(), AudioError>(AudioError::ChannelOutOfBounds)
            } else if index >= old(self).channels()[channel as int].len() {
                Err::<(), AudioError>(AudioError::SampleOutOfBounds)
            } else {
                Ok::<(), AudioError>(())
            }),
            r is Ok ==> final(self).channels() =~~= with_sample(
                old(self).channels(),
                channel as int,
                index as int,
                old(self).channels()[channel as int][index as int].add_spec(value),
            ),
            r is Err ==> final(self).channels() =~~= old(self).channels(),
    {
        if channel >= self.data.len() {
            Err(AudioError::ChannelOutOfBounds)
        } else if index >= self.data[channel].len() {
            Err(AudioError::SampleOutOfBounds)
        } else {
            let current: T = self.data[channel][index];
            self.data[channel][index] = current.add(value);
            Ok(())
        }
    }

    /// Drops every channel; the channel count becomes zero.
    pub fn clear(&mut self)
        ensures
            final(self).sample_rate == old(self).sample_rate,
            final(self).channels() =~= Seq::<Seq<T>>::empty(),
    {
        self.data.clear();
    }

    /// Keeps the channel count but empties every channel.
    pub fn clear_channels(&mut self)
        ensures
            final(self).sample_rate == old(self).sample_rate,
            final(self).channel_count() == old(self).channel_count(),
            forall|c: int|
                0 <= c < final(self).channel_count() ==> (#[trigger] final(self).channels()[c])
                    =~= Seq::<T>::empty(),
    {
        let n = self.data.len();
        for i in 0..n
            invariant
                n == self.data@.len(),
                self.sample_rate == old(self).sample_rate,
                forall|c: int| 0 <= c < i ==> (#[trigger] self.data@[c]@).len() == 0,
        {
            self.data[i].clear();
        }
    }

    /// Keeps the shape but overwrites every sample with zero.
    pub fn silence(&mut self)
        ensures
            final(self).sample_rate == old(self).sample_rate,
            final(self).channel_count() == old(self).channel_count(),
            forall|c: int|
                0 <= c < old(self).channel_count() ==> (#[trigger] final(self).channels()[c]).len()
                    == old(self).channels()[c].len(),
            forall|c: int, i: int|
                0 <= c < old(self).channel_count() && 0 <= i < old(self).channels()[c].len()
                    ==> #[trigger] final(self).channels()[c][i] == T::zero_spec(),
    {
        let zero = T::zero();
        let n = self.data.len();
        for c in 0..n
            invariant
                n == self.data@.len(),
                n == old(self).data@.len(),
                self.sample_rate == old(self).sample_rate,
                zero == T::zero_spec(),
                forall|k: int|
                    0 <= k < n ==> (#[trigger] self.data@[k]@).len() == old(self).data@[k]@.len(),
                forall|k: int, j: int|
                    0 <= k < c && 0 <= j < self.data@[k]@.len() ==> #[trigger] self.data@[k]@[j]
                        == T::zero_spec(),
                forall|k: int, j: int|
                    c <= k < n && 0 <= j < self.data@[k]@.len() ==> #[trigger] self.data@[k]@[j]
                        == old(self).data@[k]@[j],
        {
            let m = self.data[c].len();
            for i in 0..m
                invariant
                    0 <= c < n,
                    n == self.data@.len(),
                    n == old(self).data@.len(),
                    m == self.data@[c as int]@.len(),
                    self.sample_rate == old(self).sample_rate,
                    zero == T::zero_spec(),
                    forall|k: int|
                        0 <= k < n ==> (#[trigger] self.data@[k]@).len() == old(self).data@[k]@.len(),
                    forall|k: int, j: int|
                        0 <= k < c && 0 <= j < self.data@[k]@.len() ==> #[trigger] self.data@[k]@[j]
                            == T::zero_spec(),
                    forall|j: int|
                        0 <= j < i ==> #[trigger] self.data@[c as int]@[j] == T::zero_spec(),
                    forall|k: int, j: int|
                        c <= k < n && 0 <= j < self.data@[k]@.len() && !(k == c && j < i)
                            ==> #[trigger] self.data@[k]@[j] == old(self).data@[k]@[j],
            {
                self.data[c][i] = zero;
            }
        }
    }

    /// Reshapes the buffer to `channels` channels of `length` samples.
    ///
    /// With `clear`, all existing data is discarded and the buffer becomes
    /// exactly `channels` silent channels of `length` samples.  Without it,
    /// each requested channel is resized in place (zero-padded on growth,
    /// truncated on shrink) or appended silent if new, and channels beyond
    /// the requested count are left untouched, never dropped.
    pub fn set_size(&mut self, channels: usize, length: usize, clear: bool)
        ensures
            final(self).sample_rate == old(self).sample_rate,
            clear ==> final(self).channels() =~~= Seq::new(
                channels as nat,
                |c: int| zero_channel::<T>(length as nat),
            ),
            clear ==> final(self).channel_count() == channels,
            clear && channels > 0 ==> final(self).sample_count() == length,
            clear ==> forall|c: int, i: int|
                final(self).valid_index(c, i) ==> #[trigger] final(self).channels()[c][i]
                    == T::zero_spec(),
            !clear ==> {
                &&& final(self).channel_count() as int == vstd::math::max(
                    old(self).channel_count() as int,
                    channels as int,
                )
                &&& (forall|c: int|
                    0 <= c < channels && c < old(self).channel_count()
                        ==> #[trigger] final(self).channels()[c] =~= resized_channel(
                        old(self).channels()[c],
                        length as nat,
                    ))
                &&& (forall|c: int|
                    old(self).channel_count() <= c < channels ==> #[trigger] final(self).channels()[c] =~= zero_channel::<T>(length as nat))
                &&& (forall|c: int|
                    channels <= c < old(self).channel_count() ==> #[trigger] final(self).channels()[c] == old(self).channels()[c])
            },
    {
        if clear {
            self.data.clear();
            for i in 0..channels
                invariant
                    self.data@.len() == i,
                    self.sample_rate == old(self).sample_rate,
                    forall|c: int|
                        0 <= c < i ==> #[trigger] self.data@[c]@ =~= zero_channel::<T>(
                            length as nat,
                        ),
            {
                self.data.push(silent_channel(length));
            }
        } else {
            let orig_len = self.data.len();
            for i in 0..channels
                invariant
                    orig_len == old(self).data@.len(),
                    self.sample_rate == old(self).sample_rate,
                    self.data@.len() as int == vstd::math::max(orig_len as int, i as int),
                    forall|c: int|
                        0 <= c < i && c < orig_len ==> #[trigger] self.data@[c]@ =~= resized_channel(
                            old(self).data@[c]@,
                            length as nat,
                        ),
                    forall|c: int|
                        orig_len <= c < i ==> #[trigger] self.data@[c]@ =~= zero_channel::<T>(
                            length as nat,
                        ),
                    forall|c: int|
                        i <= c < orig_len ==> #[trigger] self.data@[c]@ == old(self).data@[c]@,
            {
                if i < orig_len {
                    resize_channel(&mut self.data[i], length);
                } else {
                    self.data.push(silent_channel(length));
                }
            }
        }
    }

    /// Copies `length` samples per channel from `source`, read from
    /// `source_start` and written at `dest_start`.
    ///
    /// The channel counts must match exactly and both ranges must lie within
    /// the reported sample counts; otherwise the named failure is returned
    /// and nothing is copied.
    pub fn copy_from(
        &mut self,
        source: &AudioBuffer<T>,
        source_start: usize,
        dest_start: usize,
        length: usize,
    ) -> (r: Result<(), AudioError>)
        requires
            (source.channel_count() == old(self).channel_count() && dest_start + length <= old(self).sample_count() && source_start + length <= source.sample_count()) ==> {
                &&& covers(
                    old(self).channels(),
                    old(self).channel_count() as int,
                    dest_start + length,
                )
                &&& covers(
                    source.channels(),
                    source.channel_count() as int,
                    source_start + length,
                )
            },
        ensures
            final(self).sample_rate == old(self).sample_rate,
            r == (if source.channel_count() != old(self).channel_count() {
                Err::<(), AudioError>(AudioError::ChannelCountMismatch)
            } else if dest_start + length > old(self).sample_count() {
                Err::<(), AudioError>(AudioError::DestinationRangeExceeded)
            } else if source_start + length > source.sample_count() {
                Err::<(), AudioError>(AudioError::SourceRangeExceeded)
            } else {
                Ok::<(), AudioError>(())
            }),
            r is Err ==> final(self).channels() =~~= old(self).channels(),
            r is Ok ==> {
                &&& final(self).channel_count() == old(self).channel_count()
                &&& (forall|c: int|
                    0 <= c < old(self).channel_count() ==> (#[trigger] final(self).channels()[c]).len() == old(self).channels()[c].len())
                &&& (forall|c: int, j: int|
                    0 <= c < old(self).channel_count() && dest_start <= j < dest_start + length
                        ==> #[trigger] final(self).channels()[c][j] == source.channels()[c][j
                        - dest_start + source_start])
                &&& (forall|c: int, j: int|
                    0 <= c < old(self).channel_count() && 0 <= j < old(self).channels()[c].len()
                        && !(dest_start <= j < dest_start + length) ==> #[trigger] final(self).channels()[c][j] == old(self).channels()[c][j])
            },
    {
        let ns_self = self.get_num_samples();
        let ns_src = source.get_num_samples();
        if source.get_num_channels() != self.get_num_channels() {
            return Err(AudioError::ChannelCountMismatch);
        }
        if length > ns_self || dest_start > ns_self - length {
            return Err(AudioError::DestinationRangeExceeded);
        }
        if length > ns_src || source_start > ns_src - length {
            return Err(AudioError::SourceRangeExceeded);
        }
        let dest_end = dest_start + length;
        let src_end = source_start + length;
        let nc = self.data.len();
        for c in 0..nc
            invariant
                nc == old(self).data@.len(),
                nc == source.data@.len(),
                dest_end == dest_start + length,
                src_end == source_start + length,
                covers(old(self).channels(), nc as int, dest_end as int),
                covers(source.channels(), nc as int, src_end as int),
                self.data@.len() == nc,
                self.sample_rate == old(self).sample_rate,
                forall|k: int|
                    0 <= k < nc ==> (#[trigger] self.data@[k]@).len() == old(self).data@[k]@.len(),
                forall|k: int, j: int|
                    0 <= k < c && dest_start <= j < dest_end ==> #[trigger] self.data@[k]@[j]
                        == source.data@[k]@[j - dest_start + source_start],
                forall|k: int, j: int|
                    0 <= k < nc && 0 <= j < self.data@[k]@.len() && !(k < c && dest_start <= j
                        < dest_end) ==> #[trigger] self.data@[k]@[j] == old(self).data@[k]@[j],
        {
            proof {
                assert(old(self).channels()[c as int].len() >= dest_end);
                assert(source.channels()[c as int].len() >= src_end);
            }
            for i in 0..length
                invariant
                    0 <= c < nc,
                    nc == old(self).data@.len(),
                    nc == source.data@.len(),
                    dest_end == dest_start + length,
                    src_end == source_start + length,
                    covers(old(self).channels(), nc as int, dest_end as int),
                    covers(source.channels(), nc as int, src_end as int),
                    self.data@.len() == nc,
                    self.data@[c as int]@.len() >= dest_end,
                    source.data@[c as int]@.len() >= src_end,
                    self.sample_rate == old(self).sample_rate,
                    forall|k: int|
                        0 <= k < nc ==> (#[trigger] self.data@[k]@).len() == old(self).data@[k]@.len(),
                    forall|k: int, j: int|
                        0 <= k < c && dest_start <= j < dest_end ==> #[trigger] self.data@[k]@[j]
                            == source.data@[k]@[j - dest_start + source_start],
                    forall|j: int|
                        dest_start <= j < dest_start + i ==> #[trigger] self.data@[c as int]@[j]
                            == source.data@[c as int]@[j - dest_start + source_start],
                    forall|k: int, j: int|
                        0 <= k < nc && 0 <= j < self.data@[k]@.len() && !(k < c && dest_start <= j
                            < dest_end) && !(k == c && dest_start <= j < dest_start + i)
                            ==> #[trigger] self.data@[k]@[j] == old(self).data@[k]@[j],
            {
                let v: T = source.data[c][source_start + i];
                self.data[c][dest_start + i] = v;
            }
        }
        Ok(())
    }

    /// As [`AudioBuffer::copy_from`], but converts each copied sample from
    /// the source's sample type into this buffer's.
    ///
    /// If any sample of the copied region is not representable in the
    /// destination type, the whole copy fails and the buffer is unchanged.
    pub fn copy_from_with_typecast<U: Sample>(
        &mut self,
        source: &AudioBuffer<U>,
        source_start: usize,
        dest_start: usize,
        length: usize,
    ) -> (r: Result<(), AudioError>) where T: FromSample<U>
        requires
            (source.channel_count() == old(self).channel_count() && dest_start + length <= old(self).sample_count() && source_start + length <= source.sample_count()) ==> {
                &&& covers(
                    old(self).channels(),
                    old(self).channel_count() as int,
                    dest_start + length,
                )
                &&& covers(
                    source.channels(),
                    source.channel_count() as int,
                    source_start + length,
                )
            },
        ensures
            final(self).sample_rate == old(self).sample_rate,
            r == (if source.channel_count() != old(self).channel_count() {
                Err::<(), AudioError>(AudioError::ChannelCountMismatch)
            } else if dest_start + length > old(self).sample_count() {
                Err::<(), AudioError>(AudioError::DestinationRangeExceeded)
            } else if source_start + length > source.sample_count() {
                Err::<(), AudioError>(AudioError::SourceRangeExceeded)
            } else if !region_convertible::<T, U>(
                source.channels(),
                old(self).channel_count() as int,
                source_start as int,
                length as int,
            ) {
                Err::<(), AudioError>(AudioError::ConversionFailed)
            } else {
                Ok::<(), AudioError>(())
            }),
            r is Err ==> final(self).channels() =~~= old(self).channels(),
            r is Ok ==> {
                &&& final(self).channel_count() == old(self).channel_count()
                &&& (forall|c: int|
                    0 <= c < old(self).channel_count() ==> (#[trigger] final(self).channels()[c]).len() == old(self).channels()[c].len())
                &&& (forall|c: int, j: int|
                    0 <= c < old(self).channel_count() && dest_start <= j < dest_start + length
                        ==> #[trigger] final(self).channels()[c][j] == T::convert_spec(
                        source.channels()[c][j - dest_start + source_start],
                    ))
                &&& (forall|c: int, j: int|
                    0 <= c < old(self).channel_count() && 0 <= j < old(self).channels()[c].len()
                        && !(dest_start <= j < dest_start + length) ==> #[trigger] final(self).channels()[c][j] == old(self).channels()[c][j])
            },
    {
        let ns_self = self.get_num_samples();
        let ns_src = source.get_num_samples();
        if source.get_num_channels() != self.get_num_channels() {
            return Err(AudioError::ChannelCountMismatch);
        }
        if length > ns_self || dest_start > ns_self - length {
            return Err(AudioError::DestinationRangeExceeded);
        }
        if length > ns_src || source_start > ns_src - length {
            return Err(AudioError::SourceRangeExceeded);
        }
        let dest_end = dest_start + length;
        let src_end = source_start + length;
        let nc = self.data.len();
        let mut staged: Vec<Vec<T>> = Vec::new();
        for c in 0..nc
            invariant
                nc == old(self).data@.len(),
                nc == source.data@.len(),
                dest_end == dest_start + length,
                src_end == source_start + length,
                dest_end <= old(self).sample_count(),
                src_end <= source.sample_count(),
                covers(source.channels(), nc as int, src_end as int),
                *self == *old(self),
                staged@.len() == c,
                forall|k: int| 0 <= k < c ==> (#[trigger] staged@[k]@).len() == length,
                forall|k: int, j: int|
                    0 <= k < c && 0 <= j < length ==> #[trigger] staged@[k]@[j] == T::convert_spec(
                        source.data@[k]@[source_start + j],
                    ),
                forall|k: int, j: int|
                    0 <= k < c && source_start <= j < src_end ==> T::convertible_spec(
                        #[trigger] source.channels()[k][j],
                    ),
        {
            proof {
                assert(source.channels()[c as int].len() >= src_end);
            }
            let mut ch: Vec<T> = Vec::new();
            for i in 0..length
                invariant
                    0 <= c < nc,
                    nc == source.data@.len(),
                    nc == old(self).data@.len(),
                    src_end == source_start + length,
                    dest_start + length <= old(self).sample_count(),
                    src_end <= source.sample_count(),
                    source.data@[c as int]@.len() >= src_end,
                    *self == *old(self),
                    ch@.len() == i,
                    forall|j: int|
                        0 <= j < i ==> #[trigger] ch@[j] == T::convert_spec(
                            source.data@[c as int]@[source_start + j],
                        ),
                    forall|j: int|
                        source_start <= j < source_start + i ==> T::convertible_spec(
                            #[trigger] source.channels()[c as int][j],
                        ),
            {
                let s: U = source.data[c][source_start + i];
                match T::try_convert(s) {
                    Some(v) => {
                        ch.push(v);
                        proof {
                            assert(source.channels()[c as int][source_start + i as int]
                                == source.data@[c as int]@[source_start + i as int]);
                        }
                    },
                    None => {
                        proof {
                            let j0: int = source_start + i as int;
                            assert(!T::convertible_spec(source.channels()[c as int][j0]));
                            assert(region_convertible::<T, U>(
                                source.channels(),
                                old(self).channel_count() as int,
                                source_start as int,
                                length as int,
                            ) ==> T::convertible_spec(source.channels()[c as int][j0]));
                        }
                        return Err(AudioError::ConversionFailed);
                    },
                }
            }
            staged.push(ch);
        }
        let nc_write = self.data.len();
        for c in 0..nc_write
            invariant
                nc_write == nc,
                nc == old(self).data@.len(),
                nc == source.data@.len(),
                dest_end == dest_start + length,
                src_end == source_start + length,
                dest_end <= old(self).sample_count(),
                src_end <= source.sample_count(),
                region_convertible::<T, U>(
                    source.channels(),
                    nc as int,
                    source_start as int,
                    length as int,
                ),
                covers(old(self).channels(), nc as int, dest_end as int),
                staged@.len() == nc,
                forall|k: int| 0 <= k < nc ==> (#[trigger] staged@[k]@).len() == length,
                forall|k: int, j: int|
                    0 <= k < nc && 0 <= j < length ==> #[trigger] staged@[k]@[j] == T::convert_spec(
                        source.data@[k]@[source_start + j],
                    ),
                self.data@.len() == nc,
                self.sample_rate == old(self).sample_rate,
                forall|k: int|
                    0 <= k < nc ==> (#[trigger] self.data@[k]@).len() == old(self).data@[k]@.len(),
                forall|k: int, j: int|
                    0 <= k < c && dest_start <= j < dest_end ==> #[trigger] self.data@[k]@[j]
                        == T::convert_spec(source.data@[k]@[j - dest_start + source_start]),
                forall|k: int, j: int|
                    0 <= k < nc && 0 <= j < self.data@[k]@.len() && !(k < c && dest_start <= j
                        < dest_end) ==> #[trigger] self.data@[k]@[j] == old(self).data@[k]@[j],
        {
            proof {
                assert(old(self).channels()[c as int].len() >= dest_end);
            }
            for i in 0..length
                invariant
                    0 <= c < nc,
                    nc == old(self).data@.len(),
                    nc == source.data@.len(),
                    dest_end == dest_start + length,
                    src_end == source_start + length,
                    dest_end <= old(self).sample_count(),
                    src_end <= source.sample_count(),
                    region_convertible::<T, U>(
                        source.channels(),
                        nc as int,
                        source_start as int,
                        length as int,
                    ),
                    covers(old(self).channels(), nc as int, dest_end as int),
                    staged@.len() == nc,
                    forall|k: int| 0 <= k < nc ==> (#[trigger] staged@[k]@).len() == length,
                    forall|k: int, j: int|
                        0 <= k < nc && 0 <= j < length ==> #[trigger] staged@[k]@[j]
                            == T::convert_spec(source.data@[k]@[source_start + j]),
                    self.data@.len() == nc,
                    self.data@[c as int]@.len() >= dest_end,
                    self.sample_rate == old(self).sample_rate,
                    forall|k: int|
                        0 <= k < nc ==> (#[trigger] self.data@[k]@).len() == old(self).data@[k]@.len(),
                    forall|k: int, j: int|
                        0 <= k < c && dest_start <= j < dest_end ==> #[trigger] self.data@[k]@[j]
                            == T::convert_spec(source.data@[k]@[j - dest_start + source_start]),
                    forall|j: int|
                        dest_start <= j < dest_start + i ==> #[trigger] self.data@[c as int]@[j]
                            == T::convert_spec(
                            source.data@[c as int]@[j - dest_start + source_start],
                        ),
                    forall|k: int, j: int|
                        0 <= k < nc && 0 <= j < self.data@[k]@.len() && !(k < c && dest_start <= j
                            < dest_end) && !(k == c && dest_start <= j < dest_start + i)
                            ==> #[trigger] self.data@[k]@[j] == old(self).data@[k]@[j],
            {
                let v: T = staged[c][i];
                self.data[c][dest_start + i] = v;
            }
        }
        Ok(())
    }

    /// Replaces the buffer with a single channel holding, at each index, the
    /// mean of the original channels' samples there: each divided by the
    /// channel count and accumulated channel by channel.
    pub fn merge_channels(&mut self)
        requires
            covers(
                old(self).channels(),
                old(self).channel_count() as int,
                old(self).sample_count() as int,
            ),
        ensures
            final(self).sample_rate == old(self).sample_rate,
            final(self).channel_count() == 1,
            final(self).channels()[0].len() == old(self).sample_count(),
            forall|i: int|
                0 <= i < old(self).sample_count() ==> #[trigger] final(self).channels()[0][i]
                    == merged_sample(
                    old(self).channels(),
                    i,
                    old(self).channel_count() as int,
                    T::from_count_spec(old(self).channel_count() as usize),
                ),
    {
        let nc = self.data.len();
        let ns = self.get_num_samples();
        let div = T::from_count(nc);
        let mut merged: Vec<T> = Vec::new();
        for i in 0..ns
            invariant
                nc == self.data@.len(),
                ns == self.sample_count(),
                div == T::from_count_spec(nc),
                covers(self.channels(), nc as int, ns as int),
                merged@.len() == i,
                forall|j: int|
                    0 <= j < i ==> #[trigger] merged@[j] == merged_sample(
                        self.channels(),
                        j,
                        nc as int,
                        div,
                    ),
        {
            let mut acc = T::zero();
            for c in 0..nc
                invariant
                    0 <= i < ns,
                    nc == self.data@.len(),
                    ns == self.sample_count(),
                    div == T::from_count_spec(nc),
                    covers(self.channels(), nc as int, ns as int),
                    acc == merged_sample(self.channels(), i as int, c as int, div),
            {
                proof {
                    assert(self.channels()[c as int].len() >= ns);
                }
                let s: T = self.data[c][i];
                acc = acc.add(s.div(div));
            }
            merged.push(acc);
        }
        self.data = Vec::new();
        self.data.push(merged);
    }

    /// Declares a new sample rate.
    ///
    /// On an equal rate nothing happens.  Otherwise, without `resample`, only
    /// the stored rate label changes and the sample data is left as it is —
    /// the declared rate then no longer matches the content, by design.  With
    /// `resample`, the buffer is left untouched and the result is `true`: the
    /// caller must run the external resampling engine over the channels and
    /// hand its output to [`AudioBuffer::install_resampled`].
    pub fn set_sample_rate(&mut self, sample_rate: u32, resample: bool) -> (needs_resample: bool)
        ensures
            needs_resample == (resample && sample_rate != old(self).sample_rate),
            needs_resample ==> *final(self) == *old(self),
            !needs_resample ==> {
                &&& final(self).sample_rate == sample_rate
                &&& final(self).channels() =~~= old(self).channels()
            },
    {
        if self.sample_rate == sample_rate {
            return false;
        }
        if resample {
            return true;
        }
        self.sample_rate = sample_rate;
        false
    }

    /// The whole sample sequence of one channel, unchecked: the caller must
    /// already know the channel exists.  The checked counterpart of this
    /// family is [`AudioBuffer::get_sample`].
    pub fn channel(&self, channel: usize) -> (r: &Vec<T>)
        requires
            channel < self.channel_count(),
        ensures
            r@ == self.channels()[channel as int],
    {
        &self.data[channel]
    }

    /// Mutable access to the whole sample sequence of one channel,
    /// unchecked: the caller must already know the channel exists.
    pub fn channel_mut(&mut self, channel: usize) -> (r: &mut Vec<T>)
        requires
            channel < old(self).channel_count(),
        ensures
            (*r)@ == old(self).channels()[channel as int],
            final(self).sample_rate == old(self).sample_rate,
            final(self).channels() =~~= old(self).channels().update(
                channel as int,
                (*final(r))@,
            ),
    {
        &mut self.data[channel]
    }

    /// One sample, unchecked: the caller must already know the position is
    /// valid.
    pub fn sample_unchecked(&self, channel: usize, index: usize) -> (r: &T)
        requires
            self.valid_index(channel as int, index as int),
        ensures
            *r == self.channels()[channel as int][index as int],
    {
        &self.data[channel][index]
    }

    /// Mutable access to one sample, unchecked: the caller must already know
    /// the position is valid.
    pub fn sample_unchecked_mut(&mut self, channel: usize, index: usize) -> (r: &mut T)
        requires
            old(self).valid_index(channel as int, index as int),
        ensures
            *r == old(self).channels()[channel as int][index as int],
            final(self).sample_rate == old(self).sample_rate,
            final(self).channels() =~~= with_sample(
                old(self).channels(),
                channel as int,
                index as int,
                *final(r),
            ),
    {
        &mut self.data[channel][index]
    }

    /// Installs channel data produced by the external resampling engine,
    /// together with the rate it was produced at.
    pub fn install_resampled(&mut self, data: Vec<Vec<T>>, sample_rate: u32)
        ensures
            final(self).sample_rate == sample_rate,
            final(self).channel_count() == data@.len(),
            forall|c: int|
                0 <= c < data@.len() ==> #[trigger] final(self).channels()[c] == data@[c]@,
    {
        self.data = data;
        self.sample_rate = sample_rate;
    }
}

impl<T: Sample> Default for AudioBuffer<T> {
    /// A buffer with no channels and a zero sample rate.
    fn default() -> (r: Self)
        ensures
            r.channels() =~= Seq::<Seq<T>>::empty(),
            r.sample_rate == 0,
    {
        AudioBuffer { data: Vec::new(), sample_rate: 0 }
    }
}

/// Law: writing a sample and then reading the same position yields the
/// written value exactly, for every valid `(channel, index)`.
pub proof fn lemma_sample_round_trip<T: Sample>(d: Seq<Seq<T>>, c: int, i: int, v: T)
    requires
        0 <= c < d.len(),
        0 <= i < d[c].len(),
    ensures
        with_sample(d, c, i, v)[c][i] == v,
{
}

/// Brings `ch` to `length` samples: truncates on shrink, zero-pads on
/// growth.
fn resize_channel<T: Sample>(ch: &mut Vec<T>, length: usize)
    ensures
        final(ch)@ =~= resized_channel(old(ch)@, length as nat),
{
    if length <= ch.len() {
        ch.truncate(length);
    } else {
        while ch.len() < length
            invariant
                old(ch)@.len() <= ch@.len() <= length,
                ch@.subrange(0, old(ch)@.len() as int) =~= old(ch)@,
                forall|j: int|
                    old(ch)@.len() <= j < ch@.len() ==> #[trigger] ch@[j] == T::zero_spec(),
            decreases length - ch@.len(),
        {
            ch.push(T::zero());
        }
    }
}

/// A freshly allocated channel of `length` silent samples.
fn silent_channel<T: Sample>(length: usize) -> (r: Vec<T>)
    ensures
        r@ =~= zero_channel::<T>(length as nat),
{
    let mut r: Vec<T> = Vec::new();
    for _i in 0..length
        invariant
            r@.len() == _i,
            forall|j: int| 0 <= j < _i ==> r@[j] == T::zero_spec(),
    {
        r.push(T::zero());
    }
    r
}

} // verus!
