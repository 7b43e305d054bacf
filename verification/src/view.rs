//! A bounds-checked window over interleaved sample data.
//!
//! [`BufferView`] borrows a flat, sample-major sequence owned by the caller:
//! the samples of one frame (one sample per channel) lie next to each other,
//! frame after frame.  The sample count is the number of whole frames; a
//! trailing partial frame is not addressable and not an error.

use vstd::prelude::*;

use crate::sample::Sample;
use crate::AudioError;

verus! {

/// The flat position of `(channel, index)` in interleaved data of
/// `num_channels` channels.
pub open spec fn interleaved_offset(channel: int, index: int, num_channels: int) -> int {
    index * num_channels + channel
}

/// Within `num_channels` channels and `flat_len / num_channels` whole frames,
/// every interleaved offset lies inside the flat data.
pub proof fn lemma_interleaved_offset_in_bounds(
    channel: int,
    index: int,
    num_channels: int,
    flat_len: int,
)
    requires
        0 <= channel < num_channels,
        0 <= index < flat_len / num_channels,
    ensures
        0 <= interleaved_offset(channel, index, num_channels) < flat_len,
{
    vstd::arithmetic::div_mod::lemma_fundamental_div_mod(flat_len, num_channels);
    assert(index * num_channels + num_channels <= (flat_len / num_channels) * num_channels)
        by (nonlinear_arith)
        requires
            index + 1 <= flat_len / num_channels,
            num_channels > 0,
    ;
    assert((flat_len / num_channels) * num_channels <= flat_len) by (nonlinear_arith)
        requires
            flat_len == num_channels * (flat_len / num_channels) + flat_len % num_channels,
            0 <= flat_len % num_channels,
    ;
}

/// A non-owning, mutable, bounds-checked window over interleaved sample data.
///
/// The view never owns the storage; it borrows it for its own lifetime.  The
/// channel count is fixed at construction and the sample count is derived
/// from the borrowed length.
pub struct BufferView<'a, T: Sample> {
    data: &'a mut [T],
    num_channels: usize,
}

impl<'a, T: Sample> BufferView<'a, T> {
    /// The flat interleaved contents behind the view.
    pub closed spec fn flat(self) -> Seq<T> {
        self.data@
    }

    /// The channel count the view was created with.
    pub closed spec fn channel_count(self) -> nat {
        self.num_channels as nat
    }

    /// The samples per channel: the whole frames the flat data holds.
    pub open spec fn sample_count(self) -> nat {
        if self.channel_count() == 0 {
            0
        } else {
            self.flat().len() / self.channel_count()
        }
    }

    /// Whether `(channel, index)` addresses a sample of a whole frame.
    pub open spec fn valid_index(self, channel: int, index: int) -> bool {
        &&& 0 <= channel < self.channel_count()
        &&& 0 <= index < self.sample_count()
    }

    /// A view of `data` as `num_channels` interleaved channels.
    pub fn new(data: &'a mut [T], num_channels: usize) -> (r: Self)
        ensures
            r.flat() == old(data)@,
            r.channel_count() == num_channels,
    {
        Self { data, num_channels }
    }

    /// The sample count: the whole frames the flat data holds.
    pub fn get_num_samples(&self) -> (r: usize)
        requires
            self.channel_count() > 0,
        ensures
            r == self.sample_count(),
    {
        self.data.len() / self.num_channels
    }

    /// The channel count.
    pub fn get_num_channels(&self) -> (r: usize)
        ensures
            r == self.channel_count(),
    {
        self.num_channels
    }

    /// Reads the sample of channel `channel` in frame `index`,
    /// bounds-checked.
    pub fn get_sample(&self, channel: usize, index: usize) -> (r: Result<T, AudioError>)
        ensures
            r == (if channel >= self.channel_count() {
                Err::<T, AudioError>(AudioError::ChannelOutOfBounds)
            } else if index >= self.sample_count() {
                Err::<T, AudioError>(AudioError::SampleOutOfBounds)
            } else {
                Ok::<T, AudioError>(
                    self.flat()[interleaved_offset(
                        channel as int,
                        index as int,
                        self.channel_count() as int,
                    )],
                )
            }),
    {
        if channel >= self.num_channels {
            Err(AudioError::ChannelOutOfBounds)
        } else if index >= self.data.len() / self.num_channels {
            Err(AudioError::SampleOutOfBounds)
        } else {
            proof {
                lemma_interleaved_offset_in_bounds(
                    channel as int,
                    index as int,
                    self.num_channels as int,
                    self.data@.len() as int,
                );
            }
            Ok(self.data[index * self.num_channels + channel])
        }
    }

    /// Overwrites the sample of channel `channel` in frame `index`,
    /// bounds-checked; the data is unchanged on failure.
    pub fn set_sample(&mut self, channel: usize, index: usize, value: T) -> (r: Result<
        (),
        AudioError,
    >)
        ensures
            final(self).channel_count() == old(self).channel_count(),
            r == (if channel >= old(self).channel_count() {
                Err::<(), AudioError>(AudioError::ChannelOutOfBounds)
            } else if index >= old(self).sample_count() {
                Err::<(), AudioError>(AudioError::SampleOutOfBounds)
            } else {
                Ok::<(), AudioError>(())
            }),
            r is Ok ==> final(self).flat() == old(self).flat().update(
                interleaved_offset(channel as int, index as int, old(self).channel_count() as int),
                value,
            ),
            r is Err ==> final(self).flat() == old(self).flat(),
    {
        if channel >= self.num_channels {
            Err(AudioError::ChannelOutOfBounds)
        } else if index >= self.data.len() / self.num_channels {
            Err(AudioError::SampleOutOfBounds)
        } else {
            proof {
                lemma_interleaved_offset_in_bounds(
                    channel as int,
                    index as int,
                    self.num_channels as int,
                    self.data@.len() as int,
                );
            }
            self.data[index * self.num_channels + channel] = value;
            Ok(())
        }
    }

    /// A mutable reference to the sample of channel `channel` in frame
    /// `index`, bounds-checked, for callers that manipulate the sample in
    /// place rather than read and write it in two calls; the data is
    /// unchanged on failure.
    pub fn sample_mut(&mut self, channel: usize, index: usize) -> (r: Result<&mut T, AudioError>)
        ensures
            final(self).channel_count() == old(self).channel_count(),
            r is Ok <==> old(self).valid_index(channel as int, index as int),
            r is Err ==> r == (if channel >= old(self).channel_count() {
                Err::<&mut T, AudioError>(AudioError::ChannelOutOfBounds)
            } else {
                Err::<&mut T, AudioError>(AudioError::SampleOutOfBounds)
            }) && final(self).flat() == old(self).flat(),
            r is Ok ==> *(r->Ok_0) == old(self).flat()[interleaved_offset(
                channel as int,
                index as int,
                old(self).channel_count() as int,
            )] && final(self).flat() == old(self).flat().update(
                interleaved_offset(channel as int, index as int, old(self).channel_count() as int),
                *final(r->Ok_0),
            ),
    {
        if channel >= self.num_channels {
            Err(AudioError::ChannelOutOfBounds)
        } else if index >= self.data.len() / self.num_channels {
            Err(AudioError::SampleOutOfBounds)
        } else {
            proof {
                lemma_interleaved_offset_in_bounds(
                    channel as int,
                    index as int,
                    self.num_channels as int,
                    self.data@.len() as int,
                );
            }
            Ok(slice_elem_mut(&mut *self.data, index * self.num_channels + channel))
        }
    }

    /// Accumulates `value` onto the sample of channel `channel` in frame
    /// `index`, bounds-checked; the data is unchanged on failure.
    pub fn add_sample(&mut self, channel: usize, index: usize, value: T) -> (r: Result<
        (),
        AudioError,
    >)
        ensures
            final(self).channel_count() == old(self).channel_count(),
            r == (if channel >= old(self).channel_count() {
                Err::<(), AudioError>(AudioError::ChannelOutOfBounds)
            } else if index >= old(self).sample_count() {
                Err::<(), AudioError>(AudioError::SampleOutOfBounds)
            } else {
                Ok::<(), AudioError>(())
            }),
            r is Ok ==> final(self).flat() == old(self).flat().update(
                interleaved_offset(channel as int, index as int, old(self).channel_count() as int),
                old(self).flat()[interleaved_offset(
                    channel as int,
                    index as int,
                    old(self).channel_count() as int,
                )].add_spec(value),
            ),
            r is Err ==> final(self).flat() == old(self).flat(),
    {
        if channel >= self.num_channels {
            Err(AudioError::ChannelOutOfBounds)
        } else if index >= self.data.len() / self.num_channels {
            Err(AudioError::SampleOutOfBounds)
        } else {
            proof {
                lemma_interleaved_offset_in_bounds(
                    channel as int,
                    index as int,
                    self.num_channels as int,
                    self.data@.len() as int,
                );
            }
            let off = index * self.num_channels + channel;
            let current: T = self.data[off];
            self.data[off] = current.add(value);
            Ok(())
        }
    }
}

/// Relies on std's mutable slice indexing (`&mut s[i]`): a mutable reference
/// to element `i`; the slice is left with whatever is written through it.
#[verifier::external_body]
fn slice_elem_mut<T>(s: &mut [T], i: usize) -> (r: &mut T)
    requires
        i < old(s)@.len(),
    ensures
        *r == old(s)@[i as int],
        final(s)@ == old(s)@.update(i as int, *final(r)),
{
    &mut s[i]
}

} // verus!
