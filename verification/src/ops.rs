//! Elementwise and scalar arithmetic over whole buffers.
//!
//! Buffer-buffer operations touch only the overlap of the two shapes: the
//! first `min(channel counts)` channels, the first `min(sample counts)`
//! samples of each.  Mismatched shapes are not an error; samples of the left
//! operand outside the overlap keep their value.  Scalar operations apply the
//! scalar to the whole reported shape of the buffer.

use vstd::prelude::*;

use crate::covers;
use crate::sample::Sample;
use crate::AudioBuffer;

verus! {

/// `d` with `f` applied to every sample `(c, i)` with `c < count` and
/// `i < upto`; every other sample unchanged.
pub open spec fn map_overlap<T>(d: Seq<Seq<T>>, count: int, upto: int, f: spec_fn(T) -> T) -> Seq<
    Seq<T>,
> {
    Seq::new(
        d.len(),
        |c: int|
            if c < count {
                Seq::new(d[c].len(), |i: int| if i < upto { f(d[c][i]) } else { d[c][i] })
            } else {
                d[c]
            },
    )
}

/// `a` with every sample `(c, i)` with `c < count` and `i < upto` replaced by
/// `f` of that sample and the matching sample of `b`; every other sample of
/// `a` unchanged.
pub open spec fn combine_overlap<T>(
    a: Seq<Seq<T>>,
    b: Seq<Seq<T>>,
    count: int,
    upto: int,
    f: spec_fn(T, T) -> T,
) -> Seq<Seq<T>> {
    Seq::new(
        a.len(),
        |c: int|
            if c < count {
                Seq::new(a[c].len(), |i: int| if i < upto { f(a[c][i], b[c][i]) } else { a[c][i] })
            } else {
                a[c]
            },
    )
}

/// The elementwise operations a buffer operation can apply.
#[derive(Clone, Copy)]
enum ElemOp {
    Add,
    Sub,
    Mul,
    Div,
}

/// What `op` applied to `(x, y)` returns.
spec fn elem_op_spec<T: Sample>(op: ElemOp, x: T, y: T) -> T {
    match op {
        ElemOp::Add => x.add_spec(y),
        ElemOp::Sub => x.sub_spec(y),
        ElemOp::Mul => x.mul_spec(y),
        ElemOp::Div => x.div_spec(y),
    }
}

/// Applies `op` to a pair of samples.
fn elem_op_apply<T: Sample>(op: ElemOp, x: T, y: T) -> (r: T)
    ensures
        r == elem_op_spec(op, x, y),
{
    match op {
        ElemOp::Add => x.add(y),
        ElemOp::Sub => x.sub(y),
        ElemOp::Mul => x.mul(y),
        ElemOp::Div => x.div(y),
    }
}

impl<T: Sample> AudioBuffer<T> {
    /// Applies `op` with the matching sample of `rhs` at every position of
    /// the overlap of the two shapes.
    fn combine_in_place(&mut self, rhs: &AudioBuffer<T>, op: ElemOp)
        requires
            covers(
                old(self).channels(),
                vstd::math::min(old(self).channel_count() as int, rhs.channel_count() as int),
                vstd::math::min(old(self).sample_count() as int, rhs.sample_count() as int),
            ),
            covers(
                rhs.channels(),
                vstd::math::min(old(self).channel_count() as int, rhs.channel_count() as int),
                vstd::math::min(old(self).sample_count() as int, rhs.sample_count() as int),
            ),
        ensures
            final(self).sample_rate == old(self).sample_rate,
            final(self).channels() =~~= combine_overlap(
                old(self).channels(),
                rhs.channels(),
                vstd::math::min(old(self).channel_count() as int, rhs.channel_count() as int),
                vstd::math::min(old(self).sample_count() as int, rhs.sample_count() as int),
                |x: T, y: T| elem_op_spec(op, x, y),
            ),
    {
        let self_channels = self.data.len();
        let rhs_channels = rhs.data.len();
        let min_channels = if self_channels < rhs_channels {
            self_channels
        } else {
            rhs_channels
        };
        let self_samples = self.get_num_samples();
        let rhs_samples = rhs.get_num_samples();
        let min_samples = if self_samples < rhs_samples {
            self_samples
        } else {
            rhs_samples
        };
        for c in 0..min_channels
            invariant
                min_channels == vstd::math::min(
                    old(self).channel_count() as int,
                    rhs.channel_count() as int,
                ),
                min_samples == vstd::math::min(
                    old(self).sample_count() as int,
                    rhs.sample_count() as int,
                ),
                covers(old(self).channels(), min_channels as int, min_samples as int),
                covers(rhs.channels(), min_channels as int, min_samples as int),
                self.data@.len() == old(self).data@.len(),
                self.sample_rate == old(self).sample_rate,
                forall|k: int|
                    0 <= k < self.data@.len() ==> (#[trigger] self.data@[k]@).len() == old(
                        self,
                    ).data@[k]@.len(),
                forall|k: int, j: int|
                    0 <= k < c && 0 <= j < min_samples ==> #[trigger] self.data@[k]@[j]
                        == elem_op_spec(op, old(self).data@[k]@[j], rhs.data@[k]@[j]),
                forall|k: int, j: int|
                    0 <= k < self.data@.len() && 0 <= j < self.data@[k]@.len() && !(k < c && j
                        < min_samples) ==> #[trigger] self.data@[k]@[j] == old(self).data@[k]@[j],
        {
            proof {
                assert(old(self).channels()[c as int].len() >= min_samples);
                assert(rhs.channels()[c as int].len() >= min_samples);
            }
            for i in 0..min_samples
                invariant
                    0 <= c < min_channels,
                    min_samples <= self.data@[c as int]@.len(),
                    min_samples <= rhs.data@[c as int]@.len(),
                    min_channels == vstd::math::min(
                        old(self).channel_count() as int,
                        rhs.channel_count() as int,
                    ),
                    min_samples == vstd::math::min(
                        old(self).sample_count() as int,
                        rhs.sample_count() as int,
                    ),
                    covers(old(self).channels(), min_channels as int, min_samples as int),
                    covers(rhs.channels(), min_channels as int, min_samples as int),
                    self.data@.len() == old(self).data@.len(),
                    self.sample_rate == old(self).sample_rate,
                    forall|k: int|
                        0 <= k < self.data@.len() ==> (#[trigger] self.data@[k]@).len() == old(
                            self,
                        ).data@[k]@.len(),
                    forall|k: int, j: int|
                        0 <= k < c && 0 <= j < min_samples ==> #[trigger] self.data@[k]@[j]
                            == elem_op_spec(op, old(self).data@[k]@[j], rhs.data@[k]@[j]),
                    forall|j: int|
                        0 <= j < i ==> #[trigger] self.data@[c as int]@[j] == elem_op_spec(
                            op,
                            old(self).data@[c as int]@[j],
                            rhs.data@[c as int]@[j],
                        ),
                    forall|k: int, j: int|
                        0 <= k < self.data@.len() && 0 <= j < self.data@[k]@.len() && !(k < c && j
                            < min_samples) && !(k == c && j < i) ==> #[trigger] self.data@[k]@[j]
                            == old(self).data@[k]@[j],
            {
                let x: T = self.data[c][i];
                let y: T = rhs.data[c][i];
                self.data[c][i] = elem_op_apply(op, x, y);
            }
        }
    }

    /// Applies `op` with the scalar `rhs` at every position of the buffer's
    /// reported shape: every channel, up to the reported sample count.
    fn scalar_in_place(&mut self, rhs: T, op: ElemOp)
        requires
            covers(
                old(self).channels(),
                old(self).channel_count() as int,
                old(self).sample_count() as int,
            ),
        ensures
            final(self).sample_rate == old(self).sample_rate,
            final(self).channels() =~~= map_overlap(
                old(self).channels(),
                old(self).channel_count() as int,
                old(self).sample_count() as int,
                |x: T| elem_op_spec(op, x, rhs),
            ),
    {
        let channels = self.data.len();
        let samples = self.get_num_samples();
        for c in 0..channels
            invariant
                channels == old(self).channel_count(),
                samples == old(self).sample_count(),
                covers(old(self).channels(), channels as int, samples as int),
                self.data@.len() == old(self).data@.len(),
                self.sample_rate == old(self).sample_rate,
                forall|k: int|
                    0 <= k < self.data@.len() ==> (#[trigger] self.data@[k]@).len() == old(
                        self,
                    ).data@[k]@.len(),
                forall|k: int, j: int|
                    0 <= k < c && 0 <= j < samples ==> #[trigger] self.data@[k]@[j] == elem_op_spec(
                        op,
                        old(self).data@[k]@[j],
                        rhs,
                    ),
                forall|k: int, j: int|
                    0 <= k < self.data@.len() && 0 <= j < self.data@[k]@.len() && !(k < c && j
                        < samples) ==> #[trigger] self.data@[k]@[j] == old(self).data@[k]@[j],
        {
            proof {
                assert(old(self).channels()[c as int].len() >= samples);
            }
            for i in 0..samples
                invariant
                    0 <= c < channels,
                    samples <= self.data@[c as int]@.len(),
                    channels == old(self).channel_count(),
                    samples == old(self).sample_count(),
                    covers(old(self).channels(), channels as int, samples as int),
                    self.data@.len() == old(self).data@.len(),
                    self.sample_rate == old(self).sample_rate,
                    forall|k: int|
                        0 <= k < self.data@.len() ==> (#[trigger] self.data@[k]@).len() == old(
                            self,
                        ).data@[k]@.len(),
                    forall|k: int, j: int|
                        0 <= k < c && 0 <= j < samples ==> #[trigger] self.data@[k]@[j]
                            == elem_op_spec(op, old(self).data@[k]@[j], rhs),
                    forall|j: int|
                        0 <= j < i ==> #[trigger] self.data@[c as int]@[j] == elem_op_spec(
                            op,
                            old(self).data@[c as int]@[j],
                            rhs,
                        ),
                    forall|k: int, j: int|
                        0 <= k < self.data@.len() && 0 <= j < self.data@[k]@.len() && !(k < c && j
                            < samples) && !(k == c && j < i) ==> #[trigger] self.data@[k]@[j] == old(
                            self,
                        ).data@[k]@[j],
            {
                let x: T = self.data[c][i];
                self.data[c][i] = elem_op_apply(op, x, rhs);
            }
        }
    }

    /// Elementwise sum of the overlap of the two buffers; the result has
    /// `self`'s shape and rate, and keeps `self`'s samples outside the
    /// overlap.
    pub fn add(self, rhs: AudioBuffer<T>) -> (r: AudioBuffer<T>)
        requires
            covers(
                self.channels(),
                vstd::math::min(self.channel_count() as int, rhs.channel_count() as int),
                vstd::math::min(self.sample_count() as int, rhs.sample_count() as int),
            ),
            covers(
                rhs.channels(),
                vstd::math::min(self.channel_count() as int, rhs.channel_count() as int),
                vstd::math::min(self.sample_count() as int, rhs.sample_count() as int),
            ),
        ensures
            r.sample_rate == self.sample_rate,
            r.channels() =~~= combine_overlap(
                self.channels(),
                rhs.channels(),
                vstd::math::min(self.channel_count() as int, rhs.channel_count() as int),
                vstd::math::min(self.sample_count() as int, rhs.sample_count() as int),
                |x: T, y: T| x.add_spec(y),
            ),
    {
        let mut out = self;
        out.combine_in_place(&rhs, ElemOp::Add);
        out
    }

    /// Elementwise difference over the overlap, as [`AudioBuffer::add`].
    pub fn sub(self, rhs: AudioBuffer<T>) -> (r: AudioBuffer<T>)
        requires
            covers(
                self.channels(),
                vstd::math::min(self.channel_count() as int, rhs.channel_count() as int),
                vstd::math::min(self.sample_count() as int, rhs.sample_count() as int),
            ),
            covers(
                rhs.channels(),
                vstd::math::min(self.channel_count() as int, rhs.channel_count() as int),
                vstd::math::min(self.sample_count() as int, rhs.sample_count() as int),
            ),
        ensures
            r.sample_rate == self.sample_rate,
            r.channels() =~~= combine_overlap(
                self.channels(),
                rhs.channels(),
                vstd::math::min(self.channel_count() as int, rhs.channel_count() as int),
                vstd::math::min(self.sample_count() as int, rhs.sample_count() as int),
                |x: T, y: T| x.sub_spec(y),
            ),
    {
        let mut out = self;
        out.combine_in_place(&rhs, ElemOp::Sub);
        out
    }

    /// In-place elementwise sum over the overlap, as [`AudioBuffer::add`].
    pub fn add_assign(&mut self, rhs: &AudioBuffer<T>)
        requires
            covers(
                old(self).channels(),
                vstd::math::min(old(self).channel_count() as int, rhs.channel_count() as int),
                vstd::math::min(old(self).sample_count() as int, rhs.sample_count() as int),
            ),
            covers(
                rhs.channels(),
                vstd::math::min(old(self).channel_count() as int, rhs.channel_count() as int),
                vstd::math::min(old(self).sample_count() as int, rhs.sample_count() as int),
            ),
        ensures
            final(self).sample_rate == old(self).sample_rate,
            final(self).channels() =~~= combine_overlap(
                old(self).channels(),
                rhs.channels(),
                vstd::math::min(old(self).channel_count() as int, rhs.channel_count() as int),
                vstd::math::min(old(self).sample_count() as int, rhs.sample_count() as int),
                |x: T, y: T| x.add_spec(y),
            ),
    {
        self.combine_in_place(rhs, ElemOp::Add);
    }

    /// In-place elementwise difference over the overlap, as
    /// [`AudioBuffer::add`].
    pub fn sub_assign(&mut self, rhs: &AudioBuffer<T>)
        requires
            covers(
                old(self).channels(),
                vstd::math::min(old(self).channel_count() as int, rhs.channel_count() as int),
                vstd::math::min(old(self).sample_count() as int, rhs.sample_count() as int),
            ),
            covers(
                rhs.channels(),
                vstd::math::min(old(self).channel_count() as int, rhs.channel_count() as int),
                vstd::math::min(old(self).sample_count() as int, rhs.sample_count() as int),
            ),
        ensures
            final(self).sample_rate == old(self).sample_rate,
            final(self).channels() =~~= combine_overlap(
                old(self).channels(),
                rhs.channels(),
                vstd::math::min(old(self).channel_count() as int, rhs.channel_count() as int),
                vstd::math::min(old(self).sample_count() as int, rhs.sample_count() as int),
                |x: T, y: T| x.sub_spec(y),
            ),
    {
        self.combine_in_place(rhs, ElemOp::Sub);
    }

    /// The buffer with the scalar added to every sample of its reported
    /// shape.
    pub fn add_scalar(self, rhs: T) -> (r: AudioBuffer<T>)
        requires
            covers(self.channels(), self.channel_count() as int, self.sample_count() as int),
        ensures
            r.sample_rate == self.sample_rate,
            r.channels() =~~= map_overlap(
                self.channels(),
                self.channel_count() as int,
                self.sample_count() as int,
                |x: T| x.add_spec(rhs),
            ),
    {
        let mut out = self;
        out.scalar_in_place(rhs, ElemOp::Add);
        out
    }

    /// The buffer with the scalar subtracted from every sample of its
    /// reported shape.
    pub fn sub_scalar(self, rhs: T) -> (r: AudioBuffer<T>)
        requires
            covers(self.channels(), self.channel_count() as int, self.sample_count() as int),
        ensures
            r.sample_rate == self.sample_rate,
            r.channels() =~~= map_overlap(
                self.channels(),
                self.channel_count() as int,
                self.sample_count() as int,
                |x: T| x.sub_spec(rhs),
            ),
    {
        let mut out = self;
        out.scalar_in_place(rhs, ElemOp::Sub);
        out
    }

    /// The buffer with every sample of its reported shape multiplied by the
    /// scalar.
    pub fn mul(self, rhs: T) -> (r: AudioBuffer<T>)
        requires
            covers(self.channels(), self.channel_count() as int, self.sample_count() as int),
        ensures
            r.sample_rate == self.sample_rate,
            r.channels() =~~= map_overlap(
                self.channels(),
                self.channel_count() as int,
                self.sample_count() as int,
                |x: T| x.mul_spec(rhs),
            ),
    {
        let mut out = self;
        out.scalar_in_place(rhs, ElemOp::Mul);
        out
    }

    /// The buffer with every sample of its reported shape divided by the
    /// scalar.
    pub fn div(self, rhs: T) -> (r: AudioBuffer<T>)
        requires
            covers(self.channels(), self.channel_count() as int, self.sample_count() as int),
        ensures
            r.sample_rate == self.sample_rate,
            r.channels() =~~= map_overlap(
                self.channels(),
                self.channel_count() as int,
                self.sample_count() as int,
                |x: T| x.div_spec(rhs),
            ),
    {
        let mut out = self;
        out.scalar_in_place(rhs, ElemOp::Div);
        out
    }

    /// Adds the scalar to every sample of the reported shape, in place.
    pub fn add_assign_scalar(&mut self, rhs: T)
        requires
            covers(
                old(self).channels(),
                old(self).channel_count() as int,
                old(self).sample_count() as int,
            ),
        ensures
            final(self).sample_rate == old(self).sample_rate,
            final(self).channels() =~~= map_overlap(
                old(self).channels(),
                old(self).channel_count() as int,
                old(self).sample_count() as int,
                |x: T| x.add_spec(rhs),
            ),
    {
        self.scalar_in_place(rhs, ElemOp::Add);
    }

    /// Subtracts the scalar from every sample of the reported shape, in
    /// place.
    pub fn sub_assign_scalar(&mut self, rhs: T)
        requires
            covers(
                old(self).channels(),
                old(self).channel_count() as int,
                old(self).sample_count() as int,
            ),
        ensures
            final(self).sample_rate == old(self).sample_rate,
            final(self).channels() =~~= map_overlap(
                old(self).channels(),
                old(self).channel_count() as int,
                old(self).sample_count() as int,
                |x: T| x.sub_spec(rhs),
            ),
    {
        self.scalar_in_place(rhs, ElemOp::Sub);
    }

    /// Multiplies every sample of the reported shape by the scalar, in place.
    pub fn mul_assign(&mut self, rhs: T)
        requires
            covers(
                old(self).channels(),
                old(self).channel_count() as int,
                old(self).sample_count() as int,
            ),
        ensures
            final(self).sample_rate == old(self).sample_rate,
            final(self).channels() =~~= map_overlap(
                old(self).channels(),
                old(self).channel_count() as int,
                old(self).sample_count() as int,
                |x: T| x.mul_spec(rhs),
            ),
    {
        self.scalar_in_place(rhs, ElemOp::Mul);
    }

    /// Divides every sample of the reported shape by the scalar, in place.
    pub fn div_assign(&mut self, rhs: T)
        requires
            covers(
                old(self).channels(),
                old(self).channel_count() as int,
                old(self).sample_count() as int,
            ),
        ensures
            final(self).sample_rate == old(self).sample_rate,
            final(self).channels() =~~= map_overlap(
                old(self).channels(),
                old(self).channel_count() as int,
                old(self).sample_count() as int,
                |x: T| x.div_spec(rhs),
            ),
    {
        self.scalar_in_place(rhs, ElemOp::Div);
    }

    /// The buffer with every sample of its reported shape negated.
    pub fn neg(self) -> (r: AudioBuffer<T>)
        requires
            covers(self.channels(), self.channel_count() as int, self.sample_count() as int),
        ensures
            r.sample_rate == self.sample_rate,
            r.channels() =~~= map_overlap(
                self.channels(),
                self.channel_count() as int,
                self.sample_count() as int,
                |x: T| x.neg_spec(),
            ),
    {
        let mut out = self;
        let channels = out.data.len();
        let samples = out.get_num_samples();
        for c in 0..channels
            invariant
                channels == self.channel_count(),
                samples == self.sample_count(),
                covers(self.channels(), channels as int, samples as int),
                out.data@.len() == self.data@.len(),
                out.sample_rate == self.sample_rate,
                forall|k: int|
                    0 <= k < out.data@.len() ==> (#[trigger] out.data@[k]@).len()
                        == self.data@[k]@.len(),
                forall|k: int, j: int|
                    0 <= k < c && 0 <= j < samples ==> #[trigger] out.data@[k]@[j]
                        == self.data@[k]@[j].neg_spec(),
                forall|k: int, j: int|
                    0 <= k < out.data@.len() && 0 <= j < out.data@[k]@.len() && !(k < c && j
                        < samples) ==> #[trigger] out.data@[k]@[j] == self.data@[k]@[j],
        {
            proof {
                assert(self.channels()[c as int].len() >= samples);
            }
            for i in 0..samples
                invariant
                    0 <= c < channels,
                    samples <= out.data@[c as int]@.len(),
                    channels == self.channel_count(),
                    samples == self.sample_count(),
                    covers(self.channels(), channels as int, samples as int),
                    out.data@.len() == self.data@.len(),
                    out.sample_rate == self.sample_rate,
                    forall|k: int|
                        0 <= k < out.data@.len() ==> (#[trigger] out.data@[k]@).len()
                            == self.data@[k]@.len(),
                    forall|k: int, j: int|
                        0 <= k < c && 0 <= j < samples ==> #[trigger] out.data@[k]@[j]
                            == self.data@[k]@[j].neg_spec(),
                    forall|j: int|
                        0 <= j < i ==> #[trigger] out.data@[c as int]@[j] == self.data@[c as
                            int]@[j].neg_spec(),
                    forall|k: int, j: int|
                        0 <= k < out.data@.len() && 0 <= j < out.data@[k]@.len() && !(k < c && j
                            < samples) && !(k == c && j < i) ==> #[trigger] out.data@[k]@[j]
                            == self.data@[k]@[j],
            {
                let x: T = out.data[c][i];
                out.data[c][i] = x.neg();
            }
        }
        out
    }
}

/// Law: adding a buffer to itself applies the sample type's addition to each
/// sample with itself — every sample of the reported shape is "doubled", and
/// the whole shape is the overlap.
pub proof fn lemma_add_self_doubles<T: Sample>(d: Seq<Seq<T>>, c: int, i: int)
    requires
        0 <= c < d.len(),
        0 <= i < d[c].len(),
        i < (if d.len() == 0 { 0 } else { d[0].len() }),
    ensures
        combine_overlap(
            d,
            d,
            d.len() as int,
            (if d.len() == 0 { 0 } else { d[0].len() }) as int,
            |x: T, y: T| x.add_spec(y),
        )[c][i] == d[c][i].add_spec(d[c][i]),
{
}

} // verus!
