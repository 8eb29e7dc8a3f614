//! Channel layout of sample data: from interleaved frames to one sequence
//! per channel and back.

use vstd::prelude::*;
use vstd::arithmetic::div_mod::{lemma_fundamental_div_mod, lemma_fundamental_div_mod_converse};

verus! {

/// The number of samples of channel `c` in `total` interleaved samples of
/// `channels` channels; the last frame may be cut short.
pub open spec fn channel_len(total: int, channels: int, c: int) -> int {
    if c >= total {
        0
    } else {
        (total - c - 1) / channels + 1
    }
}

/// The channels of interleaved samples: sample `f` of channel `c` is sample
/// `f * channels + c` of the input.
pub open spec fn uninterleaved<T>(samples: Seq<T>, channels: int) -> Seq<Seq<T>> {
    Seq::new(
        channels as nat,
        |c: int|
            Seq::new(
                channel_len(samples.len() as int, channels, c) as nat,
                |f: int| samples[f * channels + c],
            ),
    )
}

/// The number of samples in all channels together.
pub open spec fn total_len<T>(channels: Seq<Seq<T>>) -> nat
    decreases channels.len(),
{
    if channels.len() == 0 {
        0
    } else {
        total_len(channels.drop_last()) + channels.last().len()
    }
}

/// Whether the channels have the lengths of channels taken from interleaved
/// samples: all the same, but for a cut last frame that reaches the first
/// channels only.
pub open spec fn is_layout<T>(channels: Seq<Seq<T>>) -> bool {
    forall|c: int|
        0 <= c < channels.len() ==> (#[trigger] channels[c]).len() == channel_len(
            total_len(channels) as int,
            channels.len() as int,
            c,
        )
}

/// The interleaved form of channels: frame after frame, and in each frame
/// one sample of every channel.
pub open spec fn interleaved<T>(channels: Seq<Seq<T>>) -> Seq<T> {
    Seq::new(
        total_len(channels),
        |k: int| channels[k % (channels.len() as int)][k / (channels.len() as int)],
    )
}

/// The contents of a list of vectors.
pub open spec fn views<T>(v: Seq<Vec<T>>) -> Seq<Seq<T>> {
    v.map_values(|channel: Vec<T>| channel@)
}

proof fn lemma_channel_index(total: int, channels: int, c: int, f: int)
    requires
        channels > 0,
        0 <= c < channels,
        0 <= f < channel_len(total, channels, c),
    ensures
        0 <= f * channels + c < total,
{
    lemma_fundamental_div_mod(total - c - 1, channels);
    assert(f * channels <= ((total - c - 1) / channels) * channels) by (nonlinear_arith)
        requires
            0 <= f <= (total - c - 1) / channels,
            channels > 0,
    ;
    assert(f * channels >= 0) by (nonlinear_arith)
        requires
            f >= 0,
            channels > 0,
    ;
    assert(((total - c - 1) / channels) * channels == channels * ((total - c - 1) / channels))
        by (nonlinear_arith);
}

/// Sample `k` of the interleaved form lies inside its channel.
proof fn lemma_frame_in_channel(total: int, channels: int, k: int)
    requires
        channels > 0,
        0 <= k < total,
    ensures
        0 <= k % channels < channels,
        0 <= k / channels < channel_len(total, channels, k % channels),
        (k / channels) * channels + k % channels == k,
{
    let c = k % channels;
    let f = k / channels;
    lemma_fundamental_div_mod(k, channels);
    assert(f * channels == channels * f) by (nonlinear_arith);
    assert(f >= 0) by (nonlinear_arith)
        requires
            k == channels * f + c,
            0 <= c < channels,
            k >= 0,
            channels > 0,
    ;
    lemma_fundamental_div_mod(total - c - 1, channels);
    let top = (total - c - 1) / channels;
    assert(f <= top) by (nonlinear_arith)
        requires
            f * channels <= total - c - 1,
            total - c - 1 == channels * top + (total - c - 1) % channels,
            0 <= (total - c - 1) % channels < channels,
            channels > 0,
    ;
}

/// A channel holds the whole frames, and one sample of the cut last frame if
/// that frame reaches it.
proof fn lemma_channel_len(total: int, channels: int, c: int)
    requires
        channels > 0,
        total >= 0,
        0 <= c < channels,
    ensures
        channel_len(total, channels, c) == total / channels + (if c < total % channels {
            1int
        } else {
            0int
        }),
{
    let q = total / channels;
    let r = total % channels;
    lemma_fundamental_div_mod(total, channels);
    assert(q >= 0) by (nonlinear_arith)
        requires
            total == channels * q + r,
            0 <= r < channels,
            total >= 0,
            channels > 0,
    ;
    if c >= total {
        assert(q >= 1 ==> channels * q >= channels) by (nonlinear_arith)
            requires
                channels > 0,
        ;
    } else if c < r {
        assert(total - c - 1 == q * channels + (r - c - 1)) by (nonlinear_arith)
            requires
                total == channels * q + r,
        ;
        lemma_fundamental_div_mod_converse(total - c - 1, channels, q, r - c - 1);
    } else {
        assert(q >= 1) by (nonlinear_arith)
            requires
                total == channels * q + r,
                r <= c,
                c < total,
                c < channels,
                q >= 0,
        ;
        assert(total - c - 1 == (q - 1) * channels + (channels + r - c - 1)) by (nonlinear_arith)
            requires
                total == channels * q + r,
        ;
        lemma_fundamental_div_mod_converse(total - c - 1, channels, q - 1, channels + r - c - 1);
    }
}

/// The first `m` channels of an interleaved sequence hold, together, `m`
/// samples of every whole frame and the first `m` of the cut last frame.
proof fn lemma_total_of_prefix<T>(parts: Seq<Seq<T>>, total: int, channels: int, m: int)
    requires
        channels > 0,
        total >= 0,
        0 <= m <= channels,
        parts.len() == channels,
        forall|c: int| 0 <= c < channels ==> (#[trigger] parts[c]).len() == channel_len(total, channels, c),
    ensures
        total_len(parts.take(m)) == m * (total / channels) + (if m < total % channels {
            m
        } else {
            total % channels
        }),
    decreases m,
{
    if m > 0 {
        lemma_total_of_prefix(parts, total, channels, m - 1);
        lemma_channel_len(total, channels, m - 1);
        assert(parts.take(m).drop_last() =~= parts.take(m - 1));
        assert(parts.take(m).last() == parts[m - 1]);
        assert(m * (total / channels) == (m - 1) * (total / channels) + total / channels)
            by (nonlinear_arith);
    } else {
        assert(0 * (total / channels) == 0) by (nonlinear_arith);
    }
}

/// The channels taken from interleaved samples hold as many samples as
/// there were, in the lengths of a layout.
pub proof fn lemma_uninterleaved_layout<T>(samples: Seq<T>, channels: int)
    requires
        channels > 0,
    ensures
        total_len(uninterleaved(samples, channels)) == samples.len(),
        is_layout(uninterleaved(samples, channels)),
{
    let total = samples.len() as int;
    let parts = uninterleaved(samples, channels);
    lemma_total_of_prefix(parts, total, channels, channels);
    assert(parts.take(channels) =~= parts);
    lemma_fundamental_div_mod(total, channels);
    assert(channels * (total / channels) == (total / channels) * channels) by (nonlinear_arith);
}

/// Taking interleaved samples apart into channels and putting the channels
/// together again gives the samples back.
pub proof fn lemma_interleave_uninterleave<T>(samples: Seq<T>, channels: int)
    requires
        channels > 0,
    ensures
        interleaved(uninterleaved(samples, channels)) == samples,
{
    let total = samples.len() as int;
    let parts = uninterleaved(samples, channels);
    lemma_uninterleaved_layout(samples, channels);
    let back = interleaved(parts);
    assert forall|k: int| 0 <= k < total implies back[k] == samples[k] by {
        lemma_frame_in_channel(total, channels, k);
    }
    assert(back =~= samples);
}

/// Takes interleaved samples apart into `channels` channels.
pub fn uninterleave<T: Copy>(samples: Vec<T>, channels: usize) -> (parts: Vec<Vec<T>>)
    requires
        channels > 0,
    ensures
        views(parts@) == uninterleaved(samples@, channels as int),
{
    let total = samples.len();
    let mut parts: Vec<Vec<T>> = Vec::new();
    let mut c: usize = 0;
    while c < channels
        invariant
            c <= channels,
            total == samples@.len(),
            parts@.len() == c,
            forall|i: int| 0 <= i < c ==> (#[trigger] parts@[i])@ == uninterleaved(samples@, channels as int)[i],
        decreases channels - c,
    {
        let count: usize = if c >= total {
            0
        } else {
            (total - c - 1) / channels + 1
        };
        let mut channel: Vec<T> = Vec::new();
        let mut f: usize = 0;
        while f < count
            invariant
                f <= count,
                c < channels,
                total == samples@.len(),
                count == channel_len(total as int, channels as int, c as int),
                channel@.len() == f,
                forall|j: int| 0 <= j < f ==> channel@[j] == samples@[j * channels + c],
            decreases count - f,
        {
            proof {
                lemma_channel_index(total as int, channels as int, c as int, f as int);
            }
            channel.push(samples[f * channels + c]);
            f += 1;
        }
        assert(channel@ =~= uninterleaved(samples@, channels as int)[c as int]);
        parts.push(channel);
        c += 1;
    }
    assert(views(parts@) =~= uninterleaved(samples@, channels as int));
    parts
}

/// Two-channel form of prepared channels: a single channel is doubled, and a
/// silent second channel is replaced by the first.
pub open spec fn stereo_form<T>(channels: Seq<Seq<T>>, second_is_silent: bool) -> Seq<Seq<T>> {
    if channels.len() == 1 {
        channels.push(channels[0])
    } else if second_is_silent {
        channels.update(1, channels[0])
    } else {
        channels
    }
}

/// A copy of a channel.
pub fn copy_channel<T: Copy>(channel: &Vec<T>) -> (copy: Vec<T>)
    ensures
        copy@ == channel@,
{
    let mut copy: Vec<T> = Vec::new();
    let mut i: usize = 0;
    while i < channel.len()
        invariant
            i <= channel@.len(),
            copy@ == channel@.take(i as int),
        decreases channel@.len() - i,
    {
        copy.push(channel[i]);
        i += 1;
        assert(copy@ =~= channel@.take(i as int));
    }
    assert(channel@.take(i as int) =~= channel@);
    copy
}

/// Makes sure that there is a second channel with sound: a mono sample gets
/// a copy of its channel, and where the caller has found the second channel
/// to be silent, that channel becomes a copy of the first.
pub fn ensure_stereo<T: Copy>(channels: &mut Vec<Vec<T>>, second_is_silent: bool)
    requires
        old(channels)@.len() >= 1,
    ensures
        views(final(channels)@) == stereo_form(views(old(channels)@), second_is_silent),
{
    let first = copy_channel(&channels[0]);
    assert(views(channels@)[0] == channels@[0]@);
    if channels.len() == 1 {
        channels.push(first);
        assert(views(channels@) =~= stereo_form(views(old(channels)@), second_is_silent));
    } else if second_is_silent {
        channels[1] = first;
        assert(views(channels@) =~= stereo_form(views(old(channels)@), second_is_silent));
    } else {
        assert(views(channels@) =~= stereo_form(views(old(channels)@), second_is_silent));
    }
}

/// The number of samples in all channels together, where that number fits.
pub fn count_samples<T>(channels: &Vec<Vec<T>>) -> (total: Option<usize>)
    ensures
        total is Some <==> total_len(views(channels@)) <= usize::MAX,
        total is Some ==> total.unwrap() == total_len(views(channels@)),
{
    let mut total: usize = 0;
    let mut c: usize = 0;
    assert(views(channels@).take(0) =~= Seq::<Seq<T>>::empty());
    while c < channels.len()
        invariant
            c <= channels@.len(),
            total == total_len(views(channels@).take(c as int)),
        decreases channels@.len() - c,
    {
        let len = channels[c].len();
        proof {
            let now = views(channels@).take(c + 1);
            assert(now.drop_last() =~= views(channels@).take(c as int));
            assert(now.last() == channels@[c as int]@);
            lemma_total_grows(views(channels@), c + 1);
        }
        if len > usize::MAX - total {
            return None;
        }
        total += len;
        c += 1;
    }
    assert(views(channels@).take(c as int) =~= views(channels@));
    Some(total)
}

/// The channels up to any point hold no more samples than all of them.
proof fn lemma_total_grows<T>(channels: Seq<Seq<T>>, m: int)
    requires
        0 <= m <= channels.len(),
    ensures
        total_len(channels.take(m)) <= total_len(channels),
    decreases channels.len() - m,
{
    if m < channels.len() {
        lemma_total_grows(channels, m + 1);
        assert(channels.take(m + 1).drop_last() =~= channels.take(m));
    } else {
        assert(channels.take(m) =~= channels);
    }
}

/// Puts the channels of a layout together into interleaved samples.
pub fn interleave<T: Copy>(channels: &Vec<Vec<T>>) -> (samples: Vec<T>)
    requires
        is_layout(views(channels@)),
        total_len(views(channels@)) <= usize::MAX,
    ensures
        samples@ == interleaved(views(channels@)),
{
    let mut samples: Vec<T> = Vec::new();
    let count = channels.len();
    if count == 0 {
        assert(views(channels@) =~= Seq::<Seq<T>>::empty());
        return samples;
    }
    let total = match count_samples(channels) {
        Some(total) => total,
        None => 0,
    };
    let mut k: usize = 0;
    while k < total
        invariant
            k <= total,
            count > 0,
            count == channels@.len(),
            total == total_len(views(channels@)),
            is_layout(views(channels@)),
            samples@.len() == k,
            forall|j: int| 0 <= j < k ==> samples@[j] == channels@[j % (count as int)]@[j / (count as int)],
        decreases total - k,
    {
        proof {
            lemma_frame_in_channel(total as int, count as int, k as int);
            assert(views(channels@)[k as int % (count as int)] == channels@[k as int % (count as int)]@);
        }
        samples.push(channels[k % count][k / count]);
        k += 1;
    }
    assert forall|j: int| 0 <= j < samples@.len() implies samples@[j] == interleaved(views(channels@))[j] by {
        lemma_frame_in_channel(total as int, count as int, j);
        assert(views(channels@)[j % (count as int)] == channels@[j % (count as int)]@);
    }
    assert(samples@ =~= interleaved(views(channels@)));
    samples
}

} // verus!
