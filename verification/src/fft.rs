//! The spectral transform: from the buffered samples to a half-spectrum.
//!
//! One transform reads one chunk of `FFT_CHUNK_SIZE` samples and returns
//! half as many frequency bins. Which samples are read and which bins are
//! kept is decided here. The numeric kernel in between (window, forward
//! transform, scaling) is handed in by the caller, so that this module works
//! for any sample and bin type.

use crate::level::{component_level, is_number, lemma_level_keeps_order, level_of, scaled_value};
use vstd::prelude::*;

verus! {

/// Number of samples read by one transform.
pub const FFT_CHUNK_SIZE: usize = 2048;

/// Why a transform gave no spectrum.
#[derive(Clone, Copy, Debug, PartialEq, Eq, Structural)]
pub enum TransformError {
    /// Fewer than `FFT_CHUNK_SIZE` samples were offered.
    InsufficientData,
    /// The kernel did not return one bin per sample of the chunk.
    UnexpectedBinCount,
}

/// Which half of the bins of a full transform is kept.
#[derive(Clone, Copy, Debug, PartialEq, Eq, Structural)]
pub enum Half {
    /// Bins `0 .. FFT_CHUNK_SIZE / 2`: for real input, the frequencies from
    /// zero up to the Nyquist frequency.
    Lower,
    /// Bins `FFT_CHUNK_SIZE / 2 .. FFT_CHUNK_SIZE`: for real input, the
    /// mirror image of the lower half, starting next to the Nyquist bin.
    Upper,
}

/// The last complete chunk of `samples`, where they are cut into chunks of
/// `FFT_CHUNK_SIZE` from the front and a shorter rest at the end is dropped.
pub open spec fn last_full_chunk<T>(samples: Seq<T>) -> Seq<T>
    recommends
        samples.len() >= FFT_CHUNK_SIZE,
{
    let end = (samples.len() / FFT_CHUNK_SIZE as nat) * FFT_CHUNK_SIZE;
    samples.subrange(end - FFT_CHUNK_SIZE, end as int)
}

/// The half of `bins` that the policy keeps.
pub open spec fn retained_half<B>(bins: Seq<B>, half: Half) -> Seq<B>
    recommends
        bins.len() == FFT_CHUNK_SIZE,
{
    match half {
        Half::Lower => bins.subrange(0, FFT_CHUNK_SIZE as int / 2),
        Half::Upper => bins.subrange(FFT_CHUNK_SIZE as int / 2, FFT_CHUNK_SIZE as int),
    }
}

/// What becomes of the bins that a kernel returned: the retained half where
/// there is one bin per sample, an error otherwise.
pub open spec fn spectrum_of_bins<B>(bins: Seq<B>, half: Half) -> Result<Seq<B>, TransformError> {
    if bins.len() == FFT_CHUNK_SIZE {
        Ok(retained_half(bins, half))
    } else {
        Err(TransformError::UnexpectedBinCount)
    }
}

/// A result with the bins taken as a sequence.
pub open spec fn spectrum_view<B>(result: Result<Vec<B>, TransformError>) -> Result<
    Seq<B>,
    TransformError,
> {
    match result {
        Ok(bins) => Ok(bins@),
        Err(error) => Err(error),
    }
}

/// Whether `outcome` is what a transform of `stream_data` with the given
/// kernel may give: an error where the data are too short, else what becomes
/// of bins that the kernel can return for the last complete chunk.
pub open spec fn is_spectrum_of<T, B, F: Fn(&[T]) -> Vec<B>>(
    kernel: F,
    stream_data: Seq<T>,
    half: Half,
    outcome: Result<Seq<B>, TransformError>,
) -> bool {
    if stream_data.len() < FFT_CHUNK_SIZE {
        outcome == Err::<Seq<B>, TransformError>(TransformError::InsufficientData)
    } else {
        exists|chunk: &[T], bins: Vec<B>|
            chunk@ == last_full_chunk(stream_data) && #[trigger] call_ensures(
                kernel,
                (chunk,),
                bins,
            ) && outcome == spectrum_of_bins(bins@, half)
    }
}

/// Whether the kernel's result is a function of the samples it is given.
pub open spec fn kernel_is_function<T, B, F: Fn(&[T]) -> Vec<B>>(kernel: F) -> bool {
    forall|a: &[T], b: &[T], x: Vec<B>, y: Vec<B>|
        a@ == b@ && #[trigger] call_ensures(kernel, (a,), x) && #[trigger] call_ensures(
            kernel,
            (b,),
            y,
        ) ==> x@ == y@
}

/// Whether the kernel returns as many bins as it is given samples.
pub open spec fn kernel_keeps_count<T, B, F: Fn(&[T]) -> Vec<B>>(kernel: F) -> bool {
    forall|chunk: &[T], bins: Vec<B>| #[trigger]
        call_ensures(kernel, (chunk,), bins) ==> bins@.len() == chunk@.len()
}

/// The chunk that a transform of `samples` reads: the last complete chunk
/// of `FFT_CHUNK_SIZE` samples, counted from the front.
pub fn last_chunk<T>(samples: &[T]) -> (result: Result<&[T], TransformError>)
    ensures
        match result {
            Ok(chunk) => samples@.len() >= FFT_CHUNK_SIZE && chunk@ == last_full_chunk(samples@),
            Err(error) => samples@.len() < FFT_CHUNK_SIZE && error
                == TransformError::InsufficientData,
        },
{
    let len = samples.len();
    if len < FFT_CHUNK_SIZE {
        return Err(TransformError::InsufficientData);
    }
    let end = (len / FFT_CHUNK_SIZE) * FFT_CHUNK_SIZE;
    Ok(&samples[end - FFT_CHUNK_SIZE..end])
}

/// Keeps the half of a full transform's bins that the policy names.
pub fn retain_half<B>(bins: Vec<B>, half: Half) -> (result: Result<Vec<B>, TransformError>)
    ensures
        spectrum_view(result) == spectrum_of_bins(bins@, half),
{
    if bins.len() != FFT_CHUNK_SIZE {
        return Err(TransformError::UnexpectedBinCount);
    }
    let mut bins = bins;
    match half {
        Half::Lower => {
            bins.truncate(FFT_CHUNK_SIZE / 2);
            Ok(bins)
        },
        Half::Upper => {
            let upper = bins.split_off(FFT_CHUNK_SIZE / 2);
            Ok(upper)
        },
    }
}

/// Transforms the last complete chunk of `stream_data` with `kernel` and
/// keeps the half of the bins that the policy names.
///
/// The kernel is called once, and only where there is a full chunk to give
/// it. All that is asked of the kernel is that it can be called on that
/// chunk. With a kernel that returns one bin for each sample, every input of
/// a full chunk or more gives a spectrum of `FFT_CHUNK_SIZE / 2` bins.
pub fn process_stream_data<T, B, F>(stream_data: &[T], half: Half, kernel: F) -> (result: Result<
    Vec<B>,
    TransformError,
>) where F: Fn(&[T]) -> Vec<B>
    requires
        stream_data@.len() >= FFT_CHUNK_SIZE ==> forall|chunk: &[T]|
            chunk@ == last_full_chunk(stream_data@) ==> #[trigger] call_requires(kernel, (chunk,)),
    ensures
        is_spectrum_of(kernel, stream_data@, half, spectrum_view(result)),
        result matches Ok(spectrum) ==> spectrum@.len() == FFT_CHUNK_SIZE / 2,
        result == Err::<Vec<B>, TransformError>(TransformError::InsufficientData)
            <==> stream_data@.len() < FFT_CHUNK_SIZE,
        kernel_keeps_count(kernel) && stream_data@.len() >= FFT_CHUNK_SIZE ==> result is Ok,
{
    match last_chunk(stream_data) {
        Err(error) => Err(error),
        Ok(chunk) => {
            let bins = kernel(chunk);
            retain_half(bins, half)
        },
    }
}

/// With a kernel that returns one bin for each sample, the outcome for
/// every input of a full chunk or more is a spectrum of half a chunk of
/// bins, whatever the length of the input.
pub proof fn lemma_full_chunk_gives_spectrum<T, B, F: Fn(&[T]) -> Vec<B>>(
    kernel: F,
    stream_data: Seq<T>,
    half: Half,
    outcome: Result<Seq<B>, TransformError>,
)
    requires
        kernel_keeps_count(kernel),
        stream_data.len() >= FFT_CHUNK_SIZE,
        is_spectrum_of(kernel, stream_data, half, outcome),
    ensures
        outcome is Ok,
        outcome->Ok_0.len() == FFT_CHUNK_SIZE / 2,
{
}

/// A spectrum has half as many bins as a chunk has samples.
pub proof fn lemma_spectrum_length<T, B, F: Fn(&[T]) -> Vec<B>>(
    kernel: F,
    stream_data: Seq<T>,
    half: Half,
    spectrum: Seq<B>,
)
    requires
        is_spectrum_of(kernel, stream_data, half, Ok(spectrum)),
    ensures
        spectrum.len() == FFT_CHUNK_SIZE / 2,
        stream_data.len() >= FFT_CHUNK_SIZE,
{
}

/// The transform has no state of its own and reads nothing but the last
/// complete chunk: with a kernel whose result is a function of its input,
/// two inputs of the same length that agree on that chunk give the same
/// outcome, whatever else they hold.
pub proof fn lemma_outcome_depends_on_chunk<T, B, F: Fn(&[T]) -> Vec<B>>(
    kernel: F,
    first: Seq<T>,
    second: Seq<T>,
    half: Half,
    first_outcome: Result<Seq<B>, TransformError>,
    second_outcome: Result<Seq<B>, TransformError>,
)
    requires
        kernel_is_function(kernel),
        first.len() == second.len(),
        last_full_chunk(first) == last_full_chunk(second),
        is_spectrum_of(kernel, first, half, first_outcome),
        is_spectrum_of(kernel, second, half, second_outcome),
    ensures
        first_outcome == second_outcome,
{
    if first.len() >= FFT_CHUNK_SIZE {
        let (a, x) = choose|a: &[T], x: Vec<B>|
            a@ == last_full_chunk(first) && #[trigger] call_ensures(kernel, (a,), x)
                && first_outcome == spectrum_of_bins(x@, half);
        let (b, y) = choose|b: &[T], y: Vec<B>|
            b@ == last_full_chunk(second) && #[trigger] call_ensures(kernel, (b,), y)
                && second_outcome == spectrum_of_bins(y@, half);
        assert(x@ == y@);
    }
}

/// Transforming the same samples twice gives the same outcome, with a kernel
/// whose result is a function of its input.
pub proof fn lemma_same_input_same_outcome<T, B, F: Fn(&[T]) -> Vec<B>>(
    kernel: F,
    stream_data: Seq<T>,
    half: Half,
    first_outcome: Result<Seq<B>, TransformError>,
    second_outcome: Result<Seq<B>, TransformError>,
)
    requires
        kernel_is_function(kernel),
        is_spectrum_of(kernel, stream_data, half, first_outcome),
        is_spectrum_of(kernel, stream_data, half, second_outcome),
    ensures
        first_outcome == second_outcome,
{
    lemma_outcome_depends_on_chunk(
        kernel,
        stream_data,
        stream_data,
        half,
        first_outcome,
        second_outcome,
    );
}

/// Where the input is a whole number of chunks, the chunk that is read is
/// its last `FFT_CHUNK_SIZE` samples.
pub proof fn lemma_chunk_is_tail<T>(samples: Seq<T>)
    requires
        samples.len() >= FFT_CHUNK_SIZE,
        samples.len() % FFT_CHUNK_SIZE as nat == 0,
    ensures
        last_full_chunk(samples) == samples.subrange(
            samples.len() - FFT_CHUNK_SIZE,
            samples.len() as int,
        ),
{
}

/// Of an input that is a whole number of chunks, only the last
/// `FFT_CHUNK_SIZE` samples matter: two such inputs of one length that agree
/// on them give the same outcome, whatever stands before.
pub proof fn lemma_only_tail_matters<T, B, F: Fn(&[T]) -> Vec<B>>(
    kernel: F,
    first: Seq<T>,
    second: Seq<T>,
    half: Half,
    first_outcome: Result<Seq<B>, TransformError>,
    second_outcome: Result<Seq<B>, TransformError>,
)
    requires
        kernel_is_function(kernel),
        first.len() == second.len(),
        first.len() >= FFT_CHUNK_SIZE,
        first.len() % FFT_CHUNK_SIZE as nat == 0,
        first.subrange(first.len() - FFT_CHUNK_SIZE, first.len() as int) == second.subrange(
            second.len() - FFT_CHUNK_SIZE,
            second.len() as int,
        ),
        is_spectrum_of(kernel, first, half, first_outcome),
        is_spectrum_of(kernel, second, half, second_outcome),
    ensures
        first_outcome == second_outcome,
{
    lemma_chunk_is_tail(first);
    lemma_chunk_is_tail(second);
    lemma_outcome_depends_on_chunk(kernel, first, second, half, first_outcome, second_outcome);
}

/// Whether `index` is the bin that stands out: none is higher, and none
/// after it is as high.
pub open spec fn is_dominant(levels: Seq<u32>, index: int) -> bool {
    &&& 0 <= index < levels.len()
    &&& forall|j: int| 0 <= j < levels.len() ==> levels[j] <= levels[index]
    &&& forall|j: int| index < j < levels.len() ==> levels[j] < levels[index]
}

/// The index of the highest level; of several equally high ones, the last.
/// There is none where there are no levels.
///
/// The levels must keep the order of what they stand for: where they are made
/// from real numbers, a smaller number must have the lower level, fractions
/// and negative numbers included. `dominant_component` makes such levels from
/// the bits of the numbers themselves.
pub fn dominant_bin(levels: &[u32]) -> (result: Option<usize>)
    ensures
        match result {
            Some(index) => is_dominant(levels@, index as int),
            None => levels@.len() == 0,
        },
{
    if levels.len() == 0 {
        return None;
    }
    let mut best: usize = 0;
    let mut i: usize = 1;
    while i < levels.len()
        invariant
            1 <= i <= levels@.len(),
            is_dominant(levels@.subrange(0, i as int), best as int),
        decreases levels@.len() - i,
    {
        if levels[i] >= levels[best] {
            best = i;
        }
        i = i + 1;
    }
    assert(levels@.subrange(0, i as int) == levels@);
    Some(best)
}

/// The levels of real components that are given by their bits.
pub open spec fn component_levels(components: Seq<u32>) -> Seq<u32> {
    Seq::new(components.len(), |j: int| level_of(components[j]))
}

/// Whether `index` is the bin whose real component is the largest: no
/// number among the components is larger, and none after it is as large.
/// Components that stand for no number do not count.
pub open spec fn is_largest_component(components: Seq<u32>, index: int) -> bool {
    &&& 0 <= index < components.len()
    &&& forall|j: int|
        0 <= j < components.len() && is_number(#[trigger] components[j]) ==> is_number(
            components[index],
        ) && scaled_value(components[j]) <= scaled_value(components[index])
    &&& forall|j: int|
        index < j < components.len() && is_number(#[trigger] components[j]) ==> scaled_value(
            components[j],
        ) < scaled_value(components[index])
}

/// The bin of the highest level is the bin of the largest real component.
pub proof fn lemma_dominant_level_is_largest(components: Seq<u32>, index: int)
    requires
        is_dominant(component_levels(components), index),
    ensures
        is_largest_component(components, index),
{
    let levels = component_levels(components);
    assert forall|j: int| 0 <= j < components.len() && is_number(#[trigger] components[j]) implies {
        &&& is_number(components[index])
        &&& scaled_value(components[j]) <= scaled_value(components[index])
        &&& index < j ==> scaled_value(components[j]) < scaled_value(components[index])
    } by {
        assert(levels[j] <= levels[index]);
        assert(index < j ==> levels[j] < levels[index]);
        lemma_level_keeps_order(components[j], components[index]);
    }
}

/// The index of the bin with the largest real component, where the real
/// components are given by their bits; of several equally large ones, the
/// last. There is none where there are no bins.
pub fn dominant_component(components: &[u32]) -> (result: Option<usize>)
    ensures
        match result {
            Some(index) => is_dominant(component_levels(components@), index as int)
                && is_largest_component(components@, index as int),
            None => components@.len() == 0,
        },
{
    if components.len() == 0 {
        return None;
    }
    let mut best: usize = 0;
    let mut best_level: u32 = component_level(components[0]);
    let mut i: usize = 1;
    while i < components.len()
        invariant
            1 <= i <= components@.len(),
            best < i,
            best_level == level_of(components@[best as int]),
            forall|j: int| 0 <= j < i ==> level_of(#[trigger] components@[j]) <= best_level,
            forall|j: int| best < j < i ==> level_of(#[trigger] components@[j]) < best_level,
        decreases components@.len() - i,
    {
        let level = component_level(components[i]);
        if level >= best_level {
            best = i;
            best_level = level;
        }
        i = i + 1;
    }
    proof {
        lemma_dominant_level_is_largest(components@, best as int);
    }
    Some(best)
}

/// The frequency, in hertz, that a bin index stands for at a sample rate:
/// the index times the sample rate, divided by the chunk size, in whole
/// hertz. The product is formed first, so that only the last step rounds down.
pub open spec fn bin_hertz(bin_index: nat, sample_rate: nat) -> nat {
    bin_index * sample_rate / FFT_CHUNK_SIZE as nat
}

/// The estimated frequency of a bin, or nothing where it does not fit the
/// machine's word.
pub fn bin_frequency(bin_index: usize, sample_rate: usize) -> (result: Option<usize>)
    ensures
        match result {
            Some(hertz) => hertz == bin_hertz(bin_index as nat, sample_rate as nat),
            None => bin_hertz(bin_index as nat, sample_rate as nat) > usize::MAX,
        },
{
    assert(bin_index as int * sample_rate as int <= 0xffff_ffff_ffff_ffff * 0xffff_ffff_ffff_ffff)
        by (nonlinear_arith)
        requires
            0 <= bin_index <= 0xffff_ffff_ffff_ffff,
            0 <= sample_rate <= 0xffff_ffff_ffff_ffff,
    ;
    let product: u128 = bin_index as u128 * sample_rate as u128;
    let hertz: u128 = product / FFT_CHUNK_SIZE as u128;
    if hertz <= usize::MAX as u128 {
        Some(hertz as usize)
    } else {
        None
    }
}

} // verus!
