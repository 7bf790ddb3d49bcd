//! Samples, the dataset that loads them, and the batches made of them.

use crate::decode::{decode_luma, decoded_luma};
use crate::filename::{is_dataset_file, is_dataset_name, label_of, parse_label};
use crate::tensor::{
    divided, fits, has_room, label_tensor, level_tensor, scale_down, shape1, shape3,
    tensor_of_labels, tensor_of_levels, Tensor,
};
use crate::{IMG_HEIGHT, IMG_PIXELS, IMG_WIDTH};
use burn::backend::ndarray::NdArrayDevice;
use vstd::prelude::*;

verus! {

/// The gray level of a white pixel. A pixel of level `v` has the intensity
/// `v / PIXEL_SCALE`.
pub const PIXEL_SCALE: u8 = 255;

/// One image with its label.
///
/// The image is held as the gray levels of its pixels, row by row. The
/// intensity of a pixel, a number between 0 and 1, is its level over
/// [`PIXEL_SCALE`]; the division is made when a batch is turned into a tensor.
#[derive(Debug, Clone, Copy)]
pub struct ImageItem {
    pub image: [u8; IMG_PIXELS],
    pub label: i32,
}

/// What an [`ImageItem`] stands for.
pub struct Sample {
    pub levels: Seq<u8>,
    pub label: int,
}

impl View for ImageItem {
    type V = Sample;

    open spec fn view(&self) -> Sample {
        Sample { levels: self.image@, label: self.label as int }
    }
}

impl ImageItem {
    /// Makes a sample of the gray levels of an image and its label.
    pub fn from(image_raw: Vec<u8>, label: i32) -> (item: Self)
        requires
            image_raw.len() == IMG_PIXELS,
        ensures
            item@ == (Sample { levels: image_raw@, label: label as int }),
    {
        let mut image = [0u8; IMG_PIXELS];
        let mut i: usize = 0;
        while i < IMG_PIXELS
            invariant
                i <= IMG_PIXELS == image_raw.len(),
                forall|j: int| 0 <= j < i ==> image@[j] == image_raw@[j],
            decreases IMG_PIXELS - i,
        {
            image[i] = image_raw[i];
            i += 1;
        }
        assert(image@ =~= image_raw@);
        ImageItem { image, label }
    }
}

/// Two samples that stand for the same levels and label are the same sample.
pub proof fn lemma_sample_determines_item(a: ImageItem, b: ImageItem)
    requires
        a@ == b@,
    ensures
        a == b,
{
    assert(a.image =~= b.image);
}

/// Every sample has [`IMG_PIXELS`] levels, and the intensity of each pixel,
/// its level over [`PIXEL_SCALE`], lies between 0 and 1.
pub proof fn lemma_intensity_in_unit_interval(item: ImageItem, i: int)
    requires
        0 <= i < IMG_PIXELS,
    ensures
        item@.levels.len() == IMG_PIXELS,
        0 <= item@.levels[i] <= PIXEL_SCALE,
{
}

/// A file of the dataset directory: its name and what it holds.
#[derive(Debug)]
pub struct SourceFile {
    pub name: String,
    pub content: Vec<u8>,
}

/// Why a dataset could not be loaded. Each variant names the file at fault.
#[derive(Debug)]
pub enum LoadError {
    /// The file is no image that can be decoded.
    Decode { file: String, cause: image::ImageError },
    /// The name of the file carries no label.
    Label { file: String },
    /// The image has `found` pixels where `expected` are needed.
    PixelCount { file: String, expected: usize, found: usize },
}

/// What a [`LoadError`] stands for.
pub enum LoadFailure {
    Decode { file: Seq<char> },
    Label { file: Seq<char> },
    PixelCount { file: Seq<char>, expected: nat, found: nat },
}

impl View for LoadError {
    type V = LoadFailure;

    open spec fn view(&self) -> LoadFailure {
        match *self {
            LoadError::Decode { file, cause } => LoadFailure::Decode { file: file@ },
            LoadError::Label { file } => LoadFailure::Label { file: file@ },
            LoadError::PixelCount { file, expected, found } => LoadFailure::PixelCount {
                file: file@,
                expected: expected as nat,
                found: found as nat,
            },
        }
    }
}

/// The sample that a decoded file gives: its label is read from the name
/// first, then its pixels are counted.
pub open spec fn sample_of(name: Seq<char>, levels: Seq<u8>) -> Result<Sample, LoadFailure> {
    match label_of(name) {
        None => Err(LoadFailure::Label { file: name }),
        Some(label) => if levels.len() == IMG_PIXELS {
            Ok(Sample { levels, label })
        } else {
            Err(LoadFailure::PixelCount { file: name, expected: IMG_PIXELS as nat, found: levels.len() })
        },
    }
}

/// What one file of the directory contributes to the dataset.
pub enum Outcome {
    /// The file does not belong to the dataset.
    Skipped,
    /// The file gives this sample.
    Loaded(Sample),
    /// The file belongs to the dataset and cannot be used.
    Failed(LoadFailure),
}

/// What a file of this name and content contributes.
pub open spec fn outcome_of(name: Seq<char>, content: Seq<u8>) -> Outcome {
    if !is_dataset_name(name) {
        Outcome::Skipped
    } else {
        match decoded_luma(name, content) {
            None => Outcome::Failed(LoadFailure::Decode { file: name }),
            Some(levels) => match sample_of(name, levels) {
                Ok(sample) => Outcome::Loaded(sample),
                Err(failure) => Outcome::Failed(failure),
            },
        }
    }
}

/// The samples that a list of files gives, in the order of the files; or the
/// failure of the first file that cannot be used.
pub open spec fn loaded(files: Seq<SourceFile>) -> Result<Seq<Sample>, LoadFailure>
    decreases files.len(),
{
    if files.len() == 0 {
        Ok(Seq::empty())
    } else {
        match loaded(files.drop_last()) {
            Err(failure) => Err(failure),
            Ok(samples) => match outcome_of(files.last().name@, files.last().content@) {
                Outcome::Skipped => Ok(samples),
                Outcome::Loaded(sample) => Ok(samples.push(sample)),
                Outcome::Failed(failure) => Err(failure),
            },
        }
    }
}

/// What a list of samples stands for.
pub open spec fn samples_of(items: Seq<ImageItem>) -> Seq<Sample> {
    items.map_values(|item: ImageItem| item@)
}

/// An image of any number of pixels but [`IMG_PIXELS`] gives no sample: it
/// is neither cut nor filled up.
pub proof fn lemma_pixel_count_is_checked(name: Seq<char>, levels: Seq<u8>)
    requires
        levels.len() != IMG_PIXELS,
    ensures
        sample_of(name, levels) is Err,
        label_of(name) is Some ==> sample_of(name, levels) == Err::<Sample, LoadFailure>(
            LoadFailure::PixelCount {
                file: name,
                expected: IMG_PIXELS as nat,
                found: levels.len(),
            },
        ),
{
}

/// A sample that a decoded file gives holds exactly the levels of the file,
/// in their order, and the label of its name.
pub proof fn lemma_sample_keeps_levels(name: Seq<char>, levels: Seq<u8>)
    requires
        sample_of(name, levels) is Ok,
    ensures
        levels.len() == IMG_PIXELS,
        sample_of(name, levels)->Ok_0.levels == levels,
        label_of(name) == Some(sample_of(name, levels)->Ok_0.label),
{
}

/// A failure among the first files of a list is the failure of the list.
pub proof fn lemma_failure_is_final(files: Seq<SourceFile>, k: int)
    requires
        0 <= k <= files.len(),
        loaded(files.take(k)) is Err,
    ensures
        loaded(files) == loaded(files.take(k)),
    decreases files.len() - k,
{
    if k < files.len() {
        assert(files.take(k + 1).drop_last() =~= files.take(k));
        lemma_failure_is_final(files, k + 1);
    } else {
        assert(files.take(k) =~= files);
    }
}

/// Loading goes file by file: what two lists give one after the other is
/// what the first gives followed by what the second gives, and the first
/// failure of the two is the failure of both.
pub proof fn lemma_loaded_concat(first: Seq<SourceFile>, second: Seq<SourceFile>)
    ensures
        loaded(first + second) == match loaded(first) {
            Err(failure) => Err::<Seq<Sample>, LoadFailure>(failure),
            Ok(head) => match loaded(second) {
                Err(failure) => Err(failure),
                Ok(tail) => Ok(head + tail),
            },
        },
    decreases second.len(),
{
    if second.len() == 0 {
        assert(first + second =~= first);
        if let Ok(head) = loaded(first) {
            assert(head + Seq::<Sample>::empty() =~= head);
        }
    } else {
        assert((first + second).drop_last() =~= first + second.drop_last());
        assert((first + second).last() == second.last());
        lemma_loaded_concat(first, second.drop_last());
        if let Ok(head) = loaded(first) {
            if let Ok(tail) = loaded(second.drop_last()) {
                if let Outcome::Loaded(sample) = outcome_of(
                    second.last().name@,
                    second.last().content@,
                ) {
                    assert(head + tail.push(sample) =~= (head + tail).push(sample));
                }
            }
        }
    }
}

/// What a list of one file gives.
pub proof fn lemma_loaded_single(file: SourceFile)
    ensures
        loaded(seq![file]) == match outcome_of(file.name@, file.content@) {
            Outcome::Skipped => Ok::<Seq<Sample>, LoadFailure>(Seq::empty()),
            Outcome::Loaded(sample) => Ok(seq![sample]),
            Outcome::Failed(failure) => Err(failure),
        },
{
    let files = seq![file];
    assert(files.drop_last() =~= Seq::<SourceFile>::empty());
    assert(loaded(files.drop_last()) == Ok::<Seq<Sample>, LoadFailure>(Seq::empty()));
    if let Outcome::Loaded(sample) = outcome_of(file.name@, file.content@) {
        assert(Seq::<Sample>::empty().push(sample) =~= seq![sample]);
    }
}

/// A file whose name does not contain the marker changes nothing, wherever
/// it stands among the others.
pub proof fn lemma_other_files_are_ignored(files: Seq<SourceFile>, at: int, other: SourceFile)
    requires
        0 <= at <= files.len(),
        !is_dataset_name(other.name@),
    ensures
        loaded(files.insert(at, other)) == loaded(files),
{
    let head = files.take(at);
    let tail = files.skip(at);
    assert(files =~= head + tail);
    assert(files.insert(at, other) =~= (head + seq![other]) + tail);
    lemma_loaded_single(other);
    lemma_loaded_concat(head, seq![other]);
    lemma_loaded_concat(head + seq![other], tail);
    lemma_loaded_concat(head, tail);
    if let Ok(samples) = loaded(head) {
        assert(samples + Seq::<Sample>::empty() =~= samples);
    }
}

/// A dataset file that cannot be used makes the whole load fail: it is never
/// left out in silence.
pub proof fn lemma_unusable_file_fails(files: Seq<SourceFile>, k: int)
    requires
        0 <= k < files.len(),
        outcome_of(files[k].name@, files[k].content@) is Failed,
    ensures
        loaded(files) is Err,
{
    let head = files.take(k);
    let tail = files.skip(k + 1);
    assert(files =~= (head + seq![files[k]]) + tail);
    lemma_loaded_single(files[k]);
    lemma_loaded_concat(head, seq![files[k]]);
    lemma_loaded_concat(head + seq![files[k]], tail);
}

/// A dataset file whose content does not decode makes the whole load fail.
pub proof fn lemma_undecodable_file_fails(files: Seq<SourceFile>, k: int)
    requires
        0 <= k < files.len(),
        is_dataset_name(files[k].name@),
        decoded_luma(files[k].name@, files[k].content@) is None,
    ensures
        loaded(files) is Err,
{
    lemma_unusable_file_fails(files, k);
}

/// A dataset file whose image has any number of pixels but [`IMG_PIXELS`]
/// makes the whole load fail.
pub proof fn lemma_wrong_pixel_count_fails(files: Seq<SourceFile>, k: int)
    requires
        0 <= k < files.len(),
        is_dataset_name(files[k].name@),
        decoded_luma(files[k].name@, files[k].content@) matches Some(levels) && levels.len()
            != IMG_PIXELS,
    ensures
        loaded(files) is Err,
{
    lemma_unusable_file_fails(files, k);
}

/// Where a load succeeds, it gives one sample for each file whose name
/// contains the marker, and none for the others.
pub proof fn lemma_loaded_count(files: Seq<SourceFile>)
    requires
        loaded(files) is Ok,
    ensures
        loaded(files)->Ok_0.len() == files.filter(
            |file: SourceFile| is_dataset_name(file.name@),
        ).len(),
    decreases files.len(),
{
    let wanted = |file: SourceFile| is_dataset_name(file.name@);
    if files.len() == 0 {
        assert(files.filter(wanted) =~= Seq::<SourceFile>::empty()) by {
            reveal(Seq::filter);
        }
    } else {
        lemma_loaded_count(files.drop_last());
        assert(files.filter(wanted) == if wanted(files.last()) {
            files.drop_last().filter(wanted).push(files.last())
        } else {
            files.drop_last().filter(wanted)
        }) by {
            reveal(Seq::filter);
        }
    }
}

impl ImageItem {
    /// Makes the sample of a decoded dataset file: reads the label from the
    /// file's name, then checks the number of pixels.
    pub fn from_file(name: &str, levels: Vec<u8>) -> (made: Result<Self, LoadError>)
        ensures
            match made {
                Ok(item) => sample_of(name@, levels@) == Ok::<Sample, LoadFailure>(item@),
                Err(error) => sample_of(name@, levels@) == Err::<Sample, LoadFailure>(error@),
            },
    {
        match parse_label(name) {
            None => Err(LoadError::Label { file: name.to_owned() }),
            Some(label) => {
                if levels.len() == IMG_PIXELS {
                    Ok(ImageItem::from(levels, label))
                } else {
                    Err(
                        LoadError::PixelCount {
                            file: name.to_owned(),
                            expected: IMG_PIXELS,
                            found: levels.len(),
                        },
                    )
                }
            },
        }
    }
}

/// The samples of a dataset directory, in the order of its files.
pub struct ImageData {
    data: Vec<ImageItem>,
}

impl View for ImageData {
    type V = Seq<ImageItem>;

    closed spec fn view(&self) -> Seq<ImageItem> {
        self.data@
    }
}

impl ImageData {
    /// Creates a new train dataset of the files of the dataset directory.
    pub fn train(files: &Vec<SourceFile>) -> (made: Result<Self, LoadError>)
        ensures
            match made {
                Ok(dataset) => loaded(files@) == Ok::<Seq<Sample>, LoadFailure>(
                    samples_of(dataset@),
                ),
                Err(error) => loaded(files@) == Err::<Seq<Sample>, LoadFailure>(error@),
            },
    {
        match Self::read(files) {
            Ok(data) => Ok(ImageData { data }),
            Err(error) => Err(error),
        }
    }

    /// Creates a new test dataset of the files of the dataset directory. It
    /// holds the same samples as the train dataset: the files are not split.
    pub fn test(files: &Vec<SourceFile>) -> (made: Result<Self, LoadError>)
        ensures
            match made {
                Ok(dataset) => loaded(files@) == Ok::<Seq<Sample>, LoadFailure>(
                    samples_of(dataset@),
                ),
                Err(error) => loaded(files@) == Err::<Seq<Sample>, LoadFailure>(error@),
            },
    {
        match Self::read(files) {
            Ok(data) => Ok(ImageData { data }),
            Err(error) => Err(error),
        }
    }

    /// Loads the samples of the files whose name marks them as part of the
    /// dataset, and fails on the first of them that cannot be used.
    pub fn read(files: &Vec<SourceFile>) -> (made: Result<Vec<ImageItem>, LoadError>)
        ensures
            match made {
                Ok(data) => loaded(files@) == Ok::<Seq<Sample>, LoadFailure>(samples_of(data@)),
                Err(error) => loaded(files@) == Err::<Seq<Sample>, LoadFailure>(error@),
            },
    {
        let mut data: Vec<ImageItem> = Vec::new();
        let mut i: usize = 0;
        assert(files@.take(0) =~= Seq::<SourceFile>::empty());
        assert(samples_of(data@) =~= Seq::<Sample>::empty());
        while i < files.len()
            invariant
                i <= files.len(),
                loaded(files@.take(i as int)) == Ok::<Seq<Sample>, LoadFailure>(
                    samples_of(data@),
                ),
            decreases files.len() - i,
        {
            let file = &files[i];
            let ghost before = samples_of(data@);
            proof {
                assert(files@.take(i + 1).drop_last() =~= files@.take(i as int));
                assert(files@.take(i + 1).last() == files@[i as int]);
            }
            if is_dataset_file(file.name.as_str()) {
                let item = match decode_luma(file.name.as_str(), file.content.as_slice()) {
                    Err(cause) => Err(LoadError::Decode { file: file.name.clone(), cause }),
                    Ok(levels) => ImageItem::from_file(file.name.as_str(), levels),
                };
                match item {
                    Err(error) => {
                        proof {
                            lemma_failure_is_final(files@, i + 1);
                        }
                        return Err(error);
                    },
                    Ok(item) => {
                        data.push(item);
                        assert(samples_of(data@) =~= before.push(item@));
                    },
                }
            }
            i += 1;
        }
        assert(files@.take(i as int) =~= files@);
        Ok(data)
    }

    /// The sample at `index`, or nothing where the dataset is shorter.
    pub fn get(&self, index: usize) -> (item: Option<ImageItem>)
        ensures
            item == if index < self@.len() {
                Some(self@[index as int])
            } else {
                None
            },
    {
        if index < self.data.len() {
            Some(self.data[index])
        } else {
            None
        }
    }

    /// The number of samples.
    pub fn len(&self) -> (count: usize)
        ensures
            count == self@.len(),
    {
        self.data.len()
    }
}

/// The labels of a list of samples, in the order of the samples.
pub open spec fn stacked_labels(samples: Seq<ImageItem>) -> Seq<i32> {
    Seq::new(samples.len(), |i: int| samples[i].label)
}

/// The gray levels of a list of samples, one image after the other in the
/// order of the samples, each image as the sample holds it.
pub open spec fn stacked_levels(samples: Seq<ImageItem>) -> Seq<u8> {
    Seq::new(
        samples.len() * IMG_PIXELS as nat,
        |k: int| samples[k / IMG_PIXELS as int].image@[k % IMG_PIXELS as int],
    )
}

/// The shape of the images of a batch of `count` samples.
pub open spec fn batch_shape(count: nat) -> Seq<nat> {
    seq![count, IMG_WIDTH as nat, IMG_HEIGHT as nat]
}

/// In what is stacked, sample `i` keeps place `i`: its label stands at `i`,
/// and level `j` of its image at `i * IMG_PIXELS + j`.
pub proof fn lemma_stacked_in_order(samples: Seq<ImageItem>, i: int, j: int)
    requires
        0 <= i < samples.len(),
        0 <= j < IMG_PIXELS,
    ensures
        stacked_labels(samples).len() == samples.len(),
        stacked_labels(samples)[i] == samples[i].label,
        stacked_levels(samples).len() == samples.len() * IMG_PIXELS,
        0 <= i * IMG_PIXELS + j < stacked_levels(samples).len(),
        stacked_levels(samples)[i * IMG_PIXELS + j] == samples[i].image@[j],
{
    let k = i * IMG_PIXELS + j;
    assert(k / IMG_PIXELS as int == i && k % IMG_PIXELS as int == j);
}

/// Collects the labels of the samples, in their order.
pub fn stack_labels(samples: &Vec<ImageItem>) -> (labels: Vec<i32>)
    ensures
        labels@ == stacked_labels(samples@),
{
    let mut labels: Vec<i32> = Vec::new();
    let mut i: usize = 0;
    while i < samples.len()
        invariant
            i <= samples.len(),
            labels.len() == i,
            forall|k: int| 0 <= k < i ==> labels@[k] == samples@[k].label,
        decreases samples.len() - i,
    {
        labels.push(samples[i].label);
        i += 1;
    }
    assert(labels@ =~= stacked_labels(samples@));
    labels
}

/// Collects the gray levels of the samples, one image after the other in the
/// order of the samples.
pub fn stack_levels(samples: &Vec<ImageItem>) -> (levels: Vec<u8>)
    requires
        samples.len() * IMG_PIXELS <= usize::MAX,
    ensures
        levels@ == stacked_levels(samples@),
{
    let mut levels: Vec<u8> = Vec::new();
    let mut i: usize = 0;
    while i < samples.len()
        invariant
            i <= samples.len(),
            samples.len() * IMG_PIXELS <= usize::MAX,
            levels.len() == i * IMG_PIXELS,
            forall|k: int|
                0 <= k < levels.len() ==> levels@[k] == samples@[k / IMG_PIXELS as int].image@[k
                    % IMG_PIXELS as int],
        decreases samples.len() - i,
    {
        let item = &samples[i];
        let mut j: usize = 0;
        while j < IMG_PIXELS
            invariant
                i < samples.len(),
                samples.len() * IMG_PIXELS <= usize::MAX,
                j <= IMG_PIXELS,
                *item == samples@[i as int],
                levels.len() == i * IMG_PIXELS + j,
                forall|k: int|
                    0 <= k < levels.len() ==> levels@[k] == samples@[k
                        / IMG_PIXELS as int].image@[k % IMG_PIXELS as int],
            decreases IMG_PIXELS - j,
        {
            levels.push(item.image[j]);
            j += 1;
        }
        i += 1;
    }
    assert(levels@ =~= stacked_levels(samples@));
    levels
}

/// Stacks samples into a batch.
#[derive(Clone, Default)]
pub struct MnistBatcher {}

/// The samples of one step: their images, of shape
/// `[batch_size, IMG_WIDTH, IMG_HEIGHT]`, and their labels, of shape
/// `[batch_size]`.
#[derive(Debug, Clone)]
pub struct MnistBatch {
    pub images: Tensor<3>,
    pub targets: Tensor<1>,
}

/// The images of a batch of these samples: the tensor of their gray levels,
/// stacked in the order of the samples, each divided by [`PIXEL_SCALE`].
pub open spec fn batch_images(samples: Seq<ImageItem>) -> Tensor<3> {
    divided(level_tensor(stacked_levels(samples), batch_shape(samples.len())), PIXEL_SCALE)
}

/// The targets of a batch of these samples: the tensor of their labels, in
/// the order of the samples.
pub open spec fn batch_targets(samples: Seq<ImageItem>) -> Tensor<1> {
    label_tensor(stacked_labels(samples))
}

impl MnistBatcher {
    /// Stacks the samples into a batch, in their order. The images hold the
    /// intensities of the pixels, which are their gray levels over
    /// [`PIXEL_SCALE`]; the targets hold the labels.
    ///
    /// There is at least one sample, and the images fit the machine.
    pub fn batch(&self, samples: Vec<ImageItem>, device: &NdArrayDevice) -> (batch: MnistBatch)
        requires
            samples.len() >= 1,
            fits(samples.len() * IMG_PIXELS),
        ensures
            batch.images == batch_images(samples@),
            batch.targets == batch_targets(samples@),
            shape3(batch.images) == batch_shape(samples@.len()),
            shape1(batch.targets) == seq![samples@.len()],
    {
        let count = samples.len();
        let labels = stack_labels(&samples);
        let levels = stack_levels(&samples);
        assert(count * IMG_PIXELS == count * IMG_WIDTH * IMG_HEIGHT) by (nonlinear_arith)
            requires
                IMG_PIXELS == IMG_WIDTH * IMG_HEIGHT,
        ;
        assert(fits(count as int)) by (nonlinear_arith)
            requires
                fits(count * IMG_PIXELS),
                IMG_PIXELS == 4500,
                count >= 0,
        ;
        let targets = tensor_of_labels(labels, device);
        let raw = tensor_of_levels(levels, [count, IMG_WIDTH, IMG_HEIGHT], device);
        let images = scale_down(raw, PIXEL_SCALE);
        MnistBatch { images, targets }
    }

    /// Stacks the samples into a batch as [`MnistBatcher::batch`] does, or
    /// gives nothing where there is no sample or the images do not fit the
    /// machine.
    pub fn try_batch(&self, samples: Vec<ImageItem>, device: &NdArrayDevice) -> (made: Option<
        MnistBatch,
    >)
        ensures
            made is Some <==> samples@.len() >= 1 && fits(samples@.len() * IMG_PIXELS),
            made matches Some(batch) ==> {
                &&& batch.images == batch_images(samples@)
                &&& batch.targets == batch_targets(samples@)
                &&& shape3(batch.images) == batch_shape(samples@.len())
                &&& shape1(batch.targets) == seq![samples@.len()]
            },
    {
        match samples.len().checked_mul(IMG_PIXELS) {
            Some(count) => {
                if samples.len() >= 1 && has_room(count) {
                    Some(self.batch(samples, device))
                } else {
                    None
                }
            },
            None => None,
        }
    }
}

/// Whatever the samples, their batch keeps their number and their order:
/// the images have the shape `[samples.len(), IMG_WIDTH, IMG_HEIGHT]` and are
/// made of the levels of sample `i` at the places from `i * IMG_PIXELS` on,
/// the targets are made of the label of sample `i` at place `i`.
pub proof fn lemma_batch_keeps_order(samples: Seq<ImageItem>, i: int, j: int)
    requires
        0 <= i < samples.len(),
        0 <= j < IMG_PIXELS,
    ensures
        batch_shape(samples.len()) == seq![samples.len(), 90nat, 50nat],
        batch_images(samples) == divided(
            level_tensor(stacked_levels(samples), batch_shape(samples.len())),
            PIXEL_SCALE,
        ),
        batch_targets(samples) == label_tensor(stacked_labels(samples)),
        stacked_labels(samples).len() == samples.len(),
        stacked_labels(samples)[i] == samples[i].label,
        stacked_levels(samples).len() == samples.len() * IMG_PIXELS,
        stacked_levels(samples)[i * IMG_PIXELS + j] == samples[i].image@[j],
{
    lemma_stacked_in_order(samples, i, j);
}

} // verus!
