//! The computing core of the extraction pipeline.
//!
//! The run proceeds in two stages. First the destination tree is
//! initialized: one directory per label, all of which must exist before
//! any image is written; `setup_dirs` yields those directories in table
//! order. Then each container file is processed independently:
//! `process_container` turns a file's bytes into one outcome per
//! complete record. Failures stay local: a record that cannot be
//! extracted does not discard its siblings, and a truncated trailing
//! record does not discard the complete records before it.

use vstd::prelude::*;
use crate::PipelineError;
use crate::container::{complete_records, lemma_record_bounds, parse_container, record_count,
    record_label, record_pixels};
use crate::output::{PlannedImage, dest_root_path, image_file_path, label_dir_path, label_dir,
    plan_record_fresh, planned_for};

verus! {

/// The per-label directories to create under the destination root, in
/// table order. All of them must exist before any image is written.
pub fn setup_dirs(labels: &Vec<Vec<u8>>) -> (dirs: Vec<Vec<u8>>)
    ensures
        dirs@.len() == labels@.len(),
        forall|i: int|
            0 <= i < labels@.len() ==> (#[trigger] dirs@[i])@ == label_dir_path(labels@[i]@),
{
    let mut dirs: Vec<Vec<u8>> = Vec::new();
    let mut i: usize = 0;
    while i < labels.len()
        invariant
            i <= labels@.len(),
            dirs@.len() == i,
            forall|k: int|
                0 <= k < i ==> (#[trigger] dirs@[k])@ == label_dir_path(labels@[k]@),
        decreases labels@.len() - i,
    {
        let d = label_dir(&labels[i]);
        dirs.push(d);
        i = i + 1;
    }
    dirs
}

/// Law: every output image lands inside the directory of its label. The
/// directory path issued for a label is a strict prefix of every image
/// file path under that label, and a separator follows it.
pub proof fn lemma_image_under_label_dir(label: Seq<u8>, name: Seq<u8>)
    ensures
        image_file_path(label, name).len() > label_dir_path(label).len(),
        image_file_path(label, name).take(label_dir_path(label).len() as int) == label_dir_path(
            label,
        ),
        image_file_path(label, name)[label_dir_path(label).len() as int] == 47,
{
    assert(image_file_path(label, name).take(label_dir_path(label).len() as int)
        =~= label_dir_path(label));
}

/// Law: every path the pipeline writes lies under the destination root:
/// the root is a prefix of each label's directory and of each image file
/// path. Wiping the root at the start of a run therefore removes every
/// file a previous run left under it.
pub proof fn lemma_paths_under_dest_root(label: Seq<u8>, name: Seq<u8>)
    ensures
        label_dir_path(label).take(dest_root_path().len() as int) == dest_root_path(),
        image_file_path(label, name).take(dest_root_path().len() as int) == dest_root_path(),
{
    assert(label_dir_path(label).take(dest_root_path().len() as int) =~= dest_root_path());
    assert(image_file_path(label, name).take(dest_root_path().len() as int) =~= dest_root_path());
}

/// What the outcome entry for a complete record holds: when the record's
/// label byte addresses an entry of the label table, a plan for some
/// generated name under that label's directory; otherwise exactly the
/// record's out-of-range error, so no sibling record is lost with it.
pub open spec fn record_outcome(
    res: Result<PlannedImage, PipelineError>,
    labels: Seq<Seq<u8>>,
    label: u8,
    pixels: Seq<u8>,
) -> bool {
    if (label as int) < labels.len() {
        res matches Ok(plan) && planned_for(plan, labels, label, pixels)
    } else {
        res == Err::<PlannedImage, PipelineError>(PipelineError::LabelOutOfRange(label))
    }
}

/// Everything one container file's processing yields: one entry per
/// complete record, and whether a truncated trailing record followed
/// them.
#[derive(Debug, PartialEq, Eq)]
pub struct ContainerOutcome {
    /// One entry per complete record, in stream order: the planned image,
    /// or why that record alone cannot be extracted.
    pub results: Vec<Result<PlannedImage, PipelineError>>,
    /// The corruption error, when the container ends with a label byte
    /// not followed by a complete pixel block.
    pub corruption: Option<PipelineError>,
}

/// Process one container file: plan one output image, under a freshly
/// generated name, for every complete record whose label byte addresses
/// an entry of the label table.
///
/// Failures stay local, so the rest of the stream is still extracted: a
/// record with an out-of-range label byte yields its own error in place
/// of a plan, and a truncated trailing record is reported as corruption
/// beside the plans of the complete records before it — exactly when the
/// bytes are not a whole number of records. Either way the outcome
/// concerns this container alone.
pub fn process_container(labels: &Vec<Vec<u8>>, data: &Vec<u8>) -> (outcome: ContainerOutcome)
    ensures
        outcome.results@.len() == record_count(data@.len() as int),
        forall|i: int|
            0 <= i < outcome.results@.len() ==> record_outcome(
                #[trigger] outcome.results@[i],
                labels.deep_view(),
                record_label(data@, i),
                record_pixels(data@, i),
            ),
        outcome.corruption is Some <==> !complete_records(data@.len() as int),
        outcome.corruption matches Some(e) ==> e == PipelineError::TruncatedRecord,
{
    let (recs, corruption) = parse_container(data);
    let mut results: Vec<Result<PlannedImage, PipelineError>> = Vec::new();
    let mut i: usize = 0;
    while i < recs.len()
        invariant
            i <= recs@.len(),
            recs@.len() == record_count(data@.len() as int),
            forall|k: int|
                0 <= k < recs@.len() ==> (#[trigger] recs@[k]).label == record_label(data@, k),
            forall|k: int|
                0 <= k < recs@.len() ==> (#[trigger] recs@[k]).pixels@ == record_pixels(data@, k),
            forall|k: int| 0 <= k < recs@.len() ==> (#[trigger] recs@[k]).wf(),
            results@.len() == i,
            forall|k: int|
                0 <= k < i ==> record_outcome(
                    #[trigger] results@[k],
                    labels.deep_view(),
                    record_label(data@, k),
                    record_pixels(data@, k),
                ),
        decreases recs@.len() - i,
    {
        proof {
            lemma_record_bounds(data@, i as int);
        }
        match plan_record_fresh(labels, &recs[i]) {
            Ok(plan) => {
                results.push(Ok(plan));
            },
            Err(e) => {
                results.push(Err(e));
            },
        }
        proof {
            let k = i as int;
            assert(record_outcome(
                results@[k],
                labels.deep_view(),
                record_label(data@, k),
                record_pixels(data@, k),
            ));
        }
        i = i + 1;
    }
    ContainerOutcome { results, corruption }
}

} // verus!
