//! Output naming: where each extracted image is written.
//!
//! Every image lands under the destination root, in the directory named
//! after its record's label, as `<generated name>.bmp`. The generated
//! name is random so that any number of concurrent writers can name
//! files without a shared counter.

use vstd::prelude::*;
use crate::PipelineError;
use crate::bmp::bmp_bytes;
use crate::bmp::encode_bmp;
use crate::container::Record;

verus! {

/// The path of the destination root that holds one directory per label.
pub open spec fn dest_root_path() -> Seq<u8> {
    // the ASCII bytes of "./destination"
    seq![46u8, 47u8, 100u8, 101u8, 115u8, 116u8, 105u8, 110u8, 97u8, 116u8, 105u8, 111u8, 110u8]
}

/// The path of the directory that holds the images of `label`: the
/// destination root, a separator, then the label's name.
pub open spec fn label_dir_path(label: Seq<u8>) -> Seq<u8> {
    dest_root_path() + seq![47u8] + label
}

/// The file path of one output image: the label's directory, a
/// separator, the generated name, and the bitmap extension.
pub open spec fn image_file_path(label: Seq<u8>, name: Seq<u8>) -> Seq<u8> {
    // 47 is '/'; the suffix is the ASCII bytes of ".bmp"
    label_dir_path(label) + seq![47u8] + name + seq![46u8, 98u8, 109u8, 112u8]
}

/// True of a byte of a generated name that is not a hyphen: a lowercase
/// hexadecimal digit.
pub open spec fn is_lower_hex(b: u8) -> bool {
    // '0' to '9', or 'a' to 'f'
    (48 <= b && b <= 57) || (97 <= b && b <= 102)
}

/// True of a sequence with the shape of a generated name: 36 bytes,
/// hyphens at positions 8, 13, 18 and 23, lowercase hexadecimal digits
/// everywhere else.
pub open spec fn is_generated_name(name: Seq<u8>) -> bool {
    &&& name.len() == 36
    &&& forall|i: int|
        0 <= i < 36 && i != 8 && i != 13 && i != 18 && i != 23 ==> is_lower_hex(#[trigger] name[i])
    // 45 is '-'
    &&& name[8] == 45 && name[13] == 45 && name[18] == 45 && name[23] == 45
}

/// Relies on `uuid::Uuid::new_v4` and the hyphenated lowercase text that
/// its display form produces: 36 bytes, hyphens at positions 8, 13, 18
/// and 23, lowercase hexadecimal digits elsewhere. The value is random,
/// so nothing relates two calls' results.
#[verifier::external_body]
pub(crate) fn fresh_name() -> (name: Vec<u8>)
    ensures
        is_generated_name(name@),
{
    uuid::Uuid::new_v4().to_string().into_bytes()
}

/// Append a copy of `bytes` to `out`.
fn push_bytes(out: &mut Vec<u8>, bytes: &Vec<u8>)
    ensures
        final(out)@ == old(out)@ + bytes@,
{
    let mut k: usize = 0;
    while k < bytes.len()
        invariant
            k <= bytes@.len(),
            out@ == old(out)@ + bytes@.take(k as int),
        decreases bytes@.len() - k,
    {
        out.push(bytes[k]);
        proof {
            assert(out@ =~= old(out)@ + bytes@.take(k as int + 1));
        }
        k = k + 1;
    }
    proof {
        assert(old(out)@ + bytes@.take(bytes@.len() as int) =~= old(out)@ + bytes@);
    }
}

/// The destination root as a path.
pub fn dest_root() -> (p: Vec<u8>)
    ensures
        p@ == dest_root_path(),
{
    let mut p: Vec<u8> = Vec::new();
    p.push(46);
    p.push(47);
    p.push(100);
    p.push(101);
    p.push(115);
    p.push(116);
    p.push(105);
    p.push(110);
    p.push(97);
    p.push(116);
    p.push(105);
    p.push(111);
    p.push(110);
    proof {
        assert(p@ =~= dest_root_path());
    }
    p
}

/// The directory that holds the images of `label`.
pub fn label_dir(label: &Vec<u8>) -> (p: Vec<u8>)
    ensures
        p@ == label_dir_path(label@),
{
    let mut p = dest_root();
    p.push(47);
    push_bytes(&mut p, label);
    proof {
        assert(p@ =~= label_dir_path(label@));
    }
    p
}

/// The file path of an output image named `name` under `label`'s
/// directory.
pub fn image_path(label: &Vec<u8>, name: &Vec<u8>) -> (p: Vec<u8>)
    ensures
        p@ == image_file_path(label@, name@),
{
    let mut p = label_dir(label);
    p.push(47);
    push_bytes(&mut p, name);
    p.push(46);
    p.push(98);
    p.push(109);
    p.push(112);
    proof {
        assert(p@ =~= image_file_path(label@, name@));
    }
    p
}

/// Everything needed to persist one extracted image: where to write it
/// and the complete bitmap bytes to write.
#[derive(Debug, PartialEq, Eq)]
pub struct PlannedImage {
    /// The output file path, under the record's label's directory.
    pub path: Vec<u8>,
    /// The complete bitmap file contents.
    pub bytes: Vec<u8>,
}

/// What a successful plan for a record with label byte `label` and pixel
/// buffer `pixels`, named `name`, holds: the path of the image under the
/// label's directory, and the record's bitmap encoding.
pub open spec fn plan_ok(
    plan: PlannedImage,
    labels: Seq<Seq<u8>>,
    label: u8,
    pixels: Seq<u8>,
    name: Seq<u8>,
) -> bool {
    &&& plan.path@ == image_file_path(labels[label as int], name)
    &&& plan.bytes@ == bmp_bytes(pixels)
}

/// Plan the output image of one record, to be written as `name`.
///
/// Succeeds exactly when the record's label byte addresses an entry of
/// the label table and its pixel buffer is full. A label byte beyond the
/// table is rejected as such, never used to index out of range.
pub fn plan_record(labels: &Vec<Vec<u8>>, rec: &Record, name: &Vec<u8>) -> (r: Result<
    PlannedImage,
    PipelineError,
>)
    ensures
        r is Ok <==> (rec.label < labels@.len() && rec.wf()),
        r matches Ok(plan) ==> plan_ok(plan, labels.deep_view(), rec.label, rec.pixels@, name@),
        r matches Err(e) ==> e == (if rec.label >= labels@.len() {
            PipelineError::LabelOutOfRange(rec.label)
        } else {
            PipelineError::WrongPixelCount
        }),
{
    let idx = rec.label as usize;
    if idx >= labels.len() {
        return Err(PipelineError::LabelOutOfRange(rec.label));
    }
    let bytes = match encode_bmp(&rec.pixels) {
        Ok(b) => b,
        Err(e) => {
            return Err(e);
        },
    };
    let path = image_path(&labels[idx], name);
    proof {
        assert(labels.deep_view()[rec.label as int] == labels@[rec.label as int]@);
    }
    Ok(PlannedImage { path, bytes })
}

/// What a successful plan holds when its name was freshly generated: the
/// record's bitmap encoding, at the image path of some generated name
/// under the record's label's directory.
pub open spec fn planned_for(
    plan: PlannedImage,
    labels: Seq<Seq<u8>>,
    label: u8,
    pixels: Seq<u8>,
) -> bool {
    exists|name: Seq<u8>| is_generated_name(name) && plan_ok(plan, labels, label, pixels, name)
}

/// Plan the output image of one record under a freshly generated name.
///
/// The name is random; whatever name came back, a successful plan is the
/// record's plan for some generated name.
pub fn plan_record_fresh(labels: &Vec<Vec<u8>>, rec: &Record) -> (r: Result<
    PlannedImage,
    PipelineError,
>)
    ensures
        r is Ok <==> (rec.label < labels@.len() && rec.wf()),
        r matches Ok(plan) ==> planned_for(plan, labels.deep_view(), rec.label, rec.pixels@),
        r matches Err(e) ==> e == (if rec.label >= labels@.len() {
            PipelineError::LabelOutOfRange(rec.label)
        } else {
            PipelineError::WrongPixelCount
        }),
{
    let name = fresh_name();
    let r = plan_record(labels, rec, &name);
    proof {
        if r is Ok {
            assert(is_generated_name(name@) && plan_ok(
                r->Ok_0,
                labels.deep_view(),
                rec.label,
                rec.pixels@,
                name@,
            ));
        }
    }
    r
}

} // verus!
