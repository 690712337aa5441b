//! The literal byte patterns the extractor searches for: XML tag names,
//! attribute names, and the controlled-vocabulary parameter names the
//! summary recognizes. Each pattern comes as a spec constant and as an
//! executable constructor proved to build exactly those bytes.
use vstd::prelude::*;

verus! {

/// Bytes of `<indexListOffset>`.
pub open spec fn spec_ilo_open() -> Seq<u8> {
    seq![60u8, 105u8, 110u8, 100u8, 101u8, 120u8, 76u8, 105u8, 115u8, 116u8, 79u8, 102u8, 102u8, 115u8, 101u8, 116u8, 62u8]
}

pub fn ilo_open() -> (v: Vec<u8>)
    ensures
        v@ == spec_ilo_open(),
{
    let a: [u8; 17] = [60u8, 105u8, 110u8, 100u8, 101u8, 120u8, 76u8, 105u8, 115u8, 116u8, 79u8, 102u8, 102u8, 115u8, 101u8, 116u8, 62u8];
    let v = vstd::slice::slice_to_vec(a.as_slice());
    proof {
        assert(v@ =~= spec_ilo_open());
    }
    v
}

/// Bytes of `</indexListOffset>`.
pub open spec fn spec_ilo_close() -> Seq<u8> {
    seq![60u8, 47u8, 105u8, 110u8, 100u8, 101u8, 120u8, 76u8, 105u8, 115u8, 116u8, 79u8, 102u8, 102u8, 115u8, 101u8, 116u8, 62u8]
}

pub fn ilo_close() -> (v: Vec<u8>)
    ensures
        v@ == spec_ilo_close(),
{
    let a: [u8; 18] = [60u8, 47u8, 105u8, 110u8, 100u8, 101u8, 120u8, 76u8, 105u8, 115u8, 116u8, 79u8, 102u8, 102u8, 115u8, 101u8, 116u8, 62u8];
    let v = vstd::slice::slice_to_vec(a.as_slice());
    proof {
        assert(v@ =~= spec_ilo_close());
    }
    v
}

/// Bytes of `<index name="spectrum">`.
pub open spec fn spec_index_spectrum_open() -> Seq<u8> {
    seq![60u8, 105u8, 110u8, 100u8, 101u8, 120u8, 32u8, 110u8, 97u8, 109u8, 101u8, 61u8, 34u8, 115u8, 112u8, 101u8, 99u8, 116u8, 114u8, 117u8, 109u8, 34u8, 62u8]
}

pub fn index_spectrum_open() -> (v: Vec<u8>)
    ensures
        v@ == spec_index_spectrum_open(),
{
    let a: [u8; 23] = [60u8, 105u8, 110u8, 100u8, 101u8, 120u8, 32u8, 110u8, 97u8, 109u8, 101u8, 61u8, 34u8, 115u8, 112u8, 101u8, 99u8, 116u8, 114u8, 117u8, 109u8, 34u8, 62u8];
    let v = vstd::slice::slice_to_vec(a.as_slice());
    proof {
        assert(v@ =~= spec_index_spectrum_open());
    }
    v
}

/// Bytes of `</index>`.
pub open spec fn spec_index_close() -> Seq<u8> {
    seq![60u8, 47u8, 105u8, 110u8, 100u8, 101u8, 120u8, 62u8]
}

pub fn index_close() -> (v: Vec<u8>)
    ensures
        v@ == spec_index_close(),
{
    let a: [u8; 8] = [60u8, 47u8, 105u8, 110u8, 100u8, 101u8, 120u8, 62u8];
    let v = vstd::slice::slice_to_vec(a.as_slice());
    proof {
        assert(v@ =~= spec_index_close());
    }
    v
}

/// Bytes of `<offset`.
pub open spec fn spec_offset_open() -> Seq<u8> {
    seq![60u8, 111u8, 102u8, 102u8, 115u8, 101u8, 116u8]
}

pub fn offset_open() -> (v: Vec<u8>)
    ensures
        v@ == spec_offset_open(),
{
    let a: [u8; 7] = [60u8, 111u8, 102u8, 102u8, 115u8, 101u8, 116u8];
    let v = vstd::slice::slice_to_vec(a.as_slice());
    proof {
        assert(v@ =~= spec_offset_open());
    }
    v
}

/// Bytes of `</offset>`.
pub open spec fn spec_offset_close() -> Seq<u8> {
    seq![60u8, 47u8, 111u8, 102u8, 102u8, 115u8, 101u8, 116u8, 62u8]
}

pub fn offset_close() -> (v: Vec<u8>)
    ensures
        v@ == spec_offset_close(),
{
    let a: [u8; 9] = [60u8, 47u8, 111u8, 102u8, 102u8, 115u8, 101u8, 116u8, 62u8];
    let v = vstd::slice::slice_to_vec(a.as_slice());
    proof {
        assert(v@ =~= spec_offset_close());
    }
    v
}

/// Bytes of `<spectrum `.
pub open spec fn spec_spectrum_open_sp() -> Seq<u8> {
    seq![60u8, 115u8, 112u8, 101u8, 99u8, 116u8, 114u8, 117u8, 109u8, 32u8]
}

pub fn spectrum_open_sp() -> (v: Vec<u8>)
    ensures
        v@ == spec_spectrum_open_sp(),
{
    let a: [u8; 10] = [60u8, 115u8, 112u8, 101u8, 99u8, 116u8, 114u8, 117u8, 109u8, 32u8];
    let v = vstd::slice::slice_to_vec(a.as_slice());
    proof {
        assert(v@ =~= spec_spectrum_open_sp());
    }
    v
}

/// Bytes of `</spectrum>`.
pub open spec fn spec_spectrum_close() -> Seq<u8> {
    seq![60u8, 47u8, 115u8, 112u8, 101u8, 99u8, 116u8, 114u8, 117u8, 109u8, 62u8]
}

pub fn spectrum_close() -> (v: Vec<u8>)
    ensures
        v@ == spec_spectrum_close(),
{
    let a: [u8; 11] = [60u8, 47u8, 115u8, 112u8, 101u8, 99u8, 116u8, 114u8, 117u8, 109u8, 62u8];
    let v = vstd::slice::slice_to_vec(a.as_slice());
    proof {
        assert(v@ =~= spec_spectrum_close());
    }
    v
}

/// Bytes of `spectrum`.
pub open spec fn spec_spectrum_tag() -> Seq<u8> {
    seq![115u8, 112u8, 101u8, 99u8, 116u8, 114u8, 117u8, 109u8]
}

pub fn spectrum_tag() -> (v: Vec<u8>)
    ensures
        v@ == spec_spectrum_tag(),
{
    let a: [u8; 8] = [115u8, 112u8, 101u8, 99u8, 116u8, 114u8, 117u8, 109u8];
    let v = vstd::slice::slice_to_vec(a.as_slice());
    proof {
        assert(v@ =~= spec_spectrum_tag());
    }
    v
}

/// Bytes of `<binaryDataArrayList`.
pub open spec fn spec_bdal_open() -> Seq<u8> {
    seq![60u8, 98u8, 105u8, 110u8, 97u8, 114u8, 121u8, 68u8, 97u8, 116u8, 97u8, 65u8, 114u8, 114u8, 97u8, 121u8, 76u8, 105u8, 115u8, 116u8]
}

pub fn bdal_open() -> (v: Vec<u8>)
    ensures
        v@ == spec_bdal_open(),
{
    let a: [u8; 20] = [60u8, 98u8, 105u8, 110u8, 97u8, 114u8, 121u8, 68u8, 97u8, 116u8, 97u8, 65u8, 114u8, 114u8, 97u8, 121u8, 76u8, 105u8, 115u8, 116u8];
    let v = vstd::slice::slice_to_vec(a.as_slice());
    proof {
        assert(v@ =~= spec_bdal_open());
    }
    v
}

/// Bytes of `<binaryDataArray`.
pub open spec fn spec_bda_open() -> Seq<u8> {
    seq![60u8, 98u8, 105u8, 110u8, 97u8, 114u8, 121u8, 68u8, 97u8, 116u8, 97u8, 65u8, 114u8, 114u8, 97u8, 121u8]
}

pub fn bda_open() -> (v: Vec<u8>)
    ensures
        v@ == spec_bda_open(),
{
    let a: [u8; 16] = [60u8, 98u8, 105u8, 110u8, 97u8, 114u8, 121u8, 68u8, 97u8, 116u8, 97u8, 65u8, 114u8, 114u8, 97u8, 121u8];
    let v = vstd::slice::slice_to_vec(a.as_slice());
    proof {
        assert(v@ =~= spec_bda_open());
    }
    v
}

/// Bytes of `</binaryDataArray>`.
pub open spec fn spec_bda_close() -> Seq<u8> {
    seq![60u8, 47u8, 98u8, 105u8, 110u8, 97u8, 114u8, 121u8, 68u8, 97u8, 116u8, 97u8, 65u8, 114u8, 114u8, 97u8, 121u8, 62u8]
}

pub fn bda_close() -> (v: Vec<u8>)
    ensures
        v@ == spec_bda_close(),
{
    let a: [u8; 18] = [60u8, 47u8, 98u8, 105u8, 110u8, 97u8, 114u8, 121u8, 68u8, 97u8, 116u8, 97u8, 65u8, 114u8, 114u8, 97u8, 121u8, 62u8];
    let v = vstd::slice::slice_to_vec(a.as_slice());
    proof {
        assert(v@ =~= spec_bda_close());
    }
    v
}

/// Bytes of `<binary>`.
pub open spec fn spec_binary_open() -> Seq<u8> {
    seq![60u8, 98u8, 105u8, 110u8, 97u8, 114u8, 121u8, 62u8]
}

pub fn binary_open() -> (v: Vec<u8>)
    ensures
        v@ == spec_binary_open(),
{
    let a: [u8; 8] = [60u8, 98u8, 105u8, 110u8, 97u8, 114u8, 121u8, 62u8];
    let v = vstd::slice::slice_to_vec(a.as_slice());
    proof {
        assert(v@ =~= spec_binary_open());
    }
    v
}

/// Bytes of `</binary>`.
pub open spec fn spec_binary_close() -> Seq<u8> {
    seq![60u8, 47u8, 98u8, 105u8, 110u8, 97u8, 114u8, 121u8, 62u8]
}

pub fn binary_close() -> (v: Vec<u8>)
    ensures
        v@ == spec_binary_close(),
{
    let a: [u8; 9] = [60u8, 47u8, 98u8, 105u8, 110u8, 97u8, 114u8, 121u8, 62u8];
    let v = vstd::slice::slice_to_vec(a.as_slice());
    proof {
        assert(v@ =~= spec_binary_close());
    }
    v
}

/// Bytes of `<cvParam`.
pub open spec fn spec_cvparam_open() -> Seq<u8> {
    seq![60u8, 99u8, 118u8, 80u8, 97u8, 114u8, 97u8, 109u8]
}

pub fn cvparam_open() -> (v: Vec<u8>)
    ensures
        v@ == spec_cvparam_open(),
{
    let a: [u8; 8] = [60u8, 99u8, 118u8, 80u8, 97u8, 114u8, 97u8, 109u8];
    let v = vstd::slice::slice_to_vec(a.as_slice());
    proof {
        assert(v@ =~= spec_cvparam_open());
    }
    v
}

/// Bytes of `index`.
pub open spec fn spec_attr_index() -> Seq<u8> {
    seq![105u8, 110u8, 100u8, 101u8, 120u8]
}

pub fn attr_index() -> (v: Vec<u8>)
    ensures
        v@ == spec_attr_index(),
{
    let a: [u8; 5] = [105u8, 110u8, 100u8, 101u8, 120u8];
    let v = vstd::slice::slice_to_vec(a.as_slice());
    proof {
        assert(v@ =~= spec_attr_index());
    }
    v
}

/// Bytes of `id`.
pub open spec fn spec_attr_id() -> Seq<u8> {
    seq![105u8, 100u8]
}

pub fn attr_id() -> (v: Vec<u8>)
    ensures
        v@ == spec_attr_id(),
{
    let a: [u8; 2] = [105u8, 100u8];
    let v = vstd::slice::slice_to_vec(a.as_slice());
    proof {
        assert(v@ =~= spec_attr_id());
    }
    v
}

/// Bytes of `defaultArrayLength`.
pub open spec fn spec_attr_default_array_length() -> Seq<u8> {
    seq![100u8, 101u8, 102u8, 97u8, 117u8, 108u8, 116u8, 65u8, 114u8, 114u8, 97u8, 121u8, 76u8, 101u8, 110u8, 103u8, 116u8, 104u8]
}

pub fn attr_default_array_length() -> (v: Vec<u8>)
    ensures
        v@ == spec_attr_default_array_length(),
{
    let a: [u8; 18] = [100u8, 101u8, 102u8, 97u8, 117u8, 108u8, 116u8, 65u8, 114u8, 114u8, 97u8, 121u8, 76u8, 101u8, 110u8, 103u8, 116u8, 104u8];
    let v = vstd::slice::slice_to_vec(a.as_slice());
    proof {
        assert(v@ =~= spec_attr_default_array_length());
    }
    v
}

/// Bytes of `name`.
pub open spec fn spec_attr_name() -> Seq<u8> {
    seq![110u8, 97u8, 109u8, 101u8]
}

pub fn attr_name() -> (v: Vec<u8>)
    ensures
        v@ == spec_attr_name(),
{
    let a: [u8; 4] = [110u8, 97u8, 109u8, 101u8];
    let v = vstd::slice::slice_to_vec(a.as_slice());
    proof {
        assert(v@ =~= spec_attr_name());
    }
    v
}

/// Bytes of `value`.
pub open spec fn spec_attr_value() -> Seq<u8> {
    seq![118u8, 97u8, 108u8, 117u8, 101u8]
}

pub fn attr_value() -> (v: Vec<u8>)
    ensures
        v@ == spec_attr_value(),
{
    let a: [u8; 5] = [118u8, 97u8, 108u8, 117u8, 101u8];
    let v = vstd::slice::slice_to_vec(a.as_slice());
    proof {
        assert(v@ =~= spec_attr_value());
    }
    v
}

/// Bytes of `unitName`.
pub open spec fn spec_attr_unit_name() -> Seq<u8> {
    seq![117u8, 110u8, 105u8, 116u8, 78u8, 97u8, 109u8, 101u8]
}

pub fn attr_unit_name() -> (v: Vec<u8>)
    ensures
        v@ == spec_attr_unit_name(),
{
    let a: [u8; 8] = [117u8, 110u8, 105u8, 116u8, 78u8, 97u8, 109u8, 101u8];
    let v = vstd::slice::slice_to_vec(a.as_slice());
    proof {
        assert(v@ =~= spec_attr_unit_name());
    }
    v
}

/// Bytes of `ms level`.
pub open spec fn spec_cv_ms_level() -> Seq<u8> {
    seq![109u8, 115u8, 32u8, 108u8, 101u8, 118u8, 101u8, 108u8]
}

pub fn cv_ms_level() -> (v: Vec<u8>)
    ensures
        v@ == spec_cv_ms_level(),
{
    let a: [u8; 8] = [109u8, 115u8, 32u8, 108u8, 101u8, 118u8, 101u8, 108u8];
    let v = vstd::slice::slice_to_vec(a.as_slice());
    proof {
        assert(v@ =~= spec_cv_ms_level());
    }
    v
}

/// Bytes of `MS1 spectrum`.
pub open spec fn spec_cv_ms1() -> Seq<u8> {
    seq![77u8, 83u8, 49u8, 32u8, 115u8, 112u8, 101u8, 99u8, 116u8, 114u8, 117u8, 109u8]
}

pub fn cv_ms1() -> (v: Vec<u8>)
    ensures
        v@ == spec_cv_ms1(),
{
    let a: [u8; 12] = [77u8, 83u8, 49u8, 32u8, 115u8, 112u8, 101u8, 99u8, 116u8, 114u8, 117u8, 109u8];
    let v = vstd::slice::slice_to_vec(a.as_slice());
    proof {
        assert(v@ =~= spec_cv_ms1());
    }
    v
}

/// Bytes of `MSn spectrum`.
pub open spec fn spec_cv_msn() -> Seq<u8> {
    seq![77u8, 83u8, 110u8, 32u8, 115u8, 112u8, 101u8, 99u8, 116u8, 114u8, 117u8, 109u8]
}

pub fn cv_msn() -> (v: Vec<u8>)
    ensures
        v@ == spec_cv_msn(),
{
    let a: [u8; 12] = [77u8, 83u8, 110u8, 32u8, 115u8, 112u8, 101u8, 99u8, 116u8, 114u8, 117u8, 109u8];
    let v = vstd::slice::slice_to_vec(a.as_slice());
    proof {
        assert(v@ =~= spec_cv_msn());
    }
    v
}

/// Bytes of `positive scan`.
pub open spec fn spec_cv_positive() -> Seq<u8> {
    seq![112u8, 111u8, 115u8, 105u8, 116u8, 105u8, 118u8, 101u8, 32u8, 115u8, 99u8, 97u8, 110u8]
}

pub fn cv_positive() -> (v: Vec<u8>)
    ensures
        v@ == spec_cv_positive(),
{
    let a: [u8; 13] = [112u8, 111u8, 115u8, 105u8, 116u8, 105u8, 118u8, 101u8, 32u8, 115u8, 99u8, 97u8, 110u8];
    let v = vstd::slice::slice_to_vec(a.as_slice());
    proof {
        assert(v@ =~= spec_cv_positive());
    }
    v
}

/// Bytes of `negative scan`.
pub open spec fn spec_cv_negative() -> Seq<u8> {
    seq![110u8, 101u8, 103u8, 97u8, 116u8, 105u8, 118u8, 101u8, 32u8, 115u8, 99u8, 97u8, 110u8]
}

pub fn cv_negative() -> (v: Vec<u8>)
    ensures
        v@ == spec_cv_negative(),
{
    let a: [u8; 13] = [110u8, 101u8, 103u8, 97u8, 116u8, 105u8, 118u8, 101u8, 32u8, 115u8, 99u8, 97u8, 110u8];
    let v = vstd::slice::slice_to_vec(a.as_slice());
    proof {
        assert(v@ =~= spec_cv_negative());
    }
    v
}

/// Bytes of `profile spectrum`.
pub open spec fn spec_cv_profile() -> Seq<u8> {
    seq![112u8, 114u8, 111u8, 102u8, 105u8, 108u8, 101u8, 32u8, 115u8, 112u8, 101u8, 99u8, 116u8, 114u8, 117u8, 109u8]
}

pub fn cv_profile() -> (v: Vec<u8>)
    ensures
        v@ == spec_cv_profile(),
{
    let a: [u8; 16] = [112u8, 114u8, 111u8, 102u8, 105u8, 108u8, 101u8, 32u8, 115u8, 112u8, 101u8, 99u8, 116u8, 114u8, 117u8, 109u8];
    let v = vstd::slice::slice_to_vec(a.as_slice());
    proof {
        assert(v@ =~= spec_cv_profile());
    }
    v
}

/// Bytes of `centroid spectrum`.
pub open spec fn spec_cv_centroid() -> Seq<u8> {
    seq![99u8, 101u8, 110u8, 116u8, 114u8, 111u8, 105u8, 100u8, 32u8, 115u8, 112u8, 101u8, 99u8, 116u8, 114u8, 117u8, 109u8]
}

pub fn cv_centroid() -> (v: Vec<u8>)
    ensures
        v@ == spec_cv_centroid(),
{
    let a: [u8; 17] = [99u8, 101u8, 110u8, 116u8, 114u8, 111u8, 105u8, 100u8, 32u8, 115u8, 112u8, 101u8, 99u8, 116u8, 114u8, 117u8, 109u8];
    let v = vstd::slice::slice_to_vec(a.as_slice());
    proof {
        assert(v@ =~= spec_cv_centroid());
    }
    v
}

/// Bytes of `total ion current`.
pub open spec fn spec_cv_tic() -> Seq<u8> {
    seq![116u8, 111u8, 116u8, 97u8, 108u8, 32u8, 105u8, 111u8, 110u8, 32u8, 99u8, 117u8, 114u8, 114u8, 101u8, 110u8, 116u8]
}

pub fn cv_tic() -> (v: Vec<u8>)
    ensures
        v@ == spec_cv_tic(),
{
    let a: [u8; 17] = [116u8, 111u8, 116u8, 97u8, 108u8, 32u8, 105u8, 111u8, 110u8, 32u8, 99u8, 117u8, 114u8, 114u8, 101u8, 110u8, 116u8];
    let v = vstd::slice::slice_to_vec(a.as_slice());
    proof {
        assert(v@ =~= spec_cv_tic());
    }
    v
}

/// Bytes of `base peak intensity`.
pub open spec fn spec_cv_bpi() -> Seq<u8> {
    seq![98u8, 97u8, 115u8, 101u8, 32u8, 112u8, 101u8, 97u8, 107u8, 32u8, 105u8, 110u8, 116u8, 101u8, 110u8, 115u8, 105u8, 116u8, 121u8]
}

pub fn cv_bpi() -> (v: Vec<u8>)
    ensures
        v@ == spec_cv_bpi(),
{
    let a: [u8; 19] = [98u8, 97u8, 115u8, 101u8, 32u8, 112u8, 101u8, 97u8, 107u8, 32u8, 105u8, 110u8, 116u8, 101u8, 110u8, 115u8, 105u8, 116u8, 121u8];
    let v = vstd::slice::slice_to_vec(a.as_slice());
    proof {
        assert(v@ =~= spec_cv_bpi());
    }
    v
}

/// Bytes of `base peak m/z`.
pub open spec fn spec_cv_bpmz() -> Seq<u8> {
    seq![98u8, 97u8, 115u8, 101u8, 32u8, 112u8, 101u8, 97u8, 107u8, 32u8, 109u8, 47u8, 122u8]
}

pub fn cv_bpmz() -> (v: Vec<u8>)
    ensures
        v@ == spec_cv_bpmz(),
{
    let a: [u8; 13] = [98u8, 97u8, 115u8, 101u8, 32u8, 112u8, 101u8, 97u8, 107u8, 32u8, 109u8, 47u8, 122u8];
    let v = vstd::slice::slice_to_vec(a.as_slice());
    proof {
        assert(v@ =~= spec_cv_bpmz());
    }
    v
}

/// Bytes of `scan start time`.
pub open spec fn spec_cv_scan_start() -> Seq<u8> {
    seq![115u8, 99u8, 97u8, 110u8, 32u8, 115u8, 116u8, 97u8, 114u8, 116u8, 32u8, 116u8, 105u8, 109u8, 101u8]
}

pub fn cv_scan_start() -> (v: Vec<u8>)
    ensures
        v@ == spec_cv_scan_start(),
{
    let a: [u8; 15] = [115u8, 99u8, 97u8, 110u8, 32u8, 115u8, 116u8, 97u8, 114u8, 116u8, 32u8, 116u8, 105u8, 109u8, 101u8];
    let v = vstd::slice::slice_to_vec(a.as_slice());
    proof {
        assert(v@ =~= spec_cv_scan_start());
    }
    v
}

/// Bytes of `scan window lower limit`.
pub open spec fn spec_cv_lower() -> Seq<u8> {
    seq![115u8, 99u8, 97u8, 110u8, 32u8, 119u8, 105u8, 110u8, 100u8, 111u8, 119u8, 32u8, 108u8, 111u8, 119u8, 101u8, 114u8, 32u8, 108u8, 105u8, 109u8, 105u8, 116u8]
}

pub fn cv_lower() -> (v: Vec<u8>)
    ensures
        v@ == spec_cv_lower(),
{
    let a: [u8; 23] = [115u8, 99u8, 97u8, 110u8, 32u8, 119u8, 105u8, 110u8, 100u8, 111u8, 119u8, 32u8, 108u8, 111u8, 119u8, 101u8, 114u8, 32u8, 108u8, 105u8, 109u8, 105u8, 116u8];
    let v = vstd::slice::slice_to_vec(a.as_slice());
    proof {
        assert(v@ =~= spec_cv_lower());
    }
    v
}

/// Bytes of `scan window upper limit`.
pub open spec fn spec_cv_upper() -> Seq<u8> {
    seq![115u8, 99u8, 97u8, 110u8, 32u8, 119u8, 105u8, 110u8, 100u8, 111u8, 119u8, 32u8, 117u8, 112u8, 112u8, 101u8, 114u8, 32u8, 108u8, 105u8, 109u8, 105u8, 116u8]
}

pub fn cv_upper() -> (v: Vec<u8>)
    ensures
        v@ == spec_cv_upper(),
{
    let a: [u8; 23] = [115u8, 99u8, 97u8, 110u8, 32u8, 119u8, 105u8, 110u8, 100u8, 111u8, 119u8, 32u8, 117u8, 112u8, 112u8, 101u8, 114u8, 32u8, 108u8, 105u8, 109u8, 105u8, 116u8];
    let v = vstd::slice::slice_to_vec(a.as_slice());
    proof {
        assert(v@ =~= spec_cv_upper());
    }
    v
}

/// Bytes of `m/z array`.
pub open spec fn spec_cv_mz_array() -> Seq<u8> {
    seq![109u8, 47u8, 122u8, 32u8, 97u8, 114u8, 114u8, 97u8, 121u8]
}

pub fn cv_mz_array() -> (v: Vec<u8>)
    ensures
        v@ == spec_cv_mz_array(),
{
    let a: [u8; 9] = [109u8, 47u8, 122u8, 32u8, 97u8, 114u8, 114u8, 97u8, 121u8];
    let v = vstd::slice::slice_to_vec(a.as_slice());
    proof {
        assert(v@ =~= spec_cv_mz_array());
    }
    v
}

/// Bytes of `intensity array`.
pub open spec fn spec_cv_intensity_array() -> Seq<u8> {
    seq![105u8, 110u8, 116u8, 101u8, 110u8, 115u8, 105u8, 116u8, 121u8, 32u8, 97u8, 114u8, 114u8, 97u8, 121u8]
}

pub fn cv_intensity_array() -> (v: Vec<u8>)
    ensures
        v@ == spec_cv_intensity_array(),
{
    let a: [u8; 15] = [105u8, 110u8, 116u8, 101u8, 110u8, 115u8, 105u8, 116u8, 121u8, 32u8, 97u8, 114u8, 114u8, 97u8, 121u8];
    let v = vstd::slice::slice_to_vec(a.as_slice());
    proof {
        assert(v@ =~= spec_cv_intensity_array());
    }
    v
}

/// Bytes of `zlib compression`.
pub open spec fn spec_cv_zlib() -> Seq<u8> {
    seq![122u8, 108u8, 105u8, 98u8, 32u8, 99u8, 111u8, 109u8, 112u8, 114u8, 101u8, 115u8, 115u8, 105u8, 111u8, 110u8]
}

pub fn cv_zlib() -> (v: Vec<u8>)
    ensures
        v@ == spec_cv_zlib(),
{
    let a: [u8; 16] = [122u8, 108u8, 105u8, 98u8, 32u8, 99u8, 111u8, 109u8, 112u8, 114u8, 101u8, 115u8, 115u8, 105u8, 111u8, 110u8];
    let v = vstd::slice::slice_to_vec(a.as_slice());
    proof {
        assert(v@ =~= spec_cv_zlib());
    }
    v
}

/// Bytes of `64-bit float`.
pub open spec fn spec_cv_f64() -> Seq<u8> {
    seq![54u8, 52u8, 45u8, 98u8, 105u8, 116u8, 32u8, 102u8, 108u8, 111u8, 97u8, 116u8]
}

pub fn cv_f64() -> (v: Vec<u8>)
    ensures
        v@ == spec_cv_f64(),
{
    let a: [u8; 12] = [54u8, 52u8, 45u8, 98u8, 105u8, 116u8, 32u8, 102u8, 108u8, 111u8, 97u8, 116u8];
    let v = vstd::slice::slice_to_vec(a.as_slice());
    proof {
        assert(v@ =~= spec_cv_f64());
    }
    v
}

/// Bytes of `32-bit float`.
pub open spec fn spec_cv_f32() -> Seq<u8> {
    seq![51u8, 50u8, 45u8, 98u8, 105u8, 116u8, 32u8, 102u8, 108u8, 111u8, 97u8, 116u8]
}

pub fn cv_f32() -> (v: Vec<u8>)
    ensures
        v@ == spec_cv_f32(),
{
    let a: [u8; 12] = [51u8, 50u8, 45u8, 98u8, 105u8, 116u8, 32u8, 102u8, 108u8, 111u8, 97u8, 116u8];
    let v = vstd::slice::slice_to_vec(a.as_slice());
    proof {
        assert(v@ =~= spec_cv_f32());
    }
    v
}

/// Bytes of `little endian`.
pub open spec fn spec_cv_little() -> Seq<u8> {
    seq![108u8, 105u8, 116u8, 116u8, 108u8, 101u8, 32u8, 101u8, 110u8, 100u8, 105u8, 97u8, 110u8]
}

pub fn cv_little() -> (v: Vec<u8>)
    ensures
        v@ == spec_cv_little(),
{
    let a: [u8; 13] = [108u8, 105u8, 116u8, 116u8, 108u8, 101u8, 32u8, 101u8, 110u8, 100u8, 105u8, 97u8, 110u8];
    let v = vstd::slice::slice_to_vec(a.as_slice());
    proof {
        assert(v@ =~= spec_cv_little());
    }
    v
}

/// Bytes of `big endian`.
pub open spec fn spec_cv_big() -> Seq<u8> {
    seq![98u8, 105u8, 103u8, 32u8, 101u8, 110u8, 100u8, 105u8, 97u8, 110u8]
}

pub fn cv_big() -> (v: Vec<u8>)
    ensures
        v@ == spec_cv_big(),
{
    let a: [u8; 10] = [98u8, 105u8, 103u8, 32u8, 101u8, 110u8, 100u8, 105u8, 97u8, 110u8];
    let v = vstd::slice::slice_to_vec(a.as_slice());
    proof {
        assert(v@ =~= spec_cv_big());
    }
    v
}

/// Bytes of `second`.
pub open spec fn spec_unit_second() -> Seq<u8> {
    seq![115u8, 101u8, 99u8, 111u8, 110u8, 100u8]
}

pub fn unit_second() -> (v: Vec<u8>)
    ensures
        v@ == spec_unit_second(),
{
    let a: [u8; 6] = [115u8, 101u8, 99u8, 111u8, 110u8, 100u8];
    let v = vstd::slice::slice_to_vec(a.as_slice());
    proof {
        assert(v@ =~= spec_unit_second());
    }
    v
}

} // verus!
