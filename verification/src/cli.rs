//! Validation of one batch request before any image work: the output-path
//! against zoom-value counts, the dimension list, the zoom range, and the
//! derived default output names.

use vstd::prelude::*;
use crate::errors::ArgumentValidationError;
use crate::geometry::{MAX_DIM, MAX_ZOOM100};
use crate::paths::{derived_output_name, derived_output_name_spec};

verus! {

/// One output to produce: a zoom in hundredths and the path to write to.
#[derive(Clone, Debug)]
pub struct OutputTask {
    pub zoom100: u32,
    pub path: String,
}

/// A validated batch request: the output rectangle and one task per
/// requested zoom value.
#[derive(Clone, Debug)]
pub struct BatchPlan {
    pub width: u32,
    pub height: u32,
    pub tasks: Vec<OutputTask>,
}

/// Every requested dimension names a usable output rectangle.
pub open spec fn dims_in_range(dims: Seq<i64>) -> bool {
    forall|i: int| 0 <= i < dims.len() ==> 1 <= #[trigger] dims[i] <= MAX_DIM
}

/// Every requested zoom is positive and within the representable range.
pub open spec fn zooms_in_range(zooms: Seq<u32>) -> bool {
    forall|i: int| 0 <= i < zooms.len() ==> 1 <= #[trigger] zooms[i] <= MAX_ZOOM100
}

/// Validates one batch request and derives the missing output names.
/// Checks, in this order: the output-path count is zero or matches the zoom
/// count; the dimension list holds exactly a width and a height; both are in
/// range; every zoom is in range; and, where no output paths were given, the
/// input path has an extension to derive names from.  Rejection happens
/// before any decoding or detection: the plan is built from the arguments
/// alone.
pub fn plan_outputs(input: &str, outputs: &Vec<String>, zooms: &Vec<u32>, dims: &Vec<i64>) -> (r:
    Result<BatchPlan, ArgumentValidationError>)
    ensures
        match r {
            Ok(plan) => {
                &&& outputs@.len() == 0 || outputs@.len() == zooms@.len()
                &&& dims@.len() == 2
                &&& dims_in_range(dims@)
                &&& zooms_in_range(zooms@)
                &&& plan.width == dims@[0]
                &&& plan.height == dims@[1]
                &&& plan.tasks@.len() == zooms@.len()
                &&& forall|i: int|
                    0 <= i < zooms@.len() ==> {
                        &&& (#[trigger] plan.tasks@[i]).zoom100 == zooms@[i]
                        &&& plan.tasks@[i].path@ == (if i < outputs@.len() {
                            outputs@[i]@
                        } else {
                            derived_output_name_spec(input@, zooms@[i] as nat)
                        })
                    }
                &&& (outputs@.len() < zooms@.len() ==> input@.index_of_last('.') is Some)
            },
            Err(e) => match e {
                ArgumentValidationError::OutputCountMismatch { outputs: o, zooms: z } => {
                    &&& o == outputs@.len()
                    &&& z == zooms@.len()
                    &&& o != 0
                    &&& o != z
                },
                ArgumentValidationError::DimensionCountMismatch { given } => {
                    &&& outputs@.len() == 0 || outputs@.len() == zooms@.len()
                    &&& given == dims@.len()
                    &&& given != 2
                },
                ArgumentValidationError::DimensionOutOfRange => {
                    &&& outputs@.len() == 0 || outputs@.len() == zooms@.len()
                    &&& dims@.len() == 2
                    &&& !dims_in_range(dims@)
                },
                ArgumentValidationError::ZoomOutOfRange => {
                    &&& outputs@.len() == 0 || outputs@.len() == zooms@.len()
                    &&& dims@.len() == 2
                    &&& dims_in_range(dims@)
                    &&& !zooms_in_range(zooms@)
                },
                ArgumentValidationError::InputMissingExtension => {
                    &&& outputs@.len() == 0 || outputs@.len() == zooms@.len()
                    &&& dims@.len() == 2
                    &&& dims_in_range(dims@)
                    &&& zooms_in_range(zooms@)
                    &&& outputs@.len() < zooms@.len()
                    &&& input@.index_of_last('.') is None
                },
            },
        },
{
    if outputs.len() != 0 && outputs.len() != zooms.len() {
        return Err(
            ArgumentValidationError::OutputCountMismatch {
                outputs: outputs.len(),
                zooms: zooms.len(),
            },
        );
    }
    if dims.len() != 2 {
        return Err(ArgumentValidationError::DimensionCountMismatch { given: dims.len() });
    }
    let width_dim = dims[0];
    let height_dim = dims[1];
    if width_dim < 1 || width_dim > MAX_DIM as i64 || height_dim < 1 || height_dim > MAX_DIM
        as i64 {
        return Err(ArgumentValidationError::DimensionOutOfRange);
    }
    proof {
        assert forall|j: int| 0 <= j < dims@.len() implies 1 <= #[trigger] dims@[j] <= MAX_DIM by {
            assert(j == 0 || j == 1);
        }
    }
    let mut i: usize = 0;
    while i < zooms.len()
        invariant
            i <= zooms@.len(),
            outputs@.len() == 0 || outputs@.len() == zooms@.len(),
            dims@.len() == 2,
            dims_in_range(dims@),
            forall|j: int| 0 <= j < i ==> 1 <= #[trigger] zooms@[j] <= MAX_ZOOM100,
        decreases zooms@.len() - i,
    {
        let z = zooms[i];
        if z < 1 || z > MAX_ZOOM100 {
            proof {
                assert(!(1 <= zooms@[i as int] <= MAX_ZOOM100));
            }
            return Err(ArgumentValidationError::ZoomOutOfRange);
        }
        i = i + 1;
    }
    let mut tasks: Vec<OutputTask> = Vec::new();
    let mut k: usize = 0;
    while k < zooms.len()
        invariant
            k <= zooms@.len(),
            outputs@.len() == 0 || outputs@.len() == zooms@.len(),
            dims@.len() == 2,
            dims_in_range(dims@),
            zooms_in_range(zooms@),
            tasks@.len() == k,
            forall|j: int|
                0 <= j < k ==> {
                    &&& (#[trigger] tasks@[j]).zoom100 == zooms@[j]
                    &&& tasks@[j].path@ == (if j < outputs@.len() {
                        outputs@[j]@
                    } else {
                        derived_output_name_spec(input@, zooms@[j] as nat)
                    })
                },
            outputs@.len() < zooms@.len() && k > 0 ==> input@.index_of_last('.') is Some,
        decreases zooms@.len() - k,
    {
        let z = zooms[k];
        let path: String = if k < outputs.len() {
            outputs[k].clone()
        } else {
            match derived_output_name(input, z) {
                Some(name) => name,
                None => {
                    return Err(ArgumentValidationError::InputMissingExtension);
                },
            }
        };
        tasks.push(OutputTask { zoom100: z, path });
        k = k + 1;
    }
    Ok(BatchPlan { width: width_dim as u32, height: height_dim as u32, tasks })
}

} // verus!
