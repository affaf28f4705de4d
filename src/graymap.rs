use vstd::prelude::*;
use crate::error::AnalysisError;
use crate::text::{decimal, push_decimal};

verus! {

/// The header of a binary graymap: `P5`, the width and height, and the largest
/// sample value 255, each on its own line.
pub open spec fn graymap_header(width: nat, height: nat) -> Seq<u8> {
    seq![80u8, 53u8, 10u8] + decimal(width) + seq![32u8] + decimal(height) + seq![
        10u8,
        50u8,
        53u8,
        53u8,
        10u8,
    ]
}

/// The first `rows` rows of a plane, `width` samples each, where row `y` starts
/// at `y * stride`.
pub open spec fn plane_rows(plane: Seq<u8>, width: nat, stride: nat, rows: nat) -> Seq<u8>
    decreases rows,
{
    if rows == 0 {
        Seq::empty()
    } else {
        let start = (rows - 1) * stride;
        plane_rows(plane, width, stride, (rows - 1) as nat) + plane.subrange(
            start as int,
            start + width,
        )
    }
}

/// Whether a plane of `len` bytes with rows `stride` bytes apart holds `height`
/// rows of `width` samples.
pub open spec fn plane_fits(len: nat, width: nat, height: nat, stride: nat) -> bool {
    width <= stride && (height == 0 || (height - 1) * stride + width <= len)
}

/// Writes the luma plane of a frame as a binary graymap: the header, then
/// `height` rows of `width` bytes, row `y` read from `y * stride`. Fails when
/// the stride is below the width or the plane is too short.
pub fn graymap_dump(width: usize, height: usize, stride: usize, plane: &Vec<u8>) -> (r: Result<
    Vec<u8>,
    AnalysisError,
>)
    ensures
        r is Ok <==> plane_fits(plane@.len(), width as nat, height as nat, stride as nat),
        r matches Ok(b) ==> b@ == graymap_header(width as nat, height as nat) + plane_rows(
            plane@,
            width as nat,
            stride as nat,
            height as nat,
        ),
        r is Err ==> r == Err::<Vec<u8>, AnalysisError>(AnalysisError::BadPlaneLayout),
{
    let len: usize = plane.len();
    if stride < width {
        return Err(AnalysisError::BadPlaneLayout);
    }
    if height > 0 {
        assert((height - 1) * stride == stride * (height - 1)) by (nonlinear_arith);
        let need = match stride.checked_mul(height - 1) {
            Some(rows) => rows.checked_add(width),
            None => None,
        };
        match need {
            Some(n) => {
                if n > len {
                    return Err(AnalysisError::BadPlaneLayout);
                }
            },
            None => {
                return Err(AnalysisError::BadPlaneLayout);
            },
        }
    }
    let mut out: Vec<u8> = Vec::new();
    out.push(80u8);
    out.push(53u8);
    out.push(10u8);
    push_decimal(&mut out, width);
    out.push(32u8);
    push_decimal(&mut out, height);
    out.push(10u8);
    out.push(50u8);
    out.push(53u8);
    out.push(53u8);
    out.push(10u8);
    let ghost header = out@;
    assert(header =~= graymap_header(width as nat, height as nat));
    let mut y: usize = 0;
    while y < height
        invariant
            y <= height,
            width <= stride,
            len == plane@.len(),
            height > 0 ==> (height - 1) * stride + width <= len,
            out@ == header + plane_rows(plane@, width as nat, stride as nat, y as nat),
        decreases height - y,
    {
        proof {
            assert(y * stride <= (height - 1) * stride) by (nonlinear_arith)
                requires
                    y <= height - 1,
            ;
            assert(y * stride + width <= plane@.len());
        }
        let start: usize = y * stride;
        let ghost before = out@;
        let mut x: usize = 0;
        while x < width
            invariant
                x <= width,
                start == y * stride,
                start + width <= len,
                len == plane@.len(),
                out@ == before + plane@.subrange(start as int, start + x),
            decreases width - x,
        {
            out.push(plane[start + x]);
            assert(plane@.subrange(start as int, start + x + 1) =~= plane@.subrange(
                start as int,
                start + x,
            ).push(plane@[start + x]));
            x = x + 1;
        }
        assert(out@ =~= header + plane_rows(plane@, width as nat, stride as nat, (y + 1) as nat));
        y = y + 1;
    }
    Ok(out)
}

} // verus!
