use burn_core::process_2d_kernel;
use burn_core::ops::MorphOperator;
use burn_core::ops::VecMorphOperator;
use burn_core::MaxOp;
use burn_core::MinOp;
use burn_core::MorphColumnFilter;
use burn_core::MorphColumnVec;
use burn_core::MorphFilter;
use burn_core::MorphRowFilter;
use burn_core::MorphRowVec;
use burn_core::MorphVec;
use burn_core::Point;
use burn_core::Size;

fn naive_row(src: &[u8], width: usize, ch: usize, ksize: usize, op: fn(u8, u8) -> u8) -> Vec<u8> {
    let mut out = vec![0u8; width * ch];
    for i in 0..width * ch {
        let mut m = src[i];
        for k in 1..ksize {
            m = op(m, src[i + k * ch]);
        }
        out[i] = m;
    }
    out
}

fn naive_column(
    rows: &[Vec<u8>],
    count: usize,
    width: usize,
    ksize: usize,
    op: fn(u8, u8) -> u8,
) -> Vec<u8> {
    let mut out = vec![0u8; count * width];
    for y in 0..count {
        for x in 0..width {
            let mut m = rows[y][x];
            for k in 1..ksize {
                m = op(m, rows[y + k][x]);
            }
            out[y * width + x] = m;
        }
    }
    out
}

fn min8(a: u8, b: u8) -> u8 {
    if a <= b { a } else { b }
}

fn max8(a: u8, b: u8) -> u8 {
    if a >= b { a } else { b }
}

#[test]
fn vector_operator_matches_scalar() {
    let a: Vec<u8> = vec![3, 200, 7, 7, 0, 255, 13, 90, 41];
    let b: Vec<u8> = vec![5, 199, 7, 6, 1, 0, 14, 89, 41];
    let mins = <MinOp as VecMorphOperator<u8>>::apply_lanes(&a, &b);
    let maxs = <MaxOp as VecMorphOperator<u8>>::apply_lanes(&a, &b);
    for k in 0..a.len() {
        assert_eq!(mins[k], <MinOp as MorphOperator<u8>>::apply(a[k], b[k]));
        assert_eq!(maxs[k], <MaxOp as MorphOperator<u8>>::apply(a[k], b[k]));
        assert_eq!(mins[k], min8(a[k], b[k]));
        assert_eq!(maxs[k], max8(a[k], b[k]));
    }
}

#[test]
fn row_filter_max_padded_scenario() {
    // width 6, one channel, three taps; source padded by one replicated
    // element on each side.
    let src: Vec<u8> = vec![5, 5, 1, 4, 2, 8, 3, 3];
    let filter = MorphRowFilter::<u8, MaxOp, MorphRowVec>::new(3, 0);
    let mut dst: Vec<u8> = vec![0; 6];
    filter.apply(&src, &mut dst, 6, 1);
    assert_eq!(dst, vec![5, 5, 4, 8, 8, 8]);
}

#[test]
fn row_filter_unit_kernel_identity() {
    let width = 13;
    let ch = 3;
    let src: Vec<u8> = (0..(width * ch) as u32).map(|v| (v * 7 % 251) as u8).collect();
    let filter = MorphRowFilter::<u8, MinOp, MorphRowVec>::new(1, 0);
    let mut dst: Vec<u8> = vec![0; width * ch];
    filter.apply(&src, &mut dst, width, ch);
    assert_eq!(dst, src);
}

#[test]
fn row_filter_tail_matches_reference() {
    // widths around the vector lane boundaries, including one element more
    // than a lane multiple
    for &width in &[1usize, 3, 4, 5, 7, 8, 9, 16, 17, 31, 32, 33, 65] {
        for &ch in &[1usize, 2, 3] {
            let ksize = 3;
            let n = (width + ksize - 1) * ch;
            let src: Vec<u8> = (0..n as u32).map(|v| (v * 31 % 253) as u8).collect();
            let filter = MorphRowFilter::<u8, MinOp, MorphRowVec>::new(ksize, 1);
            let mut dst: Vec<u8> = vec![7; width * ch];
            filter.apply(&src, &mut dst, width, ch);
            assert_eq!(dst, naive_row(&src, width, ch, ksize, min8));
        }
    }
}

#[test]
fn column_filter_pairs_even_count() {
    let width = 9;
    let count = 4;
    let ksize = 3;
    let rows: Vec<Vec<u8>> = (0..count + ksize - 1)
        .map(|r| (0..width).map(|x| ((r * 13 + x * 5) % 241) as u8).collect())
        .collect();
    let filter = MorphColumnFilter::<u8, MaxOp, MorphColumnVec>::new(ksize, 1);
    let mut dst: Vec<u8> = vec![0; count * width];
    filter.apply(&rows, &mut dst, width, count, width);
    assert_eq!(dst, naive_column(&rows, count, width, ksize, max8));
}

#[test]
fn column_filter_pairs_odd_count() {
    let width = 9;
    let count = 5;
    let ksize = 3;
    let rows: Vec<Vec<u8>> = (0..count + ksize - 1)
        .map(|r| (0..width).map(|x| ((r * 17 + x * 3) % 239) as u8).collect())
        .collect();
    let filter = MorphColumnFilter::<u8, MinOp, MorphColumnVec>::new(ksize, 1);
    let mut dst: Vec<u8> = vec![0; count * width];
    filter.apply(&rows, &mut dst, width, count, width);
    assert_eq!(dst, naive_column(&rows, count, width, ksize, min8));
}

#[test]
fn column_filter_tail_matches_reference() {
    // width one past a lane multiple, and strides wider than the row
    let width = 33;
    let count = 3;
    let ksize = 2;
    let dst_step = 40;
    let rows: Vec<Vec<u8>> = (0..count + ksize - 1)
        .map(|r| (0..width).map(|x| ((r * 29 + x * 7) % 251) as u8).collect())
        .collect();
    let filter = MorphColumnFilter::<u8, MaxOp, MorphColumnVec>::new(ksize, 0);
    let mut dst: Vec<u8> = vec![9; (count - 1) * dst_step + width];
    filter.apply(&rows, &mut dst, dst_step, count, width);
    let naive = naive_column(&rows, count, width, ksize, max8);
    for y in 0..count {
        for x in 0..width {
            assert_eq!(dst[y * dst_step + x], naive[y * width + x]);
        }
    }
    // the gaps between bands keep their old contents
    for y in 0..count - 1 {
        for x in width..dst_step {
            assert_eq!(dst[y * dst_step + x], 9);
        }
    }
}

#[test]
fn kernel_coords_row_major_order() {
    let mask: Vec<bool> = vec![
        false, true, false,
        true, false, true,
        false, false, true,
    ];
    let coords = process_2d_kernel(&mask, Size::new(3, 3));
    assert_eq!(
        coords,
        vec![
            Point::new(1, 0),
            Point::new(0, 1),
            Point::new(2, 1),
            Point::new(2, 2),
        ]
    );
}

#[test]
fn degenerate_kernel_single_origin_tap() {
    let mask: Vec<bool> = vec![false; 9];
    let coords = process_2d_kernel(&mask, Size::new(3, 3));
    assert_eq!(coords, vec![Point::new(0, 0)]);
}

#[test]
fn degenerate_kernel_filters_identity() {
    let mask: Vec<u8> = vec![0; 9];
    let mut filter =
        MorphFilter::<u8, MinOp, MorphVec<u8, MinOp>>::new(&mask, Size::new(3, 3), Point::new(1, 1));
    let width = 6;
    let count = 4;
    let rows: Vec<Vec<u8>> = (0..count)
        .map(|r| (0..width).map(|x| ((r * 11 + x) % 101) as u8).collect())
        .collect();
    let mut dst: Vec<u8> = vec![0; count * width];
    filter.apply(&rows, &mut dst, width, count, width, 1);
    for y in 0..count {
        for x in 0..width {
            assert_eq!(dst[y * width + x], rows[y][x]);
        }
    }
}

#[test]
fn min_filter_ramp_center() {
    // a 5x5 ramp image (value = y * 5 + x) with a replicated border, eroded
    // by a fully active 3x3 element
    let mut padded: Vec<Vec<u8>> = Vec::new();
    for y in 0..7i32 {
        let yy = (y - 1).clamp(0, 4);
        let mut row: Vec<u8> = Vec::new();
        for x in 0..7i32 {
            let xx = (x - 1).clamp(0, 4);
            row.push((yy * 5 + xx) as u8);
        }
        padded.push(row);
    }
    let mask: Vec<bool> = vec![true; 9];
    let mut filter =
        MorphFilter::<u8, MinOp, MorphVec<u8, MinOp>>::new(&mask, Size::new(3, 3), Point::new(1, 1));
    let mut dst: Vec<u8> = vec![0; 25];
    filter.apply(&padded, &mut dst, 5, 5, 5, 1);
    // the output at (2, 2) is the minimum of the 3x3 neighborhood of the
    // unpadded pixel (2, 2), whose smallest value is at (1, 1)
    assert_eq!(dst[2 * 5 + 2], 6);
    // the corner output replicates down to the image corner value
    assert_eq!(dst[0], 0);
}

#[test]
fn separable_composition_matches_generic() {
    // row filter then column filter with 1-D kernels of 3 taps equals the
    // generic filter with the fully active 3x3 element
    let width = 11;
    let count = 4;
    let ch = 1;
    let k = 3;
    let src_rows: Vec<Vec<u8>> = (0..count + k - 1)
        .map(|r| {
            (0..(width + k - 1) * ch)
                .map(|x| ((r * 37 + x * 13) % 201) as u8)
                .collect()
        })
        .collect();

    // separable path: horizontal pass on each row, then the vertical pass
    let row_filter = MorphRowFilter::<u8, MaxOp, MorphRowVec>::new(k, 1);
    let mut tmp: Vec<Vec<u8>> = Vec::new();
    for r in &src_rows {
        let mut out: Vec<u8> = vec![0; width * ch];
        row_filter.apply(r, &mut out, width, ch);
        tmp.push(out);
    }
    let col_filter = MorphColumnFilter::<u8, MaxOp, MorphColumnVec>::new(k, 1);
    let mut separable: Vec<u8> = vec![0; count * width * ch];
    col_filter.apply(&tmp, &mut separable, width * ch, count, width * ch);

    // generic path: the full 3x3 element on the raw rows
    let mask: Vec<bool> = vec![true; k * k];
    let mut generic_filter =
        MorphFilter::<u8, MaxOp, MorphVec<u8, MaxOp>>::new(&mask, Size::new(k, k), Point::new(1, 1));
    let mut generic: Vec<u8> = vec![0; count * width * ch];
    generic_filter.apply(&src_rows, &mut generic, width * ch, count, width, ch);

    assert_eq!(separable, generic);
}

#[test]
fn generic_filter_multichannel_matches_reference() {
    let width = 5;
    let ch = 2;
    let count = 3;
    let mask: Vec<bool> = vec![true, false, false, true];
    let coords = [(0usize, 0usize), (1, 1)];
    let rows: Vec<Vec<u8>> = (0..count + 1)
        .map(|r| {
            (0..(width + 1) * ch)
                .map(|x| ((r * 43 + x * 19) % 211) as u8)
                .collect()
        })
        .collect();
    let mut filter =
        MorphFilter::<u8, MinOp, MorphVec<u8, MinOp>>::new(&mask, Size::new(2, 2), Point::new(0, 0));
    let mut dst: Vec<u8> = vec![0; count * width * ch];
    filter.apply(&rows, &mut dst, width * ch, count, width, ch);
    for y in 0..count {
        for i in 0..width * ch {
            let mut m = 255u8;
            for &(tx, ty) in &coords {
                m = min8(m, rows[y + ty][tx * ch + i]);
            }
            assert_eq!(dst[y * width * ch + i], m);
        }
    }
}
