use ldr_plc::arrays::{segment, segments, validate, ArrayError, CellValue, SegKind, DEPTH_D, MAX_DEPTH, MODE_D, SEGMENT_COUNT};

fn cell(v: f64) -> CellValue {
    CellValue {
        finite: v.is_finite(),
        fits_dint: (-2_147_483_648.0..=2_147_483_647.0).contains(&v),
        real_be: (v as f32).to_be_bytes(),
        dint: v.round() as i32,
    }
}

fn rows(depth: usize) -> Vec<Vec<CellValue>> {
    (0..depth).map(|s| (0..SEGMENT_COUNT).map(|c| cell((s * 10 + c) as f64)).collect()).collect()
}

#[test]
fn segment_layout() {
    let segs = segments();
    assert_eq!(segs.len(), 13);
    assert_eq!(segs[0].start, 2000);
    assert_eq!(segs[0].key, "胸背坐标");
    assert_eq!(segs[11].start, 2352);
    assert_eq!(segs[12].start, 2900);
    assert_eq!(segs[12].kind, SegKind::Dint);
    assert_eq!(segment(5).kind, SegKind::Real);
    for i in 0..12 {
        assert!(segs[i].start as usize + 2 * MAX_DEPTH <= segs[i + 1].start as usize);
        assert!(MODE_D < segs[i].start);
    }
    assert_eq!(DEPTH_D + 1, MODE_D);
}

#[test]
fn validate_accepts_good_table() {
    assert_eq!(validate(3, 2, &rows(3)), Ok(()));
    assert_eq!(validate(16, 1, &rows(16)), Ok(()));
}

#[test]
fn validate_depth_and_mode() {
    assert_eq!(validate(0, 1, &rows(0)), Err(ArrayError::DepthOutOfRange { depth: 0 }));
    assert_eq!(validate(17, 1, &rows(17)), Err(ArrayError::DepthOutOfRange { depth: 17 }));
    assert_eq!(validate(2, 4, &rows(2)), Err(ArrayError::BadMode { mode: 4 }));
    assert_eq!(validate(2, 0, &rows(2)), Err(ArrayError::BadMode { mode: 0 }));
    assert_eq!(validate(2, 3, &rows(3)), Err(ArrayError::RowCount { rows: 3, depth: 2 }));
}

#[test]
fn validate_row_contents() {
    let mut r = rows(3);
    r[1].pop();
    assert_eq!(validate(3, 1, &r), Err(ArrayError::ColumnCount { step: 2, cols: 12 }));

    let mut r = rows(3);
    r[2][4] = cell(f64::NAN);
    r[2][12] = cell(3e9);
    assert_eq!(validate(3, 1, &r), Err(ArrayError::NotFinite { step: 3, segment: 4 }));

    let mut r = rows(3);
    r[0][12] = cell(3e9);
    assert_eq!(validate(3, 1, &r), Err(ArrayError::DintOutOfRange { step: 1, segment: 12 }));

    let mut r = rows(3);
    r[0][3] = cell(3e9);
    assert_eq!(validate(3, 1, &r), Ok(()));

    let mut r = rows(2);
    r[1][0] = cell(f64::INFINITY);
    r[0].push(cell(1.0));
    assert_eq!(validate(2, 1, &r), Err(ArrayError::ColumnCount { step: 1, cols: 14 }));
}
