//! Motion array layout: 16 steps of data segments from D2000, and the checks
//! made before an array is written to the controller.
//! Steps are contiguous and each takes 2 D registers (REAL or DINT), so the
//! register of a step is `start + step * 2`. The front end gives 13 values per
//! step, in the order of the segments below.

use vstd::prelude::*;

verus! {

/// Array depth register (INT, 1..=16).
pub const DEPTH_D: u16 = 1100;

/// Motion mode register (INT: 1 conditioning / 2 treatment / 3 burn-in); it
/// follows the depth register and both are written together.
pub const MODE_D: u16 = 1101;

/// Largest number of steps.
pub const MAX_DEPTH: usize = 16;

/// Number of data segments, which is also the number of values per step.
pub const SEGMENT_COUNT: usize = 13;

/// Value type of a data segment.
#[derive(Debug, Clone, Copy, PartialEq, Eq, Structural)]
pub enum SegKind {
    /// REAL, 2 registers.
    Real,
    /// DINT, 2 registers (motion interval only).
    Dint,
}

/// One data segment: its name, first D register and value type.
#[derive(Debug, Clone, Copy)]
pub struct Segment {
    pub key: &'static str,
    pub start: u16,
    pub kind: SegKind,
}

/// First D register of segment `i`: twelve REAL segments of 32 registers from
/// D2000, then the DINT motion interval at D2900.
pub open spec fn segment_start(i: int) -> u16 {
    if 0 <= i < 12 {
        (2000 + 32 * i) as u16
    } else {
        2900
    }
}

/// Value type of segment `i`: only the last one (motion interval) is DINT.
pub open spec fn segment_kind(i: int) -> SegKind {
    if i == 12 {
        SegKind::Dint
    } else {
        SegKind::Real
    }
}

/// Name of segment `i`, as the front end's column header shows it.
pub open spec fn segment_key(i: int) -> Seq<char> {
    if i == 0 {
        "胸背坐标"@
    } else if i == 1 {
        "臀腿坐标"@
    } else if i == 2 {
        "臀盘坐标"@
    } else if i == 3 {
        "胸背速度"@
    } else if i == 4 {
        "臀腿速度"@
    } else if i == 5 {
        "臀盘速度"@
    } else if i == 6 {
        "胸背加速度"@
    } else if i == 7 {
        "臀腿加速度"@
    } else if i == 8 {
        "臀盘加速度"@
    } else if i == 9 {
        "胸背减速度"@
    } else if i == 10 {
        "臀腿减速度"@
    } else if i == 11 {
        "臀盘减速度"@
    } else {
        "运动间隔"@
    }
}

/// The data segment at column `i` (columns in front-end order).
pub fn segment(i: usize) -> (s: Segment)
    requires
        i < SEGMENT_COUNT,
    ensures
        s.start == segment_start(i as int),
        s.kind == segment_kind(i as int),
        s.key@ == segment_key(i as int),
{
    match i {
        0 => Segment { key: "胸背坐标", start: 2000, kind: SegKind::Real },
        1 => Segment { key: "臀腿坐标", start: 2032, kind: SegKind::Real },
        2 => Segment { key: "臀盘坐标", start: 2064, kind: SegKind::Real },
        3 => Segment { key: "胸背速度", start: 2096, kind: SegKind::Real },
        4 => Segment { key: "臀腿速度", start: 2128, kind: SegKind::Real },
        5 => Segment { key: "臀盘速度", start: 2160, kind: SegKind::Real },
        6 => Segment { key: "胸背加速度", start: 2192, kind: SegKind::Real },
        7 => Segment { key: "臀腿加速度", start: 2224, kind: SegKind::Real },
        8 => Segment { key: "臀盘加速度", start: 2256, kind: SegKind::Real },
        9 => Segment { key: "胸背减速度", start: 2288, kind: SegKind::Real },
        10 => Segment { key: "臀腿减速度", start: 2320, kind: SegKind::Real },
        11 => Segment { key: "臀盘减速度", start: 2352, kind: SegKind::Real },
        _ => Segment { key: "运动间隔", start: 2900, kind: SegKind::Dint },
    }
}

/// All data segments, in front-end column order.
pub fn segments() -> (v: Vec<Segment>)
    ensures
        v@.len() == SEGMENT_COUNT,
        forall|i: int|
            0 <= i < SEGMENT_COUNT ==> (#[trigger] v@[i]).start == segment_start(i) && v@[i].kind
                == segment_kind(i) && v@[i].key@ == segment_key(i),
{
    let mut v: Vec<Segment> = Vec::new();
    let mut i: usize = 0;
    while i < SEGMENT_COUNT
        invariant
            i <= SEGMENT_COUNT,
            v@.len() == i,
            forall|k: int|
                0 <= k < i ==> (#[trigger] v@[k]).start == segment_start(k) && v@[k].kind
                    == segment_kind(k) && v@[k].key@ == segment_key(k),
        decreases SEGMENT_COUNT - i,
    {
        v.push(segment(i));
        i = i + 1;
    }
    v
}

/// D register of step `step` (0-based) in segment `i`.
pub open spec fn step_register(i: int, step: int) -> int {
    segment_start(i) + step * 2
}

/// The segments lie in ascending order, each with room for all 16 steps, none
/// overlapping the next, all above the depth and mode registers, and all within
/// the D register range.
pub proof fn lemma_segments_disjoint(i: int, j: int, s: int, t: int)
    requires
        0 <= i < j < SEGMENT_COUNT,
        0 <= s < MAX_DEPTH,
        0 <= t < MAX_DEPTH,
    ensures
        step_register(i, s) + 2 <= step_register(j, t),
        MODE_D < step_register(i, s),
        step_register(j, t) + 2 <= u16::MAX + 1,
{
}

/// What the checks read of one entry of the step table (an `f64` in the front
/// end), and the two register images it can be written as.
#[derive(Debug, Clone, Copy)]
pub struct CellValue {
    /// The entry is a finite number.
    pub finite: bool,
    /// The entry lies in `-2147483648.0..=2147483647.0`.
    pub fits_dint: bool,
    /// Big-endian bytes of the entry as an `f32` (REAL image).
    pub real_be: [u8; 4],
    /// The entry rounded to the nearest integer (DINT image).
    pub dint: i32,
}

/// Why a motion array is refused; steps are numbered from 1.
#[derive(Debug, Clone, Copy, PartialEq, Eq, Structural)]
pub enum ArrayError {
    /// The depth is not in 1..=16.
    DepthOutOfRange { depth: u16 },
    /// The mode is not 1, 2 or 3.
    BadMode { mode: u16 },
    /// The number of rows differs from the depth.
    RowCount { rows: usize, depth: u16 },
    /// A step does not have one value per segment.
    ColumnCount { step: usize, cols: usize },
    /// A value is not a finite number.
    NotFinite { step: usize, segment: usize },
    /// A DINT value lies outside the DINT range.
    DintOutOfRange { step: usize, segment: usize },
}

/// First refused value of `row` from column `j` on (step number `step`).
pub open spec fn cell_error(row: Seq<CellValue>, j: int, step: int) -> Option<ArrayError>
    decreases SEGMENT_COUNT - j,
{
    if j < 0 || j >= SEGMENT_COUNT {
        None
    } else if !row[j].finite {
        Some(ArrayError::NotFinite { step: step as usize, segment: j as usize })
    } else if segment_kind(j) == SegKind::Dint && !row[j].fits_dint {
        Some(ArrayError::DintOutOfRange { step: step as usize, segment: j as usize })
    } else {
        cell_error(row, j + 1, step)
    }
}

/// First fault of one step row (step number `step`).
pub open spec fn row_error(row: Seq<CellValue>, step: int) -> Option<ArrayError> {
    if row.len() != SEGMENT_COUNT {
        Some(ArrayError::ColumnCount { step: step as usize, cols: row.len() as usize })
    } else {
        cell_error(row, 0, step)
    }
}

/// First fault among the rows from row `i` on.
pub open spec fn rows_error(rows: Seq<Vec<CellValue>>, i: int) -> Option<ArrayError>
    decreases rows.len() - i,
{
    if i < 0 || i >= rows.len() {
        None
    } else {
        match row_error(rows[i]@, i + 1) {
            Some(e) => Some(e),
            None => rows_error(rows, i + 1),
        }
    }
}

/// The verdict on a motion array: depth, then mode, then row count, then the
/// rows in order (column count, then each value: finite, and in DINT range for
/// the DINT segment). Speeds and accelerations have no upper limit here; the
/// controller's process limits guard them.
pub open spec fn spec_validate(depth: u16, mode: u16, rows: Seq<Vec<CellValue>>) -> Result<
    (),
    ArrayError,
> {
    if !(1 <= depth <= MAX_DEPTH) {
        Err(ArrayError::DepthOutOfRange { depth })
    } else if !(mode == 1 || mode == 2 || mode == 3) {
        Err(ArrayError::BadMode { mode })
    } else if rows.len() != depth {
        Err(ArrayError::RowCount { rows: rows.len() as usize, depth })
    } else {
        match rows_error(rows, 0) {
            Some(e) => Err(e),
            None => Ok(()),
        }
    }
}

/// Checks a motion array before it is written.
pub fn validate(depth: u16, mode: u16, rows: &Vec<Vec<CellValue>>) -> (r: Result<(), ArrayError>)
    ensures
        r == spec_validate(depth, mode, rows@),
        r is Ok <==> acceptable_table(depth, mode, rows@),
{
    proof {
        lemma_validate_accepts_exactly(depth, mode, rows@);
    }
    if !(1 <= depth && depth <= 16) {
        return Err(ArrayError::DepthOutOfRange { depth });
    }
    if !(mode == 1 || mode == 2 || mode == 3) {
        return Err(ArrayError::BadMode { mode });
    }
    if rows.len() != depth as usize {
        return Err(ArrayError::RowCount { rows: rows.len(), depth });
    }
    let mut i: usize = 0;
    while i < rows.len()
        invariant
            i <= rows.len() <= MAX_DEPTH,
            rows.len() == depth,
            1 <= depth <= MAX_DEPTH,
            mode == 1 || mode == 2 || mode == 3,
            rows_error(rows@, 0) == rows_error(rows@, i as int),
        decreases rows.len() - i,
    {
        let row = &rows[i];
        let step = i + 1;
        if row.len() != SEGMENT_COUNT {
            return Err(ArrayError::ColumnCount { step, cols: row.len() });
        }
        let mut j: usize = 0;
        while j < SEGMENT_COUNT
            invariant
                j <= SEGMENT_COUNT,
                row@.len() == SEGMENT_COUNT,
                step == i + 1,
                i < rows.len() <= MAX_DEPTH,
                rows.len() == depth,
                1 <= depth <= MAX_DEPTH,
                mode == 1 || mode == 2 || mode == 3,
                *row == rows@[i as int],
                rows_error(rows@, 0) == rows_error(rows@, i as int),
                cell_error(row@, 0, step as int) == cell_error(row@, j as int, step as int),
            decreases SEGMENT_COUNT - j,
        {
            let c = row[j];
            if !c.finite {
                return Err(ArrayError::NotFinite { step, segment: j });
            }
            if j == 12 && !c.fits_dint {
                return Err(ArrayError::DintOutOfRange { step, segment: j });
            }
            j = j + 1;
        }
        i = i + 1;
    }
    Ok(())
}

/// Every value of `row` from column `j` on is a finite number, and the DINT
/// value (last column) lies in the DINT range.
pub open spec fn values_ok_from(row: Seq<CellValue>, j: int) -> bool {
    forall|c: int| j <= c < SEGMENT_COUNT ==> (#[trigger] row[c]).finite && (c == 12 ==> row[c].fits_dint)
}

/// What an acceptable motion array is: depth 1..=16, mode 1, 2 or 3, one row
/// per step, each row with one value per segment, every value finite, and
/// every motion interval within the DINT range.
pub open spec fn acceptable_table(depth: u16, mode: u16, rows: Seq<Vec<CellValue>>) -> bool {
    &&& 1 <= depth <= MAX_DEPTH
    &&& (mode == 1 || mode == 2 || mode == 3)
    &&& rows.len() == depth
    &&& forall|s: int| 0 <= s < rows.len() ==> (#[trigger] rows[s])@.len() == SEGMENT_COUNT
    &&& forall|s: int, c: int|
        0 <= s < rows.len() && 0 <= c < SEGMENT_COUNT ==> (#[trigger] rows[s]@[c]).finite && (c
            == 12 ==> rows[s]@[c].fits_dint)
}

proof fn lemma_cell_error_none(row: Seq<CellValue>, j: int, step: int)
    requires
        row.len() == SEGMENT_COUNT,
        0 <= j <= SEGMENT_COUNT,
    ensures
        cell_error(row, j, step) is None <==> values_ok_from(row, j),
    decreases SEGMENT_COUNT - j,
{
    if j < SEGMENT_COUNT {
        lemma_cell_error_none(row, j + 1, step);
        if values_ok_from(row, j + 1) && row[j].finite && (j == 12 ==> row[j].fits_dint) {
            assert forall|c: int| j <= c < SEGMENT_COUNT implies (#[trigger] row[c]).finite && (c
                == 12 ==> row[c].fits_dint) by {
                if c > j {
                    assert(values_ok_from(row, j + 1));
                }
            }
        }
        if values_ok_from(row, j) {
            assert(row[j].finite);
            assert(values_ok_from(row, j + 1));
        }
    }
}

proof fn lemma_rows_error_none(rows: Seq<Vec<CellValue>>, i: int)
    requires
        0 <= i <= rows.len(),
    ensures
        rows_error(rows, i) is None <==> (forall|s: int|
            i <= s < rows.len() ==> (#[trigger] rows[s])@.len() == SEGMENT_COUNT && values_ok_from(
                rows[s]@,
                0,
            )),
    decreases rows.len() - i,
{
    if i < rows.len() {
        lemma_rows_error_none(rows, i + 1);
        if rows[i]@.len() == SEGMENT_COUNT {
            lemma_cell_error_none(rows[i]@, 0, i + 1);
        }
        if (forall|s: int|
            i <= s < rows.len() ==> (#[trigger] rows[s])@.len() == SEGMENT_COUNT && values_ok_from(
                rows[s]@,
                0,
            )) {
            assert(rows[i]@.len() == SEGMENT_COUNT && values_ok_from(rows[i]@, 0));
        }
    }
}

/// The checks accept exactly the acceptable motion arrays: an array is
/// written or saved only when every value of every row (all 13 columns) is a
/// finite number, the motion intervals fit a DINT, and the shape, depth and
/// mode are right; every such array is accepted.
pub proof fn lemma_validate_accepts_exactly(depth: u16, mode: u16, rows: Seq<Vec<CellValue>>)
    ensures
        spec_validate(depth, mode, rows) is Ok <==> acceptable_table(depth, mode, rows),
{
    lemma_rows_error_none(rows, 0);
    if spec_validate(depth, mode, rows) is Ok {
        assert forall|s: int, c: int|
            0 <= s < rows.len() && 0 <= c < SEGMENT_COUNT implies (#[trigger] rows[s]@[c]).finite && (c
                == 12 ==> rows[s]@[c].fits_dint) by {
            assert(values_ok_from(rows[s]@, 0));
        }
    }
    if acceptable_table(depth, mode, rows) {
        assert forall|s: int| 0 <= s < rows.len() implies (#[trigger] rows[s])@.len()
            == SEGMENT_COUNT && values_ok_from(rows[s]@, 0) by {
            assert forall|c: int| 0 <= c < SEGMENT_COUNT implies (#[trigger] rows[s]@[c]).finite && (c
                == 12 ==> rows[s]@[c].fits_dint) by {
                assert(rows[s]@[c].finite);
            }
        }
    }
}

} // verus!
