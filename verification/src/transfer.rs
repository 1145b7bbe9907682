//! Register transfers: splitting long reads and writes into Modbus frames,
//! laying a motion array out as register writes, and reading one back.

use vstd::prelude::*;
use crate::address::PlcMap;
use crate::arrays::{
    segment, segment_kind, segment_start, spec_validate, validate, ArrayError, CellValue, SegKind,
    DEPTH_D, MAX_DEPTH, SEGMENT_COUNT,
};
use crate::codec::{
    lemma_bytes_pair_roundtrip, lemma_dint_roundtrip, be_bytes_to_pair, encode_dint, i32_be_bytes, pair_to_be_bytes, spec_bytes_pair,
    spec_pair_bytes, ByteOrder,
};

verus! {

/// Most holding registers one FC16 frame may write (PDU 253 bytes less a 6-byte header).
pub const FC16_MAX: usize = 123;

/// Most holding registers one FC03 frame may read.
pub const FC03_MAX: u16 = 125;

/// One FC16 frame of a long write: the registers `regs[from..to]` go to address `addr`.
#[derive(Debug, Clone, Copy, PartialEq, Eq, Structural)]
pub struct WriteChunk {
    pub addr: u16,
    pub from: usize,
    pub to: usize,
}

/// Number of frames that a write of `len` registers takes.
pub open spec fn chunk_count(len: nat, size: nat) -> nat {
    if len == 0 {
        0
    } else {
        ((len - 1) / (size as int) + 1) as nat
    }
}

/// Whether every frame of a write of `len` registers at `addr` has an address:
/// frame `k` goes to `addr + (k * 123 as u16)`, which must not pass 65535.
pub open spec fn write_fits(addr: u16, len: nat) -> bool {
    forall|k: int|
        0 <= k < chunk_count(len, FC16_MAX as nat) ==> addr + (#[trigger] (k * 123) as u16)
            <= u16::MAX
}

/// The FC16 frames of a write of `len` registers at `addr`: consecutive slices
/// of at most 123 registers, in order, covering all registers.
pub fn write_chunks(addr: u16, len: usize) -> (c: Vec<WriteChunk>)
    requires
        write_fits(addr, len as nat),
    ensures
        c@.len() == chunk_count(len as nat, FC16_MAX as nat),
        forall|k: int|
            0 <= k < c@.len() ==> (#[trigger] c@[k]).from == k * 123 && c@[k].to == (if (k + 1)
                * 123 <= len {
                (k + 1) * 123
            } else {
                len as int
            }) && c@[k].addr == addr + ((k * 123) as u16),
{
    let mut c: Vec<WriteChunk> = Vec::new();
    let mut from: usize = 0;
    while from < len
        invariant
            write_fits(addr, len as nat),
            from <= len,
            from < len ==> from == c@.len() * 123,
            from < len ==> c@.len() < chunk_count(len as nat, FC16_MAX as nat),
            from >= len ==> c@.len() == chunk_count(len as nat, FC16_MAX as nat),
            forall|k: int|
                0 <= k < c@.len() ==> (#[trigger] c@[k]).from == k * 123 && c@[k].to == (if (k
                    + 1) * 123 <= len {
                    (k + 1) * 123
                } else {
                    len as int
                }) && c@[k].addr == addr + ((k * 123) as u16),
        decreases len - from,
    {
        let k = c.len();
        let to = if len - from > FC16_MAX {
            from + FC16_MAX
        } else {
            len
        };
        proof {
            assert(0 <= k < chunk_count(len as nat, FC16_MAX as nat));
            assert(addr + ((k as int * 123) as u16) <= u16::MAX);
        }
        let off = from as u16;
        c.push(WriteChunk { addr: addr + off, from, to });
        from = to;
        proof {
            let n = c@.len() as int;
            if from < len {
                assert((n - 1) * 123 + 123 < len);
                assert((len - 1) / 123 >= n) by (nonlinear_arith)
                    requires
                        n * 123 < len,
                        n >= 1,
                ;
            } else {
                assert(len <= n * 123);
                assert(len > (n - 1) * 123);
                assert((len - 1) / 123 == n - 1) by (nonlinear_arith)
                    requires
                        len <= n * 123,
                        len > (n - 1) * 123,
                        n >= 1,
                ;
            }
        }
    }
    c
}

/// One FC03 frame of a long read: `cnt` registers from `addr`.
#[derive(Debug, Clone, Copy, PartialEq, Eq, Structural)]
pub struct ReadChunk {
    pub addr: u16,
    pub cnt: u16,
}

/// The FC03 frames of a read of `cnt` registers at `addr`: frames of 125
/// registers, the last one shorter, at consecutive addresses.
pub fn read_chunks(addr: u16, cnt: u16) -> (c: Vec<ReadChunk>)
    requires
        addr + cnt <= u16::MAX,
    ensures
        c@.len() == chunk_count(cnt as nat, FC03_MAX as nat),
        forall|k: int|
            0 <= k < c@.len() ==> (#[trigger] c@[k]).addr == addr + k * 125 && c@[k].cnt == (if (
            k + 1) * 125 <= cnt {
                125
            } else {
                cnt - k * 125
            }),
{
    let mut c: Vec<ReadChunk> = Vec::new();
    let mut cur: u16 = addr;
    let mut remain: u16 = cnt;
    while remain > 0
        invariant
            addr + cnt <= u16::MAX,
            cur + remain == addr + cnt,
            remain > 0 ==> remain == cnt - c@.len() * 125,
            remain > 0 ==> c@.len() < chunk_count(cnt as nat, FC03_MAX as nat),
            remain == 0 ==> c@.len() == chunk_count(cnt as nat, FC03_MAX as nat),
            forall|k: int|
                0 <= k < c@.len() ==> (#[trigger] c@[k]).addr == addr + k * 125 && c@[k].cnt == (
                if (k + 1) * 125 <= cnt {
                    125
                } else {
                    cnt - k * 125
                }),
        decreases remain,
    {
        let n = if remain < FC03_MAX {
            remain
        } else {
            FC03_MAX
        };
        c.push(ReadChunk { addr: cur, cnt: n });
        cur = cur + n;
        remain = remain - n;
        proof {
            let m = c@.len() as int;
            if remain > 0 {
                assert((cnt - 1) / 125 >= m) by (nonlinear_arith)
                    requires
                        m * 125 < cnt,
                        m >= 1,
                ;
            } else {
                assert((cnt - 1) / 125 == m - 1) by (nonlinear_arith)
                    requires
                        cnt <= m * 125,
                        cnt > (m - 1) * 125,
                        m >= 1,
                ;
            }
        }
    }
    c
}

/// A frame returned fewer registers than asked for.
#[derive(Debug, Clone, Copy, PartialEq, Eq, Structural)]
pub struct ShortRead {
    pub got: usize,
    pub want: u16,
}

/// Appends the first `want` registers of a frame's answer to `out`; a shorter
/// answer is refused and `out` is left as it was.
pub fn take_frame(out: &mut Vec<u16>, got: &Vec<u16>, want: u16) -> (r: Result<(), ShortRead>)
    ensures
        got@.len() >= want ==> r is Ok && final(out)@ == old(out)@ + got@.subrange(0, want as int),
        got@.len() < want ==> r == Err::<(), ShortRead>(ShortRead { got: got@.len() as usize, want })
            && final(out)@ == old(out)@,
{
    if got.len() < want as usize {
        return Err(ShortRead { got: got.len(), want });
    }
    let ghost start = out@;
    let mut i: usize = 0;
    while i < want as usize
        invariant
            i <= want <= got@.len(),
            out@ == start + got@.subrange(0, i as int),
        decreases want - i,
    {
        out.push(got[i]);
        assert(got@.subrange(0, i + 1) =~= got@.subrange(0, i as int).push(got@[i as int]));
        i = i + 1;
    }
    Ok(())
}

/// The two registers of one step table entry in a segment of the given kind:
/// the REAL image for REAL segments, the rounded DINT for the DINT segment.
pub open spec fn cell_pair(cell: CellValue, kind: SegKind, order: ByteOrder) -> (u16, u16) {
    match kind {
        SegKind::Real => spec_bytes_pair(cell.real_be@, order),
        SegKind::Dint => spec_bytes_pair(i32_be_bytes(cell.dint), order),
    }
}

/// Whether `regs` is the register image of column `col` over all rows: step `s`
/// at `regs[2s]`, `regs[2s+1]`.
pub open spec fn segment_image(regs: Seq<u16>, rows: Seq<Vec<CellValue>>, col: int, order: ByteOrder) -> bool {
    &&& regs.len() == 2 * rows.len()
    &&& forall|s: int|
        0 <= s < rows.len() ==> (#[trigger] regs[2 * s], regs[2 * s + 1]) == cell_pair(
            rows[s]@[col],
            segment_kind(col),
            order,
        )
}

/// The register image of one column of the step table.
pub fn segment_registers(rows: &Vec<Vec<CellValue>>, col: usize, order: ByteOrder) -> (regs: Vec<u16>)
    requires
        col < SEGMENT_COUNT,
        rows@.len() <= MAX_DEPTH,
        forall|s: int| 0 <= s < rows@.len() ==> (#[trigger] rows@[s])@.len() == SEGMENT_COUNT,
    ensures
        segment_image(regs@, rows@, col as int, order),
{
    let kind = segment(col).kind;
    let mut regs: Vec<u16> = Vec::new();
    let mut s: usize = 0;
    while s < rows.len()
        invariant
            s <= rows@.len() <= MAX_DEPTH,
            col < SEGMENT_COUNT,
            kind == segment_kind(col as int),
            forall|t: int| 0 <= t < rows@.len() ==> (#[trigger] rows@[t])@.len() == SEGMENT_COUNT,
            regs@.len() == 2 * s,
            forall|t: int|
                0 <= t < s ==> (#[trigger] regs@[2 * t], regs@[2 * t + 1]) == cell_pair(
                    rows@[t]@[col as int],
                    segment_kind(col as int),
                    order,
                ),
        decreases rows@.len() - s,
    {
        let cell = rows[s][col];
        let pair = match kind {
            SegKind::Real => be_bytes_to_pair(cell.real_be, order),
            SegKind::Dint => encode_dint(cell.dint, order),
        };
        let ghost before = regs@;
        regs.push(pair[0]);
        regs.push(pair[1]);
        proof {
            assert forall|t: int| 0 <= t < s + 1 implies (#[trigger] regs@[2 * t], regs@[2 * t
                + 1]) == cell_pair(rows@[t]@[col as int], segment_kind(col as int), order) by {
                if t < s {
                    assert(regs@[2 * t] == before[2 * t]);
                    assert(regs@[2 * t + 1] == before[2 * t + 1]);
                }
            }
        }
        s = s + 1;
    }
    regs
}

/// One register write of a plan.
#[derive(Debug, Clone)]
pub struct RegWrite {
    pub addr: u16,
    pub regs: Vec<u16>,
}

/// The writes that put a motion array into the controller, after the checks:
/// each of the 13 segments at its D register (`d_base + start`), in column
/// order, and last the depth and mode at D1100, by which the controller knows a
/// complete array has arrived.
pub fn upload_plan(
    depth: u16,
    mode: u16,
    rows: &Vec<Vec<CellValue>>,
    map: PlcMap,
    order: ByteOrder,
) -> (r: Result<Vec<RegWrite>, ArrayError>)
    requires
        spec_validate(depth, mode, rows@) is Ok ==> map.d_fits(2900),
    ensures
        spec_validate(depth, mode, rows@) is Err ==> r == Err::<Vec<RegWrite>, ArrayError>(
            spec_validate(depth, mode, rows@)->Err_0,
        ),
        spec_validate(depth, mode, rows@) is Ok ==> r is Ok && ({
            let w = r->Ok_0;
            &&& w@.len() == SEGMENT_COUNT + 1
            &&& forall|c: int|
                0 <= c < SEGMENT_COUNT ==> (#[trigger] w@[c]).addr == map.d_base + segment_start(c)
                    && segment_image(w@[c].regs@, rows@, c, order)
            &&& w@[SEGMENT_COUNT as int].addr == map.d_base + DEPTH_D
            &&& w@[SEGMENT_COUNT as int].regs@ == seq![depth, mode]
        }),
{
    match validate(depth, mode, rows) {
        Err(e) => {
            return Err(e);
        },
        Ok(()) => {},
    }
    proof {
        assert forall|s: int| 0 <= s < rows@.len() implies (#[trigger] rows@[s])@.len()
            == SEGMENT_COUNT by {
            lemma_valid_rows_have_all_columns(rows@, 0, s);
        }
    }
    let mut w: Vec<RegWrite> = Vec::new();
    let mut c: usize = 0;
    while c < SEGMENT_COUNT
        invariant
            c <= SEGMENT_COUNT,
            map.d_fits(2900),
            rows@.len() <= MAX_DEPTH,
            forall|s: int| 0 <= s < rows@.len() ==> (#[trigger] rows@[s])@.len() == SEGMENT_COUNT,
            w@.len() == c,
            forall|k: int|
                0 <= k < c ==> (#[trigger] w@[k]).addr == map.d_base + segment_start(k)
                    && segment_image(w@[k].regs@, rows@, k, order),
        decreases SEGMENT_COUNT - c,
    {
        let seg = segment(c);
        let regs = segment_registers(rows, c, order);
        w.push(RegWrite { addr: map.d_reg(seg.start), regs });
        c = c + 1;
    }
    let head = vec![depth, mode];
    w.push(RegWrite { addr: map.d_reg(DEPTH_D), regs: head });
    Ok(w)
}

/// Rows that pass the checks have one value per segment.
proof fn lemma_valid_rows_have_all_columns(rows: Seq<Vec<CellValue>>, i: int, s: int)
    requires
        0 <= i <= s < rows.len(),
        crate::arrays::rows_error(rows, i) is None,
    ensures
        rows[s]@.len() == SEGMENT_COUNT,
    decreases s - i,
{
    if i < s {
        lemma_valid_rows_have_all_columns(rows, i + 1, s);
    }
}

/// Why an array read back from the controller is refused.
#[derive(Debug, Clone, Copy, PartialEq, Eq, Structural)]
pub enum DownloadError {
    /// D1100 does not hold a depth in 1..=16 (no array has been written).
    DepthOutOfRange { depth: u16 },
}

/// Depth and mode from the registers D1100, D1101 as read back.
pub fn download_head(head: &Vec<u16>) -> (r: Result<(u16, u16), DownloadError>)
    requires
        head@.len() >= 2,
    ensures
        1 <= head@[0] <= MAX_DEPTH ==> r == Ok::<(u16, u16), DownloadError>((head@[0], head@[1])),
        !(1 <= head@[0] <= MAX_DEPTH) ==> r == Err::<(u16, u16), DownloadError>(
            DownloadError::DepthOutOfRange { depth: head@[0] },
        ),
{
    let depth = head[0];
    let mode = head[1];
    if !(1 <= depth && depth <= 16) {
        return Err(DownloadError::DepthOutOfRange { depth });
    }
    Ok((depth, mode))
}

/// One entry read back: the big-endian bytes of a REAL, or a DINT value.
#[derive(Debug, Clone, Copy)]
pub enum RawCell {
    Real([u8; 4]),
    Dint(i32),
}

/// Whether `c` is the entry that the registers `hi`, `lo` hold in a segment of
/// the given kind.
pub open spec fn raw_cell_matches(c: RawCell, hi: u16, lo: u16, kind: SegKind, order: ByteOrder) -> bool {
    match c {
        RawCell::Real(b) => kind == SegKind::Real && b@ == spec_pair_bytes(hi, lo, order),
        RawCell::Dint(v) => kind == SegKind::Dint && v == crate::codec::be_i32(
            spec_pair_bytes(hi, lo, order),
        ),
    }
}

/// The `n` entries of one segment read back as `2 * n` registers.
pub fn decode_segment(regs: &Vec<u16>, n: usize, kind: SegKind, order: ByteOrder) -> (cells: Vec<RawCell>)
    requires
        regs@.len() >= 2 * n,
    ensures
        cells@.len() == n,
        forall|s: int|
            0 <= s < n ==> raw_cell_matches(#[trigger] cells@[s], regs@[2 * s], regs@[2 * s + 1], kind, order),
{
    let mut cells: Vec<RawCell> = Vec::new();
    let mut s: usize = 0;
    while s < n
        invariant
            s <= n,
            regs@.len() >= 2 * n,
            regs.len() >= 2 * n,
            cells@.len() == s,
            forall|t: int|
                0 <= t < s ==> raw_cell_matches(#[trigger] cells@[t], regs@[2 * t], regs@[2 * t + 1], kind, order),
        decreases n - s,
    {
        let pair: [u16; 2] = [regs[2 * s], regs[2 * s + 1]];
        let cell = match kind {
            SegKind::Real => RawCell::Real(pair_to_be_bytes(pair, order)),
            SegKind::Dint => RawCell::Dint(crate::codec::decode_dint(pair, order)),
        };
        cells.push(cell);
        s = s + 1;
    }
    cells
}

/// The step table read back: `seg_regs[c]` holds the registers of segment `c`
/// (at least `2 * n`); entry `[s][c]` is step `s` of segment `c`, decoded by the
/// segment's kind.
pub fn download_rows(seg_regs: &Vec<Vec<u16>>, n: usize, order: ByteOrder) -> (rows: Vec<Vec<RawCell>>)
    requires
        seg_regs@.len() == SEGMENT_COUNT,
        forall|c: int| 0 <= c < SEGMENT_COUNT ==> (#[trigger] seg_regs@[c])@.len() >= 2 * n,
    ensures
        rows@.len() == n,
        forall|s: int| 0 <= s < n ==> (#[trigger] rows@[s])@.len() == SEGMENT_COUNT,
        forall|s: int, c: int|
            0 <= s < n && 0 <= c < SEGMENT_COUNT ==> raw_cell_matches(
                #[trigger] rows@[s]@[c],
                seg_regs@[c]@[2 * s],
                seg_regs@[c]@[2 * s + 1],
                segment_kind(c),
                order,
            ),
{
    let mut cols: Vec<Vec<RawCell>> = Vec::new();
    let mut c: usize = 0;
    while c < SEGMENT_COUNT
        invariant
            c <= SEGMENT_COUNT,
            seg_regs@.len() == SEGMENT_COUNT,
            forall|k: int| 0 <= k < SEGMENT_COUNT ==> (#[trigger] seg_regs@[k])@.len() >= 2 * n,
            cols@.len() == c,
            forall|k: int| 0 <= k < c ==> (#[trigger] cols@[k])@.len() == n,
            forall|k: int, s: int|
                0 <= k < c && 0 <= s < n ==> raw_cell_matches(
                    #[trigger] cols@[k]@[s],
                    seg_regs@[k]@[2 * s],
                    seg_regs@[k]@[2 * s + 1],
                    segment_kind(k),
                    order,
                ),
        decreases SEGMENT_COUNT - c,
    {
        let kind = segment(c).kind;
        let col = decode_segment(&seg_regs[c], n, kind, order);
        cols.push(col);
        c = c + 1;
    }
    let mut rows: Vec<Vec<RawCell>> = Vec::new();
    let mut s: usize = 0;
    while s < n
        invariant
            s <= n,
            cols@.len() == SEGMENT_COUNT,
            forall|k: int| 0 <= k < SEGMENT_COUNT ==> (#[trigger] cols@[k])@.len() == n,
            forall|k: int, t: int|
                0 <= k < SEGMENT_COUNT && 0 <= t < n ==> raw_cell_matches(
                    #[trigger] cols@[k]@[t],
                    seg_regs@[k]@[2 * t],
                    seg_regs@[k]@[2 * t + 1],
                    segment_kind(k),
                    order,
                ),
            rows@.len() == s,
            forall|t: int| 0 <= t < s ==> (#[trigger] rows@[t])@.len() == SEGMENT_COUNT,
            forall|t: int, k: int|
                0 <= t < s && 0 <= k < SEGMENT_COUNT ==> #[trigger] rows@[t]@[k] == cols@[k]@[t],
        decreases n - s,
    {
        let mut row: Vec<RawCell> = Vec::new();
        let mut k: usize = 0;
        while k < SEGMENT_COUNT
            invariant
                k <= SEGMENT_COUNT,
                s < n,
                cols@.len() == SEGMENT_COUNT,
                forall|j: int| 0 <= j < SEGMENT_COUNT ==> (#[trigger] cols@[j])@.len() == n,
                row@.len() == k,
                forall|j: int| 0 <= j < k ==> #[trigger] row@[j] == cols@[j]@[s as int],
            decreases SEGMENT_COUNT - k,
        {
            row.push(cols[k][s]);
            k = k + 1;
        }
        rows.push(row);
        s = s + 1;
    }
    proof {
        assert forall|t: int, k: int| 0 <= t < n && 0 <= k < SEGMENT_COUNT implies raw_cell_matches(
            #[trigger] rows@[t]@[k],
            seg_regs@[k]@[2 * t],
            seg_regs@[k]@[2 * t + 1],
            segment_kind(k),
            order,
        ) by {
            assert(rows@[t]@[k] == cols@[k]@[t]);
        }
    }
    rows
}

/// Outcome of one request frame.
#[derive(Debug, Clone)]
pub enum Frame<T> {
    /// The controller answered with data.
    Data(T),
    /// The controller answered with an exception.
    Refused,
    /// Transport error or timeout: the link can no longer be trusted.
    Lost,
}

/// What a polling task does with one read.
#[derive(Debug, Clone)]
pub enum PollStep<T> {
    /// Send this value to the front end.
    Emit(T),
    /// Nothing to send this tick (exception or short answer).
    Skip,
    /// Declare the link down (the task goes on and waits for the reconnect).
    Downline,
}

/// Why a coil request failed without the link being dropped.
#[derive(Debug, Clone, Copy, PartialEq, Eq, Structural)]
pub enum CoilError {
    /// The controller answered with an exception.
    Refused,
    /// The coil read returned no value.
    Empty,
}

/// Outcome of a single-coil read (FC01, one coil).
#[derive(Debug, Clone, Copy, PartialEq, Eq, Structural)]
pub enum CoilRead {
    Value(bool),
    Fail(CoilError),
    Downline,
}

/// A single-coil read: its first level; an exception or an empty answer is a
/// command error; a lost frame drops the link.
pub fn coil_read_step(read: &Frame<Vec<bool>>) -> (r: CoilRead)
    ensures
        read is Lost ==> r == CoilRead::Downline,
        read is Refused ==> r == CoilRead::Fail(CoilError::Refused),
        read matches Frame::Data(v) ==> (v@.len() == 0 ==> r == CoilRead::Fail(CoilError::Empty))
            && (v@.len() > 0 ==> r == CoilRead::Value(v@[0])),
{
    match read {
        Frame::Data(v) => {
            if v.len() == 0 {
                CoilRead::Fail(CoilError::Empty)
            } else {
                CoilRead::Value(v[0])
            }
        },
        Frame::Refused => CoilRead::Fail(CoilError::Refused),
        Frame::Lost => CoilRead::Downline,
    }
}

/// What a coil toggle does after reading the coil.
#[derive(Debug, Clone, Copy, PartialEq, Eq, Structural)]
pub enum ToggleStep {
    /// Write this (inverted) level, under the same lock.
    Write(bool),
    Fail(CoilError),
    Downline,
}

/// The read half of a toggle: the level to write is the inverse of the level read.
pub fn toggle_step(read: &Frame<Vec<bool>>) -> (r: ToggleStep)
    ensures
        read is Lost ==> r == ToggleStep::Downline,
        read is Refused ==> r == ToggleStep::Fail(CoilError::Refused),
        read matches Frame::Data(v) ==> (v@.len() == 0 ==> r == ToggleStep::Fail(CoilError::Empty))
            && (v@.len() > 0 ==> r == ToggleStep::Write(!v@[0])),
{
    match coil_read_step(read) {
        CoilRead::Value(b) => ToggleStep::Write(!b),
        CoilRead::Fail(e) => ToggleStep::Fail(e),
        CoilRead::Downline => ToggleStep::Downline,
    }
}

/// Outcome of a write frame (FC05/FC06/FC16).
#[derive(Debug, Clone, Copy, PartialEq, Eq, Structural)]
pub enum WriteStep {
    /// Accepted; carries the level or value the command reports back.
    Done(bool),
    Fail(CoilError),
    Downline,
}

/// A write frame: accepted, refused by the controller (a command error), or
/// lost (the link is dropped).
pub fn write_step(w: &Frame<()>, new: bool) -> (r: WriteStep)
    ensures
        w is Data ==> r == WriteStep::Done(new),
        w is Refused ==> r == WriteStep::Fail(CoilError::Refused),
        w is Lost ==> r == WriteStep::Downline,
{
    match w {
        Frame::Data(_) => WriteStep::Done(new),
        Frame::Refused => WriteStep::Fail(CoilError::Refused),
        Frame::Lost => WriteStep::Downline,
    }
}

/// Outcome of one frame of a long register read.
#[derive(Debug, Clone, Copy, PartialEq, Eq, Structural)]
pub enum ReadStep {
    /// The frame's registers were appended; go on with the next frame.
    Taken,
    /// The controller answered with an exception.
    Refused,
    /// The answer was shorter than asked.
    Short(ShortRead),
    /// Transport error or timeout: drop the link.
    Downline,
}

/// Handles one frame of a long read of `want` registers: appends them to `out`
/// when the answer is long enough; otherwise `out` is left as it was.
pub fn read_frame_step(out: &mut Vec<u16>, f: &Frame<Vec<u16>>, want: u16) -> (r: ReadStep)
    ensures
        f is Lost ==> r == ReadStep::Downline && final(out)@ == old(out)@,
        f is Refused ==> r == ReadStep::Refused && final(out)@ == old(out)@,
        f matches Frame::Data(v) ==> (v@.len() >= want ==> r == ReadStep::Taken && final(out)@
            == old(out)@ + v@.subrange(0, want as int)) && (v@.len() < want ==> r
            == ReadStep::Short(ShortRead { got: v@.len() as usize, want }) && final(out)@ == old(
            out,
        )@),
{
    match f {
        Frame::Data(v) => match take_frame(out, v, want) {
            Ok(()) => ReadStep::Taken,
            Err(s) => ReadStep::Short(s),
        },
        Frame::Refused => ReadStep::Refused,
        Frame::Lost => ReadStep::Downline,
    }
}

/// Reading back the registers an upload wrote for segment `c` gives each
/// entry's register image back: for a REAL segment the entry's `f32` bytes, for
/// the DINT segment its rounded value, in every byte order.
pub proof fn lemma_upload_download_roundtrip(
    rows: Seq<Vec<CellValue>>,
    regs: Seq<u16>,
    c: int,
    s: int,
    order: ByteOrder,
    cell: RawCell,
)
    requires
        0 <= c < SEGMENT_COUNT,
        0 <= s < rows.len(),
        segment_image(regs, rows, c, order),
        raw_cell_matches(cell, regs[2 * s], regs[2 * s + 1], segment_kind(c), order),
    ensures
        match cell {
            RawCell::Real(b) => segment_kind(c) == SegKind::Real && b@ == rows[s]@[c].real_be@,
            RawCell::Dint(v) => segment_kind(c) == SegKind::Dint && v == rows[s]@[c].dint,
        },
{
    let v = rows[s]@[c];
    assert((regs[2 * s], regs[2 * s + 1]) == cell_pair(v, segment_kind(c), order));
    if segment_kind(c) == SegKind::Real {
        lemma_bytes_pair_roundtrip(v.real_be@, order);
    } else {
        lemma_dint_roundtrip(v.dint, order);
    }
}

/// The register image of a segment is in the configured byte order: the DINT
/// segment (the last column) holds each step's rounded value as the controller,
/// reading in that order, decodes it; each REAL segment holds each step's
/// `f32` bytes in that order.
pub proof fn lemma_segment_image_in_order(
    regs: Seq<u16>,
    rows: Seq<Vec<CellValue>>,
    c: int,
    s: int,
    order: ByteOrder,
)
    requires
        0 <= c < SEGMENT_COUNT,
        0 <= s < rows.len(),
        segment_image(regs, rows, c, order),
    ensures
        c == 12 ==> (regs[2 * s], regs[2 * s + 1]) == spec_bytes_pair(
            i32_be_bytes(rows[s]@[c].dint),
            order,
        ) && crate::codec::be_i32(spec_pair_bytes(regs[2 * s], regs[2 * s + 1], order))
            == rows[s]@[c].dint,
        c < 12 ==> spec_pair_bytes(regs[2 * s], regs[2 * s + 1], order) == rows[s]@[c].real_be@,
{
    let v = rows[s]@[c];
    assert((regs[2 * s], regs[2 * s + 1]) == cell_pair(v, segment_kind(c), order));
    if c == 12 {
        lemma_dint_roundtrip(v.dint, order);
    } else {
        lemma_bytes_pair_roundtrip(v.real_be@, order);
    }
}

/// Reading back, in the configured byte order, registers that hold a value
/// written in that order gives the value: the DINT segment decodes the value
/// that `encode_dint`'s image carries, a REAL segment the bytes it carries.
pub proof fn lemma_download_cell_in_order(
    hi: u16,
    lo: u16,
    kind: SegKind,
    order: ByteOrder,
    cell: RawCell,
    v: i32,
    b: [u8; 4],
)
    requires
        raw_cell_matches(cell, hi, lo, kind, order),
    ensures
        kind == SegKind::Dint && (hi, lo) == spec_bytes_pair(i32_be_bytes(v), order) ==> (cell
            is Dint && cell->Dint_0 == v),
        kind == SegKind::Real && (hi, lo) == spec_bytes_pair(b@, order) ==> (cell is Real
            && cell->Real_0@ == b@),
{
    if kind == SegKind::Dint && (hi, lo) == spec_bytes_pair(i32_be_bytes(v), order) {
        lemma_dint_roundtrip(v, order);
    }
    if kind == SegKind::Real && (hi, lo) == spec_bytes_pair(b@, order) {
        lemma_bytes_pair_roundtrip(b@, order);
    }
}

/// An array that passes the checks has a depth that reading it back accepts,
/// and one row per step.
pub proof fn lemma_uploaded_head_accepted(depth: u16, mode: u16, rows: Seq<Vec<CellValue>>)
    requires
        spec_validate(depth, mode, rows) is Ok,
    ensures
        1 <= depth <= MAX_DEPTH,
        rows.len() == depth,
{
}

/// Telemetry block: D200..D207, four REAL readings (chest/back, hip/leg, hip disc, push rod).
pub const TELEMETRY_D: u16 = 200;

/// Registers in the telemetry block.
pub const TELEMETRY_CNT: u16 = 8;

/// Global state machine step register D220 (INT16: -1 e-stop, 0 reset, 1 debug, 2 run).
pub const GL_STEP_D: u16 = 220;

/// The big-endian bytes of the four REAL readings of a telemetry read; `None`
/// when fewer than eight registers came back (the tick is skipped).
pub fn telemetry_bytes(regs: &Vec<u16>, order: ByteOrder) -> (r: Option<Vec<[u8; 4]>>)
    ensures
        regs@.len() < TELEMETRY_CNT ==> r is None,
        regs@.len() >= TELEMETRY_CNT ==> r is Some && r->0@.len() == 4 && forall|k: int|
            0 <= k < 4 ==> (#[trigger] r->0@[k])@ == spec_pair_bytes(regs@[2 * k], regs@[2 * k + 1], order),
{
    if regs.len() < TELEMETRY_CNT as usize {
        return None;
    }
    let mut out: Vec<[u8; 4]> = Vec::new();
    let mut k: usize = 0;
    while k < 4
        invariant
            k <= 4,
            regs@.len() >= TELEMETRY_CNT,
            out@.len() == k,
            forall|t: int|
                0 <= t < k ==> (#[trigger] out@[t])@ == spec_pair_bytes(regs@[2 * t], regs@[2 * t + 1], order),
        decreases 4 - k,
    {
        out.push(pair_to_be_bytes([regs[2 * k], regs[2 * k + 1]], order));
        k = k + 1;
    }
    Some(out)
}

/// The telemetry task's handling of one read of D200..D207.
pub fn telemetry_step(f: &Frame<Vec<u16>>, order: ByteOrder) -> (r: PollStep<Vec<[u8; 4]>>)
    ensures
        f is Lost ==> r is Downline,
        f is Refused ==> r is Skip,
        f matches Frame::Data(regs) ==> (regs@.len() < TELEMETRY_CNT ==> r is Skip) && (regs@.len()
            >= TELEMETRY_CNT ==> r is Emit && r->Emit_0@.len() == 4 && forall|k: int|
            0 <= k < 4 ==> (#[trigger] r->Emit_0@[k])@ == spec_pair_bytes(
                regs@[2 * k],
                regs@[2 * k + 1],
                order,
            )),
{
    match f {
        Frame::Data(regs) => match telemetry_bytes(regs, order) {
            Some(b) => PollStep::Emit(b),
            None => PollStep::Skip,
        },
        Frame::Refused => PollStep::Skip,
        Frame::Lost => PollStep::Downline,
    }
}

/// The global-step task's handling of one read of D220 (INT16).
pub fn gl_step_step(f: &Frame<Vec<u16>>) -> (r: PollStep<i16>)
    ensures
        f is Lost ==> r is Downline,
        f is Refused ==> r is Skip,
        f matches Frame::Data(regs) ==> (regs@.len() == 0 ==> r is Skip) && (regs@.len() > 0
            ==> r is Emit && r->Emit_0 == regs@[0] as i16),
{
    match f {
        Frame::Data(regs) => {
            if regs.len() == 0 {
                PollStep::Skip
            } else {
                PollStep::Emit(regs[0] as i16)
            }
        },
        Frame::Refused => PollStep::Skip,
        Frame::Lost => PollStep::Downline,
    }
}

/// The first two registers of a REAL read, if it returned at least two.
pub fn first_pair(regs: &Vec<u16>) -> (r: Option<[u16; 2]>)
    ensures
        regs@.len() < 2 ==> r is None,
        regs@.len() >= 2 ==> r is Some && r->0@ == seq![regs@[0], regs@[1]],
{
    if regs.len() < 2 {
        None
    } else {
        let p: [u16; 2] = [regs[0], regs[1]];
        assert(p@ =~= seq![regs@[0], regs@[1]]);
        Some(p)
    }
}

} // verus!
