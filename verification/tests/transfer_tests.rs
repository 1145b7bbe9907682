use ldr_plc::address::PlcMap;
use ldr_plc::transfer::{
    coil_read_step, download_rows, gl_step_step, read_frame_step, telemetry_step, toggle_step,
    write_step, CoilError, CoilRead, Frame, PollStep, ReadStep, ToggleStep, WriteStep,
};
use ldr_plc::arrays::{ArrayError, CellValue, SEGMENT_COUNT};
use ldr_plc::codec::{encode_dint, ByteOrder};
use ldr_plc::transfer::{
    decode_segment, download_head, first_pair, read_chunks, take_frame, telemetry_bytes,
    upload_plan, write_chunks, DownloadError, RawCell, ReadChunk, ShortRead, WriteChunk,
};

fn cell(v: f64) -> CellValue {
    CellValue {
        finite: v.is_finite(),
        fits_dint: (-2_147_483_648.0..=2_147_483_647.0).contains(&v),
        real_be: (v as f32).to_be_bytes(),
        dint: v.round() as i32,
    }
}

#[test]
fn write_frames_of_123() {
    let c = write_chunks(1000, 250);
    assert_eq!(
        c,
        vec![
            WriteChunk { addr: 1000, from: 0, to: 123 },
            WriteChunk { addr: 1123, from: 123, to: 246 },
            WriteChunk { addr: 1246, from: 246, to: 250 },
        ]
    );
    assert!(write_chunks(5, 0).is_empty());
    assert_eq!(write_chunks(0, 123), vec![WriteChunk { addr: 0, from: 0, to: 123 }]);
}

#[test]
fn read_frames_of_125() {
    assert_eq!(
        read_chunks(2000, 300),
        vec![
            ReadChunk { addr: 2000, cnt: 125 },
            ReadChunk { addr: 2125, cnt: 125 },
            ReadChunk { addr: 2250, cnt: 50 },
        ]
    );
    assert!(read_chunks(7, 0).is_empty());
    assert_eq!(read_chunks(300, 3), vec![ReadChunk { addr: 300, cnt: 3 }]);
}

#[test]
fn frames_are_checked_for_length() {
    let mut out = vec![9];
    assert_eq!(take_frame(&mut out, &vec![1, 2, 3], 2), Ok(()));
    assert_eq!(out, vec![9, 1, 2]);
    assert_eq!(take_frame(&mut out, &vec![4], 2), Err(ShortRead { got: 1, want: 2 }));
    assert_eq!(out, vec![9, 1, 2]);
}

#[test]
fn upload_plan_lays_out_segments_then_depth() {
    let rows: Vec<Vec<CellValue>> = (0..2)
        .map(|s| (0..SEGMENT_COUNT).map(|c| cell((s * 100 + c) as f64 + 0.5)).collect())
        .collect();
    let map = PlcMap { d_base: 10, m_base: 0 };
    let plan = upload_plan(2, 1, &rows, map, ByteOrder::Abcd).unwrap();
    assert_eq!(plan.len(), 14);
    assert_eq!(plan[0].addr, 2010);
    assert_eq!(plan[0].regs, vec![0x3F00, 0x0000, 0x42C9, 0x0000]);
    assert_eq!(plan[12].addr, 2910);
    let mut interval = encode_dint(13, ByteOrder::Abcd).to_vec();
    interval.extend_from_slice(&encode_dint(113, ByteOrder::Abcd));
    assert_eq!(plan[12].regs, interval);
    assert_eq!(plan[13].addr, 1110);
    assert_eq!(plan[13].regs, vec![2, 1]);
}

#[test]
fn upload_plan_refuses_bad_table() {
    let rows: Vec<Vec<CellValue>> = vec![vec![cell(1.0); SEGMENT_COUNT]];
    let map = PlcMap { d_base: 0, m_base: 0 };
    assert_eq!(
        upload_plan(1, 9, &rows, map, ByteOrder::Cdab).err(),
        Some(ArrayError::BadMode { mode: 9 })
    );
}

#[test]
fn download_head_checks_depth() {
    assert_eq!(download_head(&vec![4, 2]), Ok((4, 2)));
    assert_eq!(download_head(&vec![0, 2]), Err(DownloadError::DepthOutOfRange { depth: 0 }));
    assert_eq!(download_head(&vec![17, 1]), Err(DownloadError::DepthOutOfRange { depth: 17 }));
}

#[test]
fn decode_segment_both_kinds() {
    let regs = vec![0x0000, 0x3FC0, 0xFFFF, 0xFFFF];
    let real = decode_segment(&regs, 2, ldr_plc::arrays::SegKind::Real, ByteOrder::Cdab);
    match real[0] {
        RawCell::Real(b) => assert_eq!(f32::from_be_bytes(b), 1.5),
        RawCell::Dint(_) => panic!("expected a REAL"),
    }
    let dint = decode_segment(&regs, 2, ldr_plc::arrays::SegKind::Dint, ByteOrder::Abcd);
    match dint[1] {
        RawCell::Dint(v) => assert_eq!(v, -1),
        RawCell::Real(_) => panic!("expected a DINT"),
    }
}

#[test]
fn telemetry_needs_eight_registers() {
    assert!(telemetry_bytes(&vec![0; 7], ByteOrder::Abcd).is_none());
    let t = telemetry_bytes(&vec![0x3FC0, 0, 0, 0, 0, 0, 0x4049, 0x0FDB], ByteOrder::Abcd).unwrap();
    assert_eq!(t.len(), 4);
    assert_eq!(f32::from_be_bytes(t[0]), 1.5);
    assert_eq!(t[3], [0x40, 0x49, 0x0F, 0xDB]);
    assert_eq!(first_pair(&vec![1]), None);
    assert_eq!(first_pair(&vec![1, 2, 3]), Some([1, 2]));
}

#[test]
fn polling_task_decisions() {
    assert!(matches!(gl_step_step(&Frame::Lost), PollStep::Downline));
    assert!(matches!(gl_step_step(&Frame::Refused), PollStep::Skip));
    assert!(matches!(gl_step_step(&Frame::Data(vec![])), PollStep::Skip));
    assert!(matches!(gl_step_step(&Frame::Data(vec![0xFFFF])), PollStep::Emit(-1)));
    assert!(matches!(gl_step_step(&Frame::Data(vec![2, 7])), PollStep::Emit(2)));
    assert!(matches!(telemetry_step(&Frame::Lost, ByteOrder::Abcd), PollStep::Downline));
    assert!(matches!(telemetry_step(&Frame::Refused, ByteOrder::Abcd), PollStep::Skip));
    assert!(matches!(telemetry_step(&Frame::Data(vec![0; 4]), ByteOrder::Abcd), PollStep::Skip));
    match telemetry_step(&Frame::Data(vec![0, 0x3FC0, 0, 0, 0, 0, 0, 0]), ByteOrder::Cdab) {
        PollStep::Emit(b) => assert_eq!(f32::from_be_bytes(b[0]), 1.5),
        _ => panic!("expected readings"),
    }
}

#[test]
fn coil_and_frame_decisions() {
    assert_eq!(toggle_step(&Frame::Data(vec![true])), ToggleStep::Write(false));
    assert_eq!(toggle_step(&Frame::Data(vec![false, true])), ToggleStep::Write(true));
    assert_eq!(toggle_step(&Frame::Data(vec![])), ToggleStep::Fail(CoilError::Empty));
    assert_eq!(toggle_step(&Frame::Refused), ToggleStep::Fail(CoilError::Refused));
    assert_eq!(toggle_step(&Frame::Lost), ToggleStep::Downline);
    assert_eq!(coil_read_step(&Frame::Data(vec![true])), CoilRead::Value(true));
    assert_eq!(write_step(&Frame::Data(()), true), WriteStep::Done(true));
    assert_eq!(write_step(&Frame::Refused, false), WriteStep::Fail(CoilError::Refused));
    assert_eq!(write_step(&Frame::Lost, false), WriteStep::Downline);
    let mut out = vec![1];
    assert_eq!(read_frame_step(&mut out, &Frame::Data(vec![2, 3, 4]), 2), ReadStep::Taken);
    assert_eq!(out, vec![1, 2, 3]);
    assert_eq!(
        read_frame_step(&mut out, &Frame::Data(vec![5]), 2),
        ReadStep::Short(ShortRead { got: 1, want: 2 })
    );
    assert_eq!(read_frame_step(&mut out, &Frame::Refused, 2), ReadStep::Refused);
    assert_eq!(read_frame_step(&mut out, &Frame::Lost, 2), ReadStep::Downline);
    assert_eq!(out, vec![1, 2, 3]);
}

#[test]
fn upload_then_download_gives_rows_back() {
    let vals: Vec<Vec<f64>> = (0..3)
        .map(|s| (0..SEGMENT_COUNT).map(|c| (s as f64) * 10.25 - (c as f64) * 3.5).collect())
        .collect();
    let rows: Vec<Vec<CellValue>> = vals.iter().map(|r| r.iter().map(|&v| cell(v)).collect()).collect();
    for order in [ByteOrder::Abcd, ByteOrder::Cdab, ByteOrder::Badc, ByteOrder::Dcba] {
        let plan = upload_plan(3, 2, &rows, PlcMap { d_base: 0, m_base: 0 }, order).unwrap();
        assert_eq!(download_head(&plan[13].regs), Ok((3, 2)));
        let seg_regs: Vec<Vec<u16>> = plan[..SEGMENT_COUNT].iter().map(|w| w.regs.clone()).collect();
        let back = download_rows(&seg_regs, 3, order);
        for s in 0..3 {
            for c in 0..SEGMENT_COUNT {
                match back[s][c] {
                    RawCell::Real(b) => {
                        assert!(c < 12);
                        assert_eq!(f32::from_be_bytes(b) as f64, vals[s][c] as f32 as f64);
                    }
                    RawCell::Dint(v) => {
                        assert_eq!(c, 12);
                        assert_eq!(v as f64, vals[s][c].round());
                    }
                }
            }
        }
    }
}
