use rusty_donut::drawer::{DrawOp, Drawer};
use rusty_donut::frame::{FrameBuffer, Sample};
use rusty_donut::shade::LUMINANCE_UNIT;

fn lettered() -> FrameBuffer {
    let eighth = LUMINANCE_UNIT / 8;
    let mut frame = FrameBuffer::new(2);
    frame.plot(Sample { col: 0, row: 1, inv_depth: 1, luminance: eighth });
    frame.plot(Sample { col: 1, row: 0, inv_depth: 1, luminance: 11 * eighth });
    frame
}

#[test]
fn drawer_accepts_exactly_the_positive_strides() {
    assert_eq!(Drawer::new().stride(), 1);
    assert_eq!(Drawer::with_stride(2).unwrap().stride(), 2);
    assert_eq!(Drawer::with_stride(u16::MAX).unwrap().stride(), u16::MAX);
    assert!(Drawer::with_stride(0).is_none());
}

#[test]
fn draw_clears_then_prints_column_by_column() {
    let plan = Drawer::new().draw(&lettered()).unwrap();
    assert_eq!(
        plan,
        vec![
            DrawOp::Clear,
            DrawOp::MoveTo(0, 0),
            DrawOp::Print(' '),
            DrawOp::MoveTo(0, 1),
            DrawOp::Print(','),
            DrawOp::MoveTo(1, 0),
            DrawOp::Print('@'),
            DrawOp::MoveTo(1, 1),
            DrawOp::Print(' '),
        ]
    );
}

#[test]
fn draw_with_stride_two_prints_each_cell_twice() {
    let plan = Drawer::with_stride(2).unwrap().draw(&lettered()).unwrap();
    assert_eq!(
        plan,
        vec![
            DrawOp::Clear,
            DrawOp::MoveTo(1, 0),
            DrawOp::Print(' '),
            DrawOp::MoveTo(0, 0),
            DrawOp::Print(' '),
            DrawOp::MoveTo(1, 1),
            DrawOp::Print(','),
            DrawOp::MoveTo(0, 1),
            DrawOp::Print(','),
            DrawOp::MoveTo(3, 0),
            DrawOp::Print('@'),
            DrawOp::MoveTo(2, 0),
            DrawOp::Print('@'),
            DrawOp::MoveTo(3, 1),
            DrawOp::Print(' '),
            DrawOp::MoveTo(2, 1),
            DrawOp::Print(' '),
        ]
    );
}

#[test]
fn draw_of_an_empty_grid_only_clears() {
    let plan = Drawer::with_stride(3).unwrap().draw(&FrameBuffer::new(0)).unwrap();
    assert_eq!(plan, vec![DrawOp::Clear]);
}

#[test]
fn draw_covers_every_cell_of_a_full_frame() {
    let frame = FrameBuffer::new(80);
    let plan = Drawer::new().draw(&frame).unwrap();
    assert_eq!(plan.len(), 1 + 2 * 80 * 80);
    assert_eq!(plan[1], DrawOp::MoveTo(0, 0));
    assert_eq!(plan[plan.len() - 2], DrawOp::MoveTo(79, 79));
    let wide = Drawer::with_stride(2).unwrap().draw(&frame).unwrap();
    assert_eq!(wide.len(), 1 + 4 * 80 * 80);
    assert_eq!(wide[1], DrawOp::MoveTo(1, 0));
    assert_eq!(wide[wide.len() - 2], DrawOp::MoveTo(158, 79));
}

#[test]
fn draw_refuses_a_frame_too_wide_for_the_cursor() {
    let frame = FrameBuffer::new(2);
    assert!(Drawer::with_stride(32_768).unwrap().draw(&frame).is_some());
    assert!(Drawer::with_stride(32_769).unwrap().draw(&frame).is_none());
    assert!(Drawer::with_stride(u16::MAX).unwrap().draw(&frame).is_none());
    let last = Drawer::with_stride(32_768).unwrap().draw(&frame).unwrap();
    assert_eq!(last[1], DrawOp::MoveTo(32_767, 0));
    assert_eq!(last.len(), 1 + 2 * 32_768 * 4);
    assert!(last.contains(&DrawOp::MoveTo(u16::MAX, 1)));
}
