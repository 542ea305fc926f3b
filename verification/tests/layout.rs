use xgrid::component::{ComponentType, HandleCounter};
use xgrid::events::{ButtonState, MouseButton, MouseEvent, Position};
use xgrid::units::VUnit;
use xgrid::update_queue::{send, SystemUpdates, Update, UpdateMsg};
use xgrid::{
    Action, BBox, Fraction, FrameHandle, FrameMessage, GridHandle, GridMessage, HandleLike, Layout,
    LayoutError, MarginBox, Pixel, UpdateMessage, XName, YName,
};

fn rect(x: i32, y: i32, w: i32, h: i32) -> BBox {
    BBox { x: VUnit::new(x), y: VUnit::new(y), w: VUnit::new(w), h: VUnit::new(h) }
}

fn halves(layout: &mut Layout, parent: FrameHandle, across: bool) -> (GridHandle, FrameHandle, FrameHandle) {
    let mut b = layout.create_grid(parent);
    if across {
        b.widths().add(Fraction(1)).add(Fraction(1)).build();
        b.heights().add(Fraction(1)).build();
    } else {
        b.widths().add(Fraction(1)).build();
        b.heights().add(Fraction(1)).add(Fraction(1)).build();
    }
    let grid = layout.add_grid(b).unwrap();
    let first = layout.add_frame_in_grid(grid, None, None).unwrap();
    let second = if across {
        layout.add_frame_in_grid(grid, Some(XName::new(1)), None).unwrap()
    } else {
        layout.add_frame_in_grid(grid, None, Some(YName::new(1))).unwrap()
    };
    (grid, first, second)
}

#[test]
fn the_window_is_frame_zero() {
    let layout = Layout::new(rect(0, 0, 400, 400));
    assert_eq!(layout.window().index(), 0);
    assert_eq!(layout.get_rectangle(layout.window()), Ok(rect(0, 0, 400, 400)));
    assert_eq!(layout.frame_renderer().len(), 1);
    assert_eq!(layout.grid_renderer().len(), 0);
    let record = layout.frame_renderer().get(layout.window()).unwrap();
    assert_eq!(record.color, [255; 4]);
    assert_eq!(record.margin, MarginBox::zeroed());
    assert_eq!(record.camera_index, 0);
}

#[test]
fn floating_frames_keep_their_rectangle() {
    let mut layout = Layout::new(rect(0, 0, 400, 400));
    let a = layout.add_floating_frame(rect(1, 2, 3, 4));
    let b = layout.add_floating_frame(rect(-5, -6, -7, -8));
    assert_eq!(a.index(), 1);
    assert_eq!(b.index(), 2);
    assert_eq!(layout.get_rectangle(a), Ok(rect(1, 2, 3, 4)));
    assert_eq!(layout.get_rectangle(b), Ok(rect(-5, -6, -7, -8)));
    assert_eq!(layout.prepare(), Some(0));
    assert_eq!(layout.get_rectangle(b), Ok(rect(-5, -6, -7, -8)));
}

#[test]
fn unknown_handles_are_turned_down() {
    let mut layout = Layout::new(rect(0, 0, 400, 400));
    let stranger = FrameHandle::new(7);
    assert_eq!(layout.get_rectangle(stranger), Err(LayoutError::InvalidHandle));
    assert_eq!(layout.resize_frame(stranger, rect(0, 0, 1, 1)), Err(LayoutError::InvalidHandle));
    assert_eq!(layout.recolor_frame(stranger, [1, 2, 3, 4]), Err(LayoutError::InvalidHandle));
    assert_eq!(
        layout.add_frame_in_grid(GridHandle::new(0), None, None).err(),
        Some(LayoutError::InvalidHandle)
    );
    let b = layout.create_grid(stranger);
    assert_eq!(layout.add_grid(b).err(), Some(LayoutError::InvalidHandle));
    assert_eq!(layout.frame_renderer().len(), 1);
    assert_eq!(layout.grid_renderer().len(), 0);
}

#[test]
fn a_frame_hosts_one_grid_only() {
    let mut layout = Layout::new(rect(0, 0, 400, 400));
    let first = layout.create_grid(layout.window());
    assert_eq!(layout.add_grid(first).map(|g| g.index()), Ok(0));
    let second = layout.create_grid(layout.window());
    assert_eq!(layout.add_grid(second).err(), Some(LayoutError::InvalidHandle));
    assert_eq!(layout.grid_renderer().len(), 1);
    assert_eq!(layout.grid_renderer().host(layout.window()).map(|g| g.index()), Some(0));
    assert_eq!(layout.grid_renderer().host(FrameHandle::new(1)).map(|g| g.index()), None);
    assert_eq!(layout.grid_renderer().get_parent_handle(GridHandle::new(0)).index(), 0);
}

#[test]
fn a_grid_that_grows_both_ways_is_not_added() {
    let mut layout = Layout::new(rect(0, 0, 400, 400));
    let mut b = layout.create_grid(layout.window());
    b.widths().add_expanding(Fraction(1)).build();
    b.heights().add_expanding(Fraction(1)).build();
    assert_eq!(layout.add_grid(b).err(), Some(LayoutError::MultipleExpandingAxes));
    assert_eq!(layout.grid_renderer().len(), 0);
    assert_eq!(layout.frame_renderer().len(), 1);
    let mut c = layout.create_grid(FrameHandle::new(9));
    c.widths().add_expanding(Fraction(1)).build();
    c.heights().add_expanding(Fraction(1)).build();
    assert_eq!(layout.add_grid(c).err(), Some(LayoutError::MultipleExpandingAxes));
}

#[test]
fn frames_on_a_grid_start_empty_and_white() {
    let mut layout = Layout::new(rect(0, 0, 400, 400));
    let a = layout.add_floating_frame(rect(0, 0, 10, 10));
    let (_grid, first, _second) = halves(&mut layout, a, true);
    let record = layout.frame_renderer().get(first).unwrap();
    assert_eq!(record.data, BBox::zeroed());
    assert_eq!(record.color, [255; 4]);
    assert_eq!(
        record.margin,
        MarginBox { top: VUnit(640), bottom: VUnit(640), left: VUnit(640), right: VUnit(640) }
    );
    assert_eq!(record.camera_index, 1);
}

#[test]
fn a_full_grid_makes_no_frame() {
    let mut layout = Layout::new(rect(0, 0, 400, 400));
    let mut b = layout.create_grid(layout.window());
    b.widths().add(Fraction(1)).build();
    b.heights().add(Pixel(10)).add(Pixel(10)).add(Pixel(10)).build();
    let grid = layout.add_grid(b).unwrap();
    for k in 0..3 {
        assert_eq!(layout.add_frame_in_grid(grid, None, None).map(|h| h.index()), Ok(k + 1));
    }
    assert_eq!(layout.add_frame_in_grid(grid, None, None).err(), Some(LayoutError::GridFull));
    assert_eq!(layout.frame_renderer().len(), 4);
    assert_eq!(layout.grid_renderer().get(grid).placement_count(), 3);
    assert_eq!(layout.add_floating_frame(rect(0, 0, 1, 1)).index(), 4);
}

#[test]
fn resizing_the_window_reaches_every_frame_below() {
    let mut layout = Layout::new(rect(0, 0, 400, 400));
    let (_g1, a, b) = halves(&mut layout, FrameHandle::new(0), true);
    let (_g2, c, d) = halves(&mut layout, a, false);
    let (_g3, e, f) = halves(&mut layout, d, true);
    layout.prepare();
    assert_eq!(layout.get_rectangle(a), Ok(rect(0, 0, 200, 400)));
    assert_eq!(layout.get_rectangle(b), Ok(rect(200, 0, 200, 400)));
    assert_eq!(layout.get_rectangle(c), Ok(rect(0, 0, 200, 200)));
    assert_eq!(layout.get_rectangle(d), Ok(rect(0, 200, 200, 200)));
    assert_eq!(layout.get_rectangle(e), Ok(rect(0, 200, 100, 200)));
    assert_eq!(layout.get_rectangle(f), Ok(rect(100, 200, 100, 200)));

    assert_eq!(layout.resize_frame(layout.window(), rect(0, 0, 800, 400)), Ok(()));
    assert_eq!(layout.get_rectangle(layout.window()), Ok(rect(0, 0, 800, 400)));
    assert_eq!(layout.get_rectangle(a), Ok(rect(0, 0, 400, 400)));
    assert_eq!(layout.get_rectangle(b), Ok(rect(400, 0, 400, 400)));
    assert_eq!(layout.get_rectangle(c), Ok(rect(0, 0, 400, 200)));
    assert_eq!(layout.get_rectangle(d), Ok(rect(0, 200, 400, 200)));
    assert_eq!(layout.get_rectangle(e), Ok(rect(0, 200, 200, 200)));
    assert_eq!(layout.get_rectangle(f), Ok(rect(200, 200, 200, 200)));
}

#[test]
fn resizing_a_frame_leaves_what_is_not_below_it() {
    let mut layout = Layout::new(rect(0, 0, 400, 400));
    let (_g1, a, b) = halves(&mut layout, FrameHandle::new(0), true);
    let (_g2, c, d) = halves(&mut layout, a, false);
    let (_g3, e, f) = halves(&mut layout, b, false);
    layout.prepare();
    assert_eq!(layout.resize_frame(a, rect(10, 10, 100, 100)), Ok(()));
    assert_eq!(layout.get_rectangle(layout.window()), Ok(rect(0, 0, 400, 400)));
    assert_eq!(layout.get_rectangle(a), Ok(rect(10, 10, 100, 100)));
    assert_eq!(layout.get_rectangle(c), Ok(rect(10, 10, 100, 50)));
    assert_eq!(layout.get_rectangle(d), Ok(rect(10, 60, 100, 50)));
    assert_eq!(layout.get_rectangle(b), Ok(rect(200, 0, 200, 400)));
    assert_eq!(layout.get_rectangle(e), Ok(rect(200, 0, 200, 200)));
    assert_eq!(layout.get_rectangle(f), Ok(rect(200, 200, 200, 200)));
    assert_eq!(layout.prepare(), Some(1));
    assert_eq!(layout.get_rectangle(a), Ok(rect(0, 0, 200, 400)));
    assert_eq!(layout.get_rectangle(c), Ok(rect(0, 0, 200, 200)));
}

#[test]
fn resizing_twice_to_the_same_rectangle_changes_nothing() {
    let mut layout = Layout::new(rect(0, 0, 400, 400));
    let (_g1, a, b) = halves(&mut layout, FrameHandle::new(0), true);
    let (_g2, c, d) = halves(&mut layout, b, false);
    assert_eq!(layout.resize_frame(layout.window(), rect(0, 0, 333, 111)), Ok(()));
    let once: Vec<BBox> = [a, b, c, d].iter().map(|h| layout.get_rectangle(*h).unwrap()).collect();
    assert_eq!(layout.resize_frame(layout.window(), rect(0, 0, 333, 111)), Ok(()));
    let twice: Vec<BBox> = [a, b, c, d].iter().map(|h| layout.get_rectangle(*h).unwrap()).collect();
    assert_eq!(once, twice);
    assert_eq!(once[0], BBox { x: VUnit(0), y: VUnit(0), w: VUnit(10656), h: VUnit(7104) });
    assert_eq!(once[3], BBox { x: VUnit(10656), y: VUnit(3552), w: VUnit(10656), h: VUnit(3552) });
}

#[test]
fn recolouring_changes_the_colour_only() {
    let mut layout = Layout::new(rect(0, 0, 400, 400));
    let a = layout.add_floating_frame(rect(1, 2, 3, 4));
    layout.prepare();
    assert_eq!(layout.recolor_frame(a, [1, 2, 3, 4]), Ok(()));
    let record = layout.frame_renderer().get(a).unwrap();
    assert_eq!(record.color, [1, 2, 3, 4]);
    assert_eq!(record.data, rect(1, 2, 3, 4));
    assert_eq!(layout.prepare(), Some(1));
}

#[test]
fn requests_are_served_in_order() {
    let mut layout = Layout::new(rect(0, 0, 400, 400));
    let mut counter = HandleCounter::new();
    assert_eq!(counter.frame_count(), 1);
    assert_eq!(counter.grid_count(), 0);

    let mut b = layout.create_grid(layout.window());
    b.widths().add_expanding(Fraction(1)).build();
    b.heights().add(Fraction(1)).build();
    let (grid, msg) = counter.send_grid(b);
    assert_eq!(grid.index(), 0);
    assert_eq!(layout.apply(msg), Ok(Action::Nothing));

    let (first, msg) = counter.send_frame(grid, None, None);
    assert_eq!(first.index(), 1);
    assert_eq!(layout.apply(msg), Ok(Action::Nothing));
    let (second, msg) = counter.send_frame(grid, None, None);
    assert_eq!(second.index(), 2);
    assert_eq!(layout.apply(msg), Ok(Action::Nothing));
    let (floating, msg) = counter.send_floating(rect(9, 9, 9, 9));
    assert_eq!(floating.index(), 3);
    assert_eq!(layout.apply(msg), Ok(Action::Nothing));
    assert_eq!(counter.frame_count(), 4);
    assert_eq!(counter.grid_count(), 1);

    assert_eq!(layout.apply(UpdateMessage::Prepare), Ok(Action::Upload(Some(0))));
    assert_eq!(layout.apply(UpdateMessage::Prepare), Ok(Action::Upload(Some(1))));
    assert_eq!(layout.get_rectangle(first), Ok(rect(0, 0, 200, 400)));
    assert_eq!(layout.get_rectangle(second), Ok(rect(200, 0, 200, 400)));
    assert_eq!(layout.get_rectangle(floating), Ok(rect(9, 9, 9, 9)));
    assert_eq!(layout.frame_renderer().get(first).unwrap().color, [255; 4]);
    assert_eq!(layout.frame_renderer().get(first).unwrap().camera_index, 0);

    assert_eq!(layout.apply(UpdateMessage::Draw), Ok(Action::Draw));
    assert_eq!(layout.apply(UpdateMessage::Exit), Ok(Action::Exit));
    assert_eq!(
        layout.apply(UpdateMessage::ModifyGrid(grid, GridMessage {})),
        Ok(Action::Nothing)
    );
}

#[test]
fn a_new_size_for_the_window_resizes_the_surface() {
    let mut layout = Layout::new(rect(0, 0, 400, 400));
    let (_g, a, b) = halves(&mut layout, FrameHandle::new(0), true);
    let msg = send(Update::System(SystemUpdates::Resized { width: 800, height: 600 })).unwrap();
    assert_eq!(layout.apply(msg), Ok(Action::ResizeSurface { width: 800, height: 600 }));
    assert_eq!(layout.get_rectangle(layout.window()), Ok(rect(0, 0, 800, 600)));
    assert_eq!(layout.get_rectangle(a), Ok(rect(0, 0, 400, 600)));
    assert_eq!(layout.get_rectangle(b), Ok(rect(400, 0, 400, 600)));

    let odd = FrameMessage {
        size: Some(BBox { x: VUnit(0), y: VUnit(0), w: VUnit(-1), h: VUnit(127) }),
        color: Some([5, 6, 7, 8]),
        margin: None,
    };
    assert_eq!(
        layout.apply(UpdateMessage::ModifyFrame(FrameHandle::new(0), odd)),
        Ok(Action::ResizeSurface { width: 0, height: 1 })
    );
    assert_eq!(layout.frame_renderer().get(layout.window()).unwrap().color, [5, 6, 7, 8]);
}

#[test]
fn a_change_to_another_frame_leaves_the_surface() {
    let mut layout = Layout::new(rect(0, 0, 400, 400));
    let a = layout.add_floating_frame(rect(0, 0, 1, 1));
    let sized = FrameMessage { size: Some(rect(1, 1, 2, 2)), color: None, margin: None };
    let msg = send(Update::User(UpdateMsg::Frame(sized), ComponentType::Floating(a))).unwrap();
    assert_eq!(layout.apply(msg), Ok(Action::Nothing));
    assert_eq!(layout.get_rectangle(a), Ok(rect(1, 1, 2, 2)));
    let coloured = FrameMessage { size: None, color: Some([1, 1, 1, 1]), margin: None };
    assert_eq!(
        layout.apply(UpdateMessage::ModifyFrame(FrameHandle::new(0), coloured)),
        Ok(Action::Nothing)
    );
    assert_eq!(layout.get_rectangle(layout.window()), Ok(rect(0, 0, 400, 400)));
    let nothing = FrameMessage { size: None, color: None, margin: None };
    assert_eq!(
        layout.apply(UpdateMessage::ModifyFrame(FrameHandle::new(5), nothing)),
        Err(LayoutError::InvalidHandle)
    );
}

#[test]
fn requests_out_of_step_are_turned_down() {
    let mut layout = Layout::new(rect(0, 0, 400, 400));
    let b = layout.create_grid(layout.window());
    assert_eq!(
        layout.apply(UpdateMessage::NewGrid(GridHandle::new(1), b)),
        Err(LayoutError::InvalidHandle)
    );
    let b = layout.create_grid(layout.window());
    assert_eq!(layout.apply(UpdateMessage::NewGrid(GridHandle::new(0), b)), Ok(Action::Nothing));
    let blank = FrameMessage::default();
    let grid = GridHandle::new(0);
    assert_eq!(
        layout.apply(UpdateMessage::NewFrame(grid, None, None, blank, FrameHandle::new(2))),
        Err(LayoutError::InvalidHandle)
    );
    assert_eq!(
        layout.apply(UpdateMessage::NewFrame(GridHandle::new(1), None, None, blank, FrameHandle::new(1))),
        Err(LayoutError::InvalidHandle)
    );
    assert_eq!(layout.frame_renderer().len(), 1);
}

#[test]
fn a_frame_for_a_full_grid_is_made_but_not_placed() {
    let mut layout = Layout::new(rect(0, 0, 400, 400));
    let grid = layout.add_grid(layout.create_grid(layout.window())).unwrap();
    let blank = FrameMessage::default();
    assert_eq!(
        layout.apply(UpdateMessage::NewFrame(grid, None, None, blank, FrameHandle::new(1))),
        Err(LayoutError::GridFull)
    );
    assert_eq!(layout.frame_renderer().len(), 2);
    assert_eq!(layout.grid_renderer().get(grid).placement_count(), 0);
    let record = layout.frame_renderer().get(FrameHandle::new(1)).unwrap();
    assert_eq!(record.data, BBox::zeroed());
    assert_eq!(record.color, [0; 4]);
    assert_eq!(record.margin, MarginBox::zeroed());
    assert_eq!(
        layout.apply(UpdateMessage::NewFloatingFrame(blank)),
        Ok(Action::Nothing)
    );
    assert_eq!(layout.frame_renderer().len(), 3);
}

#[test]
fn updates_become_requests() {
    let a = FrameHandle::new(4);
    let g = GridHandle::new(2);
    let f = FrameMessage { size: None, color: Some([1, 2, 3, 4]), margin: None };
    match send(Update::User(UpdateMsg::Frame(f), ComponentType::GridMember(a, g))) {
        Some(UpdateMessage::ModifyFrame(h, m)) => {
            assert_eq!(h.index(), 4);
            assert_eq!(m.color, Some([1, 2, 3, 4]));
            assert_eq!(m.size, None);
        }
        _ => panic!("a change to the frame was expected"),
    }
    assert!(send(Update::User(UpdateMsg::GridX(XName::new(0), Pixel(1)), ComponentType::Floating(a)))
        .is_none());
    assert!(send(Update::User(UpdateMsg::GridY(YName::new(0), Pixel(1)), ComponentType::Floating(a)))
        .is_none());
    match send(Update::System(SystemUpdates::Resized { width: u32::MAX, height: 3 })) {
        Some(UpdateMessage::ModifyFrame(h, m)) => {
            assert_eq!(h.index(), 0);
            assert_eq!(
                m.size,
                Some(BBox { x: VUnit(0), y: VUnit(0), w: VUnit(i32::MAX), h: VUnit(192) })
            );
        }
        _ => panic!("a change to the window was expected"),
    }
}

#[test]
fn components_name_their_frame() {
    let a = FrameHandle::new(4);
    let g = GridHandle::new(2);
    assert_eq!(ComponentType::Floating(a).frame().index(), 4);
    assert_eq!(ComponentType::GridMember(a, g).frame().index(), 4);
}

#[test]
fn buttons_are_pressed_or_not() {
    assert!(ButtonState::Pressed.pressed());
    assert!(!ButtonState::Released.pressed());
    let click = MouseEvent::Click(MouseButton::Left(ButtonState::Pressed));
    assert!(matches!(click, MouseEvent::Click(MouseButton::Left(s)) if s.pressed()));
    let moved = MouseEvent::Move(Position { x: VUnit(1), y: VUnit(2) });
    assert!(matches!(moved, MouseEvent::Move(p) if p.x == VUnit(1) && p.y == VUnit(2)));
}

#[test]
fn errors_describe_themselves() {
    assert_eq!(LayoutError::GridFull.describe(), "no free track is left in the grid");
    assert_eq!(
        LayoutError::InvalidHandle.describe(),
        "the handle does not belong to this layout"
    );
    assert_eq!(
        LayoutError::MultipleExpandingAxes.describe(),
        "grid's can only have one expanding direction"
    );
}
