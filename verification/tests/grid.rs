use xgrid::grid::lookup::{contains_index, count_entries, count_lower};
use xgrid::units::{Ratiot, VUnit};
use xgrid::{
    BBox, FallableHandleLike, Fraction, FrameData, FrameHandle, FrameRenderer, GridBuilder,
    HandleLike, LayoutError, MarginBox, Pixel, Ratio, SpacerUnit, XName, YName, Zero,
};
use xgrid::grid::{GridData, GridExpandDir};

fn rect(x: i32, y: i32, w: i32, h: i32) -> BBox {
    BBox { x: VUnit::new(x), y: VUnit::new(y), w: VUnit::new(w), h: VUnit::new(h) }
}

fn blank() -> FrameData {
    FrameData { data: BBox::zeroed(), margin: MarginBox::zeroed(), color: [0; 4], camera_index: 0 }
}

fn arena(parent: BBox, children: usize) -> FrameRenderer {
    let mut frames = FrameRenderer::new();
    frames.add(FrameData { data: parent, ..blank() });
    for _ in 0..children {
        frames.add(blank());
    }
    frames
}

fn slots(grid: &GridData) -> Vec<(usize, usize, usize)> {
    (0..grid.placement_count())
        .map(|k| {
            let p = grid.placement(k);
            (p.major, p.cross, p.handle.index())
        })
        .collect()
}

fn rect_of(frames: &FrameRenderer, index: usize) -> BBox {
    frames.get(FrameHandle::new(index)).unwrap().data
}

#[test]
fn names_are_given_to_the_fixed_tracks() {
    let mut b = GridBuilder::new(FrameHandle::new(0));
    let names: [Option<XName>; 4] = b.widths().add(Pixel(1)).add(Zero).add(Fraction(2)).assign();
    assert_eq!(names[0].index(), Some(0));
    assert_eq!(names[1].index(), Some(1));
    assert_eq!(names[2].index(), Some(2));
    assert_eq!(names[3].index(), None);
    let rows: [Option<YName>; 2] =
        b.heights().add(Pixel(1)).add_expanding(Fraction(1)).add(Pixel(2)).assign();
    assert_eq!(rows[0].index(), Some(0));
    assert_eq!(rows[1].index(), Some(1));
    let none: [Option<YName>; 0] = b.heights().add(Pixel(1)).assign();
    assert_eq!(none.len(), 0);
    let only: [Option<YName>; 1] = b.heights().add_expanding(Fraction(1)).assign();
    assert_eq!(only[0].index(), None);
}

#[test]
fn entries_are_counted() {
    let spec = vec![
        SpacerUnit::Unit(Pixel(1)),
        SpacerUnit::Unit(Zero),
        SpacerUnit::Repeat(Fraction(1)),
        SpacerUnit::Unit(Pixel(2)),
    ];
    assert_eq!(count_entries(&spec), (3, true, 2));
    assert_eq!(count_entries(&vec![SpacerUnit::Unit(Zero)]), (1, false, 1));
    assert_eq!(count_entries(&vec![SpacerUnit::Repeat(Zero)]), (0, true, 0));
    assert_eq!(count_entries(&Vec::new()), (0, false, 0));
}

#[test]
fn a_grid_without_repeating_track_grows_downwards() {
    let mut b = GridBuilder::new(FrameHandle::new(3));
    b.widths().add(Pixel(100)).add(Ratio(Ratiot::new(1, 5).unwrap())).build();
    b.heights().add(Pixel(100)).add(Fraction(1)).add(Pixel(100)).build();
    assert_eq!(b.parent().index(), 3);
    let grid = b.build().unwrap();
    assert_eq!(grid.parent().index(), 3);
    assert_eq!(grid.placement_count(), 0);
}

#[test]
fn building_with_both_axes_repeating_fails() {
    let mut b = GridBuilder::new(FrameHandle::new(0));
    b.widths().add(Pixel(10)).add_expanding(Fraction(1)).build();
    b.heights().add_expanding(Fraction(1)).build();
    assert_eq!(b.build().err(), Some(LayoutError::MultipleExpandingAxes));

    let mut c = GridBuilder::new(FrameHandle::new(0));
    let _x: [Option<XName>; 1] = c.widths().add_expanding(Pixel(10)).assign();
    let _y: [Option<YName>; 1] = c.heights().add(Zero).add_expanding(Zero).assign();
    assert_eq!(c.build().err(), Some(LayoutError::MultipleExpandingAxes));
}

#[test]
fn one_repeating_axis_builds() {
    let mut b = GridBuilder::new(FrameHandle::new(0));
    b.widths().add_expanding(Fraction(1)).build();
    b.heights().add(Fraction(1)).build();
    assert!(b.build().is_ok());
    let mut c = GridBuilder::new(FrameHandle::new(0));
    c.heights().add_expanding(Fraction(1)).build();
    assert!(c.build().is_ok());
    let d = GridBuilder::new(FrameHandle::new(0));
    assert!(d.build().is_ok());
}

#[test]
fn describing_an_axis_anew_replaces_it() {
    let mut b = GridBuilder::new(FrameHandle::new(0));
    b.widths().add_expanding(Fraction(1)).build();
    b.heights().add_expanding(Fraction(1)).build();
    b.widths().add(Fraction(1)).build();
    assert!(b.build().is_ok());
}

#[test]
fn frames_sit_where_their_tracks_cross() {
    let mut b = GridBuilder::new(FrameHandle::new(0));
    let cols: [Option<XName>; 2] =
        b.widths().add(Pixel(100)).add(Ratio(Ratiot::new(1, 5).unwrap())).assign();
    let rows: [Option<YName>; 3] =
        b.heights().add(Pixel(100)).add(Fraction(1)).add(Pixel(100)).assign();
    let mut grid = b.build().unwrap();
    let mut frames = arena(rect(0, 0, 400, 400), 6);
    let mut next = 1;
    for row in rows {
        for col in cols {
            assert_eq!(grid.add_frame(FrameHandle::new(next), col, row), Ok(()));
            next += 1;
        }
    }
    grid.update(&mut frames);
    assert_eq!(rect_of(&frames, 0), rect(0, 0, 400, 400));
    assert_eq!(rect_of(&frames, 1), rect(0, 0, 100, 100));
    assert_eq!(rect_of(&frames, 2), rect(100, 0, 80, 100));
    assert_eq!(rect_of(&frames, 3), rect(0, 100, 100, 200));
    assert_eq!(rect_of(&frames, 4), rect(100, 100, 80, 200));
    assert_eq!(rect_of(&frames, 5), rect(0, 300, 100, 100));
    assert_eq!(rect_of(&frames, 6), rect(100, 300, 80, 100));
}

#[test]
fn tracks_follow_the_origin_of_the_parent() {
    let mut b = GridBuilder::new(FrameHandle::new(0));
    b.widths().add(Fraction(1)).add(Fraction(1)).build();
    b.heights().add(Fraction(1)).build();
    let mut grid = b.build().unwrap();
    let mut frames = arena(rect(10, 20, 200, 50), 2);
    assert_eq!(grid.add_frame(FrameHandle::new(1), None, None), Ok(()));
    assert_eq!(grid.add_frame(FrameHandle::new(2), None, None), Err(LayoutError::GridFull));
    assert_eq!(grid.add_frame(FrameHandle::new(2), Some(XName::new(1)), None), Ok(()));
    grid.update(&mut frames);
    assert_eq!(rect_of(&frames, 1), rect(10, 20, 100, 50));
    assert_eq!(rect_of(&frames, 2), rect(110, 20, 100, 50));
}

#[test]
fn five_placements_on_a_repeating_column() {
    let mut b = GridBuilder::new(FrameHandle::new(0));
    b.widths().add_expanding(Fraction(1)).build();
    let rows: [Option<YName>; 1] = b.heights().add(Fraction(1)).assign();
    let mut grid = b.build().unwrap();
    let mut frames = arena(rect(0, 0, 400, 300), 5);
    for k in 1..=5 {
        assert_eq!(grid.add_frame(FrameHandle::new(k), None, rows[0]), Ok(()));
    }
    assert_eq!(slots(&grid), vec![(0, 0, 1), (1, 0, 2), (2, 0, 3), (3, 0, 4), (4, 0, 5)]);
    grid.update(&mut frames);
    for k in 0..5 {
        assert_eq!(rect_of(&frames, k as usize + 1), rect(80 * k, 0, 80, 300));
    }
}

#[test]
fn five_placements_with_nothing_asked_for() {
    let mut b = GridBuilder::new(FrameHandle::new(0));
    b.widths().add_expanding(Fraction(1)).build();
    b.heights().add(Fraction(1)).build();
    let mut grid = b.build().unwrap();
    let mut frames = arena(rect(0, 0, 400, 300), 5);
    for k in 1..=5 {
        assert_eq!(grid.add_frame(FrameHandle::new(k), None, None), Ok(()));
    }
    assert_eq!(slots(&grid), vec![(0, 0, 1), (1, 0, 2), (2, 0, 3), (3, 0, 4), (4, 0, 5)]);
    grid.update(&mut frames);
    for k in 0..5 {
        assert_eq!(rect_of(&frames, k as usize + 1), rect(80 * k, 0, 80, 300));
    }
}

#[test]
fn a_full_grid_takes_no_more() {
    let mut b = GridBuilder::new(FrameHandle::new(0));
    let cols: [Option<XName>; 1] = b.widths().add(Fraction(1)).assign();
    b.heights().add(Pixel(10)).add(Pixel(10)).add(Pixel(10)).build();
    let mut grid = b.build().unwrap();
    for k in 1..=3 {
        assert_eq!(grid.add_frame(FrameHandle::new(k), cols[0], None), Ok(()));
    }
    assert_eq!(slots(&grid), vec![(0, 0, 1), (1, 0, 2), (2, 0, 3)]);
    assert_eq!(grid.add_frame(FrameHandle::new(4), cols[0], None), Err(LayoutError::GridFull));
    assert_eq!(grid.add_frame(FrameHandle::new(4), None, None), Err(LayoutError::GridFull));
    assert_eq!(grid.placement_count(), 3);
    assert_eq!(grid.slot(cols[0], None), None);
    assert_eq!(grid.slot(cols[0], Some(YName::new(1))), Some((1, 0)));
}

#[test]
fn tracks_asked_for_are_taken_as_they_are() {
    let mut b = GridBuilder::new(FrameHandle::new(0));
    b.widths().add(Fraction(1)).add(Fraction(1)).build();
    b.heights().add(Fraction(1)).add(Fraction(1)).build();
    let mut grid = b.build().unwrap();
    let x1 = Some(XName::new(1));
    let y1 = Some(YName::new(1));
    assert_eq!(grid.add_frame(FrameHandle::new(1), x1, y1), Ok(()));
    assert_eq!(grid.add_frame(FrameHandle::new(2), x1, y1), Ok(()));
    assert_eq!(slots(&grid), vec![(1, 1, 1), (1, 1, 2)]);
    let mut frames = arena(rect(0, 0, 100, 100), 2);
    grid.update(&mut frames);
    assert_eq!(rect_of(&frames, 1), rect(50, 50, 50, 50));
    assert_eq!(rect_of(&frames, 2), rect(50, 50, 50, 50));
}

#[test]
fn the_lowest_free_track_is_chosen() {
    let mut b = GridBuilder::new(FrameHandle::new(0));
    b.widths().add(Zero).add(Zero).add(Zero).build();
    b.heights().add(Zero).add(Zero).add(Zero).build();
    let mut grid = b.build().unwrap();
    let x = |i: usize| Some(XName::new(i));
    let y = |i: usize| Some(YName::new(i));
    assert_eq!(grid.add_frame(FrameHandle::new(1), x(0), y(1)), Ok(()));
    assert_eq!(grid.add_frame(FrameHandle::new(2), x(0), None), Ok(()));
    assert_eq!(grid.add_frame(FrameHandle::new(3), x(0), None), Ok(()));
    assert_eq!(grid.add_frame(FrameHandle::new(4), x(0), None), Err(LayoutError::GridFull));
    assert_eq!(grid.add_frame(FrameHandle::new(4), x(1), None), Ok(()));
    assert_eq!(grid.add_frame(FrameHandle::new(5), None, y(0)), Ok(()));
    assert_eq!(grid.add_frame(FrameHandle::new(6), None, None), Err(LayoutError::GridFull));
    assert_eq!(
        slots(&grid),
        vec![(1, 0, 1), (0, 0, 2), (2, 0, 3), (0, 1, 4), (0, 2, 5)]
    );
    assert_eq!(grid.find_next_major_spacer(Some(1)), Some(1));
    assert_eq!(grid.find_next_major_spacer(Some(0)), None);
    assert_eq!(grid.find_next_major_spacer(None), None);
    assert_eq!(grid.find_next_cross_spacer(Some(0)), None);
    assert_eq!(grid.find_next_cross_spacer(Some(1)), Some(1));
    assert_eq!(grid.find_next_cross_spacer(None), None);
}

#[test]
fn the_major_axis_follows_the_repeating_track() {
    let build = |wide: bool| {
        let mut b = GridBuilder::new(FrameHandle::new(0));
        if wide {
            b.widths().add_expanding(Pixel(10)).build();
            b.heights().add(Pixel(20)).add(Pixel(30)).build();
        } else {
            b.widths().add(Pixel(20)).add(Pixel(30)).build();
            b.heights().add_expanding(Pixel(10)).build();
        }
        b.build().unwrap()
    };
    let mut wide = build(true);
    assert_eq!(wide.add_frame(FrameHandle::new(1), None, Some(YName::new(1))), Ok(()));
    assert_eq!(wide.add_frame(FrameHandle::new(2), None, Some(YName::new(1))), Ok(()));
    assert_eq!(slots(&wide), vec![(0, 1, 1), (1, 1, 2)]);
    let mut frames = arena(rect(0, 0, 100, 100), 2);
    wide.update(&mut frames);
    assert_eq!(rect_of(&frames, 1), rect(0, 20, 10, 30));
    assert_eq!(rect_of(&frames, 2), rect(10, 20, 10, 30));

    let mut tall = build(false);
    assert_eq!(tall.add_frame(FrameHandle::new(1), Some(XName::new(1)), None), Ok(()));
    assert_eq!(tall.add_frame(FrameHandle::new(2), Some(XName::new(1)), None), Ok(()));
    assert_eq!(slots(&tall), vec![(0, 1, 1), (1, 1, 2)]);
    let mut frames = arena(rect(0, 0, 100, 100), 2);
    tall.update(&mut frames);
    assert_eq!(rect_of(&frames, 1), rect(20, 0, 30, 10));
    assert_eq!(rect_of(&frames, 2), rect(20, 10, 30, 10));
}

#[test]
fn copies_stand_where_the_repeating_track_is_declared() {
    let mut b = GridBuilder::new(FrameHandle::new(0));
    let rows: [Option<YName>; 2] =
        b.heights().add(Pixel(10)).add_expanding(Pixel(5)).add(Pixel(20)).assign();
    b.widths().add(Pixel(7)).build();
    let mut grid = b.build().unwrap();
    assert_eq!(grid.add_frame(FrameHandle::new(1), None, rows[0]), Ok(()));
    assert_eq!(grid.add_frame(FrameHandle::new(2), None, rows[1]), Ok(()));
    assert_eq!(grid.add_frame(FrameHandle::new(3), None, None), Ok(()));
    assert_eq!(grid.add_frame(FrameHandle::new(4), None, None), Ok(()));
    assert_eq!(slots(&grid), vec![(0, 0, 1), (1, 0, 2), (2, 0, 3), (3, 0, 4)]);
    let mut frames = arena(rect(0, 0, 100, 100), 4);
    grid.update(&mut frames);
    assert_eq!(rect_of(&frames, 1), rect(0, 0, 7, 10));
    assert_eq!(rect_of(&frames, 3), rect(0, 10, 7, 5));
    assert_eq!(rect_of(&frames, 4), rect(0, 15, 7, 5));
    assert_eq!(rect_of(&frames, 2), rect(0, 20, 7, 20));
}

#[test]
fn copies_are_counted_by_the_different_indices_in_use() {
    let mut b = GridBuilder::new(FrameHandle::new(0));
    b.heights().add(Pixel(10)).add_expanding(Fraction(1)).build();
    b.widths().add(Pixel(7)).build();
    let mut grid = b.build().unwrap();
    let y = |i: usize| Some(YName::new(i));
    assert_eq!(grid.add_frame(FrameHandle::new(1), None, y(9)), Ok(()));
    assert_eq!(grid.add_frame(FrameHandle::new(2), None, y(4)), Ok(()));
    assert_eq!(grid.add_frame(FrameHandle::new(3), None, y(9)), Err(LayoutError::GridFull));
    assert_eq!(grid.add_frame(FrameHandle::new(3), Some(XName::new(0)), y(9)), Ok(()));
    assert_eq!(grid.add_frame(FrameHandle::new(4), None, y(0)), Ok(()));
    let mut frames = arena(rect(0, 0, 100, 110), 4);
    grid.update(&mut frames);
    assert_eq!(rect_of(&frames, 4), rect(0, 0, 7, 10));
    assert_eq!(rect_of(&frames, 2), rect(0, 10, 7, 50));
    assert_eq!(rect_of(&frames, 1), rect(0, 60, 7, 50));
    assert_eq!(rect_of(&frames, 3), rect(0, 60, 7, 50));
}

#[test]
fn a_frame_on_no_track_is_left_alone() {
    let mut b = GridBuilder::new(FrameHandle::new(0));
    b.widths().add(Pixel(7)).build();
    b.heights().add(Pixel(10)).build();
    let mut grid = b.build().unwrap();
    assert_eq!(grid.add_frame(FrameHandle::new(1), Some(XName::new(5)), None), Ok(()));
    assert_eq!(grid.add_frame(FrameHandle::new(2), None, Some(YName::new(1))), Ok(()));
    let mut frames = arena(rect(0, 0, 100, 100), 2);
    frames.update(FrameHandle::new(1), &rect(1, 2, 3, 4));
    frames.update(FrameHandle::new(2), &rect(5, 6, 7, 8));
    frames.prepare();
    grid.update(&mut frames);
    assert_eq!(rect_of(&frames, 1), rect(1, 2, 3, 4));
    assert_eq!(rect_of(&frames, 2), rect(5, 6, 7, 8));
    assert_eq!(frames.prepare(), None);
}

#[test]
fn the_last_placement_of_a_frame_wins() {
    let mut b = GridBuilder::new(FrameHandle::new(0));
    b.widths().add(Pixel(10)).add(Pixel(20)).build();
    b.heights().add(Pixel(10)).build();
    let mut grid = b.build().unwrap();
    assert_eq!(grid.add_frame(FrameHandle::new(1), Some(XName::new(1)), None), Ok(()));
    assert_eq!(grid.add_frame(FrameHandle::new(1), Some(XName::new(0)), None), Ok(()));
    let mut frames = arena(rect(0, 0, 100, 100), 1);
    grid.update(&mut frames);
    assert_eq!(rect_of(&frames, 1), rect(0, 0, 10, 10));
}

#[test]
fn updating_twice_changes_nothing_the_second_time() {
    let mut b = GridBuilder::new(FrameHandle::new(0));
    b.widths().add(Fraction(1)).add(Fraction(2)).add(Ratio(Ratiot::new(1, 7).unwrap())).build();
    b.heights().add(Pixel(13)).add_expanding(Fraction(3)).build();
    let mut grid = b.build().unwrap();
    let mut frames = arena(rect(3, 5, 397, 211), 7);
    for k in 1..=7 {
        assert_eq!(grid.add_frame(FrameHandle::new(k), None, None), Ok(()));
    }
    grid.update(&mut frames);
    let once: Vec<BBox> = (0..8).map(|k| rect_of(&frames, k)).collect();
    grid.update(&mut frames);
    let twice: Vec<BBox> = (0..8).map(|k| rect_of(&frames, k)).collect();
    assert_eq!(once, twice);
    assert_ne!(once[1], BBox::zeroed());
}

#[test]
fn updating_marks_what_it_writes() {
    let mut b = GridBuilder::new(FrameHandle::new(0));
    b.widths().add(Fraction(1)).build();
    b.heights().add(Fraction(1)).build();
    let mut grid = b.build().unwrap();
    let mut frames = arena(rect(0, 0, 10, 10), 3);
    assert_eq!(grid.add_frame(FrameHandle::new(3), None, None), Ok(()));
    assert_eq!(grid.add_frame(FrameHandle::new(2), Some(XName::new(0)), Some(YName::new(0))), Ok(()));
    frames.prepare();
    grid.update(&mut frames);
    assert_eq!(frames.prepare(), Some(2));
}

#[test]
fn the_same_requests_fill_the_same_tracks() {
    let build = || {
        let mut b = GridBuilder::new(FrameHandle::new(0));
        b.widths().add(Zero).add(Zero).add(Zero).build();
        b.heights().add(Zero).add_expanding(Zero).build();
        b.build().unwrap()
    };
    let asks: Vec<(Option<XName>, Option<YName>)> = vec![
        (None, None),
        (Some(XName::new(1)), None),
        (None, Some(YName::new(0))),
        (None, None),
        (Some(XName::new(1)), None),
        (None, Some(YName::new(4))),
        (None, Some(YName::new(0))),
        (None, Some(YName::new(0))),
        (Some(XName::new(2)), Some(YName::new(2))),
        (None, None),
    ];
    let mut one = build();
    let mut two = build();
    let mut first = Vec::new();
    let mut second = Vec::new();
    for (k, (x, y)) in asks.iter().enumerate() {
        first.push(one.add_frame(FrameHandle::new(k + 1), *x, *y));
        second.push(two.add_frame(FrameHandle::new(100 - k), *x, *y));
    }
    assert_eq!(first, second);
    let coords = |g: &GridData| -> Vec<(usize, usize)> {
        slots(g).iter().map(|s| (s.0, s.1)).collect()
    };
    assert_eq!(coords(&one), coords(&two));
    assert_eq!(
        coords(&one),
        vec![(0, 0), (0, 1), (0, 2), (1, 0), (1, 1), (4, 0), (2, 2), (3, 0)]
    );
    assert_eq!(first[5], Ok(()));
    assert_eq!(first[6], Err(LayoutError::GridFull));
    assert_eq!(first[7], Err(LayoutError::GridFull));
    assert_eq!(first[8], Ok(()));
}

#[test]
fn a_grid_can_be_made_from_its_parts() {
    let cols = vec![SpacerUnit::Repeat(Pixel(5))];
    let rows = vec![SpacerUnit::Unit(Pixel(9))];
    let mut grid = GridData::new(FrameHandle::new(0), cols, rows, Some(GridExpandDir::X));
    assert_eq!(grid.add_frame(FrameHandle::new(1), None, None), Ok(()));
    assert_eq!(grid.add_frame(FrameHandle::new(2), None, None), Ok(()));
    let mut frames = arena(rect(0, 0, 100, 100), 2);
    grid.update(&mut frames);
    assert_eq!(rect_of(&frames, 1), rect(0, 0, 5, 9));
    assert_eq!(rect_of(&frames, 2), rect(5, 0, 5, 9));
}

#[test]
fn numbers_are_found_and_counted() {
    let v = vec![9, 4, 7];
    assert!(contains_index(&v, 4));
    assert!(!contains_index(&v, 5));
    assert!(!contains_index(&Vec::new(), 0));
    assert_eq!(count_lower(&v, 4), 0);
    assert_eq!(count_lower(&v, 8), 2);
    assert_eq!(count_lower(&v, 100), 3);
    assert_eq!(count_lower(&Vec::new(), 100), 0);
}

#[test]
fn a_repeating_axis_always_has_room() {
    let mut b = GridBuilder::new(FrameHandle::new(0));
    let cols: [Option<XName>; 2] = b.widths().add(Zero).add(Zero).assign();
    b.heights().add_expanding(Pixel(1)).build();
    let mut grid = b.build().unwrap();
    for k in 0..300 {
        assert_eq!(grid.add_frame(FrameHandle::new(k + 1), cols[k % 2], None), Ok(()));
    }
    assert_eq!(grid.placement(298).major, 149);
    assert_eq!(grid.placement(299).major, 149);
    assert_eq!(grid.placement(299).cross, 1);
    let mut frames = arena(rect(0, 0, 10, 10), 300);
    grid.update(&mut frames);
    assert_eq!(rect_of(&frames, 300), rect(0, 149, 0, 1));
}

#[test]
fn a_frame_that_leaves_a_track_open_lands_on_no_other() {
    let mut b = GridBuilder::new(FrameHandle::new(0));
    b.widths().add(Zero).add(Zero).add(Zero).build();
    b.heights().add(Zero).add_expanding(Zero).build();
    let mut grid = b.build().unwrap();
    let asks: Vec<(Option<XName>, Option<YName>)> = vec![
        (None, None),
        (Some(XName::new(1)), None),
        (None, Some(YName::new(0))),
        (None, None),
        (Some(XName::new(1)), None),
        (None, Some(YName::new(4))),
        (None, Some(YName::new(4))),
        (None, None),
    ];
    for (k, (x, y)) in asks.iter().enumerate() {
        let before = slots(&grid);
        if let Some((major, cross)) = grid.slot(*x, *y) {
            assert!(before.iter().all(|s| (s.0, s.1) != (major, cross)));
        }
        let _ = grid.add_frame(FrameHandle::new(k + 1), *x, *y);
    }
    assert_eq!(grid.placement_count(), 8);
}
