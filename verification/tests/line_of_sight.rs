use rl_visibility::coord::{CardinalDirection, Circle, Coordinate, GridSize, MAX_SIDE};
use rl_visibility::grid::Grid;
use rl_visibility::shadowcast::{compute_visible, opacity_at, Sighting, VisibleArea};

fn clear_field(width: u16, height: u16) -> Grid<u8> {
    Grid::filled(GridSize::new(width, height).unwrap(), 0u8)
}

fn corridor_with_wall() -> Grid<u8> {
    let mut field = clear_field(5, 1);
    field.set(Coordinate::new(2, 0), 255);
    field
}

fn seen_cells(area: &VisibleArea, width: i32, height: i32) -> Vec<(i32, i32)> {
    let mut seen = Vec::new();
    for y in 0..height {
        for x in 0..width {
            if area.contains(Coordinate::new(x, y)) {
                seen.push((x, y));
            }
        }
    }
    seen
}

#[test]
fn wall_in_a_corridor_hides_what_lies_behind() {
    let field = corridor_with_wall();
    let area = compute_visible(&field, Coordinate::new(0, 0), Circle::new_squared(100));
    assert_eq!(seen_cells(&area, 5, 1), vec![(0, 0), (1, 0), (2, 0)]);
    assert_eq!(area.get(Coordinate::new(0, 0)), Some(255));
    assert_eq!(area.get(Coordinate::new(1, 0)), Some(255));
    assert_eq!(area.get(Coordinate::new(2, 0)), Some(255));
    assert_eq!(area.get(Coordinate::new(3, 0)), None);
    assert_eq!(area.get(Coordinate::new(4, 0)), None);
}

#[test]
fn origin_is_seen_in_full_from_everywhere() {
    let mut field = clear_field(6, 4);
    field.set(Coordinate::new(2, 1), 255);
    field.set(Coordinate::new(3, 3), 90);
    for y in 0..4 {
        for x in 0..6 {
            let origin = Coordinate::new(x, y);
            for radius in [0u32, 1, 4, 90] {
                let area = compute_visible(&field, origin, Circle::new_squared(radius));
                assert_eq!(area.origin(), origin);
                assert_eq!(area.get(origin), Some(255));
            }
        }
    }
}

#[test]
fn origin_on_a_wall_still_sees_itself() {
    let field = corridor_with_wall();
    let area = compute_visible(&field, Coordinate::new(2, 0), Circle::new_squared(100));
    assert_eq!(area.get(Coordinate::new(2, 0)), Some(255));
}

#[test]
fn origin_far_from_the_grid_sees_only_itself() {
    let field = clear_field(4, 4);
    let far = [
        Coordinate::new(-2, 2),
        Coordinate::new(5, 0),
        Coordinate::new(1, 9),
        Coordinate::new(i32::MIN, 0),
        Coordinate::new(i32::MAX, i32::MAX),
    ];
    for origin in far {
        let area = compute_visible(&field, origin, Circle::new_squared(u32::MAX));
        assert_eq!(area.get(origin), Some(255));
        assert_eq!(seen_cells(&area, 4, 4), Vec::<(i32, i32)>::new());
    }
}

#[test]
fn origin_beside_the_grid_looks_into_it() {
    let mut field = clear_field(4, 3);
    field.set(Coordinate::new(1, 1), 255);
    let origin = Coordinate::new(-1, 1);
    let area = compute_visible(&field, origin, Circle::new_squared(100));
    assert_eq!(area.get(origin), Some(255));
    assert_eq!(seen_cells(&area, 4, 3), vec![(0, 0), (1, 0), (0, 1), (1, 1), (0, 2), (1, 2)]);
    assert_eq!(area.get(Coordinate::new(1, 1)), Some(255));
    assert_eq!(area.get(Coordinate::new(2, 1)), None);
    let short = compute_visible(&field, origin, Circle::new_squared(1));
    assert_eq!(seen_cells(&short, 4, 3), vec![(0, 1)]);
    let corner = compute_visible(&field, Coordinate::new(4, 3), Circle::new_squared(100));
    assert_eq!(corner.get(Coordinate::new(4, 3)), Some(255));
    assert_eq!(seen_cells(&corner, 4, 3), Vec::<(i32, i32)>::new());
}

#[test]
fn zero_radius_sees_only_the_origin() {
    let field = clear_field(5, 5);
    let area = compute_visible(&field, Coordinate::new(2, 2), Circle::new_squared(0));
    assert_eq!(seen_cells(&area, 5, 5), vec![(2, 2)]);
}

#[test]
fn clear_field_shows_exactly_the_cells_in_range() {
    let field = clear_field(9, 7);
    let origin = Coordinate::new(4, 3);
    for radius in [1u32, 2, 5, 10, 200] {
        let area = compute_visible(&field, origin, Circle::new_squared(radius));
        for y in 0..7 {
            for x in 0..9 {
                let dx = (x - 4) as i64;
                let dy = (y - 3) as i64;
                let in_range = (dx * dx + dy * dy) as u32 <= radius;
                let found = area.get(Coordinate::new(x, y));
                assert_eq!(found, if in_range { Some(255) } else { None });
            }
        }
    }
}

#[test]
fn sight_is_mutual_in_a_clear_field() {
    let field = clear_field(7, 5);
    let vision = Circle::new_squared(10);
    let mut areas = Vec::new();
    for y in 0..5 {
        for x in 0..7 {
            areas.push(compute_visible(&field, Coordinate::new(x, y), vision));
        }
    }
    for ay in 0..5 {
        for ax in 0..7 {
            for by in 0..5 {
                for bx in 0..7 {
                    let from_a = areas[(ay * 7 + ax) as usize].contains(Coordinate::new(bx, by));
                    let from_b = areas[(by * 7 + bx) as usize].contains(Coordinate::new(ax, ay));
                    assert_eq!(from_a, from_b);
                }
            }
        }
    }
}

#[test]
fn lone_wall_blocks_the_ray_behind_it() {
    let directions = [
        CardinalDirection::North,
        CardinalDirection::East,
        CardinalDirection::South,
        CardinalDirection::West,
    ];
    for direction in directions {
        let step = direction.coord();
        for distance in 1..4 {
            let observer = Coordinate::new(5, 5);
            let wall = Coordinate::new(5 + step.x * distance, 5 + step.y * distance);
            let target = Coordinate::new(wall.x + 2 * step.x, wall.y + 2 * step.y);
            let behind = Coordinate::new(wall.x + step.x, wall.y + step.y);
            let mut field = clear_field(11, 11);
            field.set(wall, 255);
            let area = compute_visible(&field, observer, Circle::new_squared(400));
            assert_eq!(area.get(wall), Some(255));
            assert!(!area.contains(target));
            assert!(!area.contains(behind));
        }
    }
}

#[test]
fn wall_next_to_the_observer_hides_the_cell_two_steps_away() {
    let mut field = clear_field(3, 1);
    field.set(Coordinate::new(1, 0), 255);
    let area = compute_visible(&field, Coordinate::new(0, 0), Circle::new_squared(100));
    assert!(area.contains(Coordinate::new(1, 0)));
    assert!(!area.contains(Coordinate::new(2, 0)));
}

#[test]
fn haze_takes_its_opacity_off_the_sight_line() {
    let mut field = clear_field(5, 1);
    field.set(Coordinate::new(1, 0), 100);
    field.set(Coordinate::new(3, 0), 100);
    let area = compute_visible(&field, Coordinate::new(0, 0), Circle::new_squared(100));
    assert_eq!(area.get(Coordinate::new(1, 0)), Some(255));
    assert_eq!(area.get(Coordinate::new(2, 0)), Some(155));
    assert_eq!(area.get(Coordinate::new(3, 0)), Some(155));
    assert_eq!(area.get(Coordinate::new(4, 0)), Some(55));
}

#[test]
fn scan_gives_the_same_answer_every_time() {
    let mut field = clear_field(12, 9);
    field.set(Coordinate::new(4, 4), 255);
    field.set(Coordinate::new(7, 2), 80);
    let first = compute_visible(&field, Coordinate::new(6, 4), Circle::new_squared(30));
    let second = compute_visible(&field, Coordinate::new(6, 4), Circle::new_squared(30));
    assert_eq!(first, second);
}

#[test]
fn best_report_wins_and_reports_out_of_range_are_dropped() {
    let size = GridSize::new(4, 3).unwrap();
    let origin = Coordinate::new(0, 0);
    let sightings = vec![
        Sighting { x: 1, y: 0, visibility: 40 },
        Sighting { x: 1, y: 0, visibility: 200 },
        Sighting { x: 1, y: 0, visibility: 90 },
        Sighting { x: 2, y: 2, visibility: 255 },
        Sighting { x: 9, y: 0, visibility: 255 },
        Sighting { x: -1, y: 0, visibility: 255 },
        Sighting { x: 0, y: 1, visibility: 0 },
        Sighting { x: 0, y: 0, visibility: 7 },
    ];
    let area = VisibleArea::from_sightings(size, origin, Circle::new_squared(4), &sightings);
    assert_eq!(area.get(Coordinate::new(1, 0)), Some(200));
    assert_eq!(area.get(Coordinate::new(2, 2)), None);
    assert_eq!(area.get(Coordinate::new(9, 0)), None);
    assert_eq!(area.get(Coordinate::new(-1, 0)), None);
    assert_eq!(area.get(Coordinate::new(0, 1)), None);
    assert_eq!(area.get(Coordinate::new(0, 0)), Some(255));
    assert_eq!(seen_cells(&area, 4, 3), vec![(0, 0), (1, 0)]);
}

#[test]
fn no_report_leaves_only_the_origin() {
    let size = GridSize::new(3, 3).unwrap();
    let origin = Coordinate::new(7, 7);
    let area = VisibleArea::from_sightings(size, origin, Circle::new_squared(50), &Vec::new());
    assert_eq!(area.get(origin), Some(255));
    assert_eq!(seen_cells(&area, 3, 3), Vec::<(i32, i32)>::new());
}

#[test]
fn opacity_beyond_the_grid_is_clear() {
    let field = corridor_with_wall();
    assert_eq!(opacity_at(&field, Coordinate::new(2, 0)), 255);
    assert_eq!(opacity_at(&field, Coordinate::new(1, 0)), 0);
    assert_eq!(opacity_at(&field, Coordinate::new(5, 0)), 0);
    assert_eq!(opacity_at(&field, Coordinate::new(0, -1)), 0);
}

#[test]
fn sizes_are_limited() {
    assert!(GridSize::new(MAX_SIDE, MAX_SIDE).is_some());
    assert!(GridSize::new(MAX_SIDE + 1, 1).is_none());
    assert!(GridSize::new(1, MAX_SIDE + 1).is_none());
    let size = GridSize::new(3, 2).unwrap();
    assert_eq!(size.count(), 6);
    assert_eq!(size.index_of(Coordinate::new(2, 1)), 5);
    assert_eq!(size.coord_of(4), Coordinate::new(1, 1));
    assert!(size.contains(Coordinate::new(2, 1)));
    assert!(!size.contains(Coordinate::new(3, 1)));
    assert!(!size.contains(Coordinate::new(0, -1)));
    assert!(size.borders(Coordinate::new(2, 1)));
    assert!(size.borders(Coordinate::new(3, 2)));
    assert!(size.borders(Coordinate::new(-1, -1)));
    assert!(!size.borders(Coordinate::new(4, 0)));
    assert!(!size.borders(Coordinate::new(0, 3)));
    assert!(!size.borders(Coordinate::new(-2, 0)));
}

#[test]
fn circle_reaches_by_squared_distance() {
    let circle = Circle::new_squared(25);
    let centre = Coordinate::new(2, 2);
    assert!(circle.reaches(centre, Coordinate::new(5, 6)));
    assert!(!circle.reaches(centre, Coordinate::new(6, 6)));
    assert_eq!(centre.distance2(Coordinate::new(5, 6)), 25);
    let far = Coordinate::new(i32::MIN, i32::MAX);
    assert!(!Circle::new_squared(u32::MAX).reaches(far, Coordinate::new(i32::MAX, i32::MIN)));
    assert_eq!(
        far.distance2(Coordinate::new(i32::MAX, i32::MIN)),
        2 * (u32::MAX as u128) * (u32::MAX as u128)
    );
}

#[test]
fn directions_step_as_in_the_direction_crate() {
    let pairs = [
        (CardinalDirection::North, gridbugs::direction::CardinalDirection::North),
        (CardinalDirection::East, gridbugs::direction::CardinalDirection::East),
        (CardinalDirection::South, gridbugs::direction::CardinalDirection::South),
        (CardinalDirection::West, gridbugs::direction::CardinalDirection::West),
    ];
    for (ours, theirs) in pairs {
        let step = theirs.coord();
        assert_eq!(ours.coord(), Coordinate::new(step.x, step.y));
    }
    assert_eq!(CardinalDirection::North.coord(), Coordinate::new(0, -1));
    assert_eq!(Coordinate::new(i32::MAX, 0).checked_offset(1, 0), None);
    assert_eq!(Coordinate::new(3, 4).checked_offset(-1, 2), Some(Coordinate::new(2, 6)));
}

