use rl_visibility::colour::Rgb24;
use rl_visibility::coord::{Circle, Coordinate, GridSize};
use rl_visibility::grid::Grid;
use rl_visibility::lighting::{add_light, compute_lighting, Light, Rational};
use rl_visibility::shadowcast::{Sighting, VisibleArea};

fn clear_field(width: u16, height: u16) -> Grid<u8> {
    Grid::filled(GridSize::new(width, height).unwrap(), 0u8)
}

fn light(colour: Rgb24, radius: u32, numerator: u32, denominator: u32) -> Light {
    Light {
        colour,
        vision_distance: Circle::new_squared(radius),
        diminish: Rational { numerator, denominator },
    }
}

#[test]
fn contribution_follows_the_falloff_formula() {
    let lamp = light(Rgb24::new(255, 128, 10), 100, 1, 4);
    let at = Coordinate::new(0, 0);
    assert_eq!(lamp.contribution(at, Coordinate::new(0, 0), 255), Rgb24::new(255, 128, 10));
    assert_eq!(lamp.contribution(at, Coordinate::new(1, 0), 255), Rgb24::new(204, 102, 8));
    assert_eq!(lamp.contribution(at, Coordinate::new(0, 2), 255), Rgb24::new(127, 64, 5));
    assert_eq!(lamp.contribution(at, Coordinate::new(3, 0), 255), Rgb24::new(78, 39, 3));
    assert_eq!(lamp.contribution(at, Coordinate::new(1, 0), 128), Rgb24::new(102, 51, 4));
    assert_eq!(lamp.contribution(at, Coordinate::new(1, 0), 0), Rgb24::new(0, 0, 0));
}

#[test]
fn contribution_stands_the_largest_numbers() {
    let lamp = light(Rgb24::new(255, 255, 255), u32::MAX, u32::MAX, u32::MAX);
    let from = Coordinate::new(i32::MIN, i32::MIN);
    let to = Coordinate::new(i32::MAX, i32::MAX);
    assert_eq!(lamp.contribution(from, to, 255), Rgb24::new(0, 0, 0));
    assert_eq!(lamp.contribution(from, from, 255), Rgb24::new(255, 255, 255));
    let steady = light(Rgb24::new(9, 8, 7), 1, 0, 1);
    assert_eq!(steady.contribution(from, to, 255), Rgb24::new(9, 8, 7));
}

#[test]
fn single_light_fades_with_distance() {
    let field = clear_field(4, 1);
    let lights = vec![(Coordinate::new(0, 0), light(Rgb24::new(255, 255, 255), 9, 1, 4))];
    let lit = compute_lighting(&lights, &field);
    let mut last = 256u32;
    for x in 0..4 {
        let colour = lit.get(Coordinate::new(x, 0)).unwrap().unwrap();
        assert_eq!(colour.r, colour.g);
        assert_eq!(colour.g, colour.b);
        assert!((colour.r as u32) < last);
        last = colour.r as u32;
    }
    assert_eq!(*lit.get(Coordinate::new(0, 0)).unwrap(), Some(Rgb24::new(255, 255, 255)));
    assert_eq!(*lit.get(Coordinate::new(1, 0)).unwrap(), Some(Rgb24::new(204, 204, 204)));
    assert_eq!(*lit.get(Coordinate::new(2, 0)).unwrap(), Some(Rgb24::new(127, 127, 127)));
    assert_eq!(*lit.get(Coordinate::new(3, 0)).unwrap(), Some(Rgb24::new(78, 78, 78)));
}

#[test]
fn dim_light_stays_at_zero_once_it_is_there() {
    let field = clear_field(6, 1);
    let lights = vec![(Coordinate::new(0, 0), light(Rgb24::new(3, 3, 3), 25, 1, 1))];
    let lit = compute_lighting(&lights, &field);
    let reds: Vec<u8> =
        (0..6).map(|x| lit.get(Coordinate::new(x, 0)).unwrap().unwrap().r).collect();
    assert_eq!(reds, vec![3, 1, 0, 0, 0, 0]);
}

#[test]
fn cell_out_of_reach_has_no_entry() {
    let mut field = clear_field(6, 1);
    field.set(Coordinate::new(2, 0), 255);
    let lights = vec![(Coordinate::new(0, 0), light(Rgb24::new(200, 0, 0), 100, 0, 1))];
    let lit = compute_lighting(&lights, &field);
    assert_eq!(*lit.get(Coordinate::new(1, 0)).unwrap(), Some(Rgb24::new(200, 0, 0)));
    assert_eq!(*lit.get(Coordinate::new(2, 0)).unwrap(), Some(Rgb24::new(200, 0, 0)));
    assert_eq!(*lit.get(Coordinate::new(3, 0)).unwrap(), None);
    let short = vec![(Coordinate::new(0, 0), light(Rgb24::new(200, 0, 0), 1, 0, 1))];
    let lit = compute_lighting(&short, &clear_field(6, 1));
    assert_eq!(*lit.get(Coordinate::new(1, 0)).unwrap(), Some(Rgb24::new(200, 0, 0)));
    assert_eq!(*lit.get(Coordinate::new(2, 0)).unwrap(), None);
}

#[test]
fn black_light_leaves_black_and_not_nothing() {
    let field = clear_field(2, 1);
    let lights = vec![(Coordinate::new(0, 0), light(Rgb24::new(0, 0, 0), 4, 1, 4))];
    let lit = compute_lighting(&lights, &field);
    assert_eq!(*lit.get(Coordinate::new(1, 0)).unwrap(), Some(Rgb24::new(0, 0, 0)));
}

#[test]
fn no_light_lights_nothing() {
    let lit = compute_lighting(&Vec::new(), &clear_field(3, 2));
    for y in 0..2 {
        for x in 0..3 {
            assert_eq!(*lit.get(Coordinate::new(x, y)).unwrap(), None);
        }
    }
}

#[test]
fn lights_add_up_and_stop_at_full() {
    let field = clear_field(3, 1);
    let white = Rgb24::new(255, 255, 255);
    let lights = vec![
        (Coordinate::new(0, 0), light(white, 9, 1, 1)),
        (Coordinate::new(2, 0), light(white, 9, 1, 1)),
    ];
    let lit = compute_lighting(&lights, &field);
    assert_eq!(*lit.get(Coordinate::new(1, 0)).unwrap(), Some(Rgb24::new(254, 254, 254)));
    assert_eq!(*lit.get(Coordinate::new(0, 0)).unwrap(), Some(Rgb24::new(255, 255, 255)));
}

#[test]
fn lights_on_one_cell_add_up() {
    let field = clear_field(2, 1);
    let lights = vec![
        (Coordinate::new(0, 0), light(Rgb24::new(100, 0, 0), 4, 0, 1)),
        (Coordinate::new(0, 0), light(Rgb24::new(100, 30, 0), 4, 0, 1)),
        (Coordinate::new(0, 0), light(Rgb24::new(100, 0, 5), 4, 0, 1)),
    ];
    let lit = compute_lighting(&lights, &field);
    assert_eq!(*lit.get(Coordinate::new(0, 0)).unwrap(), Some(Rgb24::new(255, 30, 5)));
    assert_eq!(*lit.get(Coordinate::new(1, 0)).unwrap(), Some(Rgb24::new(255, 30, 5)));
}

#[test]
fn order_of_lights_does_not_matter() {
    let mut field = clear_field(8, 6);
    field.set(Coordinate::new(3, 2), 255);
    field.set(Coordinate::new(4, 4), 120);
    let lights = vec![
        (Coordinate::new(0, 0), light(Rgb24::new(255, 0, 0), 40, 1, 4)),
        (Coordinate::new(7, 5), light(Rgb24::new(0, 255, 0), 60, 1, 10)),
        (Coordinate::new(2, 3), light(Rgb24::new(90, 90, 200), 10, 1, 2)),
        (Coordinate::new(2, 3), light(Rgb24::new(200, 200, 200), 200, 0, 1)),
        (Coordinate::new(-3, 1), light(Rgb24::new(255, 255, 255), 200, 0, 1)),
    ];
    let expected = compute_lighting(&lights, &field);
    let orders: [[usize; 5]; 4] =
        [[4, 3, 2, 1, 0], [1, 0, 3, 4, 2], [2, 4, 0, 1, 3], [3, 2, 4, 0, 1]];
    for order in orders {
        let shuffled: Vec<(Coordinate, Light)> = order.iter().map(|i| lights[*i]).collect();
        assert_eq!(compute_lighting(&shuffled, &field), expected);
    }
}

#[test]
fn light_far_from_the_grid_lights_nothing() {
    let field = clear_field(3, 3);
    for at in [Coordinate::new(-2, 1), Coordinate::new(1, 4), Coordinate::new(9, 9)] {
        let lights = vec![(at, light(Rgb24::new(255, 255, 255), 100, 0, 1))];
        let lit = compute_lighting(&lights, &field);
        for y in 0..3 {
            for x in 0..3 {
                assert_eq!(*lit.get(Coordinate::new(x, y)).unwrap(), None);
            }
        }
    }
}

#[test]
fn light_beside_the_grid_shines_into_it() {
    let field = clear_field(3, 3);
    let lights = vec![(Coordinate::new(-1, 1), light(Rgb24::new(255, 255, 255), 100, 1, 1))];
    let lit = compute_lighting(&lights, &field);
    assert_eq!(*lit.get(Coordinate::new(0, 1)).unwrap(), Some(Rgb24::new(127, 127, 127)));
    assert_eq!(*lit.get(Coordinate::new(1, 1)).unwrap(), Some(Rgb24::new(51, 51, 51)));
    assert_eq!(*lit.get(Coordinate::new(2, 1)).unwrap(), Some(Rgb24::new(25, 25, 25)));
}

#[test]
fn add_light_blends_into_what_is_there() {
    let size = GridSize::new(3, 1).unwrap();
    let at = Coordinate::new(0, 0);
    let sightings = vec![
        Sighting { x: 1, y: 0, visibility: 255 },
        Sighting { x: 2, y: 0, visibility: 128 },
    ];
    let area = VisibleArea::from_sightings(size, at, Circle::new_squared(1), &sightings);
    let mut lit: Grid<Option<Rgb24>> = Grid::filled(size, None);
    lit.set(Coordinate::new(1, 0), Some(Rgb24::new(100, 100, 100)));
    lit.set(Coordinate::new(2, 0), Some(Rgb24::new(1, 2, 3)));
    add_light(&mut lit, at, &light(Rgb24::new(200, 10, 0), 1, 1, 1), &area);
    assert_eq!(*lit.get(Coordinate::new(0, 0)).unwrap(), Some(Rgb24::new(200, 10, 0)));
    assert_eq!(*lit.get(Coordinate::new(1, 0)).unwrap(), Some(Rgb24::new(200, 105, 100)));
    assert_eq!(*lit.get(Coordinate::new(2, 0)).unwrap(), Some(Rgb24::new(1, 2, 3)));
}
