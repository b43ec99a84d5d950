//! Point lights and the colour they throw on each cell.
//!
//! A light reaches the cells that are seen from its position within its own
//! range. On a cell at squared distance `d` that it reaches with remaining
//! visibility `v`, a light of colour `c` and falloff `n / m` throws, channel
//! by channel,
//!
//! ```text
//! ((c * m) / (m + n * d)) * v / 255
//! ```
//!
//! with both divisions rounded down. The colours thrown on one cell by
//! several lights are added, and a channel that passes 255 stays at 255.

use vstd::prelude::*;
use vstd::arithmetic::div_mod::{
    lemma_div_by_multiple,
    lemma_div_is_ordered,
    lemma_div_is_ordered_by_denominator,
    lemma_div_pos_is_pos,
};
use vstd::arithmetic::mul::{lemma_mul_inequality, lemma_mul_nonnegative};
use crate::colour::Rgb24;
use crate::coord::{Circle, Coordinate};
use crate::grid::Grid;
use crate::shadowcast::{compute_visible, remaining_visibility, VisibleArea};

verus! {

/// A fraction of two small integers.
#[derive(Clone, Copy, Debug, PartialEq, Eq, Structural)]
pub struct Rational {
    pub numerator: u32,
    pub denominator: u32,
}

/// A point light.
#[derive(Clone, Copy, Debug, PartialEq, Eq, Structural)]
pub struct Light {
    /// The colour thrown on the light's own cell.
    pub colour: Rgb24,
    /// How far the light reaches.
    pub vision_distance: Circle,
    /// How fast the light fades: the colour is divided by one plus this
    /// fraction of the squared distance.
    pub diminish: Rational,
}

/// One channel of a light after fading over a squared distance of
/// `distance2` and arriving with `visibility` left of 255.
pub open spec fn attenuated_channel(
    channel: u8,
    diminish: Rational,
    distance2: int,
    visibility: u8,
) -> u8 {
    let divisor = diminish.denominator + diminish.numerator * distance2;
    let faded = (channel * diminish.denominator) / divisor;
    ((faded * visibility) / 255) as u8
}

/// Fading never brightens: the faded channel lies between 0 and the channel
/// itself, and so does the channel that arrives.
pub proof fn lemma_attenuation_bounds(
    channel: u8,
    diminish: Rational,
    distance2: int,
    visibility: u8,
)
    requires
        diminish.denominator > 0,
        distance2 >= 0,
    ensures
        diminish.denominator + diminish.numerator * distance2 >= diminish.denominator,
        0 <= (channel * diminish.denominator) / (diminish.denominator + diminish.numerator
            * distance2) <= channel,
        0 <= (((channel * diminish.denominator) / (diminish.denominator + diminish.numerator
            * distance2)) * visibility) / 255 <= channel,
{
    let m = diminish.denominator as int;
    let n = diminish.numerator as int;
    let c = channel as int;
    let v = visibility as int;
    let divisor = m + n * distance2;
    lemma_mul_nonnegative(n, distance2);
    lemma_mul_nonnegative(c, m);
    lemma_div_is_ordered_by_denominator(c * m, m, divisor);
    lemma_div_by_multiple(c, m);
    lemma_div_pos_is_pos(c * m, divisor);
    let faded = (c * m) / divisor;
    lemma_mul_nonnegative(faded, v);
    lemma_mul_inequality(v, 255, faded);
    assert(faded * v <= faded * 255) by (nonlinear_arith)
        requires
            v * faded <= 255 * faded,
    ;
    lemma_div_is_ordered(faded * v, faded * 255, 255);
    lemma_div_by_multiple(faded, 255);
    lemma_div_pos_is_pos(faded * v, 255);
}

impl Light {
    /// The falloff has a denominator other than 0.
    pub open spec fn wf(&self) -> bool {
        self.diminish.denominator > 0
    }

    /// The colour this light throws on a cell at squared distance
    /// `distance2` that it reaches with `visibility` left.
    pub open spec fn contribution_spec(&self, distance2: int, visibility: u8) -> Rgb24 {
        Rgb24 {
            r: attenuated_channel(self.colour.r, self.diminish, distance2, visibility),
            g: attenuated_channel(self.colour.g, self.diminish, distance2, visibility),
            b: attenuated_channel(self.colour.b, self.diminish, distance2, visibility),
        }
    }

    /// The colour this light, standing at `from`, throws on the cell `to`
    /// that it reaches with `visibility` left.
    pub fn contribution(&self, from: Coordinate, to: Coordinate, visibility: u8) -> (colour: Rgb24)
        requires
            self.wf(),
        ensures
            colour == self.contribution_spec(from.distance2_spec(to), visibility),
    {
        let distance2 = from.distance2(to);
        assert(from.distance2_spec(to) <= 0x2_0000_0000_0000_0000) by (nonlinear_arith)
            requires
                -0x1_0000_0000 <= from.x - to.x <= 0x1_0000_0000,
                -0x1_0000_0000 <= from.y - to.y <= 0x1_0000_0000,
                from.distance2_spec(to) == (from.x - to.x) * (from.x - to.x) + (from.y - to.y) * (
                from.y - to.y),
        ;
        Rgb24 {
            r: attenuate(self.colour.r, self.diminish, distance2, visibility),
            g: attenuate(self.colour.g, self.diminish, distance2, visibility),
            b: attenuate(self.colour.b, self.diminish, distance2, visibility),
        }
    }
}

fn attenuate(channel: u8, diminish: Rational, distance2: u128, visibility: u8) -> (out: u8)
    requires
        diminish.denominator > 0,
        distance2 <= 0x2_0000_0000_0000_0000,
    ensures
        out == attenuated_channel(channel, diminish, distance2 as int, visibility),
{
    proof {
        lemma_attenuation_bounds(channel, diminish, distance2 as int, visibility);
    }
    assert(0 <= diminish.numerator * distance2 <= 0xffff_ffff * 0x2_0000_0000_0000_0000)
        by (nonlinear_arith)
        requires
            0 <= diminish.numerator <= 0xffff_ffff,
            0 <= distance2 <= 0x2_0000_0000_0000_0000,
    ;
    assert(0 <= channel * diminish.denominator <= 255 * 0xffff_ffff) by (nonlinear_arith)
        requires
            0 <= channel <= 255,
            0 <= diminish.denominator <= 0xffff_ffff,
    ;
    let divisor: u128 = diminish.denominator as u128 + diminish.numerator as u128 * distance2;
    let faded: u128 = (channel as u128 * diminish.denominator as u128) / divisor;
    assert(0 <= faded * visibility <= 255 * 255) by (nonlinear_arith)
        requires
            0 <= faded <= 255,
            0 <= visibility <= 255,
    ;
    ((faded * visibility as u128) / 255) as u8
}

/// A light fades with distance: over a longer way the same light, arriving
/// with the same visibility, throws no more on any channel.
pub proof fn lemma_light_fades_with_distance(light: Light, near: int, far: int, visibility: u8)
    requires
        light.wf(),
        0 <= near <= far,
    ensures
        light.contribution_spec(far, visibility).r <= light.contribution_spec(near, visibility).r,
        light.contribution_spec(far, visibility).g <= light.contribution_spec(near, visibility).g,
        light.contribution_spec(far, visibility).b <= light.contribution_spec(near, visibility).b,
{
    lemma_channel_fades_with_distance(light.colour.r, light.diminish, near, far, visibility);
    lemma_channel_fades_with_distance(light.colour.g, light.diminish, near, far, visibility);
    lemma_channel_fades_with_distance(light.colour.b, light.diminish, near, far, visibility);
}

proof fn lemma_channel_fades_with_distance(
    channel: u8,
    diminish: Rational,
    near: int,
    far: int,
    visibility: u8,
)
    requires
        diminish.denominator > 0,
        0 <= near <= far,
    ensures
        attenuated_channel(channel, diminish, far, visibility) <= attenuated_channel(
            channel,
            diminish,
            near,
            visibility,
        ),
{
    let m = diminish.denominator as int;
    let n = diminish.numerator as int;
    let c = channel as int;
    let v = visibility as int;
    lemma_attenuation_bounds(channel, diminish, near, visibility);
    lemma_attenuation_bounds(channel, diminish, far, visibility);
    lemma_mul_inequality(near, far, n);
    assert(n * near <= n * far) by (nonlinear_arith)
        requires
            near * n <= far * n,
    ;
    lemma_mul_nonnegative(c, m);
    lemma_div_is_ordered_by_denominator(c * m, m + n * near, m + n * far);
    let faded_near = (c * m) / (m + n * near);
    let faded_far = (c * m) / (m + n * far);
    lemma_mul_inequality(faded_far, faded_near, v);
    lemma_div_is_ordered(faded_far * v, faded_near * v, 255);
}

/// The colour that `light`, standing at `at`, throws on `coord`, which it
/// reaches with `visibility` left, or `None` where nothing is left.
pub open spec fn thrown(light: Light, at: Coordinate, coord: Coordinate, visibility: u8) -> Option<
    Rgb24,
> {
    if visibility > 0 {
        Some(light.contribution_spec(at.distance2_spec(coord), visibility))
    } else {
        None
    }
}

/// The colour that the light `source`, standing at its coordinate, throws on
/// `coord`, or `None` where it does not reach `coord`.
pub open spec fn light_on(field: Grid<u8>, source: (Coordinate, Light), coord: Coordinate) -> Option<
    Rgb24,
> {
    thrown(
        source.1,
        source.0,
        coord,
        remaining_visibility(field, source.0, source.1.vision_distance, coord),
    )
}

/// Adds what one more light throws on a cell to what is there already.
pub open spec fn blend(lit: Option<Rgb24>, more: Option<Rgb24>) -> Option<Rgb24> {
    match (lit, more) {
        (Some(a), Some(b)) => Some(a.saturating_add(b)),
        (Some(a), None) => Some(a),
        (None, more) => more,
    }
}

/// The colour that `lights` throw together on `coord`, taken one light after
/// the other, or `None` where no light reaches `coord`.
pub open spec fn lit_colour(
    field: Grid<u8>,
    lights: Seq<(Coordinate, Light)>,
    coord: Coordinate,
) -> Option<Rgb24>
    decreases lights.len(),
{
    if lights.len() == 0 {
        None
    } else {
        blend(lit_colour(field, lights.drop_last(), coord), light_on(field, lights.last(), coord))
    }
}

/// Adds to `lit` what `light`, standing at `at`, throws on the cells of
/// `area`, the cells that it reaches.
pub fn add_light(lit: &mut Grid<Option<Rgb24>>, at: Coordinate, light: &Light, area: &VisibleArea)
    requires
        old(lit).wf(),
        area.wf(),
        area.remaining.size == old(lit).size,
        light.wf(),
    ensures
        final(lit).wf(),
        final(lit).size == old(lit).size,
        forall|coord: Coordinate|
            old(lit).size.contains(coord) ==> #[trigger] final(lit).at(coord) == blend(
                old(lit).at(coord),
                thrown(*light, at, coord, area.visibility_at(coord)),
            ),
{
    let size = lit.size();
    let count = size.count();
    let mut j: usize = 0;
    while j < count
        invariant
            j <= count,
            count == size.count_spec(),
            lit.wf(),
            lit.size == size,
            old(lit).wf(),
            old(lit).size == size,
            light.wf(),
            area.wf(),
            area.remaining.size == size,
            forall|k: int|
                0 <= k < j ==> lit.cells@[k] == blend(
                    old(lit).cells@[k],
                    thrown(*light, at, size.coord_spec(k), area.visibility_at(size.coord_spec(k))),
                ),
            forall|k: int| j <= k < count ==> lit.cells@[k] == old(lit).cells@[k],
        decreases count - j,
    {
        let coord = size.coord_of(j);
        match area.get(coord) {
            Some(visibility) => {
                let more = light.contribution(at, coord, visibility);
                let blended = match lit.cells[j] {
                    Some(there) => there.saturating_add(more),
                    None => more,
                };
                lit.cells.set(j, Some(blended));
            },
            None => {},
        }
        j = j + 1;
    }
    proof {
        assert forall|coord: Coordinate| size.contains(coord) implies #[trigger] lit.at(coord)
            == blend(
            old(lit).at(coord),
            thrown(*light, at, coord, area.visibility_at(coord)),
        ) by {
            size.lemma_index_in_range(coord);
        }
    }
}

/// The colour on every cell of `field` under `lights`.
///
/// A cell that no light reaches holds `None`, which is not the same as black.
pub fn compute_lighting(lights: &Vec<(Coordinate, Light)>, field: &Grid<u8>) -> (lit: Grid<
    Option<Rgb24>,
>)
    requires
        field.wf(),
        forall|i: int| 0 <= i < lights@.len() ==> (#[trigger] lights@[i]).1.wf(),
    ensures
        lit.wf(),
        lit.size == field.size,
        forall|coord: Coordinate|
            field.size.contains(coord) ==> #[trigger] lit.at(coord) == lit_colour(
                *field,
                lights@,
                coord,
            ),
{
    let size = field.size();
    let mut lit: Grid<Option<Rgb24>> = Grid::filled(size, None);
    let mut i: usize = 0;
    assert(lights@.take(0) =~= Seq::<(Coordinate, Light)>::empty());
    while i < lights.len()
        invariant
            i <= lights@.len(),
            field.wf(),
            size == field.size,
            lit.wf(),
            lit.size == size,
            forall|k: int| 0 <= k < lights@.len() ==> (#[trigger] lights@[k]).1.wf(),
            forall|coord: Coordinate|
                size.contains(coord) ==> lit.at(coord) == lit_colour(
                    *field,
                    lights@.take(i as int),
                    coord,
                ),
        decreases lights@.len() - i,
    {
        let source = lights[i];
        let area = compute_visible(field, source.0, source.1.vision_distance);
        add_light(&mut lit, source.0, &source.1, &area);
        proof {
            assert(lights@.take(i + 1).drop_last() =~= lights@.take(i as int));
            assert(lights@.take(i + 1).last() == source);
        }
        i = i + 1;
    }
    assert(lights@.take(lights@.len() as int) =~= lights@);
    lit
}

/// What `lights` throw on a cell, before the sums are held at 255: how many
/// of them reach it, and the sum of their colours on each channel.
pub struct LightTotal {
    pub reached: nat,
    pub r: int,
    pub g: int,
    pub b: int,
}

impl LightTotal {
    pub open spec fn plus(self, more: Option<Rgb24>) -> LightTotal {
        match more {
            Some(colour) => LightTotal {
                reached: self.reached + 1,
                r: self.r + colour.r,
                g: self.g + colour.g,
                b: self.b + colour.b,
            },
            None => self,
        }
    }

    /// The colour on the cell: each sum held at 255, and `None` where no
    /// light reaches the cell.
    pub open spec fn settled(self) -> Option<Rgb24> {
        if self.reached == 0 {
            None
        } else {
            Some(Rgb24 { r: held(self.r), g: held(self.g), b: held(self.b) })
        }
    }
}

/// A sum of channels held at 255.
pub open spec fn held(sum: int) -> u8 {
    if sum > 255 {
        255u8
    } else {
        sum as u8
    }
}

/// The total of what `lights` throw on `coord`.
pub open spec fn light_total(
    field: Grid<u8>,
    lights: Seq<(Coordinate, Light)>,
    coord: Coordinate,
) -> LightTotal
    decreases lights.len(),
{
    if lights.len() == 0 {
        LightTotal { reached: 0, r: 0, g: 0, b: 0 }
    } else {
        light_total(field, lights.drop_last(), coord).plus(light_on(field, lights.last(), coord))
    }
}

/// Adding light after light and holding each sum at 255 gives the same
/// colour as adding everything first and holding the totals at 255.
pub proof fn lemma_lit_colour_is_settled_total(
    field: Grid<u8>,
    lights: Seq<(Coordinate, Light)>,
    coord: Coordinate,
)
    ensures
        lit_colour(field, lights, coord) == light_total(field, lights, coord).settled(),
        light_total(field, lights, coord).r >= 0,
        light_total(field, lights, coord).g >= 0,
        light_total(field, lights, coord).b >= 0,
        light_total(field, lights, coord).reached == 0 ==> light_total(field, lights, coord) == (
        LightTotal { reached: 0, r: 0, g: 0, b: 0 }),
    decreases lights.len(),
{
    if lights.len() > 0 {
        lemma_lit_colour_is_settled_total(field, lights.drop_last(), coord);
    }
}

/// Taking one light out of the list takes what it throws out of the total.
proof fn lemma_total_without(
    field: Grid<u8>,
    lights: Seq<(Coordinate, Light)>,
    coord: Coordinate,
    index: int,
)
    requires
        0 <= index < lights.len(),
    ensures
        light_total(field, lights, coord) == light_total(field, lights.remove(index), coord).plus(
            light_on(field, lights[index], coord),
        ),
    decreases lights.len(),
{
    if index == lights.len() - 1 {
        assert(lights.remove(index) =~= lights.drop_last());
    } else {
        lemma_total_without(field, lights.drop_last(), coord, index);
        assert(lights.remove(index).drop_last() =~= lights.drop_last().remove(index));
        assert(lights.remove(index).last() == lights.last());
        assert(lights.drop_last()[index] == lights[index]);
    }
}

/// The total on a cell is the same for two lists that hold the same lights,
/// each as often in one as in the other.
pub proof fn lemma_total_ignores_order(
    field: Grid<u8>,
    first: Seq<(Coordinate, Light)>,
    second: Seq<(Coordinate, Light)>,
    coord: Coordinate,
)
    requires
        first.to_multiset() == second.to_multiset(),
    ensures
        light_total(field, first, coord) == light_total(field, second, coord),
    decreases first.len(),
{
    first.to_multiset_ensures();
    second.to_multiset_ensures();
    if first.len() == 0 {
        assert(second.len() == 0);
    } else {
        let last = first.last();
        let rest = first.drop_last();
        rest.to_multiset_ensures();
        assert(first =~= rest.push(last));
        assert(first[first.len() - 1] == last);
        assert(first.to_multiset().count(last) > 0);
        assert(second.to_multiset().count(last) > 0);
        assert(second.contains(last));
        let index = choose|index: int| 0 <= index < second.len() && second[index] == last;
        let others = second.remove(index);
        assert(rest.to_multiset() =~= first.to_multiset().remove(last));
        assert(others.to_multiset() =~= second.to_multiset().remove(last));
        lemma_total_ignores_order(field, rest, others, coord);
        lemma_total_without(field, second, coord, index);
    }
}

/// The order of the lights does not matter: two lists that hold the same
/// lights, each as often in one as in the other, put the same colour on
/// every cell.
pub proof fn lemma_lighting_ignores_order(
    field: Grid<u8>,
    first: Seq<(Coordinate, Light)>,
    second: Seq<(Coordinate, Light)>,
    coord: Coordinate,
)
    requires
        first.to_multiset() == second.to_multiset(),
    ensures
        lit_colour(field, first, coord) == lit_colour(field, second, coord),
{
    lemma_lit_colour_is_settled_total(field, first, coord);
    lemma_lit_colour_is_settled_total(field, second, coord);
    lemma_total_ignores_order(field, first, second, coord);
}

/// A cell has no colour exactly where no light reaches it. A cell that a
/// light reaches has a colour, be it black.
pub proof fn lemma_no_colour_means_no_light(
    field: Grid<u8>,
    lights: Seq<(Coordinate, Light)>,
    coord: Coordinate,
)
    ensures
        lit_colour(field, lights, coord).is_none() <==> forall|i: int|
            0 <= i < lights.len() ==> light_on(field, #[trigger] lights[i], coord).is_none(),
    decreases lights.len(),
{
    if lights.len() > 0 {
        let rest = lights.drop_last();
        lemma_no_colour_means_no_light(field, rest, coord);
        if lit_colour(field, lights, coord).is_none() {
            assert forall|i: int| 0 <= i < lights.len() implies light_on(
                field,
                #[trigger] lights[i],
                coord,
            ).is_none() by {
                if i < rest.len() {
                    assert(rest[i] == lights[i]);
                }
            }
        } else {
            if lit_colour(field, rest, coord).is_some() {
                let i = choose|i: int|
                    0 <= i < rest.len() && light_on(field, #[trigger] rest[i], coord).is_some();
                assert(lights[i] == rest[i]);
            } else {
                assert(light_on(field, lights[lights.len() - 1], coord).is_some());
            }
        }
    }
}

/// The colour on a cell, with black for a cell that has none.
pub open spec fn colour_or_dark(colour: Option<Rgb24>) -> Rgb24 {
    match colour {
        Some(colour) => colour,
        None => Rgb24 { r: 0, g: 0, b: 0 },
    }
}

proof fn lemma_channel_fades(
    channel: u8,
    diminish: Rational,
    near: int,
    far: int,
    near_visibility: u8,
    far_visibility: u8,
)
    requires
        diminish.denominator > 0,
        0 <= near <= far,
        far_visibility <= near_visibility,
    ensures
        attenuated_channel(channel, diminish, far, far_visibility) <= attenuated_channel(
            channel,
            diminish,
            near,
            near_visibility,
        ),
{
    lemma_channel_fades_with_distance(channel, diminish, near, far, far_visibility);
    lemma_attenuation_bounds(channel, diminish, near, near_visibility);
    lemma_attenuation_bounds(channel, diminish, near, far_visibility);
    let faded = (channel * diminish.denominator) / (diminish.denominator + diminish.numerator
        * near);
    lemma_mul_inequality(far_visibility as int, near_visibility as int, faded);
    assert(faded * far_visibility <= faded * near_visibility) by (nonlinear_arith)
        requires
            far_visibility * faded <= near_visibility * faded,
    ;
    lemma_div_is_ordered(faded * far_visibility, faded * near_visibility, 255);
}

/// Under a single light, colour does not rise with distance: of two cells,
/// the one that lies no nearer to the light and is seen no better from it
/// is no brighter on any channel. A cell without colour counts as black.
pub proof fn lemma_lone_light_fades(
    field: Grid<u8>,
    source: (Coordinate, Light),
    near: Coordinate,
    far: Coordinate,
)
    requires
        source.1.wf(),
        source.0.distance2_spec(near) <= source.0.distance2_spec(far),
        remaining_visibility(field, source.0, source.1.vision_distance, far)
            <= remaining_visibility(field, source.0, source.1.vision_distance, near),
    ensures
        colour_or_dark(lit_colour(field, seq![source], far)).r <= colour_or_dark(
            lit_colour(field, seq![source], near),
        ).r,
        colour_or_dark(lit_colour(field, seq![source], far)).g <= colour_or_dark(
            lit_colour(field, seq![source], near),
        ).g,
        colour_or_dark(lit_colour(field, seq![source], far)).b <= colour_or_dark(
            lit_colour(field, seq![source], near),
        ).b,
{
    let lights = seq![source];
    assert(lights.drop_last() =~= Seq::<(Coordinate, Light)>::empty());
    assert(lights.last() == source);
    assert(lit_colour(field, lights.drop_last(), far).is_none());
    assert(lit_colour(field, lights.drop_last(), near).is_none());
    assert(lit_colour(field, lights, far) == light_on(field, source, far));
    assert(lit_colour(field, lights, near) == light_on(field, source, near));
    let light = source.1;
    let near_way = source.0.distance2_spec(near);
    let far_way = source.0.distance2_spec(far);
    let near_left = remaining_visibility(field, source.0, light.vision_distance, near);
    let far_left = remaining_visibility(field, source.0, light.vision_distance, far);
    assert(near_way >= 0) by (nonlinear_arith)
        requires
            near_way == (source.0.x - near.x) * (source.0.x - near.x) + (source.0.y - near.y) * (
            source.0.y - near.y),
    ;
    lemma_channel_fades(light.colour.r, light.diminish, near_way, far_way, near_left, far_left);
    lemma_channel_fades(light.colour.g, light.diminish, near_way, far_way, near_left, far_left);
    lemma_channel_fades(light.colour.b, light.diminish, near_way, far_way, near_left, far_left);
    lemma_attenuation_bounds(light.colour.r, light.diminish, near_way, near_left);
    lemma_attenuation_bounds(light.colour.g, light.diminish, near_way, near_left);
    lemma_attenuation_bounds(light.colour.b, light.diminish, near_way, near_left);
}

/// Light reads a field only through its size and its opacities: two fields
/// that agree in both are lit alike.
pub proof fn lemma_lit_colour_reads_opacities(
    first: Grid<u8>,
    second: Grid<u8>,
    lights: Seq<(Coordinate, Light)>,
    coord: Coordinate,
)
    requires
        first.size == second.size,
        first.cells@ == second.cells@,
    ensures
        lit_colour(first, lights, coord) == lit_colour(second, lights, coord),
    decreases lights.len(),
{
    if lights.len() > 0 {
        lemma_lit_colour_reads_opacities(first, second, lights.drop_last(), coord);
    }
}

} // verus!
