//! Which faces of a cube meet at which edges.
use crate::text::same_text;
use vstd::prelude::*;

verus! {

/// A side of a cube.
#[derive(Clone, Copy, Debug, PartialEq, Eq, Structural)]
pub enum Side {
    Down,
    Up,
    West,
    North,
    East,
    South,
}

/// An edge of a face as it lies in the texture.
#[derive(Clone, Copy, Debug, PartialEq, Eq, Structural)]
pub enum Edge {
    Top,
    Bottom,
    Left,
    Right,
}

/// The side that a face name stands for.
pub open spec fn side_named(name: Seq<char>) -> Option<Side> {
    if name == "down"@ {
        Some(Side::Down)
    } else if name == "up"@ {
        Some(Side::Up)
    } else if name == "west"@ {
        Some(Side::West)
    } else if name == "north"@ {
        Some(Side::North)
    } else if name == "east"@ {
        Some(Side::East)
    } else if name == "south"@ {
        Some(Side::South)
    } else {
        None
    }
}

pub open spec fn side_name(side: Side) -> Seq<char> {
    match side {
        Side::Down => "down"@,
        Side::Up => "up"@,
        Side::West => "west"@,
        Side::North => "north"@,
        Side::East => "east"@,
        Side::South => "south"@,
    }
}

/// What lies across an edge of a side: the neighbouring side, the neighbour's
/// own edge, and whether that edge runs the other way along the shared line.
/// Top and bottom edges run left to right, left and right ones top to bottom.
pub open spec fn across(side: Side, edge: Edge) -> (Side, Edge, bool) {
    match (side, edge) {
        (Side::Down, Edge::Top) => (Side::South, Edge::Top, true),
        (Side::Down, Edge::Bottom) => (Side::North, Edge::Top, false),
        (Side::Down, Edge::Left) => (Side::West, Edge::Top, false),
        (Side::Down, Edge::Right) => (Side::East, Edge::Top, true),
        (Side::Up, Edge::Top) => (Side::South, Edge::Bottom, true),
        (Side::Up, Edge::Bottom) => (Side::North, Edge::Bottom, false),
        (Side::Up, Edge::Left) => (Side::West, Edge::Bottom, false),
        (Side::Up, Edge::Right) => (Side::East, Edge::Bottom, true),
        (Side::West, Edge::Top) => (Side::Down, Edge::Left, false),
        (Side::West, Edge::Bottom) => (Side::Up, Edge::Left, false),
        (Side::West, Edge::Left) => (Side::South, Edge::Right, false),
        (Side::West, Edge::Right) => (Side::North, Edge::Left, false),
        (Side::North, Edge::Top) => (Side::Down, Edge::Bottom, false),
        (Side::North, Edge::Bottom) => (Side::Up, Edge::Bottom, false),
        (Side::North, Edge::Left) => (Side::West, Edge::Right, false),
        (Side::North, Edge::Right) => (Side::East, Edge::Left, false),
        (Side::East, Edge::Top) => (Side::Down, Edge::Right, true),
        (Side::East, Edge::Bottom) => (Side::Up, Edge::Right, true),
        (Side::East, Edge::Left) => (Side::North, Edge::Right, false),
        (Side::East, Edge::Right) => (Side::South, Edge::Left, false),
        (Side::South, Edge::Top) => (Side::Down, Edge::Top, true),
        (Side::South, Edge::Bottom) => (Side::Up, Edge::Top, true),
        (Side::South, Edge::Left) => (Side::East, Edge::Right, false),
        (Side::South, Edge::Right) => (Side::West, Edge::Left, false),
    }
}

/// Crossing a shared edge twice leads back: adjacency is symmetric, the two
/// faces agree on the direction, and no side is its own neighbour.
pub proof fn adjacency_is_symmetric(side: Side, edge: Edge)
    ensures
        ({
            let (neighbor, back, reversed) = across(side, edge);
            &&& across(neighbor, back) == (side, edge, reversed)
            &&& neighbor != side
        }),
{
}

/// The four edges of a side lead to four different sides, so that each side
/// touches all the others but the one opposite.
pub proof fn neighbors_are_distinct(side: Side, a: Edge, b: Edge)
    requires
        a != b,
    ensures
        across(side, a).0 != across(side, b).0,
{
}

/// Names and sides correspond one to one.
pub proof fn names_are_sides(side: Side)
    ensures
        side_named(side_name(side)) == Some(side),
{
    reveal_strlit("down");
    reveal_strlit("up");
    reveal_strlit("west");
    reveal_strlit("north");
    reveal_strlit("east");
    reveal_strlit("south");
    assert("down"@[0] == 'd');
    assert("west"@[0] == 'w');
    assert("north"@[0] == 'n');
    assert("east"@[0] == 'e');
    assert("south"@[0] == 's');
}

/// The side that a face name stands for, if any.
pub fn side_of(name: &str) -> (side: Option<Side>)
    ensures
        side == side_named(name@),
{
    if same_text(name, "down") {
        Some(Side::Down)
    } else if same_text(name, "up") {
        Some(Side::Up)
    } else if same_text(name, "west") {
        Some(Side::West)
    } else if same_text(name, "north") {
        Some(Side::North)
    } else if same_text(name, "east") {
        Some(Side::East)
    } else if same_text(name, "south") {
        Some(Side::South)
    } else {
        None
    }
}

fn name_of(side: Side) -> (name: &'static str)
    ensures
        name@ == side_name(side),
{
    match side {
        Side::Down => "down",
        Side::Up => "up",
        Side::West => "west",
        Side::North => "north",
        Side::East => "east",
        Side::South => "south",
    }
}

/// Cube-edge adjacency between sides.
pub fn neighbor(side: Side, edge: Edge) -> (found: (Side, Edge, bool))
    ensures
        found == across(side, edge),
{
    match (side, edge) {
        (Side::Down, Edge::Top) => (Side::South, Edge::Top, true),
        (Side::Down, Edge::Bottom) => (Side::North, Edge::Top, false),
        (Side::Down, Edge::Left) => (Side::West, Edge::Top, false),
        (Side::Down, Edge::Right) => (Side::East, Edge::Top, true),
        (Side::Up, Edge::Top) => (Side::South, Edge::Bottom, true),
        (Side::Up, Edge::Bottom) => (Side::North, Edge::Bottom, false),
        (Side::Up, Edge::Left) => (Side::West, Edge::Bottom, false),
        (Side::Up, Edge::Right) => (Side::East, Edge::Bottom, true),
        (Side::West, Edge::Top) => (Side::Down, Edge::Left, false),
        (Side::West, Edge::Bottom) => (Side::Up, Edge::Left, false),
        (Side::West, Edge::Left) => (Side::South, Edge::Right, false),
        (Side::West, Edge::Right) => (Side::North, Edge::Left, false),
        (Side::North, Edge::Top) => (Side::Down, Edge::Bottom, false),
        (Side::North, Edge::Bottom) => (Side::Up, Edge::Bottom, false),
        (Side::North, Edge::Left) => (Side::West, Edge::Right, false),
        (Side::North, Edge::Right) => (Side::East, Edge::Left, false),
        (Side::East, Edge::Top) => (Side::Down, Edge::Right, true),
        (Side::East, Edge::Bottom) => (Side::Up, Edge::Right, true),
        (Side::East, Edge::Left) => (Side::North, Edge::Right, false),
        (Side::East, Edge::Right) => (Side::South, Edge::Left, false),
        (Side::South, Edge::Top) => (Side::Down, Edge::Top, true),
        (Side::South, Edge::Bottom) => (Side::Up, Edge::Top, true),
        (Side::South, Edge::Left) => (Side::East, Edge::Right, false),
        (Side::South, Edge::Right) => (Side::West, Edge::Left, false),
    }
}

/// Cube-edge adjacency by face name: the neighbour's name, its edge, and
/// whether that edge runs the other way. `None` for a name that is no side.
pub fn neighbor_edge(face: &str, edge: Edge) -> (found: Option<(&'static str, Edge, bool)>)
    ensures
        match side_named(face@) {
            None => found is None,
            Some(side) => found matches Some((name, back, reversed)) && {
                &&& name@ == side_name(across(side, edge).0)
                &&& back == across(side, edge).1
                &&& reversed == across(side, edge).2
            },
        },
{
    match side_of(face) {
        None => None,
        Some(side) => {
            let (other, back, reversed) = neighbor(side, edge);
            Some((name_of(other), back, reversed))
        },
    }
}

/// A corner of the cube, by the three axes.
pub type Vertex = (bool, bool, bool);

/// Where a corner of a face lies on the cube: the sides stand around it as west,
/// north, east and south do in the texture, each joining the next, with down
/// above and up below them.
pub open spec fn vertex(side: Side, right: bool, bottom: bool) -> Vertex {
    match side {
        Side::North => (right, bottom, false),
        Side::East => (true, bottom, right),
        Side::South => (!right, bottom, true),
        Side::West => (false, bottom, !right),
        Side::Down => (right, false, !bottom),
        Side::Up => (right, true, !bottom),
    }
}

/// An end of a face's edge on the cube: the first one is at the left or top.
pub open spec fn edge_end(side: Side, edge: Edge, last: bool) -> Vertex {
    match edge {
        Edge::Top => vertex(side, last, false),
        Edge::Bottom => vertex(side, last, true),
        Edge::Left => vertex(side, false, last),
        Edge::Right => vertex(side, true, last),
    }
}

/// What lies across an edge is what joins it on a cube: the two edges have the
/// same ends, in the same order, or exchanged where they run opposite ways.
pub proof fn neighbors_share_an_edge_of_the_cube(
    side: Side,
    edge: Edge,
    found: (Side, Edge, bool),
    last: bool,
)
    requires
        call_ensures(neighbor, (side, edge), found),
    ensures
        found.0 != side,
        edge_end(side, edge, last) == edge_end(found.0, found.1, last != found.2),
{
}

/// A name stands for a side just where it is the side's name; the neighbour that
/// is found by name is the one that joins the named side, and leads back to it.
pub proof fn neighbors_are_found_by_name(
    side: Side,
    edge: Edge,
    name: &str,
    found: Option<(&str, Edge, bool)>,
    there: Option<Side>,
)
    requires
        name@ == side_name(side),
        call_ensures(neighbor_edge, (name, edge), found),
        found matches Some((other, _, _)) ==> call_ensures(side_of, (other,), there),
    ensures
        there matches Some(other) && other != side && (found matches Some((_, back, reversed))
            && edge_end(side, edge, false) == edge_end(other, back, reversed) && edge_end(
            side,
            edge,
            true,
        ) == edge_end(other, back, !reversed)),
{
    names_are_sides(side);
    names_are_sides(across(side, edge).0);
}

/// A name that is no side's stands for none.
pub proof fn other_names_are_no_sides(name: &str, side: Option<Side>)
    requires
        call_ensures(side_of, (name,), side),
    ensures
        match side {
            Some(side) => name@ == side_name(side),
            None => name@ != "down"@ && name@ != "up"@ && name@ != "west"@ && name@ != "north"@
                && name@ != "east"@ && name@ != "south"@,
        },
{
}

} // verus!
