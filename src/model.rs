//! The example records that the server hands out.
use vstd::prelude::*;

verus! {

/// A position in space.
#[derive(Clone, Copy, Debug, PartialEq, Eq, Structural)]
pub struct Point {
    pub x: i32,
    pub y: i32,
    pub z: i32,
}

/// A craft: its fuel, its velocity along each axis, and where it is.
#[derive(Clone, Copy, Debug, PartialEq, Eq, Structural)]
pub struct Craft {
    pub fuel: i32,
    pub vel_x: i32,
    pub vel_y: i32,
    pub vel_z: i32,
    pub location: Point,
}

/// Core counts of the host. `cpu_count` holds the physical count and
/// `core_count` the logical one; the wire format keeps these names.
#[derive(Clone, Copy, Debug, PartialEq, Eq, Structural)]
pub struct Hardware {
    pub cpu_count: usize,
    pub core_count: usize,
}

/// The craft that `GET /craft` serves.
pub open spec fn example_craft() -> Craft {
    Craft {
        fuel: 12,
        vel_x: 1,
        vel_y: 2,
        vel_z: 2,
        location: Point { x: 10, y: 22, z: 9 },
    }
}

impl Point {
    pub fn new(x: i32, y: i32, z: i32) -> (r: Point)
        ensures
            r.x == x,
            r.y == y,
            r.z == z,
    {
        Point { x, y, z }
    }
}

impl Craft {
    pub fn new(fuel: i32, vel_x: i32, vel_y: i32, vel_z: i32, location: Point) -> (r: Craft)
        ensures
            r.fuel == fuel,
            r.vel_x == vel_x,
            r.vel_y == vel_y,
            r.vel_z == vel_z,
            r.location == location,
    {
        Craft { fuel, vel_x, vel_y, vel_z, location }
    }

    /// The craft that `GET /craft` serves.
    pub fn example() -> (r: Craft)
        ensures
            r == example_craft(),
    {
        Craft::new(12, 1, 2, 2, Point::new(10, 22, 9))
    }
}

impl Hardware {
    /// Builds the report from the logical and the physical core count:
    /// the physical count goes to `cpu_count`, the logical to `core_count`.
    pub fn from_counts(logical: usize, physical: usize) -> (r: Hardware)
        ensures
            r.cpu_count == physical,
            r.core_count == logical,
    {
        Hardware { cpu_count: physical, core_count: logical }
    }
}

} // verus!
