use vstd::prelude::*;

verus! {

/// The closed set of concrete kinds a scene object can have. A handle
/// carries one of these as its static type marker, and code walking the
/// whole arena tests an object's kind before using it.
#[derive(Clone, Copy, PartialEq, Eq, Structural, Debug)]
pub enum ObjectKind {
    Bird,
    Obstacle,
    Markers,
}

/// A storable game-state value: a tagged variant over the known kinds.
/// Coordinates and velocities are in integer world units.
#[derive(Debug)]
pub enum Object {
    Bird { x: i64, y: i64, vel_x: i64, vel_y: i64 },
    Obstacle { x: i64, y: i64 },
    Markers { values: Vec<u64> },
}

/// Mathematical model of an `Object`.
pub enum ObjectV {
    Bird { x: i64, y: i64, vel_x: i64, vel_y: i64 },
    Obstacle { x: i64, y: i64 },
    Markers { values: Seq<u64> },
}

impl View for Object {
    type V = ObjectV;

    open spec fn view(&self) -> ObjectV {
        match self {
            Object::Bird { x, y, vel_x, vel_y } => ObjectV::Bird {
                x: *x,
                y: *y,
                vel_x: *vel_x,
                vel_y: *vel_y,
            },
            Object::Obstacle { x, y } => ObjectV::Obstacle { x: *x, y: *y },
            Object::Markers { values } => ObjectV::Markers { values: values@ },
        }
    }
}

impl ObjectV {
    /// The kind tag of a modelled object.
    pub open spec fn kind(self) -> ObjectKind {
        match self {
            ObjectV::Bird { .. } => ObjectKind::Bird,
            ObjectV::Obstacle { .. } => ObjectKind::Obstacle,
            ObjectV::Markers { .. } => ObjectKind::Markers,
        }
    }
}

impl Object {
    /// The kind tag of an object.
    pub fn kind(&self) -> (k: ObjectKind)
        ensures
            k == self@.kind(),
    {
        match self {
            Object::Bird { .. } => ObjectKind::Bird,
            Object::Obstacle { .. } => ObjectKind::Obstacle,
            Object::Markers { .. } => ObjectKind::Markers,
        }
    }
}

} // verus!
