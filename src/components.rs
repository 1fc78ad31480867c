use vstd::prelude::*;

verus! {

/// Thousandths of a playfield unit per unit.
pub const UNIT: i64 = 1000;

/// Thousandths of a degree in a full turn.
pub const FULL_TURN: i64 = 360_000;

/// Position of an entity: x, y (thousandths of a unit) and heading (thousandths of a degree).
#[derive(Debug, Clone, Copy, PartialEq, Eq, Structural)]
pub struct Position(pub i64, pub i64, pub i64);

/// Velocity of an entity: x and y in thousandths of a unit per second, heading in
/// thousandths of a degree per second.
#[derive(Debug, Clone, Copy, PartialEq, Eq, Structural)]
pub struct Velocity(pub i64, pub i64, pub i64);

/// Which resolution rules apply to a collidable entity.
#[derive(Debug, Clone, Copy, PartialEq, Eq, Structural)]
pub enum CollidableType {
    PLAYER,
    ASTEROID,
    BULLET,
}

/// Hitbox radius (thousandths of a unit) and kind of a collidable entity.
#[derive(Debug, Clone, Copy, PartialEq, Eq, Structural)]
pub struct Collidable(pub i64, pub CollidableType);

/// Marks the entity that the player's input steers.
#[derive(Debug, Clone, Copy, PartialEq, Eq, Structural)]
pub struct Controllable();

/// Colour tag of a drawable entity; the renderer picks the actual colour.
#[derive(Debug, Clone, Copy, PartialEq, Eq, Structural)]
pub enum Tint {
    Ship,
    Rock,
    Bolt,
}

/// Presentation data: a colour tag and a local-space polyline (thousandths of a unit),
/// which the renderer rotates by the heading and places at the position.
#[derive(Debug, Clone)]
pub struct Draw(pub Tint, pub Vec<(i64, i64)>);

/// The simulation components of one entity.
#[derive(Debug, Clone, Copy, PartialEq, Eq, Structural)]
pub struct Body {
    pub position: Position,
    pub velocity: Velocity,
    pub collidable: Collidable,
    pub controllable: Option<Controllable>,
}

} // verus!
