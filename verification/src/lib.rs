//! Ultima Online protocol library: packet codecs, stream compression and
//! encryption, client version handling and game data parsing.

use core::cmp::Ordering;
use vstd::prelude::*;
use vstd::std_specs::cmp::PartialOrdSpec;

pub mod assets;
pub mod fabricator;
pub mod protocol;
pub mod source;
pub mod types;
pub mod vector;
pub mod zlib;

verus! {

/// Entity ids at or above this value denote items; below it, characters.
pub const MIN_ITEM_ID: u32 = 0x40000000;

/// The identifier of a world entity on the wire.
#[derive(Debug, Clone, Copy, Default, Hash, PartialEq, Eq, Structural, Ord)]
pub struct EntityId(u32);

impl PartialOrd for EntityId {
    /// Ids compare by their numbers.
    fn partial_cmp(&self, other: &EntityId) -> (r: Option<Ordering>) {
        if self.0 < other.0 {
            Some(Ordering::Less)
        } else if self.0 > other.0 {
            Some(Ordering::Greater)
        } else {
            Some(Ordering::Equal)
        }
    }
}

impl vstd::std_specs::cmp::PartialOrdSpecImpl for EntityId {
    open spec fn obeys_partial_cmp_spec() -> bool {
        true
    }

    open spec fn partial_cmp_spec(&self, other: &EntityId) -> Option<Ordering> {
        if self@ < other@ {
            Some(Ordering::Less)
        } else if self@ > other@ {
            Some(Ordering::Greater)
        } else {
            Some(Ordering::Equal)
        }
    }
}

/// Entity ids are ordered as their numbers are.
pub proof fn lemma_entity_id_order(a: u32, b: u32)
    ensures
        (EntityId::spec_from_u32(a).partial_cmp_spec(&EntityId::spec_from_u32(b)) == Some(Ordering::Less))
            == (a < b),
        (EntityId::spec_from_u32(a).partial_cmp_spec(&EntityId::spec_from_u32(b)) == Some(Ordering::Equal))
            == (a == b),
        (EntityId::spec_from_u32(a).partial_cmp_spec(&EntityId::spec_from_u32(b)) == Some(Ordering::Greater))
            == (a > b),
{
    EntityId::lemma_spec_from_u32(a);
    EntityId::lemma_spec_from_u32(b);
}

impl View for EntityId {
    type V = u32;

    closed spec fn view(&self) -> u32 {
        self.0
    }
}

/// Two entity ids with the same numeric value are the same id.
pub broadcast proof fn lemma_entity_id_view_injective(a: EntityId, b: EntityId)
    ensures
        #![trigger a@, b@]
        a@ == b@ ==> a == b,
{
}

impl EntityId {
    /// The id with value zero, which marks "no entity".
    pub open spec fn spec_zero() -> EntityId {
        EntityId::spec_from_u32(0)
    }

    pub closed spec fn spec_from_u32(value: u32) -> EntityId {
        EntityId(value)
    }

    pub broadcast proof fn lemma_spec_from_u32(value: u32)
        ensures
            (#[trigger] EntityId::spec_from_u32(value))@ == value,
    {
    }

    pub fn zero() -> (r: EntityId)
        ensures
            r@ == 0,
            r == EntityId::spec_zero(),
    {
        EntityId(0)
    }

    pub fn is_valid(&self) -> (r: bool)
        ensures
            r == (self@ != 0),
    {
        self.0 != 0
    }

    pub fn is_item(&self) -> (r: bool)
        ensures
            r == (self@ >= MIN_ITEM_ID),
    {
        self.0 >= MIN_ITEM_ID
    }

    pub fn as_u32(&self) -> (r: u32)
        ensures
            r == self@,
    {
        self.0
    }

    pub fn from_u32(value: u32) -> (r: EntityId)
        ensures
            r@ == value,
            r == EntityId::spec_from_u32(value),
    {
        EntityId(value)
    }
}

/// One of the eight compass directions an entity can face.
#[derive(Debug, Clone, Copy, Default, PartialEq, Eq, Structural)]
pub enum Direction {
    #[default]
    North,
    Right,
    East,
    Down,
    South,
    Left,
    West,
    Up,
}

impl Direction {
    pub open spec fn spec_from_repr(v: u8) -> Option<Direction> {
        if v == 0 {
            Some(Direction::North)
        } else if v == 1 {
            Some(Direction::Right)
        } else if v == 2 {
            Some(Direction::East)
        } else if v == 3 {
            Some(Direction::Down)
        } else if v == 4 {
            Some(Direction::South)
        } else if v == 5 {
            Some(Direction::Left)
        } else if v == 6 {
            Some(Direction::West)
        } else if v == 7 {
            Some(Direction::Up)
        } else {
            None
        }
    }

    pub open spec fn spec_repr(&self) -> u8 {
        match self {
            Direction::North => 0,
            Direction::Right => 1,
            Direction::East => 2,
            Direction::Down => 3,
            Direction::South => 4,
            Direction::Left => 5,
            Direction::West => 6,
            Direction::Up => 7,
        }
    }

    /// The direction with the given wire value, if there is one.
    pub fn from_repr(v: u8) -> (r: Option<Direction>)
        ensures
            r == Direction::spec_from_repr(v),
    {
        match v {
            0 => Some(Direction::North),
            1 => Some(Direction::Right),
            2 => Some(Direction::East),
            3 => Some(Direction::Down),
            4 => Some(Direction::South),
            5 => Some(Direction::Left),
            6 => Some(Direction::West),
            7 => Some(Direction::Up),
            _ => None,
        }
    }

    /// The wire value of this direction.
    pub fn repr(&self) -> (r: u8)
        ensures
            r == self.spec_repr(),
            Direction::spec_from_repr(r) == Some(*self),
    {
        match self {
            Direction::North => 0,
            Direction::Right => 1,
            Direction::East => 2,
            Direction::Down => 3,
            Direction::South => 4,
            Direction::Left => 5,
            Direction::West => 6,
            Direction::Up => 7,
        }
    }
}

/// What kind of world entity a packet describes.
#[derive(Debug, Clone, Copy, Default, PartialEq, Eq, Structural)]
pub enum EntityKind {
    #[default]
    Item,
    Character,
    Multi,
}

impl EntityKind {
    pub open spec fn spec_from_repr(v: u8) -> Option<EntityKind> {
        if v == 0 {
            Some(EntityKind::Item)
        } else if v == 1 {
            Some(EntityKind::Character)
        } else if v == 2 {
            Some(EntityKind::Multi)
        } else {
            None
        }
    }

    pub open spec fn spec_repr(&self) -> u8 {
        match self {
            EntityKind::Item => 0,
            EntityKind::Character => 1,
            EntityKind::Multi => 2,
        }
    }

    pub fn from_repr(v: u8) -> (r: Option<EntityKind>)
        ensures
            r == EntityKind::spec_from_repr(v),
    {
        match v {
            0 => Some(EntityKind::Item),
            1 => Some(EntityKind::Character),
            2 => Some(EntityKind::Multi),
            _ => None,
        }
    }

    pub fn repr(&self) -> (r: u8)
        ensures
            r == self.spec_repr(),
            EntityKind::spec_from_repr(r) == Some(*self),
    {
        match self {
            EntityKind::Item => 0,
            EntityKind::Character => 1,
            EntityKind::Multi => 2,
        }
    }
}

/// The reputation class of a character, which decides its name colour.
#[derive(Debug, Clone, Copy, Default, PartialEq, Eq, Structural)]
pub enum Notoriety {
    Invalid,
    Innocent,
    Ally,
    #[default]
    Neutral,
    Criminal,
    Enemy,
    Murderer,
    Invulnerable,
}

impl Notoriety {
    pub open spec fn spec_from_repr(v: u8) -> Option<Notoriety> {
        if v == 0 {
            Some(Notoriety::Invalid)
        } else if v == 1 {
            Some(Notoriety::Innocent)
        } else if v == 2 {
            Some(Notoriety::Ally)
        } else if v == 3 {
            Some(Notoriety::Neutral)
        } else if v == 4 {
            Some(Notoriety::Criminal)
        } else if v == 5 {
            Some(Notoriety::Enemy)
        } else if v == 6 {
            Some(Notoriety::Murderer)
        } else if v == 7 {
            Some(Notoriety::Invulnerable)
        } else {
            None
        }
    }

    pub open spec fn spec_repr(&self) -> u8 {
        match self {
            Notoriety::Invalid => 0,
            Notoriety::Innocent => 1,
            Notoriety::Ally => 2,
            Notoriety::Neutral => 3,
            Notoriety::Criminal => 4,
            Notoriety::Enemy => 5,
            Notoriety::Murderer => 6,
            Notoriety::Invulnerable => 7,
        }
    }

    pub fn from_repr(v: u8) -> (r: Option<Notoriety>)
        ensures
            r == Notoriety::spec_from_repr(v),
    {
        match v {
            0 => Some(Notoriety::Invalid),
            1 => Some(Notoriety::Innocent),
            2 => Some(Notoriety::Ally),
            3 => Some(Notoriety::Neutral),
            4 => Some(Notoriety::Criminal),
            5 => Some(Notoriety::Enemy),
            6 => Some(Notoriety::Murderer),
            7 => Some(Notoriety::Invulnerable),
            _ => None,
        }
    }

    pub fn repr(&self) -> (r: u8)
        ensures
            r == self.spec_repr(),
            Notoriety::spec_from_repr(r) == Some(*self),
    {
        match self {
            Notoriety::Invalid => 0,
            Notoriety::Innocent => 1,
            Notoriety::Ally => 2,
            Notoriety::Neutral => 3,
            Notoriety::Criminal => 4,
            Notoriety::Enemy => 5,
            Notoriety::Murderer => 6,
            Notoriety::Invulnerable => 7,
        }
    }
}

} // verus!
