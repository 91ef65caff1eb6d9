//! Session configuration: the game type and the per-mode parameters, parsed
//! once from SET_GAME_DATA.

use crate::prm::{
    spec_mechosoma_le, spec_mustodont_le, spec_passembloss_le, spec_vanwar_le, Mechosoma,
    Mustodont, Passembloss, VanWar,
};
use crate::utils::{i32_le, slice_le_to_i32, spec_i32_from_le, spec_i32_le};
use vstd::prelude::*;

verus! {

/// The game types a session can be configured as. `UNCONFIGURED` stands for
/// the type code of a session with no configuration yet and is rejected on
/// the wire.
#[allow(non_camel_case_types)]
#[derive(PartialEq, Eq, Structural, Debug, Copy, Clone)]
pub enum Type {
    UNCONFIGURED,
    VAN_WAR,
    MECHOSOMA,
    PASSEMBLOSS,
    MIR_RAGE,
    HUNTAGE,
    MUSTODONT,
}

/// The wire code of each game type.
pub open spec fn spec_type_code(t: Type) -> i32 {
    match t {
        Type::UNCONFIGURED => -1i32,
        Type::VAN_WAR => 0i32,
        Type::MECHOSOMA => 1i32,
        Type::PASSEMBLOSS => 2i32,
        Type::MIR_RAGE => 3i32,
        Type::HUNTAGE => 4i32,
        Type::MUSTODONT => 5i32,
    }
}

/// The game type a wire code stands for, `None` for any other code.
pub open spec fn spec_type_from_i32(v: i32) -> Option<Type> {
    if v == -1 {
        Some(Type::UNCONFIGURED)
    } else if v == 0 {
        Some(Type::VAN_WAR)
    } else if v == 1 {
        Some(Type::MECHOSOMA)
    } else if v == 2 {
        Some(Type::PASSEMBLOSS)
    } else if v == 3 {
        Some(Type::MIR_RAGE)
    } else if v == 4 {
        Some(Type::HUNTAGE)
    } else if v == 5 {
        Some(Type::MUSTODONT)
    } else {
        None
    }
}

impl Type {
    /// The wire code of this game type.
    pub fn to_i32(&self) -> (r: i32)
        ensures
            r == spec_type_code(*self),
    {
        match self {
            Type::UNCONFIGURED => -1,
            Type::VAN_WAR => 0,
            Type::MECHOSOMA => 1,
            Type::PASSEMBLOSS => 2,
            Type::MIR_RAGE => 3,
            Type::HUNTAGE => 4,
            Type::MUSTODONT => 5,
        }
    }

    /// The game type a wire code stands for, `None` for any other code.
    pub fn from_i32(v: i32) -> (r: Option<Type>)
        ensures
            r == spec_type_from_i32(v),
    {
        if v == -1 {
            Some(Type::UNCONFIGURED)
        } else if v == 0 {
            Some(Type::VAN_WAR)
        } else if v == 1 {
            Some(Type::MECHOSOMA)
        } else if v == 2 {
            Some(Type::PASSEMBLOSS)
        } else if v == 3 {
            Some(Type::MIR_RAGE)
        } else if v == 4 {
            Some(Type::HUNTAGE)
        } else if v == 5 {
            Some(Type::MUSTODONT)
        } else {
            None
        }
    }
}

/// The configured game mode with its per-mode parameters.
#[derive(Debug, PartialEq, Eq, Structural)]
pub enum GameMode {
    VanWar(VanWar),
    Mechosoma(Mechosoma),
    Passembloss(Passembloss),
    MirRage,
    Huntage,
    Mustodont(Mustodont),
}

/// The game type of a mode value.
pub open spec fn spec_mode_type(m: GameMode) -> Type {
    match m {
        GameMode::VanWar(_) => Type::VAN_WAR,
        GameMode::Mechosoma(_) => Type::MECHOSOMA,
        GameMode::Passembloss(_) => Type::PASSEMBLOSS,
        GameMode::MirRage => Type::MIR_RAGE,
        GameMode::Huntage => Type::HUNTAGE,
        GameMode::Mustodont(_) => Type::MUSTODONT,
    }
}

/// The wire bytes of a mode's parameters; the modes without parameters
/// serialize to nothing.
pub open spec fn spec_mode_le(m: GameMode) -> Seq<u8> {
    match m {
        GameMode::VanWar(v) => spec_vanwar_le(v),
        GameMode::Mechosoma(v) => spec_mechosoma_le(v),
        GameMode::Passembloss(v) => spec_passembloss_le(v),
        GameMode::Mustodont(v) => spec_mustodont_le(v),
        GameMode::Huntage => Seq::empty(),
        GameMode::MirRage => Seq::empty(),
    }
}

/// A session's configuration, set once on the first SET_GAME_DATA and
/// immutable thereafter.
#[derive(Debug, PartialEq, Eq, Structural)]
pub struct Config {
    pub initial_rnd: i32,
    pub initial_cash: i32,
    pub artefacts_using: i32,
    pub in_escave_time: i32,
    pub color: i32,
    pub game_type: GameMode,
}

/// The wire bytes of a configuration: six 32-bit header values then the
/// mode-specific tail.
pub open spec fn spec_config_le(c: Config) -> Seq<u8> {
    spec_i32_le(c.initial_rnd) + spec_i32_le(spec_type_code(spec_mode_type(c.game_type)))
        + spec_i32_le(c.initial_cash) + spec_i32_le(c.artefacts_using) + spec_i32_le(
        c.in_escave_time,
    ) + spec_i32_le(c.color) + spec_mode_le(c.game_type)
}

/// Whether configuration bytes parse: a 24-byte header whose type code is
/// known and not `UNCONFIGURED`, followed by that mode's full parameters.
pub open spec fn spec_config_ok(s: Seq<u8>) -> bool {
    &&& s.len() >= 24
    &&& match spec_type_from_i32(spec_i32_from_le(s.subrange(4, 8))) {
        Some(Type::VAN_WAR) => s.len() - 24 >= 20,
        Some(Type::MECHOSOMA) => s.len() - 24 >= 20,
        Some(Type::PASSEMBLOSS) => s.len() - 24 >= 8,
        Some(Type::MUSTODONT) => s.len() - 24 >= 8,
        Some(Type::HUNTAGE) => true,
        Some(Type::MIR_RAGE) => true,
        _ => false,
    }
}

/// The configuration that wire bytes describe. Van-War's `max_time` is not
/// taken from the wire: it is pinned to the largest 32-bit value.
pub open spec fn spec_config_from(s: Seq<u8>) -> Config {
    let tail = s.skip(24);
    Config {
        initial_rnd: spec_i32_from_le(s.subrange(0, 4)),
        initial_cash: spec_i32_from_le(s.subrange(8, 12)),
        artefacts_using: spec_i32_from_le(s.subrange(12, 16)),
        in_escave_time: spec_i32_from_le(s.subrange(16, 20)),
        color: spec_i32_from_le(s.subrange(20, 24)),
        game_type: match spec_type_from_i32(spec_i32_from_le(s.subrange(4, 8))) {
            Some(Type::VAN_WAR) => GameMode::VanWar(
                VanWar {
                    nascency: spec_i32_from_le(tail.subrange(0, 4)),
                    team_mode: spec_i32_from_le(tail.subrange(4, 8)),
                    world_access: spec_i32_from_le(tail.subrange(8, 12)),
                    max_kills: spec_i32_from_le(tail.subrange(12, 16)),
                    max_time: 0x7FFF_FFFFu32,
                },
            ),
            Some(Type::MECHOSOMA) => GameMode::Mechosoma(
                Mechosoma {
                    world: spec_i32_from_le(tail.subrange(0, 4)),
                    product_quantity1: spec_i32_from_le(tail.subrange(4, 8)),
                    product_quantity2: spec_i32_from_le(tail.subrange(8, 12)),
                    one_at_a_time: spec_i32_from_le(tail.subrange(12, 16)),
                    team_mode: spec_i32_from_le(tail.subrange(16, 20)),
                },
            ),
            Some(Type::PASSEMBLOSS) => GameMode::Passembloss(
                Passembloss {
                    checkpoints_number: spec_i32_from_le(tail.subrange(0, 4)),
                    random_escave: spec_i32_from_le(tail.subrange(4, 8)),
                },
            ),
            Some(Type::MUSTODONT) => GameMode::Mustodont(
                Mustodont {
                    unique_mechos_name: spec_i32_from_le(tail.subrange(0, 4)),
                    team_mode: spec_i32_from_le(tail.subrange(4, 8)),
                },
            ),
            Some(Type::HUNTAGE) => GameMode::Huntage,
            _ => GameMode::MirRage,
        },
    }
}

impl Config {
    /// The game type of this configuration.
    pub fn get_gametype(&self) -> (r: Type)
        ensures
            r == spec_mode_type(self.game_type),
    {
        match self.game_type {
            GameMode::VanWar(_) => Type::VAN_WAR,
            GameMode::Mechosoma(_) => Type::MECHOSOMA,
            GameMode::Passembloss(_) => Type::PASSEMBLOSS,
            GameMode::MirRage => Type::MIR_RAGE,
            GameMode::Huntage => Type::HUNTAGE,
            GameMode::Mustodont(_) => Type::MUSTODONT,
        }
    }

    /// A configuration with the default parameters of the given game type,
    /// which must not be `UNCONFIGURED`.
    pub fn new(gametype: Type) -> (r: Self)
        requires
            gametype != Type::UNCONFIGURED,
        ensures
            spec_mode_type(r.game_type) == gametype,
            r.initial_rnd == 1,
            r.initial_cash == 100000,
            r.artefacts_using == 0,
            r.in_escave_time == 60,
            r.color == 0,
    {
        let game_type = match gametype {
            Type::VAN_WAR => GameMode::VanWar(VanWar::default()),
            Type::MECHOSOMA => GameMode::Mechosoma(Mechosoma::default()),
            Type::PASSEMBLOSS => GameMode::Passembloss(Passembloss::default()),
            Type::MIR_RAGE => GameMode::MirRage,
            Type::HUNTAGE => GameMode::Huntage,
            Type::MUSTODONT => GameMode::Mustodont(Mustodont::default()),
            Type::UNCONFIGURED => GameMode::MirRage,
        };

        Self {
            initial_rnd: 1,
            initial_cash: 100000,
            artefacts_using: 0,
            in_escave_time: 60,
            color: 0,
            game_type,
        }
    }

    /// Serializes the configuration: the six header values then the mode's
    /// parameters.
    pub fn to_vangers_byte(&self) -> (r: Vec<u8>)
        ensures
            r@ == spec_config_le(*self),
    {
        let mut out = i32_le(self.initial_rnd);
        let mut b = i32_le(self.get_gametype().to_i32());
        out.append(&mut b);
        let mut b = i32_le(self.initial_cash);
        out.append(&mut b);
        let mut b = i32_le(self.artefacts_using);
        out.append(&mut b);
        let mut b = i32_le(self.in_escave_time);
        out.append(&mut b);
        let mut b = i32_le(self.color);
        out.append(&mut b);

        let mut game_mode = match &self.game_type {
            GameMode::VanWar(e) => e.to_vangers_byte(),
            GameMode::Mechosoma(e) => e.to_vangers_byte(),
            GameMode::Passembloss(e) => e.to_vangers_byte(),
            GameMode::Mustodont(e) => e.to_vangers_byte(),
            GameMode::Huntage => Vec::new(),
            GameMode::MirRage => Vec::new(),
        };
        out.append(&mut game_mode);
        assert(out@ =~= spec_config_le(*self));
        out
    }

    /// Parses a configuration; `None` when the header is short, the type
    /// code unknown or `UNCONFIGURED`, or the mode's parameters are missing.
    pub fn from_slice(slice: &[u8]) -> (r: Option<Self>)
        ensures
            r is Some <==> spec_config_ok(slice@),
            r is Some ==> r->0 == spec_config_from(slice@),
    {
        if slice.len() < 24 {
            return None;
        }

        let initial_rnd = slice_le_to_i32(&slice[0..4]);
        let game_type_code = slice_le_to_i32(&slice[4..8]);
        let initial_cash = slice_le_to_i32(&slice[8..12]);
        let artefacts_using = slice_le_to_i32(&slice[12..16]);
        let in_escave_time = slice_le_to_i32(&slice[16..20]);
        let color = slice_le_to_i32(&slice[20..24]);

        let tail = vstd::slice::slice_subrange(slice, 24, slice.len());
        proof {
            assert(tail@ =~= slice@.skip(24));
        }

        let game_type: Option<GameMode> = match Type::from_i32(game_type_code) {
            Some(Type::VAN_WAR) => if tail.len() >= 20 {
                Some(GameMode::VanWar(VanWar::from_slice(tail)))
            } else {
                None
            },
            Some(Type::MECHOSOMA) => if tail.len() >= 20 {
                Some(GameMode::Mechosoma(Mechosoma::from_slice(tail)))
            } else {
                None
            },
            Some(Type::PASSEMBLOSS) => if tail.len() >= 8 {
                Some(GameMode::Passembloss(Passembloss::from_slice(tail)))
            } else {
                None
            },
            Some(Type::MUSTODONT) => if tail.len() >= 8 {
                Some(GameMode::Mustodont(Mustodont::from_slice(tail)))
            } else {
                None
            },
            Some(Type::HUNTAGE) => Some(GameMode::Huntage),
            Some(Type::MIR_RAGE) => Some(GameMode::MirRage),
            _ => None,
        };

        match game_type {
            Some(game_type) => Some(
                Self {
                    initial_rnd,
                    initial_cash,
                    artefacts_using,
                    in_escave_time,
                    color,
                    game_type,
                },
            ),
            None => None,
        }
    }
}

} // verus!
