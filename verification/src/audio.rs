use vstd::prelude::*;

use crate::kart::{PowerUp, StrikeKind};

verus! {

/// What hit a kart.
#[derive(Debug, Clone, Copy, PartialEq, Eq, Structural)]
pub enum Hit {
    Missile,
    Lightning,
    Shockwave,
    Banana,
    Ice,
    Fireball,
}

/// The hit a strike makes.
pub open spec fn hit_of(strike: StrikeKind) -> Hit {
    match strike {
        StrikeKind::Missile => Hit::Missile,
        StrikeKind::Lightning => Hit::Lightning,
        StrikeKind::Shockwave => Hit::Shockwave,
        StrikeKind::Banana => Hit::Banana,
        StrikeKind::Ice => Hit::Ice,
        StrikeKind::Fireball => Hit::Fireball,
    }
}

impl From<StrikeKind> for Hit {
    fn from(strike: StrikeKind) -> (hit: Self) {
        match strike {
            StrikeKind::Missile => Hit::Missile,
            StrikeKind::Lightning => Hit::Lightning,
            StrikeKind::Shockwave => Hit::Shockwave,
            StrikeKind::Banana => Hit::Banana,
            StrikeKind::Ice => Hit::Ice,
            StrikeKind::Fireball => Hit::Fireball,
        }
    }
}

impl vstd::std_specs::convert::FromSpecImpl<StrikeKind> for Hit {
    open spec fn obeys_from_spec() -> bool {
        true
    }

    open spec fn from_spec(strike: StrikeKind) -> Self {
        hit_of(strike)
    }
}

/// A sound the race plays.
#[derive(Debug, Clone, Copy, PartialEq, Eq, Structural)]
pub enum Cue {
    Beep,
    Go,
    Start,
    Lap,
    FinalLap,
    Finish,
    Record,
    Pickup,
    Activate(PowerUp),
    Hit(Hit),
    Shielded,
    Bump,
    Portal,
    Launch,
}

/// The sound event each cue plays.
pub open spec fn cue_sound(cue: Cue) -> Seq<char> {
    match cue {
        Cue::Beep | Cue::Go => "block.note_block.pling"@,
        Cue::Start => "entity.firework_rocket.large_blast"@,
        Cue::Lap => "block.note_block.bell"@,
        Cue::FinalLap => "block.bell.use"@,
        Cue::Finish => "entity.player.levelup"@,
        Cue::Record => "ui.toast.challenge_complete"@,
        Cue::Pickup => "entity.item.pickup"@,
        Cue::Activate(PowerUp::Turbo) => "entity.firework_rocket.launch"@,
        Cue::Activate(PowerUp::Shield) => "block.beacon.activate"@,
        Cue::Activate(PowerUp::Banana) => "block.slime_block.place"@,
        Cue::Activate(PowerUp::Ice) => "block.glass.place"@,
        Cue::Activate(PowerUp::Missile) => "entity.wither.shoot"@,
        Cue::Activate(PowerUp::Shockwave) => "entity.generic.explode"@,
        Cue::Activate(PowerUp::Lightning) => "entity.lightning_bolt.thunder"@,
        Cue::Activate(PowerUp::Recharge) => "block.respawn_anchor.charge"@,
        Cue::Activate(PowerUp::Fireball) => "entity.blaze.ambient"@,
        Cue::Hit(Hit::Missile) | Cue::Hit(Hit::Fireball) => "entity.generic.explode"@,
        Cue::Hit(Hit::Lightning) | Cue::Hit(Hit::Shockwave) => "entity.player.hurt"@,
        Cue::Hit(Hit::Banana) => "entity.slime.squish"@,
        Cue::Hit(Hit::Ice) => "block.glass.break"@,
        Cue::Shielded => "item.shield.block"@,
        Cue::Bump => "block.anvil.land"@,
        Cue::Portal => "block.portal.trigger"@,
        Cue::Launch => "entity.ghast.shoot"@,
    }
}

/// The cues heard as interface sounds rather than from a place in the world.
pub open spec fn cue_is_ui(cue: Cue) -> bool {
    match cue {
        Cue::Beep | Cue::Go | Cue::Start | Cue::Lap | Cue::FinalLap | Cue::Finish | Cue::Record
        | Cue::Pickup | Cue::Portal => true,
        _ => false,
    }
}

impl Cue {
    /// The sound event this cue plays.
    pub fn name(self) -> (name: &'static str)
        ensures
            name@ == cue_sound(self),
    {
        proof {
            reveal_strlit("block.note_block.pling");
            reveal_strlit("entity.firework_rocket.large_blast");
            reveal_strlit("block.note_block.bell");
            reveal_strlit("block.bell.use");
            reveal_strlit("entity.player.levelup");
            reveal_strlit("ui.toast.challenge_complete");
            reveal_strlit("entity.item.pickup");
            reveal_strlit("entity.firework_rocket.launch");
            reveal_strlit("block.beacon.activate");
            reveal_strlit("block.slime_block.place");
            reveal_strlit("block.glass.place");
            reveal_strlit("entity.wither.shoot");
            reveal_strlit("entity.generic.explode");
            reveal_strlit("entity.lightning_bolt.thunder");
            reveal_strlit("block.respawn_anchor.charge");
            reveal_strlit("entity.blaze.ambient");
            reveal_strlit("entity.player.hurt");
            reveal_strlit("entity.slime.squish");
            reveal_strlit("block.glass.break");
            reveal_strlit("item.shield.block");
            reveal_strlit("block.anvil.land");
            reveal_strlit("block.portal.trigger");
            reveal_strlit("entity.ghast.shoot");
        }
        match self {
            Cue::Beep | Cue::Go => "block.note_block.pling",
            Cue::Start => "entity.firework_rocket.large_blast",
            Cue::Lap => "block.note_block.bell",
            Cue::FinalLap => "block.bell.use",
            Cue::Finish => "entity.player.levelup",
            Cue::Record => "ui.toast.challenge_complete",
            Cue::Pickup => "entity.item.pickup",
            Cue::Activate(PowerUp::Turbo) => "entity.firework_rocket.launch",
            Cue::Activate(PowerUp::Shield) => "block.beacon.activate",
            Cue::Activate(PowerUp::Banana) => "block.slime_block.place",
            Cue::Activate(PowerUp::Ice) => "block.glass.place",
            Cue::Activate(PowerUp::Missile) => "entity.wither.shoot",
            Cue::Activate(PowerUp::Shockwave) => "entity.generic.explode",
            Cue::Activate(PowerUp::Lightning) => "entity.lightning_bolt.thunder",
            Cue::Activate(PowerUp::Recharge) => "block.respawn_anchor.charge",
            Cue::Activate(PowerUp::Fireball) => "entity.blaze.ambient",
            Cue::Hit(Hit::Missile) | Cue::Hit(Hit::Fireball) => "entity.generic.explode",
            Cue::Hit(Hit::Lightning) | Cue::Hit(Hit::Shockwave) => "entity.player.hurt",
            Cue::Hit(Hit::Banana) => "entity.slime.squish",
            Cue::Hit(Hit::Ice) => "block.glass.break",
            Cue::Shielded => "item.shield.block",
            Cue::Bump => "block.anvil.land",
            Cue::Portal => "block.portal.trigger",
            Cue::Launch => "entity.ghast.shoot",
        }
    }

    /// Whether the cue is an interface sound.
    pub fn ui(self) -> (ui: bool)
        ensures
            ui == cue_is_ui(self),
    {
        match self {
            Cue::Beep | Cue::Go | Cue::Start | Cue::Lap | Cue::FinalLap | Cue::Finish
            | Cue::Record | Cue::Pickup | Cue::Portal => true,
            _ => false,
        }
    }
}

} // verus!
