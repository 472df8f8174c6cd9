use vstd::prelude::*;

verus! {

/// What a driver holds down during a tick.
#[derive(Clone, Copy, Debug, PartialEq, Eq)]
pub struct Input {
    pub forward: bool,
    pub backward: bool,
    pub left: bool,
    pub right: bool,
    pub boost: bool,
    pub sprint: bool,
    pub sneak: bool,
}

impl Default for Input {
    fn default() -> (input: Self)
        ensures
            !input.forward && !input.backward && !input.left && !input.right && !input.boost
                && !input.sprint && !input.sneak,
    {
        Input {
            forward: false,
            backward: false,
            left: false,
            right: false,
            boost: false,
            sprint: false,
            sneak: false,
        }
    }
}

/// An item a kart can pick up and use.
#[derive(Clone, Copy, Debug, PartialEq, Eq, Hash, Structural)]
pub enum PowerUp {
    Turbo,
    Shield,
    Banana,
    Missile,
    Shockwave,
    Ice,
    Lightning,
    Recharge,
    Fireball,
}

/// How often each power-up comes up, relative to the others.
pub open spec fn spec_weight(item: PowerUp) -> u64 {
    match item {
        PowerUp::Turbo | PowerUp::Banana => 14,
        PowerUp::Missile | PowerUp::Fireball => 12,
        PowerUp::Shield | PowerUp::Ice => 10,
        PowerUp::Shockwave | PowerUp::Recharge => 8,
        PowerUp::Lightning => 6,
    }
}

/// The power-ups in roll-table order.
pub open spec fn roll_order() -> Seq<PowerUp> {
    seq![
        PowerUp::Turbo,
        PowerUp::Shield,
        PowerUp::Banana,
        PowerUp::Missile,
        PowerUp::Shockwave,
        PowerUp::Ice,
        PowerUp::Lightning,
        PowerUp::Recharge,
        PowerUp::Fireball,
    ]
}

/// The total weight of the first `n` power-ups in roll-table order.
pub open spec fn weight_before(n: nat) -> nat
    decreases n,
{
    if n == 0 || n > 9 {
        0
    } else {
        weight_before((n - 1) as nat) + spec_weight(roll_order()[n - 1]) as nat
    }
}

pub open spec fn order_index(item: PowerUp) -> nat {
    match item {
        PowerUp::Turbo => 0,
        PowerUp::Shield => 1,
        PowerUp::Banana => 2,
        PowerUp::Missile => 3,
        PowerUp::Shockwave => 4,
        PowerUp::Ice => 5,
        PowerUp::Lightning => 6,
        PowerUp::Recharge => 7,
        PowerUp::Fireball => 8,
    }
}

/// The range of rolls, taken modulo the total weight, that give `item`.
pub open spec fn rolls_to(item: PowerUp, m: nat) -> bool {
    weight_before(order_index(item)) <= m < weight_before(order_index(item)) + spec_weight(item)
}

pub open spec fn spec_name(item: PowerUp) -> Seq<char> {
    match item {
        PowerUp::Turbo => "TURBO"@,
        PowerUp::Shield => "BOUCLIER"@,
        PowerUp::Banana => "BANANE"@,
        PowerUp::Missile => "MISSILE GUIDE"@,
        PowerUp::Shockwave => "ONDE DE CHOC"@,
        PowerUp::Ice => "NAPPE DE GLACE"@,
        PowerUp::Lightning => "ECLAIR"@,
        PowerUp::Recharge => "SUPER-RECHARGE"@,
        PowerUp::Fireball => "BOULE DE FEU"@,
    }
}

/// The running totals of the roll table: where each power-up's range of
/// rolls starts.
pub proof fn lemma_weight_table()
    ensures
        weight_before(0) == 0,
        weight_before(1) == 14,
        weight_before(2) == 24,
        weight_before(3) == 38,
        weight_before(4) == 50,
        weight_before(5) == 58,
        weight_before(6) == 68,
        weight_before(7) == 74,
        weight_before(8) == 82,
        weight_before(9) == 94,
{
    reveal_with_fuel(weight_before, 10);
}

impl PowerUp {
    pub const ALL: [PowerUp; 9] = [
        PowerUp::Turbo,
        PowerUp::Shield,
        PowerUp::Banana,
        PowerUp::Missile,
        PowerUp::Shockwave,
        PowerUp::Ice,
        PowerUp::Lightning,
        PowerUp::Recharge,
        PowerUp::Fireball,
    ];

    pub const TOTAL_WEIGHT: u64 = 94;

    pub fn weight(self) -> (w: u64)
        ensures
            w == spec_weight(self),
    {
        match self {
            PowerUp::Turbo | PowerUp::Banana => 14,
            PowerUp::Missile | PowerUp::Fireball => 12,
            PowerUp::Shield | PowerUp::Ice => 10,
            PowerUp::Shockwave | PowerUp::Recharge => 8,
            PowerUp::Lightning => 6,
        }
    }

    /// The power-up that `roll` draws: the roll is taken modulo the total
    /// weight and falls into the range of exactly one power-up, each range as
    /// wide as that power-up's weight.
    pub fn roll(roll: u64) -> (item: PowerUp)
        ensures
            rolls_to(item, (roll % 94) as nat),
    {
        let mut remaining = roll % 94;
        let mut i: usize = 0;
        proof {
            lemma_weight_table();
        }
        while i < 9
            invariant
                i <= 9,
                remaining + weight_before(i as nat) == roll % 94,
                weight_before(9) == 94,
                weight_before(0) == 0,
                weight_before(1) == 14,
                weight_before(2) == 24,
                weight_before(3) == 38,
                weight_before(4) == 50,
                weight_before(5) == 58,
                weight_before(6) == 68,
                weight_before(7) == 74,
                weight_before(8) == 82,
            decreases 9 - i,
        {
            let item = Self::ALL[i];
            assert(item == roll_order()[i as int]);
            assert(order_index(item) == i);
            if remaining < item.weight() {
                return item;
            }
            remaining = remaining - item.weight();
            i = i + 1;
        }
        proof {
            assert(false);
        }
        PowerUp::Fireball
    }

    pub fn name(self) -> (name: &'static str)
        ensures
            name@ == spec_name(self),
    {
        proof {
            reveal_strlit("TURBO");
            reveal_strlit("BOUCLIER");
            reveal_strlit("BANANE");
            reveal_strlit("MISSILE GUIDE");
            reveal_strlit("ONDE DE CHOC");
            reveal_strlit("NAPPE DE GLACE");
            reveal_strlit("ECLAIR");
            reveal_strlit("SUPER-RECHARGE");
            reveal_strlit("BOULE DE FEU");
        }
        match self {
            PowerUp::Turbo => "TURBO",
            PowerUp::Shield => "BOUCLIER",
            PowerUp::Banana => "BANANE",
            PowerUp::Missile => "MISSILE GUIDE",
            PowerUp::Shockwave => "ONDE DE CHOC",
            PowerUp::Ice => "NAPPE DE GLACE",
            PowerUp::Lightning => "ECLAIR",
            PowerUp::Recharge => "SUPER-RECHARGE",
            PowerUp::Fireball => "BOULE DE FEU",
        }
    }
}

/// The total weight is the sum of the weights of all power-ups.
pub proof fn total_weight_is_sum_of_weights()
    ensures
        weight_before(9) == PowerUp::TOTAL_WEIGHT,
{
    lemma_weight_table();
}

/// Every roll below the total weight lands on exactly one power-up, and the
/// rolls that land on a power-up are exactly as many as its weight: they form
/// the range starting at the weight of the power-ups before it.
pub proof fn roll_ranges_partition_the_table(m: nat, a: PowerUp, b: PowerUp)
    requires
        m < 94,
    ensures
        exists|p: PowerUp| rolls_to(p, m),
        rolls_to(a, m) && rolls_to(b, m) ==> a == b,
        weight_before(order_index(a)) + spec_weight(a) <= 94,
{
    lemma_weight_table();
    if m < 14 {
        assert(rolls_to(PowerUp::Turbo, m));
    } else if m < 24 {
        assert(rolls_to(PowerUp::Shield, m));
    } else if m < 38 {
        assert(rolls_to(PowerUp::Banana, m));
    } else if m < 50 {
        assert(rolls_to(PowerUp::Missile, m));
    } else if m < 58 {
        assert(rolls_to(PowerUp::Shockwave, m));
    } else if m < 68 {
        assert(rolls_to(PowerUp::Ice, m));
    } else if m < 74 {
        assert(rolls_to(PowerUp::Lightning, m));
    } else if m < 82 {
        assert(rolls_to(PowerUp::Recharge, m));
    } else {
        assert(rolls_to(PowerUp::Fireball, m));
    }
}

/// Rolls that agree modulo the total weight draw the same power-up: what
/// `roll` states of two such rolls pins both to one item.
pub proof fn rolls_with_equal_remainders_agree(r1: u64, r2: u64, a: PowerUp, b: PowerUp)
    requires
        r1 % 94 == r2 % 94,
        rolls_to(a, (r1 % 94) as nat),
        rolls_to(b, (r2 % 94) as nat),
    ensures
        a == b,
{
    roll_ranges_partition_the_table((r1 % 94) as nat, a, b);
}

/// Penalty ticks for being put back on the road.
pub const RESET_PENALTY: u64 = 60;

/// Ticks before a kart can be knocked again.
pub const BUMP_COOLDOWN: u8 = 10;

/// Ticks a fireball charges before it flies.
pub const FIREBALL_CHARGE: u16 = 40;

/// What hit a kart.
#[derive(Clone, Copy, Debug, PartialEq, Eq, Structural)]
pub enum StrikeKind {
    Shockwave,
    Lightning,
    Banana,
    Ice,
    Missile,
    Fireball,
}

/// A kart's race and effect state, apart from its position and motion: the
/// keys its driver holds, the next gate to pass, its penalty and finish time, whether it takes part in
/// the race, the item it holds and whether its driver asked to use it, and
/// the ticks left on each effect (`impact` for the hit display, `bump` for
/// the knock cooldown, `contact_cooldown` between collisions).
#[derive(Clone, Copy, Debug, PartialEq, Eq)]
pub struct KartState {
    pub input: Input,
    pub next_gate: usize,
    pub penalty: u64,
    pub participant: bool,
    pub finished: Option<u64>,
    pub impact: u8,
    pub contact_cooldown: u8,
    pub bump: u8,
    pub knocked: bool,
    pub item: Option<PowerUp>,
    pub use_item: bool,
    pub turbo: u16,
    pub shield: u16,
    pub slow: u16,
    pub ice: u16,
    pub charge: u16,
    pub blaze: u16,
}

impl KartState {
    /// No effect running and no item held.
    pub open spec fn effects_clear(self) -> bool {
        &&& self.impact == 0 && self.contact_cooldown == 0 && self.bump == 0 && !self.knocked
        &&& self.item is None && !self.use_item
        &&& self.turbo == 0 && self.shield == 0 && self.slow == 0 && self.ice == 0
        &&& self.charge == 0 && self.blaze == 0
    }

    /// The race state is kept.
    pub open spec fn same_race(self, other: KartState) -> bool {
        self.next_gate == other.next_gate && self.penalty == other.penalty
            && self.participant == other.participant && self.finished == other.finished
    }
}

/// A kart after its driver used `item`: a turbo burst, a shield that also
/// ends slowing and ice, a recharge, or a fireball's charge; the other items
/// leave the user's kart as it was.
pub open spec fn activated(k: KartState, item: PowerUp) -> KartState {
    match item {
        PowerUp::Turbo => KartState { turbo: 60, ..k },
        PowerUp::Shield => KartState { shield: 120, slow: 0, ice: 0, ..k },
        PowerUp::Recharge => KartState { charge: 100, ..k },
        PowerUp::Fireball => KartState { blaze: FIREBALL_CHARGE, ..k },
        _ => k,
    }
}

impl Default for KartState {
    fn default() -> (k: Self)
        ensures
            k.next_gate == 0 && k.penalty == 0 && !k.participant && k.finished is None,
            k.effects_clear(),
    {
        KartState {
            input: Input {
                forward: false,
                backward: false,
                left: false,
                right: false,
                boost: false,
                sprint: false,
                sneak: false,
            },
            next_gate: 0,
            penalty: 0,
            participant: false,
            finished: None,
            impact: 0,
            contact_cooldown: 0,
            bump: 0,
            knocked: false,
            item: None,
            use_item: false,
            turbo: 0,
            shield: 0,
            slow: 0,
            ice: 0,
            charge: 0,
            blaze: 0,
        }
    }
}

/// The movement keys a player's client reports in one input packet.
#[derive(Clone, Copy, Debug, PartialEq, Eq)]
pub struct Keys {
    pub forward: bool,
    pub backward: bool,
    pub left: bool,
    pub right: bool,
    pub jump: bool,
    pub sprint: bool,
    pub sneak: bool,
}

/// The driving input that keys give: jump boosts.
pub open spec fn input_of(keys: Keys) -> Input {
    Input {
        forward: keys.forward,
        backward: keys.backward,
        left: keys.left,
        right: keys.right,
        boost: keys.jump,
        sprint: keys.sprint,
        sneak: keys.sneak,
    }
}

impl KartState {
    /// The driver's keys become the kart's input. Pressing sprint (not
    /// holding it) asks to use the held item; the request stays until the
    /// item is taken. Returns whether sneak was just pressed while seated,
    /// which asks for the seat to be sent again.
    pub fn press(&mut self, keys: Keys, seated: bool) -> (remount: bool)
        ensures
            remount == (keys.sneak && !old(self).input.sneak && seated),
            final(self).input == input_of(keys),
            final(self).use_item == (old(self).use_item || (keys.sprint && !old(self).input.sprint)),
            final(self).same_race(*old(self)),
            final(self).item == old(self).item && final(self).impact == old(self).impact,
            final(self).shield == old(self).shield && final(self).turbo == old(self).turbo,
            *final(self) == (KartState { input: input_of(keys), use_item: old(self).use_item || (keys.sprint && !old(self).input.sprint), ..*old(self) }),
    {
        let remount = keys.sneak && !self.input.sneak && seated;
        self.use_item = self.use_item || (keys.sprint && !self.input.sprint);
        self.input = Input {
            forward: keys.forward,
            backward: keys.backward,
            left: keys.left,
            right: keys.right,
            boost: keys.jump,
            sprint: keys.sprint,
            sneak: keys.sneak,
        };
        remount
    }

    /// Still in the race: taking part and not yet finished.
    pub fn racing(&self) -> (r: bool)
        ensures
            r == (self.participant && self.finished is None),
    {
        self.participant && self.finished.is_none()
    }

    /// Ends every effect and drops the held item.
    pub fn clear_effects(&mut self)
        ensures
            final(self).effects_clear(),
            final(self).same_race(*old(self)),
            *final(self) == (KartState { impact: 0, contact_cooldown: 0, bump: 0, knocked: false, item: None, use_item: false, turbo: 0, shield: 0, slow: 0, ice: 0, charge: 0, blaze: 0, ..*old(self) }),
    {
        self.impact = 0;
        self.contact_cooldown = 0;
        self.bump = 0;
        self.knocked = false;
        self.item = None;
        self.use_item = false;
        self.turbo = 0;
        self.shield = 0;
        self.slow = 0;
        self.ice = 0;
        self.charge = 0;
        self.blaze = 0;
    }

    /// Lines the kart up for a new race: first gate, no penalty, not
    /// finished, no effect.
    pub fn grid(&mut self)
        ensures
            final(self).next_gate == 1 && final(self).penalty == 0 && final(self).finished is None,
            final(self).participant == old(self).participant,
            final(self).effects_clear(),
            *final(self) == (KartState { next_gate: 1, penalty: 0, finished: None, impact: 0, contact_cooldown: 0, bump: 0, knocked: false, item: None, use_item: false, turbo: 0, shield: 0, slow: 0, ice: 0, charge: 0, blaze: 0, ..*old(self) }),
    {
        self.next_gate = 1;
        self.penalty = 0;
        self.finished = None;
        self.clear_effects();
    }

    /// A rescue to the last gate passed: the next gate stays, a penalty is
    /// added and every effect ends.
    pub fn reset(&mut self)
        requires
            old(self).penalty + RESET_PENALTY <= u64::MAX,
        ensures
            final(self).penalty == old(self).penalty + RESET_PENALTY,
            final(self).next_gate == old(self).next_gate,
            final(self).participant == old(self).participant,
            final(self).finished == old(self).finished,
            final(self).effects_clear(),
            *final(self) == (KartState { penalty: (old(self).penalty + RESET_PENALTY) as u64, impact: 0, contact_cooldown: 0, bump: 0, knocked: false, item: None, use_item: false, turbo: 0, shield: 0, slow: 0, ice: 0, charge: 0, blaze: 0, ..*old(self) }),
    {
        self.penalty = self.penalty + RESET_PENALTY;
        self.clear_effects();
    }

    /// A knock takes only when the last one has cooled down.
    pub fn knock(&mut self)
        ensures
            old(self).bump == 0 ==> final(self).bump == BUMP_COOLDOWN && final(self).knocked,
            old(self).bump != 0 ==> *final(self) == *old(self),
            final(self).same_race(*old(self)),
            final(self).item == old(self).item && final(self).shield == old(self).shield,
            final(self).impact == old(self).impact,
            final(self).contact_cooldown == old(self).contact_cooldown,
            *final(self) == (if old(self).bump == 0 { KartState { bump: BUMP_COOLDOWN, knocked: true, ..*old(self) } } else { *old(self) }),
    {
        if self.bump == 0 {
            self.bump = BUMP_COOLDOWN;
            self.knocked = true;
        }
    }

    /// One tick passes on the effect timers (the fireball charge excepted):
    /// each running one counts down, none goes below zero.
    pub fn tick_effects(&mut self)
        ensures
            final(self).impact == sat_dec(old(self).impact as int),
            final(self).contact_cooldown == sat_dec(old(self).contact_cooldown as int),
            final(self).bump == sat_dec(old(self).bump as int),
            final(self).shield == sat_dec(old(self).shield as int),
            final(self).turbo == sat_dec(old(self).turbo as int),
            final(self).slow == sat_dec(old(self).slow as int),
            final(self).ice == sat_dec(old(self).ice as int),
            final(self).charge == sat_dec(old(self).charge as int),
            final(self).blaze == old(self).blaze,
            final(self).knocked == old(self).knocked,
            final(self).item == old(self).item && final(self).use_item == old(self).use_item,
            final(self).same_race(*old(self)),
            *final(self) == (KartState { impact: sat_dec(old(self).impact as int) as u8, contact_cooldown: sat_dec(old(self).contact_cooldown as int) as u8, bump: sat_dec(old(self).bump as int) as u8, shield: sat_dec(old(self).shield as int) as u16, turbo: sat_dec(old(self).turbo as int) as u16, slow: sat_dec(old(self).slow as int) as u16, ice: sat_dec(old(self).ice as int) as u16, charge: sat_dec(old(self).charge as int) as u16, ..*old(self) }),
    {
        self.impact = self.impact.saturating_sub(1);
        self.contact_cooldown = self.contact_cooldown.saturating_sub(1);
        self.bump = self.bump.saturating_sub(1);
        self.shield = self.shield.saturating_sub(1);
        self.turbo = self.turbo.saturating_sub(1);
        self.slow = self.slow.saturating_sub(1);
        self.ice = self.ice.saturating_sub(1);
        self.charge = self.charge.saturating_sub(1);
    }

    /// Picks up an item if the kart holds none: a held item is never
    /// replaced.
    pub fn collect(&mut self, item: PowerUp) -> (taken: bool)
        ensures
            taken == (old(self).item is None),
            taken ==> final(self).item == Some(item) && final(self).impact == 6
                && final(self).same_race(*old(self)),
            !taken ==> *final(self) == *old(self),
            *final(self) == (if old(self).item is None { KartState { item: Some(item), impact: 6, ..*old(self) } } else { *old(self) }),
    {
        if self.item.is_some() {
            return false;
        }
        self.item = Some(item);
        self.impact = 6;
        true
    }

    /// The held item, if the driver asked to use it; the request is spent
    /// either way.
    pub fn take_item(&mut self) -> (used: Option<PowerUp>)
        ensures
            used == (if old(self).use_item {
                old(self).item
            } else {
                None
            }),
            !final(self).use_item,
            final(self).item == (if old(self).use_item {
                None
            } else {
                old(self).item
            }),
            final(self).same_race(*old(self)),
            final(self).impact == old(self).impact && final(self).shield == old(self).shield,
            *final(self) == (KartState { use_item: false, item: if old(self).use_item { None } else { old(self).item }, ..*old(self) }),
    {
        if self.use_item {
            self.use_item = false;
            let item = self.item;
            self.item = None;
            item
        } else {
            None
        }
    }

    /// What a power-up does to its own user's timers: a turbo burst, a shield
    /// that also ends slowing and ice, a recharge, or a fireball's charge.
    pub fn activate(&mut self, item: PowerUp)
        ensures
            final(self).same_race(*old(self)),
            final(self).item == old(self).item,
            final(self).turbo == (if item == PowerUp::Turbo { 60 } else { old(self).turbo }),
            final(self).shield == (if item == PowerUp::Shield { 120 } else { old(self).shield }),
            final(self).slow == (if item == PowerUp::Shield { 0 } else { old(self).slow }),
            final(self).ice == (if item == PowerUp::Shield { 0 } else { old(self).ice }),
            final(self).charge == (if item == PowerUp::Recharge { 100 } else { old(self).charge }),
            final(self).blaze == (if item == PowerUp::Fireball { FIREBALL_CHARGE } else { old(self).blaze }),
            final(self).impact == old(self).impact,
            *final(self) == activated(*old(self), item),
    {
        match item {
            PowerUp::Turbo => {
                self.turbo = 60;
            },
            PowerUp::Shield => {
                self.shield = 120;
                self.slow = 0;
                self.ice = 0;
            },
            PowerUp::Recharge => {
                self.charge = 100;
            },
            PowerUp::Fireball => {
                self.blaze = FIREBALL_CHARGE;
            },
            PowerUp::Banana | PowerUp::Ice | PowerUp::Missile | PowerUp::Shockwave
            | PowerUp::Lightning => {},
        }
    }

    /// A strike on the kart's timers; `true` when a shield absorbed it. A
    /// shielded kart still shows the hit but is neither slowed nor iced.
    pub fn strike(&mut self, strike: StrikeKind) -> (absorbed: bool)
        ensures
            absorbed == (old(self).shield > 0),
            final(self).slow == (if absorbed {
                old(self).slow
            } else {
                match strike {
                    StrikeKind::Lightning => 50,
                    StrikeKind::Missile => 30,
                    StrikeKind::Fireball => 20,
                    _ => old(self).slow,
                }
            }),
            final(self).ice == (if !absorbed && strike == StrikeKind::Ice { 60 } else { old(self).ice }),
            final(self).impact == match strike {
                StrikeKind::Shockwave | StrikeKind::Lightning => 10,
                StrikeKind::Banana => 6,
                StrikeKind::Ice => old(self).impact,
                StrikeKind::Missile | StrikeKind::Fireball => 12,
            },
            final(self).same_race(*old(self)),
            final(self).item == old(self).item && final(self).shield == old(self).shield,
            *final(self) == (KartState { slow: final(self).slow, ice: final(self).ice, impact: final(self).impact, ..*old(self) }),
    {
        let shielded = self.shield > 0;
        match strike {
            StrikeKind::Shockwave => {
                self.impact = 10;
            },
            StrikeKind::Lightning => {
                if !shielded {
                    self.slow = 50;
                }
                self.impact = 10;
            },
            StrikeKind::Banana => {
                self.impact = 6;
            },
            StrikeKind::Ice => {
                if !shielded {
                    self.ice = 60;
                }
            },
            StrikeKind::Missile | StrikeKind::Fireball => {
                if !shielded {
                    self.slow = if strike == StrikeKind::Missile {
                        30
                    } else {
                        20
                    };
                }
                self.impact = 12;
            },
        }
        shielded
    }

    /// One tick of a fireball's charge: it counts down, and the fireball
    /// flies on the tick the charge runs out.
    pub fn charge_step(&mut self) -> (fires: bool)
        ensures
            fires == (old(self).blaze == 1),
            final(self).blaze == sat_dec(old(self).blaze as int),
            final(self).same_race(*old(self)),
            final(self).item == old(self).item && final(self).impact == old(self).impact,
            final(self).shield == old(self).shield,
            *final(self) == (KartState { blaze: sat_dec(old(self).blaze as int) as u16, ..*old(self) }),
    {
        if self.blaze == 0 {
            return false;
        }
        self.blaze = self.blaze - 1;
        self.blaze == 0
    }

    /// The timers of a collision with another kart: the hit shows, the
    /// contact cools down and the kart is knocked.
    pub fn contact(&mut self)
        ensures
            final(self).impact == 6 && final(self).contact_cooldown == 10,
            old(self).bump == 0 ==> final(self).bump == BUMP_COOLDOWN && final(self).knocked,
            old(self).bump != 0 ==> final(self).bump == old(self).bump && final(self).knocked == old(self).knocked,
            final(self).same_race(*old(self)),
            final(self).item == old(self).item && final(self).shield == old(self).shield,
            *final(self) == (KartState { impact: 6, contact_cooldown: 10, bump: if old(self).bump == 0 { BUMP_COOLDOWN } else { old(self).bump }, knocked: if old(self).bump == 0 { true } else { old(self).knocked }, ..*old(self) }),
    {
        self.impact = 6;
        self.contact_cooldown = 10;
        self.knock();
    }
}

/// Two karts can collide only while both race and neither is cooling down
/// from a contact.
pub fn can_collide(a: &KartState, b: &KartState) -> (r: bool)
    ensures
        r == (a.participant && a.finished is None && b.participant && b.finished is None
            && a.contact_cooldown == 0 && b.contact_cooldown == 0),
{
    a.racing() && b.racing() && a.contact_cooldown == 0 && b.contact_cooldown == 0
}

/// A timer one tick later: down by one, not below zero.
pub open spec fn sat_dec(t: int) -> int {
    if t > 0 {
        t - 1
    } else {
        0
    }
}

} // verus!
