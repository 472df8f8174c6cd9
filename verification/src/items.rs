use vstd::prelude::*;

use crate::kart::{activated, rolls_to, KartState, PowerUp};
use crate::terrain::{mix, spec_mix};

verus! {

/// Ticks before a collected pickup is ready again.
pub const PICKUP_RESPAWN: u64 = 160;

/// Ticks a missile flies before it is spent.
pub const MISSILE_LIFE: u16 = 160;

/// Ticks a burst of particles lasts.
pub const BURST_LIFE: u8 = 12;

/// Strikes a storm makes on each rival.
pub const LIGHTNING_STRIKES: u16 = 3;

/// Ticks between two strikes of a storm.
pub const LIGHTNING_PERIOD: u16 = 6;

/// The spread of the first strikes of a storm over the rivals, in ticks.
pub const LIGHTNING_SPREAD: u16 = 18;

/// Ticks a lightning bolt shows.
pub const BOLT_LIFE: u8 = 8;

/// Ticks a fireball flies before it is spent.
pub const FIREBALL_LIFE: u16 = 60;

/// Odd stride that spreads ticks over the roll space.
pub const ROLL_STRIDE: u64 = 0x9e3779b97f4a7c15;

pub open spec fn description(item: PowerUp) -> Seq<char> {
    match item {
        PowerUp::Turbo => "acceleration 3 s"@,
        PowerUp::Shield => "protege 6 s"@,
        PowerUp::Banana => "piege depose 12 s"@,
        PowerUp::Missile => "vise le pilote devant toi"@,
        PowerUp::Shockwave => "rivaux a moins de 9 blocs repousses"@,
        PowerUp::Ice => "nappe deposee 10 s"@,
        PowerUp::Lightning => "orage sur tous les adversaires 2,5 s"@,
        PowerUp::Recharge => "boost gratuit 5 s : Saut + Avancer"@,
        PowerUp::Fireball => "tir tout droit apres 2 s"@,
    }
}

/// What a power-up does, as the HUD tells its user.
pub fn describe(item: PowerUp) -> (text: &'static str)
    ensures
        text@ == description(item),
{
    match item {
        PowerUp::Turbo => "acceleration 3 s",
        PowerUp::Shield => "protege 6 s",
        PowerUp::Banana => "piege depose 12 s",
        PowerUp::Missile => "vise le pilote devant toi",
        PowerUp::Shockwave => "rivaux a moins de 9 blocs repousses",
        PowerUp::Ice => "nappe deposee 10 s",
        PowerUp::Lightning => "orage sur tous les adversaires 2,5 s",
        PowerUp::Recharge => "boost gratuit 5 s : Saut + Avancer",
        PowerUp::Fireball => "tir tout droit apres 2 s",
    }
}

/// The roll of a pickup: circuit seed, tick, pickup index and racer id,
/// mixed.
pub open spec fn pickup_roll_value(seed: u64, tick: u64, index: u64, racer: u64) -> u64 {
    spec_mix(
        seed ^ vstd::wrapping::u64_specs::wrapping_mul(tick, ROLL_STRIDE) ^ (index << 32u64) ^ racer,
    )
}

/// The power-up a racer draws from pickup `index` at `tick`.
pub fn pickup_roll(seed: u64, tick: u64, index: u32, racer: u64) -> (item: PowerUp)
    ensures
        rolls_to(item, (pickup_roll_value(seed, tick, index as u64, racer) % 94) as nat),
{
    let roll = mix(seed ^ tick.wrapping_mul(ROLL_STRIDE) ^ ((index as u64) << 32) ^ racer);
    PowerUp::roll(roll)
}

/// How long a trap lies on the road: ice longer than a banana.
pub fn trap_life(ice: bool) -> (ticks: u64)
    ensures
        ticks == (if ice { 200u64 } else { 240u64 }),
{
    if ice {
        200
    } else {
        240
    }
}

/// Whether a trap placed at `placed` still lies on the road at `tick`.
pub fn trap_lies(placed: u64, ice: bool, tick: u64) -> (lies: bool)
    ensures
        lies == ((if tick > placed { tick - placed } else { 0 }) < (if ice { 200int } else { 240int })),
{
    tick.saturating_sub(placed) < trap_life(ice)
}

/// Whether a trap can catch a kart: any rival's at once, its owner's only
/// after a second on the road.
pub fn trap_armed(owner: bool, placed: u64, tick: u64) -> (armed: bool)
    ensures
        armed == (!owner || (if tick > placed { tick - placed } else { 0 }) > 20),
{
    !owner || tick.saturating_sub(placed) > 20
}

/// A storm over a rival: the ticks before its next strike, the seed of its
/// bolts, and the strikes left.
#[derive(Clone, Copy, Debug, PartialEq, Eq, Structural)]
pub struct Lightning {
    pub delay: u16,
    pub seed: u64,
    pub remaining: u16,
}

/// What a storm does in a tick.
#[derive(Clone, Copy, Debug, PartialEq, Eq, Structural)]
pub enum StormTick {
    /// It waits for its next strike.
    Wait,
    /// It strikes; `first` for its first strike, the one that hits.
    Strike { first: bool },
}

/// A tick of a storm: it waits out its delay, or strikes, draws the next
/// bolt seed and waits a period before the next strike.
pub open spec fn storm_step(s: Lightning) -> (Lightning, StormTick) {
    if s.delay > 0 {
        (Lightning { delay: (s.delay - 1) as u16, ..s }, StormTick::Wait)
    } else {
        (
            Lightning {
                delay: (LIGHTNING_PERIOD - 1) as u16,
                seed: spec_mix(s.seed),
                remaining: (s.remaining - 1) as u16,
            },
            StormTick::Strike { first: s.remaining == LIGHTNING_STRIKES },
        )
    }
}

/// The storm after `n` ticks.
pub open spec fn storm_after(s: Lightning, n: nat) -> Lightning
    decreases n,
{
    if n == 0 {
        s
    } else {
        storm_step(storm_after(s, (n - 1) as nat)).0
    }
}

/// What the storm does in its tick number `n`, counting from zero.
pub open spec fn storm_tick(s: Lightning, n: nat) -> StormTick {
    storm_step(storm_after(s, n)).1
}

/// The delay of the first strike on the rival listed `index` among the
/// caster's rivals: spread over `LIGHTNING_SPREAD` ticks from the roll.
pub open spec fn storm_delay(roll: u64, index: u16) -> u16 {
    (vstd::wrapping::u16_specs::wrapping_add(roll as u16, vstd::wrapping::u16_specs::wrapping_mul(2, index))
        % LIGHTNING_SPREAD) as u16
}

impl Lightning {
    /// The storm a lightning cast with `roll` raises over the rival with id
    /// `rival`, listed `index` among the caster's rivals.
    pub fn start(roll: u64, index: u16, rival: u64) -> (s: Self)
        ensures
            s.delay == storm_delay(roll, index),
            s.delay < LIGHTNING_SPREAD,
            s.seed == spec_mix(roll ^ rival),
            s.remaining == LIGHTNING_STRIKES,
    {
        let low = roll as u16;
        let delay = low.wrapping_add(2u16.wrapping_mul(index)) % LIGHTNING_SPREAD;
        Lightning { delay, seed: mix(roll ^ rival), remaining: LIGHTNING_STRIKES }
    }

    /// One tick of the storm; `true` in `done` once it has made its last
    /// strike and is over.
    pub fn step(&mut self) -> (r: (StormTick, bool))
        requires
            old(self).remaining > 0,
        ensures
            (*final(self), r.0) == storm_step(*old(self)),
            r.1 == (final(self).remaining == 0),
    {
        if self.delay > 0 {
            self.delay = self.delay - 1;
            return (StormTick::Wait, self.remaining == 0);
        }
        let first = self.remaining == LIGHTNING_STRIKES;
        self.seed = mix(self.seed);
        self.remaining = self.remaining - 1;
        self.delay = LIGHTNING_PERIOD - 1;
        (StormTick::Strike { first }, self.remaining == 0)
    }
}

proof fn lemma_storm_waits(s: Lightning, k: nat)
    requires
        k <= s.delay,
    ensures
        storm_after(s, k) == (Lightning { delay: (s.delay - k) as u16, ..s }),
        forall|n: nat| n < k ==> #[trigger] storm_tick(s, n) == StormTick::Wait,
    decreases k,
{
    if k > 0 {
        lemma_storm_waits(s, (k - 1) as nat);
        assert forall|n: nat| n < k implies #[trigger] storm_tick(s, n) == StormTick::Wait by {
            if n < k - 1 {
            } else {
                assert(n == k - 1);
            }
        }
    }
}

proof fn lemma_storm_shift(s: Lightning, a: nat, b: nat)
    ensures
        storm_after(s, a + b) == storm_after(storm_after(s, a), b),
        storm_tick(s, a + b) == storm_tick(storm_after(s, a), b),
    decreases b,
{
    if b > 0 {
        lemma_storm_shift(s, a, (b - 1) as nat);
        assert((a + b - 1) as nat == a + (b - 1) as nat);
    }
}

/// One strike and the period after it, from a storm due to strike now.
proof fn lemma_storm_cycle(t: Lightning)
    requires
        t.delay == 0,
        t.remaining > 0,
    ensures
        storm_tick(t, 0) == (StormTick::Strike { first: t.remaining == LIGHTNING_STRIKES }),
        forall|m: nat| 1 <= m < 6 ==> #[trigger] storm_tick(t, m) == StormTick::Wait,
        forall|m: nat| 1 <= m <= 6 ==> #[trigger] storm_after(t, m).remaining == t.remaining - 1,
        storm_after(t, 6) == (Lightning { delay: 0, seed: spec_mix(t.seed), remaining: (t.remaining - 1) as u16 }),
{
    reveal_with_fuel(storm_after, 2);
    let t1 = storm_step(t).0;
    assert(storm_after(t, 1) == t1);
    lemma_storm_waits(t1, 5);
    assert forall|m: nat| 1 <= m < 6 implies #[trigger] storm_tick(t, m) == StormTick::Wait by {
        lemma_storm_shift(t, 1, (m - 1) as nat);
        assert(m == 1 + (m - 1) as nat);
    }
    assert forall|m: nat| 1 <= m <= 6 implies #[trigger] storm_after(t, m).remaining == t.remaining - 1 by {
        lemma_storm_shift(t, 1, (m - 1) as nat);
        lemma_storm_waits(t1, (m - 1) as nat);
        assert(m == 1 + (m - 1) as nat);
    }
    lemma_storm_shift(t, 1, 5);
}

/// Where a fresh storm stands at each of its strikes.
proof fn lemma_storm_marks(s: Lightning)
    requires
        s.remaining == LIGHTNING_STRIKES,
    ensures
        storm_after(s, s.delay as nat) == (Lightning { delay: 0, ..s }),
        storm_after(s, (s.delay + 6) as nat) == (Lightning { delay: 0, seed: spec_mix(s.seed), remaining: 2 }),
        storm_after(s, (s.delay + 12) as nat) == (Lightning {
            delay: 0,
            seed: spec_mix(spec_mix(s.seed)),
            remaining: 1,
        }),
{
    let d = s.delay as nat;
    lemma_storm_waits(s, d);
    let s0 = storm_after(s, d);
    lemma_storm_cycle(s0);
    let s2 = storm_after(s0, 6);
    lemma_storm_cycle(s2);
    lemma_storm_shift(s, d, 6);
    lemma_storm_shift(s, d + 6, 6);
}

/// A storm raised over a rival strikes it exactly three times, six ticks
/// apart, starting after its delay, and only the first strike counts as the
/// hit; it lasts until its third strike, and is over after it.
pub proof fn a_storm_strikes_three_times_six_ticks_apart(s: Lightning, n: nat)
    requires
        s.remaining == LIGHTNING_STRIKES,
    ensures
        n <= s.delay + 12 ==> storm_tick(s, n) == (if n == s.delay {
            StormTick::Strike { first: true }
        } else if n == s.delay + 6 || n == s.delay + 12 {
            StormTick::Strike { first: false }
        } else {
            StormTick::Wait
        }),
        n <= s.delay + 12 ==> storm_after(s, n).remaining > 0,
        storm_after(s, (s.delay + 13) as nat).remaining == 0,
{
    let d = s.delay as nat;
    lemma_storm_marks(s);
    let s4 = storm_after(s, d + 12);
    lemma_storm_shift(s, d + 12, 1);
    lemma_storm_cycle(s4);
    assert(storm_after(s, (s.delay + 13) as nat) == storm_after(s4, 1));
    if n <= s.delay + 12 {
        if n < d {
            lemma_storm_waits(s, d);
            lemma_storm_waits(s, n);
        } else if n < d + 6 {
            let m = (n - d) as nat;
            let s0 = storm_after(s, d);
            lemma_storm_shift(s, d, m);
            lemma_storm_cycle(s0);
            assert(n == d + m);
            if m == 0 {
                lemma_storm_waits(s, d);
            }
        } else if n < d + 12 {
            let m = (n - d - 6) as nat;
            let s2 = storm_after(s, d + 6);
            lemma_storm_shift(s, d + 6, m);
            lemma_storm_cycle(s2);
            assert(n == d + 6 + m);
            if m == 0 {
                lemma_storm_shift(s, d, 6);
                lemma_storm_cycle(storm_after(s, d));
            }
        } else {
            lemma_storm_shift(s, d + 12, 0);
            lemma_storm_shift(s, d + 6, 6);
            lemma_storm_cycle(storm_after(s, d + 6));
        }
    }
}


/// A contender as activation reads it: the entity of its kart and its
/// racer id.
#[derive(Clone, Copy, Debug, PartialEq, Eq, Structural)]
pub struct Contender {
    pub kart: u64,
    pub id: u64,
}

/// A trap dropped behind a kart: the kart that dropped it, the tick it was
/// placed on, and whether it is ice (a banana otherwise).
#[derive(Clone, Copy, Debug, PartialEq, Eq, Structural)]
pub struct TrapDrop {
    pub owner: u64,
    pub placed: u64,
    pub ice: bool,
}

/// What using a power-up sets off beyond the user's own timers.
#[derive(Clone, Debug, PartialEq, Eq)]
pub enum Activation {
    /// Nothing beyond the user's kart (turbo, shield, recharge, fireball).
    Own,
    /// A trap is dropped.
    Trap(TrapDrop),
    /// A storm over each rival, by the rival's kart, from the cast's roll.
    Storms { roll: u64, storms: Vec<(u64, Lightning)> },
    /// A missile is fired; its target goes by the racers' progress.
    Missile,
    /// A shockwave goes off; who it reaches goes by distance.
    Shockwave,
}

/// The contenders other than the one driving kart `user`, in order.
pub open spec fn rivals(racers: Seq<Contender>, user: u64) -> Seq<Contender>
    decreases racers.len(),
{
    if racers.len() == 0 {
        Seq::empty()
    } else {
        let rest = rivals(racers.drop_last(), user);
        if racers.last().kart != user {
            rest.push(racers.last())
        } else {
            rest
        }
    }
}

/// The roll of a lightning cast on circuit `seed` at `tick` by racer `id`.
pub open spec fn lightning_roll(seed: u64, tick: u64, id: u64) -> u64 {
    spec_mix(seed ^ vstd::wrapping::u64_specs::wrapping_mul(tick, ROLL_STRIDE) ^ id)
}

/// One storm per rival, by its kart: the storm over the rival listed
/// `index` waits `storm_delay(roll, index)` and draws its bolts from the
/// roll and the rival's id.
pub open spec fn storms_over(rivals: Seq<Contender>, roll: u64) -> Seq<(u64, Lightning)> {
    Seq::new(
        rivals.len(),
        |i: int|
            (
                rivals[i].kart,
                Lightning {
                    delay: storm_delay(roll, i as u16),
                    seed: spec_mix(roll ^ rivals[i].id),
                    remaining: LIGHTNING_STRIKES,
                },
            ),
    )
}

/// What using `item` sets off for `user` among `racers` on circuit `seed`
/// at `tick`.
pub open spec fn spec_activation(item: PowerUp, user: Contender, racers: Seq<Contender>, seed: u64, tick: u64) -> Activation {
    match item {
        PowerUp::Banana => Activation::Trap(TrapDrop { owner: user.kart, placed: tick, ice: false }),
        PowerUp::Ice => Activation::Trap(TrapDrop { owner: user.kart, placed: tick, ice: true }),
        PowerUp::Missile => Activation::Missile,
        PowerUp::Shockwave => Activation::Shockwave,
        _ => Activation::Own,
    }
}

proof fn lemma_rivals_len(racers: Seq<Contender>, user: u64)
    ensures
        rivals(racers, user).len() <= racers.len(),
    decreases racers.len(),
{
    if racers.len() > 0 {
        lemma_rivals_len(racers.drop_last(), user);
    }
}

/// The rivals of `user` among `racers`, in order.
fn rivals_of(racers: &Vec<Contender>, user: u64) -> (out: Vec<Contender>)
    ensures
        out@ == rivals(racers@, user),
{
    let mut out: Vec<Contender> = Vec::new();
    let mut i: usize = 0;
    while i < racers.len()
        invariant
            i <= racers@.len(),
            out@ == rivals(racers@.take(i as int), user),
        decreases racers@.len() - i,
    {
        assert(racers@.take(i as int + 1).drop_last() =~= racers@.take(i as int));
        if racers[i].kart != user {
            out.push(racers[i]);
        }
        i = i + 1;
    }
    assert(racers@.take(racers@.len() as int) =~= racers@);
    out
}

/// A power-up used by `user`, one of the contenders `racers`, on circuit
/// `seed` at `tick`: the user's kart gets the item's own effect, and the
/// item sets off what it does to the others. Bananas and ice drop a trap
/// owned by the user's kart and placed now; lightning raises one storm over
/// every rival, the other contenders in order, each with its spread delay,
/// from a roll of the circuit, the tick and the user's id.
pub fn activation(
    item: PowerUp,
    user: Contender,
    racers: &Vec<Contender>,
    seed: u64,
    tick: u64,
    kart: &mut KartState,
) -> (a: Activation)
    requires
        racers@.len() < 0x8000,
    ensures
        *final(kart) == activated(*old(kart), item),
        item == PowerUp::Lightning ==> a == (Activation::Storms {
            roll: lightning_roll(seed, tick, user.id),
            storms: a->storms,
        }) && a->storms@ == storms_over(rivals(racers@, user.kart), lightning_roll(seed, tick, user.id)),
        item != PowerUp::Lightning ==> a == spec_activation(item, user, racers@, seed, tick),
{
    kart.activate(item);
    match item {
        PowerUp::Banana => Activation::Trap(TrapDrop { owner: user.kart, placed: tick, ice: false }),
        PowerUp::Ice => Activation::Trap(TrapDrop { owner: user.kart, placed: tick, ice: true }),
        PowerUp::Missile => Activation::Missile,
        PowerUp::Shockwave => Activation::Shockwave,
        PowerUp::Lightning => {
            let roll = mix(seed ^ tick.wrapping_mul(ROLL_STRIDE) ^ user.id);
            let others = rivals_of(racers, user.kart);
            proof {
                lemma_rivals_len(racers@, user.kart);
            }
            let mut storms: Vec<(u64, Lightning)> = Vec::new();
            let mut i: usize = 0;
            while i < others.len()
                invariant
                    i <= others@.len(),
                    others@.len() < 0x8000,
                    storms@ =~= storms_over(others@, roll).take(i as int),
                decreases others@.len() - i,
            {
                let rival = others[i];
                let storm = Lightning::start(roll, i as u16, rival.id);
                storms.push((rival.kart, storm));
                i = i + 1;
            }
            Activation::Storms { roll, storms }
        },
        _ => Activation::Own,
    }
}

/// The particle a kart trails behind it.
#[derive(Clone, Copy, Debug, PartialEq, Eq, Structural)]
pub enum Trail {
    /// Just hit.
    Crit,
    /// Shielded.
    ElectricSpark,
    /// Slowed or iced.
    EndRod,
    /// Recharging.
    HappyVillager,
    /// Blazing, on turbo, or boosting with fuel to spare.
    Flame,
    /// Merely moving.
    Cloud,
}

/// The trail of kart `k`, the strongest effect first; `fuelled` tells
/// whether it has the fuel a boost burns, `moving` whether its speed is
/// above a crawl.
pub open spec fn spec_trail(k: KartState, fuelled: bool, moving: bool) -> Option<Trail> {
    if k.impact > 0 {
        Some(Trail::Crit)
    } else if k.shield > 0 {
        Some(Trail::ElectricSpark)
    } else if k.ice > 0 || k.slow > 0 {
        Some(Trail::EndRod)
    } else if k.charge > 0 {
        Some(Trail::HappyVillager)
    } else if k.blaze > 0 || k.turbo > 0 || (k.input.boost && k.input.forward && fuelled) {
        Some(Trail::Flame)
    } else if moving {
        Some(Trail::Cloud)
    } else {
        None
    }
}

/// The particle kart `k` trails, if any.
pub fn trail(k: &KartState, fuelled: bool, moving: bool) -> (t: Option<Trail>)
    ensures
        t == spec_trail(*k, fuelled, moving),
{
    if k.impact > 0 {
        Some(Trail::Crit)
    } else if k.shield > 0 {
        Some(Trail::ElectricSpark)
    } else if k.ice > 0 || k.slow > 0 {
        Some(Trail::EndRod)
    } else if k.charge > 0 {
        Some(Trail::HappyVillager)
    } else if k.blaze > 0 || k.turbo > 0 || (k.input.boost && k.input.forward && fuelled) {
        Some(Trail::Flame)
    } else if moving {
        Some(Trail::Cloud)
    } else {
        None
    }
}

/// A kart's trail shows its strongest effect: a fresh hit over a shield,
/// a shield over slowing or ice, those over a recharge, a recharge over
/// flames; a blaze, a turbo or a fuelled boost burns, and otherwise a moving
/// kart leaves a cloud and a kart at rest nothing.
pub proof fn the_strongest_effect_shows(k: KartState, fuelled: bool, moving: bool)
    ensures
        k.impact > 0 ==> spec_trail(k, fuelled, moving) == Some(Trail::Crit),
        k.impact == 0 && k.shield > 0 ==> spec_trail(k, fuelled, moving) == Some(Trail::ElectricSpark),
        k.impact == 0 && k.shield == 0 && (k.ice > 0 || k.slow > 0) ==> spec_trail(k, fuelled, moving)
            == Some(Trail::EndRod),
        k.impact == 0 && k.shield == 0 && k.ice == 0 && k.slow == 0 && k.charge > 0 ==> spec_trail(
            k,
            fuelled,
            moving,
        ) == Some(Trail::HappyVillager),
        k.impact == 0 && k.shield == 0 && k.ice == 0 && k.slow == 0 && k.charge == 0 && (k.blaze > 0
            || k.turbo > 0 || (k.input.boost && k.input.forward && fuelled)) ==> spec_trail(k, fuelled, moving)
            == Some(Trail::Flame),
        k.impact == 0 && k.shield == 0 && k.ice == 0 && k.slow == 0 && k.charge == 0 && k.blaze == 0
            && k.turbo == 0 && !(k.input.boost && k.input.forward && fuelled) ==> spec_trail(k, fuelled, moving)
            == if moving {
            Some(Trail::Cloud)
        } else {
            None
        },
{
}
} // verus!
