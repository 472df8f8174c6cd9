use vstd::prelude::*;

use crate::kart::KartState;
use crate::terrain::{mix, spec_mix};
use crate::text::{decimal, decimal_chars, two_digit_chars, two_digits};

verus! {

/// Laps in a race unless the command asks for another count.
pub const LAPS: usize = 3;

/// The most laps a race command accepts.
pub const MAX_LAPS: usize = 20;

/// Ticks between the end of construction and the start.
pub const COUNTDOWN: u64 = 100;

/// Ticks a race of `LAPS` laps may last.
pub const TIME_LIMIT: u64 = 20 * 60 * 10;

/// Karts on a grid.
pub const GRID: usize = 8;

/// Odd stride that spreads round numbers over the seed space.
pub const ROUND_STRIDE: u64 = 0x9e3779b97f4a7c15;

/// Where a round is in its cycle.
#[derive(Clone, Copy, Debug, PartialEq, Eq, Structural)]
pub enum Phase {
    Lobby,
    Generating,
    Loading,
    Countdown,
    Racing,
    Destroying,
    Results,
}

impl Default for Phase {
    fn default() -> (phase: Self)
        ensures
            phase == Phase::Lobby,
    {
        Phase::Lobby
    }
}

impl Phase {
    /// No circuit is up: between rounds.
    pub fn idle(self) -> (idle: bool)
        ensures
            idle == (self == Phase::Lobby || self == Phase::Results),
    {
        match self {
            Phase::Lobby | Phase::Results => true,
            _ => false,
        }
    }
}

/// A driver's best time on a circuit for a lap count.
pub struct BestTime {
    pub seed: u64,
    pub laps: usize,
    pub name: String,
    pub time: u64,
}

/// The state of a round: ticks are counted from server start, `start` is the
/// tick the race starts (or started) on, `results` holds the finishers'
/// names and times, fastest first, `best` the best times of the session,
/// `record` the best time on the current circuit when the round began,
/// `roster` the players on the grid (by entity id) in the order they joined,
/// and `pending` the chunks still to be built or torn down out of
/// `total_chunks`.
pub struct Race {
    pub tick: u64,
    pub start: u64,
    pub phase: Phase,
    pub laps: usize,
    pub round: u64,
    pub results: Vec<(String, u64)>,
    pub best: Vec<BestTime>,
    pub record: Option<u64>,
    pub roster: Vec<u64>,
    pub pending: Vec<(i32, i32)>,
    pub total_chunks: usize,
}

/// The time limit for `laps` laps: the limit of a standard race, stretched in
/// proportion for longer ones.
pub open spec fn spec_time_limit(laps: nat) -> nat {
    let scaled = (TIME_LIMIT / LAPS as u64) as nat * laps;
    if scaled > TIME_LIMIT {
        scaled
    } else {
        TIME_LIMIT as nat
    }
}

/// A race is given at least the standard time limit, and at least the
/// standard share of it for every lap.
pub proof fn time_limit_covers_every_lap(laps: nat)
    ensures
        spec_time_limit(laps) >= TIME_LIMIT,
        spec_time_limit(laps) >= (TIME_LIMIT / LAPS as u64) * laps,
{
}

/// `a - b`, or zero when `b` is larger.
pub open spec fn monus(a: u64, b: u64) -> u64 {
    if a > b {
        (a - b) as u64
    } else {
        0
    }
}

/// The share of the chunks already handled, in percent, rounded down.
pub open spec fn spec_construction(total: usize, pending: nat) -> nat {
    let done: nat = if total > pending {
        (total - pending) as nat
    } else {
        0
    };
    let denominator: nat = if total > 1 {
        total as nat
    } else {
        1
    };
    100 * done / denominator
}

impl Default for Race {
    /// A race of the standard lap count in the lobby, at tick zero.
    fn default() -> (race: Self)
        ensures
            race.tick == 0 && race.start == 0 && race.phase == Phase::Lobby,
            race.laps == LAPS && race.round == 0 && race.record is None,
            race.results@.len() == 0 && race.best@.len() == 0,
            race.roster@.len() == 0,
            race.pending@.len() == 0 && race.total_chunks == 0,
    {
        Race {
            tick: 0,
            start: 0,
            phase: Phase::Lobby,
            laps: LAPS,
            round: 0,
            results: Vec::new(),
            best: Vec::new(),
            record: None,
            roster: Vec::new(),
            pending: Vec::new(),
            total_chunks: 0,
        }
    }
}

impl Race {
    /// Ticks the race may last.
    pub fn time_limit(&self) -> (limit: u64)
        requires
            spec_time_limit(self.laps as nat) <= u64::MAX,
        ensures
            limit == spec_time_limit(self.laps as nat),
    {
        let per_lap: u64 = TIME_LIMIT / LAPS as u64;
        assert(per_lap * self.laps <= spec_time_limit(self.laps as nat));
        let scaled = per_lap * self.laps as u64;
        if TIME_LIMIT > scaled {
            TIME_LIMIT
        } else {
            scaled
        }
    }

    /// Ticks since the start; zero before it.
    pub fn elapsed(&self) -> (ticks: u64)
        ensures
            ticks == monus(self.tick, self.start),
    {
        self.tick.saturating_sub(self.start)
    }

    /// Ticks until the start; zero once it is reached.
    pub fn countdown(&self) -> (ticks: u64)
        ensures
            ticks == monus(self.start, self.tick),
    {
        self.start.saturating_sub(self.tick)
    }

    /// How far construction or demolition has got, in percent.
    pub fn construction(&self) -> (percent: usize)
        requires
            100 * self.total_chunks <= usize::MAX,
        ensures
            percent == spec_construction(self.total_chunks, self.pending@.len()),
    {
        let done = self.total_chunks.saturating_sub(self.pending.len());
        let denominator = if self.total_chunks > 1 {
            self.total_chunks
        } else {
            1
        };
        assert(100 * done <= 100 * self.total_chunks) by (nonlinear_arith)
            requires
                done <= self.total_chunks,
        ;
        100 * done / denominator
    }
}

/// The circuit seed of round `round` in a world seeded `world_seed`.
pub open spec fn spec_circuit_seed(world_seed: u64, round: u64) -> u64 {
    spec_mix(
        vstd::wrapping::u64_specs::wrapping_add(
            world_seed,
            vstd::wrapping::u64_specs::wrapping_mul(round, ROUND_STRIDE),
        ),
    )
}

pub fn circuit_seed(world_seed: u64, round: u64) -> (seed: u64)
    ensures
        seed == spec_circuit_seed(world_seed, round),
{
    mix(world_seed.wrapping_add(round.wrapping_mul(ROUND_STRIDE)))
}

/// What the countdown does on a tick.
#[derive(Clone, Copy, Debug, PartialEq, Eq, Structural)]
pub enum CountdownSignal {
    /// Nothing to announce.
    Quiet,
    /// One of the beeps of the last three seconds.
    Beep,
    /// The start: the race is on.
    Go,
}

/// The countdown's signal for `remaining` ticks before the start: a beep on
/// each of the last three whole seconds, the start at zero.
pub open spec fn spec_countdown_signal(remaining: u64) -> CountdownSignal {
    if remaining == 0 {
        CountdownSignal::Go
    } else if remaining <= 60 && remaining % 20 == 0 {
        CountdownSignal::Beep
    } else {
        CountdownSignal::Quiet
    }
}

/// Over a countdown of `COUNTDOWN` ticks the race beeps exactly three
/// times, a second apart on the last three seconds, and starts when none is
/// left.
pub proof fn the_countdown_beeps_three_times_then_starts(remaining: u64)
    requires
        remaining <= COUNTDOWN,
    ensures
        (spec_countdown_signal(remaining) == CountdownSignal::Beep) == (remaining == 20 || remaining == 40
            || remaining == 60),
        (spec_countdown_signal(remaining) == CountdownSignal::Go) == (remaining == 0),
{
}

impl Race {
    /// One tick of the countdown: outside the countdown phase nothing
    /// happens; otherwise the signal for the ticks left is returned, and at
    /// the start the race switches to racing.
    pub fn countdown_step(&mut self) -> (signal: CountdownSignal)
        ensures
            old(self).phase != Phase::Countdown ==> signal == CountdownSignal::Quiet,
            old(self).phase == Phase::Countdown ==> signal == spec_countdown_signal(
                monus(old(self).start, old(self).tick),
            ),
            final(self).phase == (if signal == CountdownSignal::Go {
                Phase::Racing
            } else {
                old(self).phase
            }),
            final(self).tick == old(self).tick && final(self).start == old(self).start,
            final(self).laps == old(self).laps && final(self).round == old(self).round,
            final(self).record == old(self).record && final(self).pending@ == old(self).pending@,
            final(self).roster@ == old(self).roster@,
            final(self).results@ == old(self).results@ && final(self).best@ == old(self).best@,
            final(self).total_chunks == old(self).total_chunks,
    {
        if self.phase != Phase::Countdown {
            return CountdownSignal::Quiet;
        }
        let remaining = self.countdown();
        if remaining == 0 {
            self.phase = Phase::Racing;
            CountdownSignal::Go
        } else if remaining <= 60 && remaining % 20 == 0 {
            CountdownSignal::Beep
        } else {
            CountdownSignal::Quiet
        }
    }

    /// The whole seconds the race bar shows: the countdown rounded up before
    /// the start, the time left during the race, nothing in the other phases.
    pub fn bar_seconds(&self) -> (value: Option<u64>)
        requires
            spec_time_limit(self.laps as nat) <= u64::MAX,
        ensures
            value == match self.phase {
                Phase::Countdown => Some(((monus(self.start, self.tick) + 19) / 20) as u64),
                Phase::Racing => Some(
                    (monus(spec_time_limit(self.laps as nat) as u64, monus(self.tick, self.start))
                        / 20) as u64,
                ),
                _ => None::<u64>,
            },
    {
        match self.phase {
            Phase::Countdown => {
                let remaining = self.countdown();
                let whole = remaining / 20;
                Some(
                    if remaining % 20 == 0 {
                        whole
                    } else {
                        whole + 1
                    },
                )
            },
            Phase::Racing => Some(self.time_limit().saturating_sub(self.elapsed()) / 20),
            _ => None,
        }
    }
}

/// The title of the race bar for `seconds` shown in `phase`.
pub open spec fn bar_title_chars(phase: Phase, seconds: u64) -> Seq<char> {
    if phase == Phase::Countdown {
        "Depart dans "@ + decimal_chars(seconds as nat) + "..."@
    } else {
        "Temps restant : "@ + decimal_chars((seconds / 60) as nat) + ":"@ + two_digit_chars(
            (seconds % 60) as nat,
        )
    }
}

pub fn bar_title(phase: Phase, seconds: u64) -> (title: String)
    ensures
        title@ == bar_title_chars(phase, seconds),
{
    if phase == Phase::Countdown {
        let digits = decimal(seconds);
        String::from_str("Depart dans ").concat(digits.as_str()).concat("...")
    } else {
        let minutes = decimal(seconds / 60);
        let rest = two_digits(seconds % 60);
        String::from_str("Temps restant : ").concat(minutes.as_str()).concat(":").concat(
            rest.as_str(),
        )
    }
}

/// What asking to join the grid came to.
#[derive(Clone, Copy, Debug, PartialEq, Eq, Structural)]
pub enum JoinOutcome {
    /// The player already has a place; nothing changes.
    AlreadyOnGrid,
    /// Every place is taken; the player is told so.
    GridFull,
    /// The player's entity no longer exists; nothing changes.
    Gone,
    /// The player takes the place with this index, at the end of the roster.
    Joined(usize),
}

/// The outcome of `player` asking to join `roster`, and the roster after it.
/// `present` tells whether the player's entity still exists.
pub open spec fn spec_join(roster: Seq<u64>, player: u64, present: bool) -> (JoinOutcome, Seq<u64>) {
    if roster.contains(player) {
        (JoinOutcome::AlreadyOnGrid, roster)
    } else if roster.len() >= GRID {
        (JoinOutcome::GridFull, roster)
    } else if !present {
        (JoinOutcome::Gone, roster)
    } else {
        (JoinOutcome::Joined(roster.len() as usize), roster.push(player))
    }
}

/// `i` is the first place of `player` on `roster`.
pub open spec fn is_first_place(roster: Seq<u64>, player: u64, i: int) -> bool {
    &&& 0 <= i < roster.len()
    &&& roster[i] == player
    &&& forall|j: int| 0 <= j < i ==> roster[j] != player
}

proof fn lemma_first_place_unique(roster: Seq<u64>, player: u64, i: int, k: int)
    requires
        is_first_place(roster, player, i),
        is_first_place(roster, player, k),
    ensures
        i == k,
{
}

/// Whether `player` had a place on `roster`, and the roster without its
/// first place.
pub open spec fn spec_leave(roster: Seq<u64>, player: u64) -> (bool, Seq<u64>) {
    if exists|i: int| is_first_place(roster, player, i) {
        (true, roster.remove(choose|i: int| is_first_place(roster, player, i)))
    } else {
        (false, roster)
    }
}

/// `race` and `other` agree on everything but the roster.
pub open spec fn same_but_roster(race: Race, other: Race) -> bool {
    &&& race.tick == other.tick && race.start == other.start && race.phase == other.phase
    &&& race.laps == other.laps && race.round == other.round && race.record == other.record
    &&& race.results@ == other.results@ && race.best@ == other.best@
    &&& race.pending@ == other.pending@ && race.total_chunks == other.total_chunks
}

fn roster_position(roster: &Vec<u64>, player: u64) -> (r: Option<usize>)
    ensures
        match r {
            Some(i) => is_first_place(roster@, player, i as int),
            None => !roster@.contains(player),
        },
{
    let mut i: usize = 0;
    while i < roster.len()
        invariant
            i <= roster@.len(),
            forall|j: int| 0 <= j < i ==> roster@[j] != player,
        decreases roster@.len() - i,
    {
        if roster[i] == player {
            return Some(i);
        }
        i = i + 1;
    }
    None
}

impl Race {
    /// A player asks for a place on the grid; `present` tells whether the
    /// player's entity still exists.
    pub fn join(&mut self, player: u64, present: bool) -> (outcome: JoinOutcome)
        ensures
            (outcome, final(self).roster@) == spec_join(old(self).roster@, player, present),
            same_but_roster(*final(self), *old(self)),
    {
        if let Some(i) = roster_position(&self.roster, player) {
            assert(self.roster@.contains(player)) by {
                assert(self.roster@[i as int] == player);
            }
            return JoinOutcome::AlreadyOnGrid;
        }
        let slot = self.roster.len();
        if slot >= GRID {
            return JoinOutcome::GridFull;
        }
        if !present {
            return JoinOutcome::Gone;
        }
        self.roster.push(player);
        JoinOutcome::Joined(slot)
    }

    /// A player gives up their place; tells whether they had one.
    pub fn leave(&mut self, player: u64) -> (left: bool)
        ensures
            (left, final(self).roster@) == spec_leave(old(self).roster@, player),
            same_but_roster(*final(self), *old(self)),
    {
        match roster_position(&self.roster, player) {
            Some(index) => {
                proof {
                    let k = choose|k: int| is_first_place(old(self).roster@, player, k);
                    lemma_first_place_unique(old(self).roster@, player, index as int, k);
                }
                self.roster.remove(index);
                true
            },
            None => {
                assert(!exists|i: int| is_first_place(old(self).roster@, player, i));
                false
            },
        }
    }
}

/// Asking to join twice leaves the grid as asking once does.
pub proof fn join_is_idempotent(roster: Seq<u64>, player: u64, present: bool)
    ensures
        spec_join(spec_join(roster, player, present).1, player, present).1 == spec_join(
            roster,
            player,
            present,
        ).1,
{
    let once = spec_join(roster, player, present).1;
    if !roster.contains(player) && roster.len() < GRID && present {
        assert(once[once.len() - 1] == player);
        assert(once.contains(player));
    }
}

/// The grid never holds more than `GRID` players, and nobody twice.
pub proof fn join_keeps_the_grid_bounded_and_distinct(roster: Seq<u64>, player: u64, present: bool)
    requires
        roster.len() <= GRID,
        roster.no_duplicates(),
    ensures
        spec_join(roster, player, present).1.len() <= GRID,
        spec_join(roster, player, present).1.no_duplicates(),
{
    let after = spec_join(roster, player, present).1;
    if !roster.contains(player) && roster.len() < GRID && present {
        assert forall|i: int, j: int| 0 <= i < after.len() && 0 <= j < after.len() && i != j implies after[i]
            != after[j] by {
            if i == roster.len() {
                assert(after[j] == roster[j]);
                assert(roster.contains(roster[j]));
            } else if j == roster.len() {
                assert(after[i] == roster[i]);
                assert(roster.contains(roster[i]));
            }
        }
    }
}

/// Leaving right after joining an open grid gives back the grid as it was.
pub proof fn leave_undoes_join(roster: Seq<u64>, player: u64)
    requires
        !roster.contains(player),
        roster.len() < GRID,
    ensures
        spec_join(roster, player, true).0 == JoinOutcome::Joined(roster.len() as usize),
        spec_leave(spec_join(roster, player, true).1, player) == (true, roster),
{
    let after = roster.push(player);
    let last = roster.len() as int;
    assert(is_first_place(after, player, last)) by {
        assert forall|j: int| 0 <= j < last implies after[j] != player by {
            assert(after[j] == roster[j]);
            if roster[j] == player {
                assert(roster.contains(player));
            }
        }
    }
    let k = choose|k: int| is_first_place(after, player, k);
    lemma_first_place_unique(after, player, last, k);
    assert(after.remove(last) =~= roster);
}

/// A player's progress through a race: the next gate, their kart's entity,
/// the tick their current lap started and their best lap so far.
#[derive(Clone, Copy, Debug, PartialEq, Eq)]
pub struct Racer {
    pub gate: usize,
    pub kart: u64,
    pub lap_start: u64,
    pub best_lap: Option<u64>,
}

/// The best lap after a lap of `time` ticks.
pub open spec fn improved_best(best: Option<u64>, time: u64) -> Option<u64> {
    match best {
        Some(b) => Some(if time < b { time } else { b }),
        None => Some(time),
    }
}

impl Racer {
    /// A racer at the first gate with no lap done yet.
    pub fn new(kart: u64) -> (racer: Self)
        ensures
            racer.gate == 1 && racer.kart == kart && racer.lap_start == 0 && racer.best_lap is None,
    {
        Racer { gate: 1, kart, lap_start: 0, best_lap: None }
    }

    /// Completes a lap: its time runs from the later of the lap's start and
    /// the race start; the next lap starts now and the best lap is kept.
    pub fn lap_done(&mut self, race: &Race) -> (time: u64)
        requires
            race.tick >= old(self).lap_start,
            race.tick >= race.start,
        ensures
            time == race.tick - (if old(self).lap_start > race.start {
                old(self).lap_start
            } else {
                race.start
            }),
            final(self).lap_start == race.tick,
            final(self).best_lap == improved_best(old(self).best_lap, time),
            final(self).gate == old(self).gate && final(self).kart == old(self).kart,
    {
        let from = if self.lap_start > race.start {
            self.lap_start
        } else {
            race.start
        };
        let time = race.tick - from;
        self.lap_start = race.tick;
        self.best_lap = Some(
            match self.best_lap {
                Some(best) => if time < best {
                    time
                } else {
                    best
                },
                None => time,
            },
        );
        time
    }
}

/// A best lap never gets worse, and is never worse than the last lap.
pub proof fn best_lap_only_improves(best: Option<u64>, time: u64)
    ensures
        improved_best(best, time) matches Some(b) && b <= time,
        best matches Some(old_best) ==> improved_best(best, time)->Some_0 <= old_best,
{
}

/// What a player hears on joining, by where the round is.
pub open spec fn join_notice_chars(phase: Phase) -> Seq<char> {
    match phase {
        Phase::Generating => "Le circuit se construit : tu participeras a la prochaine manche."@,
        Phase::Loading | Phase::Countdown | Phase::Racing =>
            "Manche en cours : observe en vol, tu participeras a la suivante."@,
        Phase::Destroying => "Demontage en cours : /race sera disponible juste apres."@,
        Phase::Lobby | Phase::Results =>
            "En vol au-dessus de la vallee. /race lance un circuit avec tous les pilotes presents."@,
    }
}

pub fn join_notice(phase: Phase) -> (text: &'static str)
    ensures
        text@ == join_notice_chars(phase),
{
    proof {
        reveal_strlit("Le circuit se construit : tu participeras a la prochaine manche.");
        reveal_strlit("Manche en cours : observe en vol, tu participeras a la suivante.");
        reveal_strlit("Demontage en cours : /race sera disponible juste apres.");
        reveal_strlit(
            "En vol au-dessus de la vallee. /race lance un circuit avec tous les pilotes presents.",
        );
    }
    match phase {
        Phase::Generating => "Le circuit se construit : tu participeras a la prochaine manche.",
        Phase::Loading | Phase::Countdown | Phase::Racing =>
            "Manche en cours : observe en vol, tu participeras a la suivante.",
        Phase::Destroying => "Demontage en cours : /race sera disponible juste apres.",
        Phase::Lobby | Phase::Results =>
            "En vol au-dessus de la vallee. /race lance un circuit avec tous les pilotes presents.",
    }
}

/// The announcement of `name` taking place number `slot` (from zero).
pub open spec fn joined_chars(name: Seq<char>, slot: usize) -> Seq<char> {
    name + " prend un minecart ("@ + decimal_chars(slot as nat + 1) + "/8 pilotes)."@
}

pub fn joined_message(name: &str, slot: usize) -> (text: String)
    requires
        slot < GRID,
    ensures
        text@ == joined_chars(name@, slot),
{
    let number = decimal(slot as u64 + 1);
    String::from_str(name).concat(" prend un minecart (").concat(number.as_str()).concat(
        "/8 pilotes).",
    )
}

/// The results are listed fastest first.
pub open spec fn results_sorted(results: Seq<(String, u64)>) -> bool {
    forall|i: int, j: int| 0 <= i < j < results.len() ==> results[i].1 <= results[j].1
}

/// Where a finisher in `time` goes in sorted results: after every result at
/// least as fast, before the slower ones.
pub open spec fn finish_position(results: Seq<(String, u64)>, time: u64) -> int
    decreases results.len(),
{
    if results.len() == 0 || results[0].1 > time {
        0
    } else {
        1 + finish_position(results.drop_first(), time)
    }
}

proof fn lemma_finish_position(results: Seq<(String, u64)>, time: u64, p: int)
    requires
        0 <= p <= results.len(),
        forall|i: int| 0 <= i < p ==> results[i].1 <= time,
        p < results.len() ==> results[p].1 > time,
    ensures
        finish_position(results, time) == p,
    decreases p,
{
    if p > 0 {
        lemma_finish_position(results.drop_first(), time, p - 1);
    }
}

/// The best-time entry for `seed`, `laps` and `name`, if there is one.
pub open spec fn is_best_entry(best: Seq<BestTime>, seed: u64, laps: usize, name: Seq<char>, i: int) -> bool {
    &&& 0 <= i < best.len()
    &&& best[i].seed == seed && best[i].laps == laps && best[i].name@ == name
}

/// No two best times share circuit, lap count and driver.
pub open spec fn best_keys_distinct(best: Seq<BestTime>) -> bool {
    forall|i: int, j: int|
        0 <= i < j < best.len() ==> !(best[i].seed == best[j].seed && best[i].laps == best[j].laps
            && best[i].name@ == best[j].name@)
}

/// The fastest of the best times on circuit `seed` for `laps` laps.
pub open spec fn best_time_for(best: Seq<BestTime>, seed: u64, laps: usize) -> Option<u64>
    decreases best.len(),
{
    if best.len() == 0 {
        None
    } else {
        let rest = best_time_for(best.drop_last(), seed, laps);
        let last = best.last();
        if last.seed == seed && last.laps == laps {
            match rest {
                Some(t) => Some(if last.time < t {
                    last.time
                } else {
                    t
                }),
                None => Some(last.time),
            }
        } else {
            rest
        }
    }
}

/// The results stay sorted and the best times keep one entry per circuit,
/// lap count and driver.
pub open spec fn standings_wf(race: Race) -> bool {
    results_sorted(race.results@) && best_keys_distinct(race.best@)
}

/// The best times after a driver on circuit `seed` for `laps` laps finished
/// in `time`: their entry keeps the faster time, or a new entry is added.
pub open spec fn best_after(best: Seq<BestTime>, seed: u64, laps: usize, name: Seq<char>, time: u64, after: Seq<BestTime>) -> bool {
    if exists|i: int| is_best_entry(best, seed, laps, name, i) {
        exists|i: int|
            #[trigger] is_best_entry(best, seed, laps, name, i) && after.len() == best.len() && (forall|k: int|
                0 <= k < best.len() && k != i ==> after[k] == best[k]) && after[i].seed == seed
                && after[i].laps == laps && after[i].name@ == name && after[i].time == (if time
                < best[i].time {
                time
            } else {
                best[i].time
            })
    } else {
        &&& after.len() == best.len() + 1
        &&& after.drop_last() == best
        &&& after.last().seed == seed && after.last().laps == laps
        &&& after.last().name@ == name && after.last().time == time
    }
}

fn record_best(best: &mut Vec<BestTime>, seed: u64, laps: usize, name: String, time: u64)
    requires
        best_keys_distinct(old(best)@),
    ensures
        best_after(old(best)@, seed, laps, name@, time, final(best)@),
        best_keys_distinct(final(best)@),
{
    let mut i: usize = 0;
    while i < best.len()
        invariant
            i <= best@.len(),
            best@ == old(best)@,
            best_keys_distinct(best@),
            forall|k: int| 0 <= k < i ==> !is_best_entry(best@, seed, laps, name@, k),
        decreases best@.len() - i,
    {
        if best[i].seed == seed && best[i].laps == laps && best[i].name == name {
            assert(is_best_entry(best@, seed, laps, name@, i as int));
            let old_time = best[i].time;
            let kept = if time < old_time {
                time
            } else {
                old_time
            };
            let updated = BestTime { seed, laps, name, time: kept };
            best.set(i, updated);
            proof {
                let b = best@;
                let o = old(best)@;
                assert forall|x: int, y: int| 0 <= x < y < b.len() implies !(b[x].seed == b[y].seed
                    && b[x].laps == b[y].laps && b[x].name@ == b[y].name@) by {
                    if x == i {
                        assert(b[y] == o[y]);
                    } else if y == i {
                        assert(b[x] == o[x]);
                    } else {
                        assert(b[x] == o[x] && b[y] == o[y]);
                    }
                }
                assert(is_best_entry(o, seed, laps, name@, i as int));
            }
            return;
        }
        i = i + 1;
    }
    let ghost before = best@;
    best.push(BestTime { seed, laps, name, time });
    proof {
        assert(best@.drop_last() =~= before);
        let b = best@;
        assert forall|x: int, y: int| 0 <= x < y < b.len() implies !(b[x].seed == b[y].seed
            && b[x].laps == b[y].laps && b[x].name@ == b[y].name@) by {
            if y == b.len() - 1 {
                assert(!is_best_entry(before, seed, laps, name@, x));
            } else {
                assert(b[x] == before[x] && b[y] == before[y]);
            }
        }
    }
}

fn insert_result(results: &mut Vec<(String, u64)>, name: String, time: u64)
    requires
        results_sorted(old(results)@),
    ensures
        final(results)@ == old(results)@.insert(finish_position(old(results)@, time), (name, time)),
        results_sorted(final(results)@),
{
    let mut p: usize = 0;
    while p < results.len() && results[p].1 <= time
        invariant
            p <= results@.len(),
            results@ == old(results)@,
            forall|i: int| 0 <= i < p ==> results@[i].1 <= time,
        decreases results@.len() - p,
    {
        p = p + 1;
    }
    proof {
        lemma_finish_position(results@, time, p as int);
        finishing_keeps_results_sorted(results@, (name, time));
    }
    results.insert(p, (name, time));
}

impl Race {
    /// A driver finishes in `time` on circuit `seed`: the time joins the
    /// results in order, becomes the driver's best when it beats it, and
    /// counts as a record when it beats the record the round began with.
    pub fn finish(&mut self, seed: u64, name: String, time: u64) -> (record: bool)
        requires
            standings_wf(*old(self)),
        ensures
            record == (old(self).record matches Some(b) && time < b),
            final(self).results@ == old(self).results@.insert(
                finish_position(old(self).results@, time),
                (name, time),
            ),
            best_after(old(self).best@, seed, old(self).laps, name@, time, final(self).best@),
            standings_wf(*final(self)),
            final(self).tick == old(self).tick && final(self).start == old(self).start,
            final(self).phase == old(self).phase && final(self).laps == old(self).laps,
            final(self).round == old(self).round && final(self).record == old(self).record,
            final(self).roster@ == old(self).roster@ && final(self).pending@ == old(self).pending@,
            final(self).total_chunks == old(self).total_chunks,
    {
        let record = match self.record {
            Some(best) => time < best,
            None => false,
        };
        let entry_name = name.clone();
        insert_result(&mut self.results, name, time);
        record_best(&mut self.best, seed, self.laps, entry_name, time);
        record
    }
}

/// A finisher never unsorts the results.
pub proof fn finishing_keeps_results_sorted(results: Seq<(String, u64)>, entry: (String, u64))
    requires
        results_sorted(results),
    ensures
        results_sorted(results.insert(finish_position(results, entry.1), entry)),
        results.insert(finish_position(results, entry.1), entry).len() == results.len() + 1,
    decreases results.len(),
{
    let p = finish_position(results, entry.1);
    lemma_finish_position_bounds(results, entry.1);
    let r = results.insert(p, entry);
    assert forall|i: int, j: int| 0 <= i < j < r.len() implies r[i].1 <= r[j].1 by {
        lemma_finish_position_splits(results, entry.1);
        if j < p {
        } else if i < p && j == p {
        } else if i < p {
            assert(r[j] == results[j - 1]);
        } else if i == p {
            assert(r[j] == results[j - 1]);
        } else {
            assert(r[i] == results[i - 1] && r[j] == results[j - 1]);
        }
    }
}

proof fn lemma_finish_position_bounds(results: Seq<(String, u64)>, time: u64)
    ensures
        0 <= finish_position(results, time) <= results.len(),
    decreases results.len(),
{
    if results.len() > 0 && results[0].1 <= time {
        lemma_finish_position_bounds(results.drop_first(), time);
    }
}

proof fn lemma_finish_position_splits(results: Seq<(String, u64)>, time: u64)
    requires
        results_sorted(results),
    ensures
        forall|i: int| 0 <= i < finish_position(results, time) ==> results[i].1 <= time,
        forall|i: int| finish_position(results, time) <= i < results.len() ==> results[i].1 > time,
    decreases results.len(),
{
    lemma_finish_position_bounds(results, time);
    if results.len() > 0 && results[0].1 <= time {
        let rest = results.drop_first();
        assert(results_sorted(rest));
        lemma_finish_position_splits(rest, time);
        assert forall|i: int| 0 <= i < finish_position(results, time) implies results[i].1 <= time by {
            if i > 0 {
                assert(results[i] == rest[i - 1]);
            }
        }
        assert forall|i: int| finish_position(results, time) <= i < results.len() implies results[i].1
            > time by {
            assert(results[i] == rest[i - 1]);
        }
    }
}

/// The fastest best time on a circuit is at most any best time filed for it.
pub proof fn lemma_best_time_bound(best: Seq<BestTime>, seed: u64, laps: usize, k: int)
    requires
        0 <= k < best.len(),
        best[k].seed == seed && best[k].laps == laps,
    ensures
        best_time_for(best, seed, laps) matches Some(t) && t <= best[k].time,
    decreases best.len(),
{
    if k < best.len() - 1 {
        lemma_best_time_bound(best.drop_last(), seed, laps, k);
    } else if best.len() > 1 {
        let rest = best_time_for(best.drop_last(), seed, laps);
    }
}

/// Once a driver has finished a circuit in `time`, the record that a round
/// on the same circuit and lap count begins with is at most that time.
pub proof fn finishing_bounds_the_next_record(
    best: Seq<BestTime>,
    seed: u64,
    laps: usize,
    name: Seq<char>,
    time: u64,
    after: Seq<BestTime>,
)
    requires
        best_after(best, seed, laps, name, time, after),
    ensures
        best_time_for(after, seed, laps) matches Some(t) && t <= time,
{
    if exists|i: int| is_best_entry(best, seed, laps, name, i) {
        let i = choose|i: int|
            #[trigger] is_best_entry(best, seed, laps, name, i) && after.len() == best.len() && (forall|k: int|
                0 <= k < best.len() && k != i ==> after[k] == best[k]) && after[i].seed == seed
                && after[i].laps == laps && after[i].name@ == name && after[i].time == (if time
                < best[i].time {
                time
            } else {
                best[i].time
            });
        lemma_best_time_bound(after, seed, laps, i);
    } else {
        lemma_best_time_bound(after, seed, laps, after.len() - 1);
    }
}

/// Why a race cannot be launched.
#[derive(Clone, Copy, Debug, PartialEq, Eq, Structural)]
pub enum LaunchRefusal {
    /// The lap count is outside 1 to `MAX_LAPS`.
    LapCount,
    /// The player asking has no place on the grid.
    NotOnGrid,
    /// A round is already under way.
    AlreadyRunning,
}

impl Race {
    /// Whether `player` may launch a race of `laps` laps, and if not, why:
    /// the lap count is checked first, then the player's place on the grid,
    /// then that no round is under way.
    pub fn check_launch(&self, player: u64, laps: usize) -> (refusal: Option<LaunchRefusal>)
        ensures
            refusal == (if !(1 <= laps <= MAX_LAPS) {
                Some(LaunchRefusal::LapCount)
            } else if !self.roster@.contains(player) {
                Some(LaunchRefusal::NotOnGrid)
            } else if !(self.phase == Phase::Lobby || self.phase == Phase::Results) {
                Some(LaunchRefusal::AlreadyRunning)
            } else {
                None
            }),
    {
        if !(1 <= laps && laps <= MAX_LAPS) {
            return Some(LaunchRefusal::LapCount);
        }
        match roster_position(&self.roster, player) {
            None => {
                return Some(LaunchRefusal::NotOnGrid);
            },
            Some(i) => {
                assert(self.roster@[i as int] == player);
            },
        }
        if !self.phase.idle() {
            return Some(LaunchRefusal::AlreadyRunning);
        }
        None
    }

    /// The fastest best time on circuit `seed` for `laps` laps.
    pub fn best_time(&self, seed: u64, laps: usize) -> (r: Option<u64>)
        ensures
            r == best_time_for(self.best@, seed, laps),
    {
        let mut fastest: Option<u64> = None;
        let mut i: usize = 0;
        while i < self.best.len()
            invariant
                i <= self.best@.len(),
                fastest == best_time_for(self.best@.subrange(0, i as int), seed, laps),
            decreases self.best@.len() - i,
        {
            let entry = &self.best[i];
            proof {
                assert(self.best@.subrange(0, i as int + 1).drop_last() =~= self.best@.subrange(0, i as int));
            }
            if entry.seed == seed && entry.laps == laps {
                fastest = match fastest {
                    Some(t) => Some(if entry.time < t {
                        entry.time
                    } else {
                        t
                    }),
                    None => Some(entry.time),
                };
            }
            i = i + 1;
        }
        assert(self.best@.subrange(0, i as int) =~= self.best@);
        fastest
    }

    /// A new round on circuit `seed`: the round number goes up, the lap count
    /// is set, the record is the fastest best time on that circuit for that
    /// lap count, the results are cleared and construction of `pending`
    /// begins.
    pub fn start_round(&mut self, laps: usize, seed: u64, pending: Vec<(i32, i32)>)
        requires
            old(self).round < u64::MAX,
        ensures
            final(self).round == old(self).round + 1,
            final(self).laps == laps,
            final(self).record == best_time_for(old(self).best@, seed, laps),
            final(self).results@.len() == 0,
            final(self).phase == Phase::Generating,
            final(self).pending@ == pending@ && final(self).total_chunks == pending@.len(),
            final(self).tick == old(self).tick && final(self).start == old(self).start,
            final(self).best@ == old(self).best@ && final(self).roster@ == old(self).roster@,
    {
        self.round = self.round + 1;
        self.laps = laps;
        self.record = self.best_time(seed, laps);
        self.results.clear();
        self.schedule(Phase::Generating, pending);
    }

    /// Enters `phase` with `pending` chunks to handle.
    pub fn schedule(&mut self, phase: Phase, pending: Vec<(i32, i32)>)
        ensures
            final(self).phase == phase,
            final(self).pending@ == pending@ && final(self).total_chunks == pending@.len(),
            final(self).tick == old(self).tick && final(self).start == old(self).start,
            final(self).laps == old(self).laps && final(self).round == old(self).round,
            final(self).record == old(self).record && final(self).results@ == old(self).results@,
            final(self).best@ == old(self).best@ && final(self).roster@ == old(self).roster@,
    {
        self.phase = phase;
        self.total_chunks = pending.len();
        self.pending = pending;
    }

    /// The seconds left to announce on this tick: a warning is given when
    /// exactly a minute, thirty seconds or ten seconds remain.
    pub fn time_warning(&self) -> (seconds: Option<u64>)
        requires
            spec_time_limit(self.laps as nat) <= u64::MAX,
        ensures
            ({
                let left = monus(spec_time_limit(self.laps as nat) as u64, monus(self.tick, self.start));
                seconds == (if left == 1200 || left == 600 || left == 200 {
                    Some(left / 20)
                } else {
                    None::<u64>
                })
            }),
    {
        let left = self.time_limit().saturating_sub(self.elapsed());
        if left == 1200 || left == 600 || left == 200 {
            Some(left / 20)
        } else {
            None
        }
    }
}

/// Whether a round is over: no kart left unfinished, or the time used up.
pub open spec fn spec_round_over(unfinished: nat, elapsed: nat, limit: nat) -> bool {
    unfinished == 0 || elapsed >= limit
}

/// A round ends once no racing kart is left unfinished, or when its time is
/// up.
pub fn round_over(unfinished: usize, elapsed: u64, limit: u64) -> (r: bool)
    ensures
        r == (unfinished == 0 || elapsed >= limit),
        r == spec_round_over(unfinished as nat, elapsed as nat, limit as nat),
{
    unfinished == 0 || elapsed >= limit
}

/// Checkpoint gates on a lap.
pub const GATES: usize = 8;

/// What passing gate `next_gate - 1` means for a racer in a race of `laps`
/// laps.
#[derive(Clone, Copy, Debug, PartialEq, Eq, Structural)]
pub enum GateEvent {
    /// A gate within a lap.
    Checkpoint,
    /// The start of lap `lap` of the race, the last one excluded.
    Lap(usize),
    /// The start of the last lap.
    FinalLap,
    /// The finish line after the last lap.
    Finish,
}

/// The event of reaching gate index `next_gate` (the gates passed so far,
/// plus one) in a race of `laps` laps.
pub open spec fn spec_gate_event(next_gate: usize, laps: usize) -> GateEvent {
    if next_gate > laps * GATES {
        GateEvent::Finish
    } else if (next_gate - 1) % (GATES as int) == 0 {
        let lap = (next_gate - 1) / (GATES as int) + 1;
        if lap == laps {
            GateEvent::FinalLap
        } else {
            GateEvent::Lap(lap as usize)
        }
    } else {
        GateEvent::Checkpoint
    }
}

pub fn gate_event(next_gate: usize, laps: usize) -> (event: GateEvent)
    requires
        1 <= next_gate,
        laps <= MAX_LAPS,
    ensures
        event == spec_gate_event(next_gate, laps),
{
    if next_gate > laps * GATES {
        GateEvent::Finish
    } else if (next_gate - 1) % GATES == 0 {
        let lap = (next_gate - 1) / GATES + 1;
        if lap == laps {
            GateEvent::FinalLap
        } else {
            GateEvent::Lap(lap)
        }
    } else {
        GateEvent::Checkpoint
    }
}


/// A pilot on the grid as the race tick sees them: their name, their kart
/// and their progress.
pub struct RaceEntry {
    pub name: String,
    pub kart: KartState,
    pub racer: Racer,
}

/// What a race tick did for one kart: whether it was racing, the lap event
/// of a gate that starts a lap (none on the finish), the time of a lap it
/// completed, and its finish time with whether that is a circuit record.
#[derive(Clone, Copy, Debug, PartialEq, Eq, Structural)]
pub struct KartTick {
    pub racing: bool,
    pub gate: Option<GateEvent>,
    pub lap: Option<u64>,
    pub finish: Option<Finish>,
}

/// A finish: the time, and whether it beats the circuit record.
#[derive(Clone, Copy, Debug, PartialEq, Eq, Structural)]
pub struct Finish {
    pub time: u64,
    pub record: bool,
}

/// Still in the race: taking part and not yet finished.
pub open spec fn is_racing(k: KartState) -> bool {
    k.participant && k.finished is None
}

/// A racing kart that has passed every gate of every lap.
pub open spec fn crosses_finish(k: KartState, laps: usize) -> bool {
    is_racing(k) && k.next_gate > laps * GATES
}

/// A gate index that starts a lap: the first gate of some lap.
pub open spec fn starts_lap(next_gate: usize) -> bool {
    (next_gate - 1) % (GATES as int) == 0
}

/// Kart `k` reached a gate its racer had not recorded, and that gate
/// opens a lap.
pub open spec fn lap_completed(k: KartState, r: Racer) -> bool {
    k.next_gate != r.gate && starts_lap(k.next_gate)
}

/// The time of the lap completed on this tick.
pub open spec fn lap_time(race: Race, r: Racer) -> u64 {
    (race.tick - (if r.lap_start > race.start {
        r.lap_start
    } else {
        race.start
    })) as u64
}

/// The racer once the kart's gate index is recorded; when that gate opens
/// a lap, the lap just driven is completed too.
pub open spec fn racer_after(race: Race, k: KartState, r: Racer) -> Racer {
    if lap_completed(k, r) {
        Racer {
            gate: k.next_gate,
            lap_start: race.tick,
            best_lap: improved_best(r.best_lap, lap_time(race, r)),
            ..r
        }
    } else {
        Racer { gate: k.next_gate, ..r }
    }
}

/// A finisher's time: the ticks since the start plus its penalty.
pub open spec fn finish_time(race: Race, k: KartState) -> int {
    monus(race.tick, race.start) + k.penalty
}

/// What the tick reports for a kart.
pub open spec fn spec_kart_tick(race: Race, k: KartState, r: Racer) -> KartTick {
    if !is_racing(k) {
        KartTick { racing: false, gate: None, lap: None, finish: None }
    } else {
        KartTick {
            racing: true,
            gate: if lap_completed(k, r) && k.next_gate <= race.laps * GATES {
                Some(spec_gate_event(k.next_gate, race.laps))
            } else {
                None
            },
            lap: if lap_completed(k, r) {
                Some(lap_time(race, r))
            } else {
                None
            },
            finish: if crosses_finish(k, race.laps) {
                Some(
                    Finish {
                        time: finish_time(race, k) as u64,
                        record: race.record matches Some(b) && finish_time(race, k) < b,
                    },
                )
            } else {
                None
            },
        }
    }
}

/// The entry after the tick: a racing kart's racer takes its gate, and a
/// kart crossing the finish gets its finish time.
pub open spec fn entry_after(race: Race, e: RaceEntry, after: RaceEntry) -> bool {
    &&& after.name == e.name
    &&& if !is_racing(e.kart) {
        after.kart == e.kart && after.racer == e.racer
    } else {
        &&& after.racer == racer_after(race, e.kart, e.racer)
        &&& after.kart == (if crosses_finish(e.kart, race.laps) {
            KartState { finished: Some(finish_time(race, e.kart) as u64), ..e.kart }
        } else {
            e.kart
        })
    }
}

/// What an entry needs for the tick: its lap started no later than now and,
/// racing, a gate index from one on and a finish time that fits.
pub open spec fn entry_ready(race: Race, e: RaceEntry) -> bool {
    &&& e.racer.lap_start <= race.tick
    &&& is_racing(e.kart) ==> e.kart.next_gate >= 1
    &&& crosses_finish(e.kart, race.laps) ==> finish_time(race, e.kart) <= u64::MAX
}

/// The karts still racing and short of the finish after the tick.
pub open spec fn unfinished(entries: Seq<RaceEntry>, laps: usize) -> nat
    decreases entries.len(),
{
    if entries.len() == 0 {
        0
    } else {
        unfinished(entries.drop_last(), laps) + if is_racing(entries.last().kart)
            && !crosses_finish(entries.last().kart, laps) {
            1nat
        } else {
            0nat
        }
    }
}

/// The results after the finishers among `entries` joined them in order.
pub open spec fn results_after(race: Race, entries: Seq<RaceEntry>) -> Seq<(String, u64)>
    decreases entries.len(),
{
    if entries.len() == 0 {
        race.results@
    } else {
        let before = results_after(race, entries.drop_last());
        let e = entries.last();
        if crosses_finish(e.kart, race.laps) {
            let t = finish_time(race, e.kart) as u64;
            before.insert(finish_position(before, t), (e.name, t))
        } else {
            before
        }
    }
}

/// Nothing of the race but its standings changed.
pub open spec fn same_but_standings(race: Race, other: Race) -> bool {
    &&& other.tick == race.tick && other.start == race.start && other.phase == race.phase
    &&& other.laps == race.laps && other.round == race.round && other.record == race.record
    &&& other.roster@ == race.roster@ && other.pending@ == race.pending@
    &&& other.total_chunks == race.total_chunks
}

impl Race {
    /// What a race tick on circuit `seed` does for one kart. A racing kart
    /// records its gate; a gate that opens a lap ends the lap before it. A
    /// kart past the last gate of the last lap finishes in the ticks since
    /// the start plus its penalty, and `finish` files that time in the
    /// results and the best times.
    pub fn kart_tick(&mut self, seed: u64, entry: &mut RaceEntry) -> (t: KartTick)
        requires
            standings_wf(*old(self)),
            old(self).tick >= old(self).start,
            old(self).laps <= MAX_LAPS,
            entry_ready(*old(self), *old(entry)),
        ensures
            t == spec_kart_tick(*old(self), old(entry).kart, old(entry).racer),
            entry_after(*old(self), *old(entry), *final(entry)),
            standings_wf(*final(self)),
            same_but_standings(*old(self), *final(self)),
            crosses_finish(old(entry).kart, old(self).laps) ==> {
                let time = finish_time(*old(self), old(entry).kart) as u64;
                &&& final(self).results@ == old(self).results@.insert(
                    finish_position(old(self).results@, time),
                    (old(entry).name, time),
                )
                &&& best_after(old(self).best@, seed, old(self).laps, old(entry).name@, time, final(self).best@)
            },
            !crosses_finish(old(entry).kart, old(self).laps) ==> final(self).results@ == old(self).results@
                && final(self).best@ == old(self).best@,
    {
        if !entry.kart.racing() {
            return KartTick { racing: false, gate: None, lap: None, finish: None };
        }
        let laps = self.laps;
        let mut gate: Option<GateEvent> = None;
        let mut lap: Option<u64> = None;
        if entry.kart.next_gate != entry.racer.gate {
            let next = entry.kart.next_gate;
            entry.racer.gate = next;
            if (next - 1) % GATES == 0 {
                lap = Some(entry.racer.lap_done(self));
                if next <= laps * GATES {
                    gate = Some(gate_event(next, laps));
                }
            }
        }
        let mut finish: Option<Finish> = None;
        if entry.kart.next_gate > laps * GATES {
            let time = self.elapsed() + entry.kart.penalty;
            entry.kart.finished = Some(time);
            let record = self.finish(seed, entry.name.clone(), time);
            finish = Some(Finish { time, record });
        }
        KartTick { racing: true, gate, lap, finish }
    }
}

/// `v` in reverse order.
fn reversed(v: Vec<(i32, i32)>) -> (r: Vec<(i32, i32)>)
    ensures
        r@ == v@.reverse(),
{
    let mut r: Vec<(i32, i32)> = Vec::new();
    let mut i: usize = v.len();
    while i > 0
        invariant
            i <= v@.len(),
            r@.len() == v@.len() - i,
            forall|k: int| 0 <= k < r@.len() ==> r@[k] == v@[v@.len() - 1 - k],
        decreases i,
    {
        i = i - 1;
        r.push(v[i]);
    }
    assert(r@ =~= v@.reverse());
    r
}

proof fn lemma_time_limit_fits(laps: usize)
    requires
        laps <= MAX_LAPS,
    ensures
        spec_time_limit(laps as nat) <= u64::MAX,
{
    let p = (TIME_LIMIT / LAPS as u64) as nat;
    assert(p <= 12000);
    assert(p * laps <= 12000 * 20) by (nonlinear_arith)
        requires
            p <= 12000,
            laps <= 20,
    ;
}

proof fn lemma_unfinished_step(entries: Seq<RaceEntry>, laps: usize, i: int)
    requires
        0 <= i < entries.len(),
    ensures
        unfinished(entries.take(i + 1), laps) == unfinished(entries.take(i), laps) + if is_racing(
            entries[i].kart,
        ) && !crosses_finish(entries[i].kart, laps) {
            1nat
        } else {
            0nat
        },
{
    assert(entries.take(i + 1).drop_last() =~= entries.take(i));
}

impl Race {
    /// A tick of the race on circuit `seed`, outside the race nothing. Each
    /// kart on the grid takes its share in order (see `kart_tick`); then the
    /// round ends when no kart is left racing short of the finish, or when
    /// the time is up: it moves to `Destroying` and tears down `chunks`, the
    /// circuit's chunks, last built first. `over` tells whether it ended.
    pub fn racing_tick(&mut self, seed: u64, entries: &mut Vec<RaceEntry>, chunks: Vec<(i32, i32)>) -> (r: (
        Vec<KartTick>,
        bool,
    ))
        requires
            standings_wf(*old(self)),
            old(self).laps <= MAX_LAPS,
            old(self).phase == Phase::Racing ==> old(self).tick >= old(self).start && forall|k: int|
                0 <= k < old(entries)@.len() ==> #[trigger] entry_ready(*old(self), old(entries)@[k]),
        ensures
            standings_wf(*final(self)),
            old(self).phase != Phase::Racing ==> r.0@.len() == 0 && !r.1 && *final(self) == *old(self)
                && final(entries)@ == old(entries)@,
            old(self).phase == Phase::Racing ==> {
                &&& r.1 == spec_round_over(
                    unfinished(old(entries)@, old(self).laps),
                    monus(old(self).tick, old(self).start) as nat,
                    spec_time_limit(old(self).laps as nat),
                )
                &&& unfinished(old(entries)@, old(self).laps) <= old(entries)@.len()
                &&& final(entries)@.len() == old(entries)@.len()
                &&& r.0@.len() == old(entries)@.len()
                &&& forall|k: int|
                    0 <= k < old(entries)@.len() ==> entry_after(*old(self), old(entries)@[k], #[trigger] final(entries)@[k])
                        && r.0@[k] == spec_kart_tick(*old(self), old(entries)@[k].kart, old(entries)@[k].racer)
                &&& final(self).results@ == results_after(*old(self), old(entries)@)
                &&& final(self).tick == old(self).tick && final(self).start == old(self).start
                &&& final(self).laps == old(self).laps && final(self).round == old(self).round
                &&& final(self).record == old(self).record && final(self).roster@ == old(self).roster@
                &&& r.1 ==> final(self).phase == Phase::Destroying && final(self).pending@ == chunks@.reverse()
                    && final(self).total_chunks == chunks@.len()
                &&& !r.1 ==> final(self).phase == Phase::Racing && final(self).pending@ == old(self).pending@
                    && final(self).total_chunks == old(self).total_chunks
            },
    {
        let mut ticks: Vec<KartTick> = Vec::new();
        if self.phase != Phase::Racing {
            return (ticks, false);
        }
        let ghost race0 = *self;
        let ghost entries0 = entries@;
        let mut n: usize = 0;
        let mut i: usize = 0;
        while i < entries.len()
            invariant
                i <= entries@.len(),
                entries@.len() == entries0.len(),
                race0.phase == Phase::Racing,
                race0.tick >= race0.start,
                race0.laps <= MAX_LAPS,
                forall|k: int| 0 <= k < entries0.len() ==> #[trigger] entry_ready(race0, entries0[k]),
                forall|k: int| 0 <= k < i ==> entry_after(race0, entries0[k], #[trigger] entries@[k]),
                forall|k: int| i <= k < entries0.len() ==> #[trigger] entries@[k] == entries0[k],
                ticks@.len() == i,
                forall|k: int|
                    0 <= k < i ==> #[trigger] ticks@[k] == spec_kart_tick(race0, entries0[k].kart, entries0[k].racer),
                n == unfinished(entries0.take(i as int), race0.laps),
                n <= i,
                self.results@ == results_after(race0, entries0.take(i as int)),
                standings_wf(*self),
                same_but_standings(race0, *self),
            decreases entries0.len() - i,
        {
            let mut e = RaceEntry {
                name: entries[i].name.clone(),
                kart: entries[i].kart,
                racer: entries[i].racer,
            };
            assert(e == entries0[i as int]);
            assert(entry_ready(race0, entries0[i as int]));
            let t = self.kart_tick(seed, &mut e);
            proof {
                lemma_unfinished_step(entries0, race0.laps, i as int);
                assert(entries0.take(i as int + 1).drop_last() =~= entries0.take(i as int));
                assert(entries0.take(i as int + 1).last() == entries0[i as int]);
            }
            if e.kart.racing() && e.kart.next_gate <= self.laps * GATES {
                n = n + 1;
            }
            ticks.push(t);
            entries.set(i, e);
            i = i + 1;
        }
        proof {
            assert(entries0.take(entries0.len() as int) =~= entries0);
        }
        proof {
            lemma_time_limit_fits(self.laps);
        }
        let limit = self.time_limit();
        let over = round_over(n, self.elapsed(), limit);
        if over {
            self.schedule(Phase::Destroying, reversed(chunks));
        }
        (ticks, over)
    }
}

/// Ticks between two keyframes of the race's displays.
pub const KEYFRAME_TICKS: u16 = 2;

/// What the displays do on a tick.
#[derive(Clone, Copy, Debug, PartialEq, Eq, Structural)]
pub enum Keyframe {
    /// Between keyframes: nothing is sent.
    Hold,
    /// A keyframe outside the race: every display is taken down.
    Clear,
    /// A keyframe during the race: the racing karts and the items are drawn.
    Draw,
}

/// The displays' work on tick `tick` of a round in `phase`.
pub open spec fn spec_keyframe(tick: u64, phase: Phase) -> Keyframe {
    if tick % (KEYFRAME_TICKS as u64) != 0 {
        Keyframe::Hold
    } else if phase != Phase::Racing {
        Keyframe::Clear
    } else {
        Keyframe::Draw
    }
}

/// What the race's displays do on tick `tick` of a round in `phase`.
pub fn keyframe(tick: u64, phase: Phase) -> (k: Keyframe)
    ensures
        k == spec_keyframe(tick, phase),
{
    if tick % (KEYFRAME_TICKS as u64) != 0 {
        Keyframe::Hold
    } else if phase != Phase::Racing {
        Keyframe::Clear
    } else {
        Keyframe::Draw
    }
}

/// Reaching the first gate of lap `n` in a race of `laps` laps announces
/// lap `n` if more laps follow it, and the final lap otherwise. The lap
/// ending there counts the ticks up to now from its own start or the race
/// start, whichever is later. A gate inside a lap announces nothing and
/// ends no lap.
pub proof fn opening_a_lap_is_announced(race: Race, k: KartState, r: Racer, n: int)
    requires
        is_racing(k),
        k.next_gate != r.gate,
        k.next_gate >= 1,
        race.laps <= MAX_LAPS,
        race.tick >= r.lap_start,
        race.tick >= race.start,
    ensures
        1 <= n <= race.laps && k.next_gate == (n - 1) * GATES + 1 ==> {
            &&& spec_kart_tick(race, k, r).gate == Some(
                if n == race.laps {
                    GateEvent::FinalLap
                } else {
                    GateEvent::Lap(n as usize)
                },
            )
            &&& spec_kart_tick(race, k, r).lap == Some(
                (race.tick - (if r.lap_start > race.start {
                    r.lap_start
                } else {
                    race.start
                })) as u64,
            )
        },
        (k.next_gate - 1) % (GATES as int) != 0 ==> spec_kart_tick(race, k, r).gate is None
            && spec_kart_tick(race, k, r).lap is None,
{
    if 1 <= n <= race.laps && k.next_gate == (n - 1) * GATES + 1 {
        assert((k.next_gate - 1) % (GATES as int) == 0 && (k.next_gate - 1) / (GATES as int) == n - 1)
            by (nonlinear_arith)
            requires
                k.next_gate == (n - 1) * 8 + 1,
                n >= 1,
        ;
        assert(k.next_gate <= race.laps * GATES) by (nonlinear_arith)
            requires
                k.next_gate == (n - 1) * 8 + 1,
                n <= race.laps,
        ;
    }
}

/// A racing kart past the last gate of the last lap finishes in the ticks
/// since the start plus its penalty, and the finish is a record exactly when
/// it beats the record the round began with; a kart short of it does not
/// finish, and a kart not racing reports nothing.
pub proof fn finishers_take_elapsed_time_plus_penalty(race: Race, k: KartState, r: Racer)
    ensures
        is_racing(k) && k.next_gate > race.laps * GATES ==> spec_kart_tick(race, k, r).finish == Some(
            Finish {
                time: ((if race.tick > race.start {
                    race.tick - race.start
                } else {
                    0
                }) + k.penalty) as u64,
                record: race.record matches Some(b) && (if race.tick > race.start {
                    race.tick - race.start
                } else {
                    0
                }) + k.penalty < b,
            },
        ),
        k.next_gate <= race.laps * GATES ==> spec_kart_tick(race, k, r).finish is None,
        !(k.participant && k.finished is None) ==> spec_kart_tick(race, k, r) == (KartTick {
            racing: false,
            gate: None,
            lap: None,
            finish: None,
        }),
{
}

/// After the tick, a racing kart's racer is at the kart's gate and a
/// finisher holds its time, the ticks since the start plus its penalty,
/// with the rest of the kart as it was; a kart not racing is left alone.
pub proof fn the_tick_records_gates_and_finish_times(race: Race, e: RaceEntry, after: RaceEntry)
    requires
        entry_after(race, e, after),
    ensures
        after.name == e.name,
        e.kart.participant && e.kart.finished is None ==> after.racer.gate == e.kart.next_gate,
        e.kart.participant && e.kart.finished is None && e.kart.next_gate > race.laps * GATES ==> after.kart
            == (KartState {
            finished: Some(
                ((if race.tick > race.start {
                    race.tick - race.start
                } else {
                    0
                }) + e.kart.penalty) as u64,
            ),
            ..e.kart
        }),
        !(e.kart.participant && e.kart.finished is None && e.kart.next_gate > race.laps * GATES) ==> after.kart
            == e.kart,
{
}

/// The karts left unfinished are exactly those still racing and short of
/// the finish: none are left exactly when every kart has finished, crossed
/// the finish, or takes no part; and there are never more than karts.
pub proof fn unfinished_counts_the_karts_still_short_of_the_finish(entries: Seq<RaceEntry>, laps: usize)
    ensures
        unfinished(entries, laps) <= entries.len(),
        unfinished(entries, laps) == 0 <==> forall|i: int|
            #![trigger entries[i]]
            0 <= i < entries.len() ==> !(entries[i].kart.participant && entries[i].kart.finished is None
                && entries[i].kart.next_gate <= laps * GATES),
    decreases entries.len(),
{
    if entries.len() > 0 {
        let rest = entries.drop_last();
        let last = entries.len() - 1;
        unfinished_counts_the_karts_still_short_of_the_finish(rest, laps);
        assert(entries.last() == entries[last]);
        if unfinished(entries, laps) == 0 {
            assert forall|i: int| #![trigger entries[i]] 0 <= i < entries.len() implies !(entries[i].kart.participant
                && entries[i].kart.finished is None && entries[i].kart.next_gate <= laps * GATES) by {
                if i < last {
                    assert(rest[i] == entries[i]);
                }
            }
        } else {
            if unfinished(rest, laps) == 0 {
                assert(entries[last].kart.participant && entries[last].kart.finished is None
                    && entries[last].kart.next_gate <= laps * GATES);
            } else {
                let k = choose|k: int| #![trigger rest[k]] 0 <= k < rest.len() && (rest[k].kart.participant
                    && rest[k].kart.finished is None && rest[k].kart.next_gate <= laps * GATES);
                assert(rest[k] == entries[k]);
            }
        }
    }
}

/// A round is over exactly when no kart is left unfinished or the time used
/// reaches the limit.
pub proof fn a_round_ends_when_all_finish_or_time_runs_out(unfinished: nat, elapsed: nat, limit: nat)
    ensures
        spec_round_over(unfinished, elapsed, limit) == (unfinished == 0 || elapsed >= limit),
        unfinished > 0 && elapsed < limit ==> !spec_round_over(unfinished, elapsed, limit),
{
}
} // verus!
