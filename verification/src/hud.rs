use vstd::prelude::*;

use crate::kart::{KartState, PowerUp};
use crate::race::{monus, spec_construction, Phase, Race, GATES};
use crate::sidebar::spec_lap_of;
use crate::text::{decimal, decimal_chars};

verus! {

/// What a driver's HUD line shows.
#[derive(Debug, Clone, Copy, PartialEq, Eq, Structural)]
pub enum Status {
    /// The circuit is being built, this far along in percent.
    Construction(usize),
    /// The circuit is being torn down, this far along in percent.
    Destruction(usize),
    /// Between rounds.
    FreeFlight,
    /// Chunks are loading or the driver is being moved.
    Loading,
    /// The driver watches this round and waits for the next.
    Waiting,
    /// Whole seconds to the start, rounded up.
    Countdown(u64),
    /// The driver's finishing time, in ticks.
    Finished(u64),
    /// The race under way: the lap out of the laps, the checkpoint within the
    /// lap out of `GATES`, the ticks since the start, the penalty in whole
    /// seconds and the item held.
    Racing { lap: usize, laps: usize, checkpoint: usize, elapsed: u64, penalty: u64, item: Option<PowerUp> },
}

/// What the HUD shows a driver with kart `kart`, `transferring` while they
/// are being moved.
pub open spec fn status_of(race: Race, kart: KartState, transferring: bool) -> Status {
    let construction = spec_construction(race.total_chunks, race.pending@.len()) as usize;
    match race.phase {
        Phase::Generating => Status::Construction(construction),
        Phase::Destroying => Status::Destruction(construction),
        Phase::Lobby | Phase::Results => Status::FreeFlight,
        Phase::Loading => Status::Loading,
        _ => if transferring {
            Status::Loading
        } else if !kart.participant {
            Status::Waiting
        } else if race.phase == Phase::Countdown {
            Status::Countdown(((monus(race.start, race.tick) + 19) / 20) as u64)
        } else {
            match kart.finished {
                Some(time) => Status::Finished(time),
                None => Status::Racing {
                    lap: spec_lap_of(kart.next_gate, race.laps),
                    laps: race.laps,
                    checkpoint: ((kart.next_gate - 1) % (GATES as int)) as usize,
                    elapsed: monus(race.tick, race.start),
                    penalty: kart.penalty / 20,
                    item: kart.item,
                },
            }
        },
    }
}

impl Race {
    /// What the HUD shows a driver.
    pub fn status(&self, kart: &KartState, transferring: bool) -> (s: Status)
        requires
            100 * self.total_chunks <= usize::MAX,
            kart.next_gate >= 1,
        ensures
            s == status_of(*self, *kart, transferring),
    {
        match self.phase {
            Phase::Generating => Status::Construction(self.construction()),
            Phase::Destroying => Status::Destruction(self.construction()),
            Phase::Lobby | Phase::Results => Status::FreeFlight,
            Phase::Loading => Status::Loading,
            _ => if transferring {
                Status::Loading
            } else if !kart.participant {
                Status::Waiting
            } else if self.phase == Phase::Countdown {
                let left = self.countdown();
                Status::Countdown(left / 20 + if left % 20 == 0 { 0 } else { 1 })
            } else {
                match kart.finished {
                    Some(time) => Status::Finished(time),
                    None => {
                        let lap = (kart.next_gate - 1) / GATES + 1;
                        Status::Racing {
                            lap: if lap < self.laps { lap } else { self.laps },
                            laps: self.laps,
                            checkpoint: (kart.next_gate - 1) % GATES,
                            elapsed: self.elapsed(),
                            penalty: kart.penalty / 20,
                            item: kart.item,
                        }
                    },
                }
            },
        }
    }
}

pub open spec fn fixed_status_chars(status: Status) -> Option<Seq<char>> {
    match status {
        Status::Construction(p) => Some("Construction du circuit : "@ + decimal_chars(p as nat) + "%"@),
        Status::Destruction(p) => Some("Destruction du circuit : "@ + decimal_chars(p as nat) + "%"@),
        Status::FreeFlight => Some("Vol libre | /race pour lancer une course"@),
        Status::Loading => Some("Chargement des chunks / synchronisation des pilotes..."@),
        Status::Waiting => Some("Prochaine course : attends l'arrivee des pilotes"@),
        Status::Countdown(s) => Some("DEPART DANS "@ + decimal_chars(s as nat) + "..."@),
        Status::Finished(_) | Status::Racing { .. } => None,
    }
}

impl Status {
    /// The HUD line, for the statuses that show no measured time or speed;
    /// the others carry seconds with decimals and the kart's speed.
    pub fn fixed_text(&self) -> (text: Option<String>)
        ensures
            match text {
                Some(t) => fixed_status_chars(*self) == Some(t@),
                None => fixed_status_chars(*self) is None,
            },
    {
        match self {
            Status::Construction(p) => Some(
                String::from_str("Construction du circuit : ").concat(decimal(*p as u64).as_str()).concat("%"),
            ),
            Status::Destruction(p) => Some(
                String::from_str("Destruction du circuit : ").concat(decimal(*p as u64).as_str()).concat("%"),
            ),
            Status::FreeFlight => Some(String::from_str("Vol libre | /race pour lancer une course")),
            Status::Loading => Some(String::from_str("Chargement des chunks / synchronisation des pilotes...")),
            Status::Waiting => Some(String::from_str("Prochaine course : attends l'arrivee des pilotes")),
            Status::Countdown(s) => Some(String::from_str("DEPART DANS ").concat(decimal(*s).as_str()).concat("...")),
            Status::Finished(_) | Status::Racing { .. } => None,
        }
    }
}

} // verus!
