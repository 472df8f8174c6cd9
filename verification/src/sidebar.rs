use vstd::prelude::*;

use crate::chat::TextColor;
use crate::kart::KartState;
use crate::race::{monus, spec_construction, Phase, Race, Racer, GATES};
use crate::text::{decimal, decimal_chars, two_digit_chars, two_digits};

verus! {

/// The title of the race sidebar.
pub const TITLE: &'static str = "Alpine Rush";

/// Ranked rows the sidebar shows.
pub const RANK_LINES: usize = 5;

/// What a time reads as before there is one.
pub const NO_TIME: &'static str = "--:--.-";

/// Which set of lines the sidebar shows.
#[derive(Debug, Clone, Copy, PartialEq, Eq, Structural)]
pub enum Layout {
    Idle,
    Building,
    Racing,
}

impl Layout {
    /// The layout for a phase: results between rounds, progress while the
    /// circuit is built, loaded or torn down, the race itself from the
    /// countdown on.
    pub fn of(phase: Phase) -> (layout: Self)
        ensures
            layout == match phase {
                Phase::Lobby | Phase::Results => Layout::Idle,
                Phase::Generating | Phase::Loading | Phase::Destroying => Layout::Building,
                Phase::Countdown | Phase::Racing => Layout::Racing,
            },
    {
        match phase {
            Phase::Lobby | Phase::Results => Layout::Idle,
            Phase::Generating | Phase::Loading | Phase::Destroying => Layout::Building,
            Phase::Countdown | Phase::Racing => Layout::Racing,
        }
    }
}

/// The work going on while the circuit is being set up or removed.
#[derive(Debug, Clone, Copy, PartialEq, Eq, Structural)]
pub enum Stage {
    Construction,
    Loading,
    Demolition,
}

pub open spec fn stage_label(stage: Stage) -> Seq<char> {
    match stage {
        Stage::Construction => "Construction"@,
        Stage::Loading => "Chargement"@,
        Stage::Demolition => "Demontage"@,
    }
}

impl Stage {
    pub fn label(self) -> (label: &'static str)
        ensures
            label@ == stage_label(self),
    {
        proof {
            reveal_strlit("Construction");
            reveal_strlit("Chargement");
            reveal_strlit("Demontage");
        }
        match self {
            Stage::Construction => "Construction",
            Stage::Loading => "Chargement",
            Stage::Demolition => "Demontage",
        }
    }
}

/// The tab-list footer naming the circuit.
pub open spec fn footer_chars(seed: u64) -> Seq<char> {
    "Circuit #"@ + decimal_chars(seed as nat) + " · /race [tours] [seed]"@
}

pub fn footer(seed: u64) -> (text: String)
    ensures
        text@ == footer_chars(seed),
{
    let digits = decimal(seed);
    String::from_str("Circuit #").concat(digits.as_str()).concat(" · /race [tours] [seed]")
}

/// A time of `ticks` (twenty a second) as minutes, two-digit seconds and
/// tenths of a second, each part rounded down.
pub open spec fn clock_chars(ticks: u64) -> Seq<char> {
    decimal_chars((ticks / 1200) as nat) + ":"@ + two_digit_chars((ticks / 20 % 60) as nat) + "."@
        + decimal_chars((ticks % 20 * 10 / 20) as nat)
}

pub fn clock_tenths(ticks: u64) -> (text: String)
    ensures
        text@ == clock_chars(ticks),
{
    let minutes = decimal(ticks / 1200);
    let seconds = two_digits(ticks / 20 % 60);
    let tenths = decimal(ticks % 20 * 10 / 20);
    minutes.concat(":").concat(seconds.as_str()).concat(".").concat(tenths.as_str())
}

/// A time if there is one, the placeholder otherwise.
pub fn time_or_dash(ticks: Option<u64>) -> (text: String)
    ensures
        text@ == match ticks {
            Some(t) => clock_chars(t),
            None => NO_TIME@,
        },
{
    match ticks {
        Some(t) => clock_tenths(t),
        None => String::from_str(NO_TIME),
    }
}

/// Where the viewer is in the race, as the lap line shows it.
#[derive(Debug, Clone, Copy, PartialEq, Eq, Structural)]
pub enum Lap {
    Spectator,
    /// The lap under way, out of the race's laps.
    Lap(usize, usize),
    Done,
}

/// A line of the standings: a finisher (player and time), a racer (player
/// and lap), or a result of round `.0` (its index in the results).
#[derive(Debug, Clone, Copy, PartialEq, Eq, Structural)]
pub enum Row {
    Finished(u64, u64),
    Racing(u64, usize),
    Result(u64, usize),
}

impl Row {
    pub open spec fn spec_player(self) -> Option<u64> {
        match self {
            Row::Finished(player, _) | Row::Racing(player, _) => Some(player),
            Row::Result(..) => None,
        }
    }

    /// The player a line is about; results name no player.
    pub fn player(self) -> (p: Option<u64>)
        ensures
            p == self.spec_player(),
    {
        match self {
            Row::Finished(player, _) | Row::Racing(player, _) => Some(player),
            Row::Result(..) => None,
        }
    }
}

/// The current standings, with a version that counts their changes.
pub struct Standings {
    pub rows: Vec<Row>,
    pub version: u64,
}

impl Standings {
    /// Publishes new standings: the version moves on only when the rows
    /// differ from those shown.
    pub fn publish(&mut self, rows: Vec<Row>) -> (changed: bool)
        requires
            old(self).version < u64::MAX,
        ensures
            changed == (rows@ != old(self).rows@),
            changed ==> final(self).rows@ == rows@ && final(self).version == old(self).version + 1,
            !changed ==> final(self).rows@ == old(self).rows@ && final(self).version == old(self).version,
    {
        let mut same = rows.len() == self.rows.len();
        let mut i: usize = 0;
        while same && i < rows.len()
            invariant
                i <= rows.len(),
                same ==> rows@.len() == self.rows@.len(),
                same ==> forall|j: int| 0 <= j < i ==> rows@[j] == self.rows@[j],
                !same ==> rows@ != self.rows@,
                self.rows@ == old(self).rows@,
                self.version == old(self).version,
            decreases rows.len() - i,
        {
            if rows[i] != self.rows[i] {
                same = false;
            }
            i += 1;
        }
        if same {
            assert(rows@ =~= self.rows@);
            return false;
        }
        self.rows = rows;
        self.version = self.version + 1;
        true
    }
}

/// The standings between rounds: the results of the round, in order.
pub fn result_rows(round: u64, count: usize) -> (rows: Vec<Row>)
    ensures
        rows@ == Seq::new(count as nat, |i: int| Row::Result(round, i as usize)),
{
    let mut rows: Vec<Row> = Vec::new();
    let mut i: usize = 0;
    while i < count
        invariant
            i <= count,
            rows@ == Seq::new(i as nat, |j: int| Row::Result(round, j as usize)),
        decreases count - i,
    {
        rows.push(Row::Result(round, i));
        i += 1;
        assert(rows@ =~= Seq::new(i as nat, |j: int| Row::Result(round, j as usize)));
    }
    rows
}

/// The lap a kart is on from the gates it passed, at most the race's last.
pub open spec fn spec_lap_of(next_gate: usize, laps: usize) -> usize {
    let lap = ((next_gate - 1) / (GATES as int) + 1) as usize;
    if lap < laps {
        lap
    } else {
        laps
    }
}

pub fn lap_of(next_gate: usize, laps: usize) -> (lap: usize)
    requires
        next_gate >= 1,
    ensures
        lap == spec_lap_of(next_gate, laps),
{
    let lap = (next_gate - 1) / GATES + 1;
    if lap < laps {
        lap
    } else {
        laps
    }
}

/// The viewer's place in the standings, out of how many lines.
#[derive(Debug, Clone, Copy, PartialEq, Eq, Structural)]
pub struct Rank {
    pub place: usize,
    pub of: usize,
}

/// The work under way and how far along it is, in percent.
#[derive(Debug, Clone, Copy, PartialEq, Eq, Structural)]
pub struct Progress {
    pub stage: Stage,
    pub percent: usize,
}

/// Everything a sidebar shows, as values.
#[derive(Debug, Clone, Copy, PartialEq, Eq, Structural)]
pub struct BoardView {
    pub layout: Layout,
    pub seed: u64,
    pub round: u64,
    pub lap: Lap,
    pub rank: Option<Rank>,
    pub seconds: u64,
    pub stage: Option<Progress>,
    pub best_lap: Option<u64>,
    pub record: Option<u64>,
    pub standings: u64,
}

/// The index of the first standings line about `viewer`.
pub open spec fn rank_index(rows: Seq<Row>, viewer: u64) -> Option<int>
    decreases rows.len(),
{
    if rows.len() == 0 {
        None
    } else if rows[0].spec_player() == Some(viewer) {
        Some(0)
    } else {
        match rank_index(rows.drop_first(), viewer) {
            Some(i) => Some(i + 1),
            None => None,
        }
    }
}

/// The best time to beat on this circuit: the earlier record or this round's
/// winning time, whichever is lower.
pub open spec fn spec_record(record: Option<u64>, winner: Option<u64>) -> Option<u64> {
    match (record, winner) {
        (Some(r), Some(w)) => Some(if r < w { r } else { w }),
        (Some(r), None) => Some(r),
        (None, w) => w,
    }
}

/// The viewer's lap line: a kart taking part shows its lap during the race
/// layout, or that it is done; anyone else watches.
pub open spec fn spec_lap(layout: Layout, laps: usize, kart: Option<KartState>) -> Lap {
    match kart {
        Some(k) => if k.participant && layout == Layout::Racing {
            match k.finished {
                Some(_) => Lap::Done,
                None => Lap::Lap(spec_lap_of(k.next_gate, laps), laps),
            }
        } else {
            Lap::Spectator
        },
        None => Lap::Spectator,
    }
}

/// What the viewer's sidebar shows, from the race, the circuit's seed, the
/// standings, and the viewer's racer and kart if it has them.
pub open spec fn view_of(
    race: Race,
    seed: u64,
    standings: Standings,
    viewer: u64,
    racer: Option<Racer>,
    kart: Option<KartState>,
) -> BoardView {
    let layout = match race.phase {
        Phase::Lobby | Phase::Results => Layout::Idle,
        Phase::Generating | Phase::Loading | Phase::Destroying => Layout::Building,
        Phase::Countdown | Phase::Racing => Layout::Racing,
    };
    let construction = spec_construction(race.total_chunks, race.pending@.len()) as usize;
    BoardView {
        layout,
        seed,
        round: race.round,
        lap: spec_lap(layout, race.laps, kart),
        rank: match rank_index(standings.rows@, viewer) {
            Some(i) => Some(Rank { place: (i + 1) as usize, of: standings.rows@.len() as usize }),
            None => None,
        },
        seconds: if race.phase == Phase::Racing {
            (monus(race.tick, race.start) / 20) as u64
        } else {
            0
        },
        stage: match race.phase {
            Phase::Generating => Some(Progress { stage: Stage::Construction, percent: construction }),
            Phase::Loading => Some(Progress { stage: Stage::Loading, percent: 100 }),
            Phase::Destroying => Some(Progress { stage: Stage::Demolition, percent: construction }),
            _ => None,
        },
        best_lap: match racer {
            Some(r) => r.best_lap,
            None => None,
        },
        record: spec_record(
            race.record,
            if race.results@.len() > 0 {
                Some(race.results@[0].1)
            } else {
                None
            },
        ),
        standings: standings.version,
    }
}

fn rank_position(rows: &Vec<Row>, viewer: u64) -> (r: Option<usize>)
    ensures
        match r {
            Some(i) => i < rows.len() && rank_index(rows@, viewer) == Some(i as int),
            None => rank_index(rows@, viewer) is None,
        },
{
    let mut i: usize = 0;
    assert(rows@.skip(0) =~= rows@);
    while i < rows.len()
        invariant
            i <= rows.len(),
            rank_index(rows@, viewer) == match rank_index(rows@.skip(i as int), viewer) {
                Some(j) => Some(j + i),
                None => None,
            },
        decreases rows.len() - i,
    {
        assert(rows@.skip(i as int).drop_first() =~= rows@.skip(i + 1));
        if rows[i].player() == Some(viewer) {
            return Some(i);
        }
        i += 1;
    }
    assert(rows@.skip(i as int).len() == 0);
    None
}

/// What the viewer's sidebar shows. `kart` is the kart of the viewer's
/// racer, where the viewer has one.
pub fn board_view(
    race: &Race,
    seed: u64,
    standings: &Standings,
    viewer: u64,
    racer: Option<&Racer>,
    kart: Option<&KartState>,
) -> (view: BoardView)
    requires
        100 * race.total_chunks <= usize::MAX,
        kart matches Some(k) ==> k.next_gate >= 1,
    ensures
        view == view_of(
            *race,
            seed,
            *standings,
            viewer,
            match racer {
                Some(r) => Some(*r),
                None => None,
            },
            match kart {
                Some(k) => Some(*k),
                None => None,
            },
        ),
{
    let layout = Layout::of(race.phase);
    let lap = match kart {
        Some(k) => if k.participant && layout == Layout::Racing {
            match k.finished {
                Some(_) => Lap::Done,
                None => Lap::Lap(lap_of(k.next_gate, race.laps), race.laps),
            }
        } else {
            Lap::Spectator
        },
        None => Lap::Spectator,
    };
    let rows = &standings.rows;
    let found = rank_position(rows, viewer);
    let rank = match found {
        Some(index) => Some(Rank { place: index + 1, of: rows.len() }),
        None => None,
    };
    let seconds = if race.phase == Phase::Racing {
        race.elapsed() / 20
    } else {
        0
    };
    let stage = match race.phase {
        Phase::Generating => Some(Progress { stage: Stage::Construction, percent: race.construction() }),
        Phase::Loading => Some(Progress { stage: Stage::Loading, percent: 100 }),
        Phase::Destroying => Some(Progress { stage: Stage::Demolition, percent: race.construction() }),
        _ => None,
    };
    let best_lap = match racer {
        Some(r) => r.best_lap,
        None => None,
    };
    let winner = if race.results.len() > 0 {
        Some(race.results[0].1)
    } else {
        None
    };
    let record = match (race.record, winner) {
        (Some(r), Some(w)) => Some(if r < w { r } else { w }),
        (Some(r), None) => Some(r),
        (None, w) => w,
    };
    BoardView {
        layout,
        seed,
        round: race.round,
        lap,
        rank,
        seconds,
        stage,
        best_lap,
        record,
        standings: standings.version,
    }
}

/// A change to make to a sidebar, in the order they are made.
#[derive(Debug, Clone, Copy, PartialEq, Eq, Structural)]
pub enum Update {
    /// The sidebar is laid out anew, with the lines of this layout.
    Build(Layout),
    Circuit(u64),
    Round(u64),
    Lap(Lap),
    Rank(Option<Rank>),
    /// The race timer, in whole seconds.
    Timer(u64),
    Stage(Progress),
    Percent(usize),
    BestLap(Option<u64>),
    Record(Option<u64>),
    /// The standings lines are rewritten.
    Rows,
}

/// `u` if `c`, nothing otherwise.
pub open spec fn when(c: bool, u: Update) -> Seq<Update> {
    if c {
        seq![u]
    } else {
        Seq::empty()
    }
}

/// The view to update from: the one shown, unless the layout changed.
pub open spec fn kept(shown: Option<BoardView>, next: BoardView) -> Option<BoardView> {
    match shown {
        Some(p) => if p.layout == next.layout {
            Some(p)
        } else {
            None
        },
        None => None,
    }
}

/// What to change to go from the sidebar shown to `next`: a new layout is
/// built and filled whole; otherwise only the lines whose values changed
/// are written. Each layout has its own lines: the circuit and the record
/// always, the round between races, the lap, rank, timer and best lap in a
/// race, the progress while building, the standings outside of building.
pub open spec fn updates_of(shown: Option<BoardView>, next: BoardView) -> Seq<Update> {
    let prev = kept(shown, next);
    let fresh = prev is None;
    let p = prev->0;
    let racing = next.layout == Layout::Racing;
    let building = next.layout == Layout::Building;
    when(fresh, Update::Build(next.layout))
        + when(fresh || p.seed != next.seed, Update::Circuit(next.seed))
        + when(!racing && (fresh || p.round != next.round), Update::Round(next.round))
        + when(racing && (fresh || p.lap != next.lap), Update::Lap(next.lap))
        + when(racing && (fresh || p.rank != next.rank), Update::Rank(next.rank))
        + when(racing && (fresh || p.seconds != next.seconds), Update::Timer(next.seconds))
        + when(building && next.stage is Some && (fresh || p.stage != next.stage), Update::Stage(next.stage->0))
        + when(
            building && next.stage is Some && (fresh || p.stage != next.stage),
            Update::Percent(next.stage->0.percent),
        )
        + when(racing && (fresh || p.best_lap != next.best_lap), Update::BestLap(next.best_lap))
        + when(fresh || p.record != next.record, Update::Record(next.record))
        + when(!building && (fresh || p.standings != next.standings), Update::Rows)
}

fn push_when(out: &mut Vec<Update>, c: bool, u: Update)
    ensures
        final(out)@ == old(out)@ + when(c, u),
{
    if c {
        out.push(u);
    }
    assert(out@ =~= old(out)@ + when(c, u));
}

/// The changes that bring a sidebar showing `shown` to `next`.
pub fn board_updates(shown: Option<BoardView>, next: BoardView) -> (out: Vec<Update>)
    ensures
        out@ == updates_of(shown, next),
{
    let prev = match shown {
        Some(p) => if p.layout == next.layout {
            Some(p)
        } else {
            None
        },
        None => None,
    };
    assert(prev == kept(shown, next));
    let racing = next.layout == Layout::Racing;
    let building = next.layout == Layout::Building;
    let (fresh, p) = match prev {
        Some(p) => (false, p),
        None => (true, next),
    };
    let (staged, progress) = match next.stage {
        Some(progress) => (true, progress),
        None => (false, Progress { stage: Stage::Loading, percent: 0 }),
    };
    let stage_changed = building && staged && (fresh || p.stage != next.stage);
    let mut out: Vec<Update> = Vec::new();
    push_when(&mut out, fresh, Update::Build(next.layout));
    push_when(&mut out, fresh || p.seed != next.seed, Update::Circuit(next.seed));
    push_when(&mut out, !racing && (fresh || p.round != next.round), Update::Round(next.round));
    push_when(&mut out, racing && (fresh || p.lap != next.lap), Update::Lap(next.lap));
    push_when(&mut out, racing && (fresh || p.rank != next.rank), Update::Rank(next.rank));
    push_when(&mut out, racing && (fresh || p.seconds != next.seconds), Update::Timer(next.seconds));
    push_when(&mut out, stage_changed, Update::Stage(progress));
    push_when(&mut out, stage_changed, Update::Percent(progress.percent));
    push_when(&mut out, racing && (fresh || p.best_lap != next.best_lap), Update::BestLap(next.best_lap));
    push_when(&mut out, fresh || p.record != next.record, Update::Record(next.record));
    push_when(&mut out, !building && (fresh || p.standings != next.standings), Update::Rows);
    assert(out@ =~= updates_of(shown, next));
    out
}

/// The circuit line: its seed.
pub fn circuit_text(seed: u64) -> (text: String)
    ensures
        text@ == "#"@ + decimal_chars(seed as nat),
{
    String::from_str("#").concat(decimal(seed).as_str())
}

pub open spec fn lap_chars(lap: Lap) -> Seq<char> {
    match lap {
        Lap::Spectator => "Spectateur"@,
        Lap::Lap(lap, laps) => decimal_chars(lap as nat) + "/"@ + decimal_chars(laps as nat),
        Lap::Done => "Arrivee"@,
    }
}

/// The lap line: the lap out of the laps, or whether the viewer watches or
/// is done.
pub fn lap_text(lap: Lap) -> (text: String)
    ensures
        text@ == lap_chars(lap),
{
    match lap {
        Lap::Spectator => String::from_str("Spectateur"),
        Lap::Lap(lap, laps) => decimal(lap as u64).concat("/").concat(decimal(laps as u64).as_str()),
        Lap::Done => String::from_str("Arrivee"),
    }
}

pub open spec fn rank_chars(rank: Option<Rank>) -> Seq<char> {
    match rank {
        Some(r) => decimal_chars(r.place as nat) + "/"@ + decimal_chars(r.of as nat),
        None => "-"@,
    }
}

/// The rank line: the place out of the lines, or a dash.
pub fn rank_text(rank: Option<Rank>) -> (text: String)
    ensures
        text@ == rank_chars(rank),
{
    match rank {
        Some(r) => decimal(r.place as u64).concat("/").concat(decimal(r.of as u64).as_str()),
        None => String::from_str("-"),
    }
}

/// The progress line: a percentage.
pub fn percent_text(percent: usize) -> (text: String)
    ensures
        text@ == decimal_chars(percent as nat) + "%"@,
{
    decimal(percent as u64).concat("%")
}

/// The name a player goes by: the first name known for them, or a
/// placeholder.
pub open spec fn name_of(names: Seq<(u64, String)>, player: u64) -> Seq<char>
    decreases names.len(),
{
    if names.len() == 0 {
        "Pilote"@
    } else if names[0].0 == player {
        names[0].1@
    } else {
        name_of(names.drop_first(), player)
    }
}

fn find_name(names: &[(u64, String)], player: u64) -> (name: String)
    ensures
        name@ == name_of(names@, player),
{
    let mut i: usize = 0;
    assert(names@.skip(0) =~= names@);
    while i < names.len()
        invariant
            i <= names.len(),
            name_of(names@, player) == name_of(names@.skip(i as int), player),
        decreases names.len() - i,
    {
        assert(names@.skip(i as int).drop_first() =~= names@.skip(i + 1));
        if names[i].0 == player {
            return names[i].1.clone();
        }
        i += 1;
    }
    String::from_str("Pilote")
}

/// The line of the standings row ranked `rank`, if it has one: a finisher
/// with their time, a racer with their lap, or a result of the round; the
/// viewer's own line is yellow, and among results the first two are gold
/// and gray.
pub open spec fn row_line(
    row: Row,
    rank: nat,
    results: Seq<(String, u64)>,
    names: Seq<(u64, String)>,
    viewer: u64,
) -> Option<(Seq<char>, TextColor)> {
    let head = decimal_chars(rank) + ". "@;
    match row {
        Row::Finished(player, time) => Some(
            (
                head + name_of(names, player) + " "@ + clock_chars(time),
                if player == viewer {
                    TextColor::Yellow
                } else {
                    TextColor::Green
                },
            ),
        ),
        Row::Racing(player, lap) => Some(
            (
                head + name_of(names, player) + " T"@ + decimal_chars(lap as nat),
                if player == viewer {
                    TextColor::Yellow
                } else {
                    TextColor::White
                },
            ),
        ),
        Row::Result(_, index) => if index < results.len() {
            Some(
                (
                    head + results[index as int].0@ + " "@ + clock_chars(results[index as int].1),
                    if results[index as int].0@ == name_of(names, viewer) {
                        TextColor::Yellow
                    } else if rank == 1 {
                        TextColor::Gold
                    } else if rank == 2 {
                        TextColor::Gray
                    } else {
                        TextColor::White
                    },
                ),
            )
        } else {
            None
        },
    }
}

/// The lines of the first `n` rows.
pub open spec fn lines_upto(
    rows: Seq<Row>,
    n: nat,
    results: Seq<(String, u64)>,
    names: Seq<(u64, String)>,
    viewer: u64,
) -> Seq<(Seq<char>, TextColor)>
    decreases n,
{
    if n == 0 {
        Seq::empty()
    } else {
        lines_upto(rows, (n - 1) as nat, results, names, viewer) + match row_line(
            rows[n - 1],
            n,
            results,
            names,
            viewer,
        ) {
            Some(line) => seq![line],
            None => Seq::empty(),
        }
    }
}

/// What an empty standings list reads.
pub open spec fn placeholder(layout: Layout) -> Seq<char> {
    match layout {
        Layout::Racing => "Aucun pilote en course"@,
        Layout::Idle | Layout::Building => "Aucun resultat : /race"@,
    }
}

/// The standings lines: those of the first `RANK_LINES` rows, or a
/// placeholder when there is none.
pub open spec fn rank_lines_of(
    rows: Seq<Row>,
    results: Seq<(String, u64)>,
    names: Seq<(u64, String)>,
    viewer: u64,
    layout: Layout,
) -> Seq<(Seq<char>, TextColor)> {
    let n: nat = if rows.len() < RANK_LINES {
        rows.len()
    } else {
        RANK_LINES as nat
    };
    let lines = lines_upto(rows, n, results, names, viewer);
    if lines.len() == 0 {
        seq![(placeholder(layout), TextColor::DarkGray)]
    } else {
        lines
    }
}

/// A line with its text taken by its view.
pub open spec fn line_view(line: (String, TextColor)) -> (Seq<char>, TextColor) {
    (line.0@, line.1)
}

fn row_text(
    row: Row,
    rank: usize,
    results: &[(String, u64)],
    names: &[(u64, String)],
    viewer: u64,
) -> (line: Option<(String, TextColor)>)
    requires
        1 <= rank <= RANK_LINES,
    ensures
        match line {
            Some(l) => row_line(row, rank as nat, results@, names@, viewer) == Some(line_view(l)),
            None => row_line(row, rank as nat, results@, names@, viewer) is None,
        },
{
    let head = decimal(rank as u64).concat(". ");
    match row {
        Row::Finished(player, time) => {
            let name = find_name(names, player);
            let color = if player == viewer {
                TextColor::Yellow
            } else {
                TextColor::Green
            };
            Some((head.concat(name.as_str()).concat(" ").concat(clock_tenths(time).as_str()), color))
        },
        Row::Racing(player, lap) => {
            let name = find_name(names, player);
            let color = if player == viewer {
                TextColor::Yellow
            } else {
                TextColor::White
            };
            Some((head.concat(name.as_str()).concat(" T").concat(decimal(lap as u64).as_str()), color))
        },
        Row::Result(_, index) => {
            if index >= results.len() {
                return None;
            }
            let name = &results[index].0;
            let time = results[index].1;
            let me = find_name(names, viewer);
            let color = if *name == me {
                TextColor::Yellow
            } else if rank == 1 {
                TextColor::Gold
            } else if rank == 2 {
                TextColor::Gray
            } else {
                TextColor::White
            };
            Some((head.concat(name.as_str()).concat(" ").concat(clock_tenths(time).as_str()), color))
        },
    }
}

/// The standings lines of a sidebar: the first `RANK_LINES` rows with their
/// rank, each player by name and the viewer's own line in yellow, or a
/// placeholder when there are none.
pub fn rank_lines(
    rows: &[Row],
    results: &[(String, u64)],
    names: &[(u64, String)],
    viewer: u64,
    layout: Layout,
) -> (lines: Vec<(String, TextColor)>)
    ensures
        lines@.map_values(|l: (String, TextColor)| line_view(l)) == rank_lines_of(
            rows@,
            results@,
            names@,
            viewer,
            layout,
        ),
{
    let n: usize = if rows.len() < RANK_LINES {
        rows.len()
    } else {
        RANK_LINES
    };
    let mut lines: Vec<(String, TextColor)> = Vec::new();
    let mut i: usize = 0;
    while i < n
        invariant
            i <= n,
            n <= rows.len(),
            n <= RANK_LINES,
            lines@.map_values(|l: (String, TextColor)| line_view(l)) == lines_upto(
                rows@,
                i as nat,
                results@,
                names@,
                viewer,
            ),
        decreases n - i,
    {
        let line = row_text(rows[i], i + 1, results, names, viewer);
        let ghost before = lines@;
        match line {
            Some(l) => {
                lines.push(l);
            },
            None => {},
        }
        assert(lines@.map_values(|l: (String, TextColor)| line_view(l)) =~= lines_upto(
            rows@,
            (i + 1) as nat,
            results@,
            names@,
            viewer,
        ));
        i += 1;
    }
    if lines.len() == 0 {
        let text = match layout {
            Layout::Racing => String::from_str("Aucun pilote en course"),
            Layout::Idle | Layout::Building => String::from_str("Aucun resultat : /race"),
        };
        let mut placeholder_line: Vec<(String, TextColor)> = Vec::new();
        placeholder_line.push((text, TextColor::DarkGray));
        assert(placeholder_line@.map_values(|l: (String, TextColor)| line_view(l)) =~= seq![
            (placeholder(layout), TextColor::DarkGray),
        ]);
        return placeholder_line;
    }
    lines
}


broadcast proof fn lemma_when_contains(c: bool, u: Update, x: Update)
    ensures
        #[trigger] when(c, u).contains(x) <==> (c && u == x),
{
    if c {
        assert(when(c, u)[0] == u);
    }
}

/// Within one layout, a line is rewritten exactly when its value changed,
/// and only the lines the layout has: the circuit and the record always;
/// the round outside a race; the lap, rank, timer and best lap in a race;
/// the build stage and its percentage while building; the standings
/// whenever not building. The layout itself is not built again.
#[verifier::rlimit(40)]
pub proof fn changed_lines_are_rewritten(shown: BoardView, next: BoardView)
    requires
        shown.layout == next.layout,
    ensures
        ({
            let u = updates_of(Some(shown), next);
            let racing = next.layout == Layout::Racing;
            let building = next.layout == Layout::Building;
            &&& !u.contains(Update::Build(next.layout))
            &&& u.contains(Update::Circuit(next.seed)) <==> shown.seed != next.seed
            &&& u.contains(Update::Round(next.round)) <==> !racing && shown.round != next.round
            &&& u.contains(Update::Lap(next.lap)) <==> racing && shown.lap != next.lap
            &&& u.contains(Update::Rank(next.rank)) <==> racing && shown.rank != next.rank
            &&& u.contains(Update::Timer(next.seconds)) <==> racing && shown.seconds != next.seconds
            &&& u.contains(Update::BestLap(next.best_lap)) <==> racing && shown.best_lap != next.best_lap
            &&& u.contains(Update::Record(next.record)) <==> shown.record != next.record
            &&& u.contains(Update::Rows) <==> !building && shown.standings != next.standings
            &&& next.stage matches Some(p) ==> (u.contains(Update::Stage(p)) <==> building
                && shown.stage != next.stage)
            &&& next.stage matches Some(p) ==> (u.contains(Update::Percent(p.percent)) <==> building
                && shown.stage != next.stage)
        }),
{
    let u = updates_of(Some(shown), next);
    let racing = next.layout == Layout::Racing;
    let building = next.layout == Layout::Building;
    assert(kept(Some(shown), next) == Some(shown));
    assert(!u.contains(Update::Build(next.layout))) by {
        broadcast use vstd::seq_lib::lemma_seq_concat_contains_all_elements, lemma_when_contains;
    }
    assert(u.contains(Update::Circuit(next.seed)) <==> shown.seed != next.seed) by {
        broadcast use vstd::seq_lib::lemma_seq_concat_contains_all_elements, lemma_when_contains;
    }
    assert(u.contains(Update::Round(next.round)) <==> !racing && shown.round != next.round) by {
        broadcast use vstd::seq_lib::lemma_seq_concat_contains_all_elements, lemma_when_contains;
    }
    assert(u.contains(Update::Lap(next.lap)) <==> racing && shown.lap != next.lap) by {
        broadcast use vstd::seq_lib::lemma_seq_concat_contains_all_elements, lemma_when_contains;
    }
    assert(u.contains(Update::Rank(next.rank)) <==> racing && shown.rank != next.rank) by {
        broadcast use vstd::seq_lib::lemma_seq_concat_contains_all_elements, lemma_when_contains;
    }
    assert(u.contains(Update::Timer(next.seconds)) <==> racing && shown.seconds != next.seconds) by {
        broadcast use vstd::seq_lib::lemma_seq_concat_contains_all_elements, lemma_when_contains;
    }
    assert(u.contains(Update::BestLap(next.best_lap)) <==> racing && shown.best_lap != next.best_lap) by {
        broadcast use vstd::seq_lib::lemma_seq_concat_contains_all_elements, lemma_when_contains;
    }
    assert(u.contains(Update::Record(next.record)) <==> shown.record != next.record) by {
        broadcast use vstd::seq_lib::lemma_seq_concat_contains_all_elements, lemma_when_contains;
    }
    assert(u.contains(Update::Rows) <==> !building && shown.standings != next.standings) by {
        broadcast use vstd::seq_lib::lemma_seq_concat_contains_all_elements, lemma_when_contains;
    }
    if let Some(p) = next.stage {
        assert(u.contains(Update::Stage(p)) <==> building && shown.stage != next.stage) by {
            broadcast use vstd::seq_lib::lemma_seq_concat_contains_all_elements, lemma_when_contains;
        }
        assert(u.contains(Update::Percent(p.percent)) <==> building && shown.stage != next.stage) by {
            broadcast use vstd::seq_lib::lemma_seq_concat_contains_all_elements, lemma_when_contains;
        }
    }
}

/// A new layout is built and then filled whole: the first change is the
/// build, and every line the layout has is written.
pub proof fn a_new_layout_is_filled_whole(shown: Option<BoardView>, next: BoardView)
    requires
        !(shown matches Some(p) && p.layout == next.layout),
    ensures
        ({
            let u = updates_of(shown, next);
            let racing = next.layout == Layout::Racing;
            let building = next.layout == Layout::Building;
            &&& u[0] == Update::Build(next.layout)
            &&& u.contains(Update::Circuit(next.seed))
            &&& u.contains(Update::Record(next.record))
            &&& u.contains(Update::Round(next.round)) <==> !racing
            &&& u.contains(Update::Lap(next.lap)) <==> racing
            &&& u.contains(Update::Rank(next.rank)) <==> racing
            &&& u.contains(Update::Timer(next.seconds)) <==> racing
            &&& u.contains(Update::BestLap(next.best_lap)) <==> racing
            &&& u.contains(Update::Rows) <==> !building
        }),
{
    broadcast use vstd::seq_lib::lemma_seq_concat_contains_all_elements, lemma_when_contains;

    assert(kept(shown, next) is None);
}
} // verus!
