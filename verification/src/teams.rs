use vstd::prelude::*;

verus! {

/// A team of the example server: its name and its members' entity ids.
#[derive(Debug, Clone, PartialEq, Eq)]
pub struct Team {
    pub name: String,
    pub members: Vec<u64>,
}

/// The teams that `/team` manages, in the order they were made.
#[derive(Debug)]
pub struct Teams {
    pub teams: Vec<Team>,
}

/// What `/team` answers.
#[derive(Debug, Clone, PartialEq, Eq)]
pub enum TeamReply {
    Left(String),
    NotInTeam,
    Usage,
    Joined(String),
    AlreadyIn(String),
}

/// Team names are distinct, no team lists a member twice, and no player is
/// in two teams.
pub open spec fn teams_wf(teams: Seq<Team>) -> bool {
    &&& forall|i: int, j: int| 0 <= i < j < teams.len() ==> teams[i].name@ != teams[j].name@
    &&& forall|i: int| 0 <= i < teams.len() ==> (#[trigger] teams[i]).members@.no_duplicates()
    &&& forall|i: int, j: int, p: u64|
        0 <= i < j < teams.len() ==> !(teams[i].members@.contains(p) && teams[j].members@.contains(p))
}

/// The team is the one named.
pub open spec fn named(t: Team, name: Option<String>) -> bool {
    name matches Some(n) && t.name@ == n@
}

/// The name of the last team the player leaves: one they are in that is
/// not the team named.
pub open spec fn left_team(teams: Seq<Team>, player: u64, name: Option<String>) -> Option<Seq<char>>
    decreases teams.len(),
{
    if teams.len() == 0 {
        None
    } else if teams.last().members@.contains(player) && !named(teams.last(), name) {
        Some(teams.last().name@)
    } else {
        left_team(teams.drop_last(), player, name)
    }
}

/// Whether a member is someone other than `player`.
pub open spec fn other_than(player: u64) -> spec_fn(u64) -> bool {
    |m: u64| m != player
}

/// The members of a team once `player` is out of it.
pub open spec fn without(members: Seq<u64>, player: u64) -> Seq<u64> {
    members.filter(other_than(player))
}

impl TeamReply {
    /// The text of the answer.
    pub fn message(&self) -> (m: String)
        ensures
            m@ == match self {
                TeamReply::Left(n) => "You left team "@ + n@ + "."@,
                TeamReply::NotInTeam => "You are not in a team."@,
                TeamReply::Usage => "Usage: /team <name> or /team --leave"@,
                TeamReply::Joined(n) => "You joined team "@ + n@ + "."@,
                TeamReply::AlreadyIn(n) => "You are already in team "@ + n@ + "."@,
            },
    {
        match self {
            TeamReply::Left(n) => String::from_str("You left team ").concat(n.as_str()).concat("."),
            TeamReply::NotInTeam => String::from_str("You are not in a team."),
            TeamReply::Usage => String::from_str("Usage: /team <name> or /team --leave"),
            TeamReply::Joined(n) => String::from_str("You joined team ").concat(n.as_str()).concat("."),
            TeamReply::AlreadyIn(n) => String::from_str("You are already in team ").concat(n.as_str()).concat(
                ".",
            ),
        }
    }
}

fn contains(members: &Vec<u64>, player: u64) -> (r: bool)
    ensures
        r == members@.contains(player),
{
    let mut i: usize = 0;
    while i < members.len()
        invariant
            i <= members.len(),
            forall|j: int| 0 <= j < i ==> members@[j] != player,
        decreases members.len() - i,
    {
        if members[i] == player {
            return true;
        }
        i += 1;
    }
    false
}

fn remove_member(members: &Vec<u64>, player: u64) -> (r: Vec<u64>)
    ensures
        r@ == without(members@, player),
{
    let mut out: Vec<u64> = Vec::new();
    let mut i: usize = 0;
    while i < members.len()
        invariant
            i <= members.len(),
            out@ == without(members@.subrange(0, i as int), player),
        decreases members.len() - i,
    {
        assert(members@.subrange(0, i + 1) =~= members@.subrange(0, i as int).push(members@[i as int]));
        proof {
            lemma_without_push(members@.subrange(0, i as int), members@[i as int], player);
        }
        if members[i] != player {
            out.push(members[i]);
        }
        i += 1;
    }
    assert(members@.subrange(0, members.len() as int) =~= members@);
    out
}

fn copy_members(members: &Vec<u64>) -> (r: Vec<u64>)
    ensures
        r@ == members@,
{
    let mut out: Vec<u64> = Vec::new();
    let mut i: usize = 0;
    while i < members.len()
        invariant
            i <= members.len(),
            out@ == members@.subrange(0, i as int),
        decreases members.len() - i,
    {
        out.push(members[i]);
        i += 1;
    }
    assert(members@.subrange(0, members.len() as int) =~= members@);
    out
}

impl Teams {
    /// No teams yet.
    pub fn new() -> (t: Self)
        ensures
            t.teams@.len() == 0,
            teams_wf(t.teams@),
    {
        Teams { teams: Vec::new() }
    }

    /// `/team [name] [--leave]` from `player`: the player leaves every team
    /// but the one named; with `--leave` that is all, and the answer names
    /// the team left; without a name the usage is the answer; otherwise the
    /// player joins the team named, which is made if it does not exist yet.
    pub fn command(&mut self, player: u64, name: Option<String>, leave: bool) -> (reply: TeamReply)
        requires
            teams_wf(old(self).teams@),
        ensures
            teams_wf(final(self).teams@),
            ({
                let before = old(self).teams@;
                let after = final(self).teams@;
                let n = before.len();
                let in_named = exists|i: int|
                    0 <= i < n && named(before[i], name) && #[trigger] before[i].members@.contains(player);
                let exists_named = exists|i: int| 0 <= i < n && #[trigger] named(before[i], name);
                let created = !leave && name is Some && !exists_named;
                &&& after.len() == n + (if created { 1int } else { 0int })
                &&& forall|i: int| 0 <= i < n ==> #[trigger] after[i].name == before[i].name
                &&& forall|i: int|
                    0 <= i < n && !named(before[i], name) ==> #[trigger] after[i].members@ == without(
                        before[i].members@,
                        player,
                    )
                &&& forall|i: int|
                    0 <= i < n && named(before[i], name) ==> #[trigger] after[i].members@ == (if !leave
                        && !before[i].members@.contains(player) {
                        before[i].members@.push(player)
                    } else {
                        before[i].members@
                    })
                &&& created ==> after[n as int].name@ == name->0@ && after[n as int].members@ == seq![player]
                &&& leave ==> match reply {
                    TeamReply::Left(s) => left_team(before, player, name) == Some(s@),
                    TeamReply::NotInTeam => left_team(before, player, name) is None,
                    _ => false,
                }
                &&& !leave && name is None ==> reply == TeamReply::Usage
                &&& !leave && name is Some ==> match reply {
                    TeamReply::Joined(s) => s@ == name->0@ && !in_named,
                    TeamReply::AlreadyIn(s) => s@ == name->0@ && in_named,
                    _ => false,
                }
            }),
    {
        let ghost before = self.teams@;
        let mut out: Vec<Team> = Vec::new();
        let mut left: Option<String> = None;
        let mut target: Option<usize> = None;
        let mut i: usize = 0;
        while i < self.teams.len()
            invariant
                i <= self.teams@.len(),
                self.teams@ == before,
                teams_wf(before),
                out@.len() == i,
                forall|k: int| 0 <= k < i ==> #[trigger] out@[k].name == before[k].name,
                forall|k: int|
                    0 <= k < i && !named(before[k], name) ==> #[trigger] out@[k].members@ == without(
                        before[k].members@,
                        player,
                    ),
                forall|k: int|
                    0 <= k < i && named(before[k], name) ==> #[trigger] out@[k].members@ == before[k].members@,
                match left {
                    Some(s) => left_team(before.subrange(0, i as int), player, name) == Some(s@),
                    None => left_team(before.subrange(0, i as int), player, name) is None,
                },
                match target {
                    Some(t) => t < i && named(before[t as int], name),
                    None => forall|k: int| 0 <= k < i ==> !named(#[trigger] before[k], name),
                },
            decreases before.len() - i,
        {
            let t = &self.teams[i];
            let is_named = match &name {
                Some(n) => t.name == *n,
                None => false,
            };
            let here = contains(&t.members, player);
            assert(before.subrange(0, i + 1).drop_last() =~= before.subrange(0, i as int));
            assert(before.subrange(0, i + 1).last() == before[i as int]);
            let members = if here && !is_named {
                left = Some(t.name.clone());
                remove_member(&t.members, player)
            } else {
                proof {
                    lemma_without(t.members@, player);
                }
                copy_members(&t.members)
            };
            if is_named {
                target = Some(i);
            }
            out.push(Team { name: t.name.clone(), members });
            i += 1;
        }
        assert(before.subrange(0, before.len() as int) =~= before);
        self.teams = out;
        proof {
            lemma_after_leaving(before, self.teams@, player, name);
        }
        if leave {
            return match left {
                Some(s) => TeamReply::Left(s),
                None => TeamReply::NotInTeam,
            };
        }
        let name = match name {
            Some(n) => n,
            None => return TeamReply::Usage,
        };
        match target {
            Some(ti) => {
                let t = &self.teams[ti];
                if contains(&t.members, player) {
                    return TeamReply::AlreadyIn(name);
                }
                let mut members = copy_members(&t.members);
                members.push(player);
                let joined = Team { name: t.name.clone(), members };
                let ghost mid = self.teams@;
                self.teams.set(ti, joined);
                proof {
                    lemma_after_joining(mid, self.teams@, ti as int, player);
                }
                TeamReply::Joined(name)
            },
            None => {
                let mut members: Vec<u64> = Vec::new();
                members.push(player);
                let ghost mid = self.teams@;
                self.teams.push(Team { name: name.clone(), members });
                assert(self.teams@.drop_last() =~= mid);
                proof {
                    lemma_after_founding(mid, self.teams@, player);
                }
                TeamReply::Joined(name)
            },
        }
    }
}

proof fn lemma_without_push(s: Seq<u64>, x: u64, p: u64)
    ensures
        without(s.push(x), p) == (if x != p {
            without(s, p).push(x)
        } else {
            without(s, p)
        }),
{
    s.lemma_filter_push(x, other_than(p));
}

proof fn lemma_without(s: Seq<u64>, p: u64)
    ensures
        !without(s, p).contains(p),
        forall|x: u64| #[trigger] without(s, p).contains(x) <==> (s.contains(x) && x != p),
        s.no_duplicates() ==> without(s, p).no_duplicates(),
        !s.contains(p) ==> without(s, p) == s,
    decreases s.len(),
{
    if s.len() == 0 {
        assert(without(s, p) =~= Seq::<u64>::empty()) by {
            reveal(Seq::filter);
        }
    } else {
        let rest = s.drop_last();
        let last = s.last();
        lemma_without(rest, p);
        assert(s == rest.push(last));
        lemma_without_push(rest, last, p);
        let w = without(s, p);
        let wr = without(rest, p);
        assert forall|x: u64| #[trigger] w.contains(x) <==> (s.contains(x) && x != p) by {
            if w.contains(x) {
                if x != last {
                    assert(wr.contains(x));
                    let j = choose|j: int| 0 <= j < rest.len() && rest[j] == x;
                    assert(s[j] == x);
                }
            }
            if s.contains(x) && x != p {
                let j = choose|j: int| 0 <= j < s.len() && s[j] == x;
                if j < s.len() - 1 {
                    assert(rest[j] == x);
                    assert(wr.contains(x));
                    let k = choose|k: int| 0 <= k < wr.len() && wr[k] == x;
                    assert(w[k] == x);
                } else {
                    assert(w[w.len() - 1] == x);
                }
            }
        }
        if s.no_duplicates() {
            assert(rest.no_duplicates());
            if last != p {
                assert(!rest.contains(last)) by {
                    if rest.contains(last) {
                        let j = choose|j: int| 0 <= j < rest.len() && rest[j] == last;
                        assert(s[j] == s[s.len() - 1]);
                    }
                }
                assert(!wr.contains(last));
                assert forall|i: int, j: int| 0 <= i < j < w.len() implies w[i] != w[j] by {
                    if j == w.len() - 1 {
                        assert(wr.contains(w[i]));
                    } else {
                        assert(w[i] == wr[i] && w[j] == wr[j]);
                    }
                }
            }
        }
        if !s.contains(p) {
            assert(!rest.contains(p)) by {
                if rest.contains(p) {
                    let j = choose|j: int| 0 <= j < rest.len() && rest[j] == p;
                    assert(s[j] == p);
                }
            }
            assert(last != p);
        }
    }
}

/// Once every team but the named one has lost `player`, the teams are still
/// well formed and `player` is in no team but the named one.
proof fn lemma_after_leaving(before: Seq<Team>, after: Seq<Team>, player: u64, name: Option<String>)
    requires
        teams_wf(before),
        after.len() == before.len(),
        forall|k: int| 0 <= k < before.len() ==> #[trigger] after[k].name == before[k].name,
        forall|k: int|
            0 <= k < before.len() && !named(before[k], name) ==> #[trigger] after[k].members@ == without(
                before[k].members@,
                player,
            ),
        forall|k: int|
            0 <= k < before.len() && named(before[k], name) ==> #[trigger] after[k].members@ == before[k].members@,
    ensures
        teams_wf(after),
        forall|k: int| 0 <= k < after.len() && !named(after[k], name) ==> !(#[trigger] after[k].members@).contains(player),
{
    assert forall|k: int| 0 <= k < after.len() implies (#[trigger] after[k]).members@.no_duplicates() && (!named(after[k], name) ==> !after[k].members@.contains(player)) by {
        lemma_without(before[k].members@, player);
        assert(before[k].members@.no_duplicates());
    }
    assert forall|i: int, j: int, q: u64| 0 <= i < j < after.len() implies !(after[i].members@.contains(q) && after[j].members@.contains(q)) by {
        lemma_without(before[i].members@, player);
        lemma_without(before[j].members@, player);
        if after[i].members@.contains(q) && after[j].members@.contains(q) {
            assert(before[i].members@.contains(q) && before[j].members@.contains(q));
        }
    }
}

/// Adding `player`, who is in no team, to team `ti` keeps the teams well
/// formed.
proof fn lemma_after_joining(mid: Seq<Team>, after: Seq<Team>, ti: int, player: u64)
    requires
        teams_wf(mid),
        0 <= ti < mid.len(),
        forall|k: int| 0 <= k < mid.len() ==> !(#[trigger] mid[k].members@).contains(player),
        after.len() == mid.len(),
        after[ti].name == mid[ti].name,
        after[ti].members@ == mid[ti].members@.push(player),
        forall|k: int| 0 <= k < mid.len() && k != ti ==> #[trigger] after[k] == mid[k],
    ensures
        teams_wf(after),
{
    assert(!mid[ti].members@.contains(player));
    assert forall|k: int| 0 <= k < after.len() implies (#[trigger] after[k]).members@.no_duplicates() by {
        if k == ti {
            let m = mid[ti].members@;
            assert(m.no_duplicates());
            assert forall|i: int, j: int| 0 <= i < j < m.push(player).len() implies m.push(player)[i] != m.push(player)[j] by {
                if j == m.len() {
                    assert(m.contains(m[i]));
                }
            }
        }
    }
    assert forall|i: int, j: int, q: u64| 0 <= i < j < after.len() implies !(after[i].members@.contains(q) && after[j].members@.contains(q)) by {
        if after[i].members@.contains(q) && after[j].members@.contains(q) {
            if i == ti {
                if q != player {
                    let x = choose|x: int| 0 <= x < after[i].members@.len() && after[i].members@[x] == q;
                    assert(mid[i].members@[x] == q);
                    assert(mid[i].members@.contains(q));
                }
                assert(mid[j].members@.contains(q));
            } else if j == ti {
                if q != player {
                    let x = choose|x: int| 0 <= x < after[j].members@.len() && after[j].members@[x] == q;
                    assert(mid[j].members@[x] == q);
                    assert(mid[j].members@.contains(q));
                }
                assert(mid[i].members@.contains(q));
            } else {
                assert(mid[i].members@.contains(q) && mid[j].members@.contains(q));
            }
        }
    }
}

/// A new team of `player` alone, named unlike every team, keeps the teams
/// well formed when `player` was in none.
proof fn lemma_after_founding(mid: Seq<Team>, after: Seq<Team>, player: u64)
    requires
        teams_wf(mid),
        forall|k: int| 0 <= k < mid.len() ==> !(#[trigger] mid[k].members@).contains(player),
        after.len() == mid.len() + 1,
        after.drop_last() == mid,
        forall|k: int| 0 <= k < mid.len() ==> #[trigger] mid[k].name@ != after[mid.len() as int].name@,
        after[mid.len() as int].members@ == seq![player],
    ensures
        teams_wf(after),
{
    let n = mid.len() as int;
    assert forall|k: int| 0 <= k < n implies #[trigger] after[k] == mid[k] by {
        assert(after.drop_last()[k] == after[k]);
    }
    assert forall|k: int| 0 <= k < after.len() implies (#[trigger] after[k]).members@.no_duplicates() by {
        if k < n {
            assert(after[k] == mid[k]);
        }
    }
    assert forall|i: int, j: int, q: u64| 0 <= i < j < after.len() implies !(after[i].members@.contains(q) && after[j].members@.contains(q)) by {
        if j == n {
            assert(after[i] == mid[i]);
            if after[j].members@.contains(q) {
                assert(after[j].members@[0] == player);
            }
        } else {
            assert(after[i] == mid[i] && after[j] == mid[j]);
        }
    }
}

} // verus!
