use std::marker::PhantomData;

use vstd::prelude::*;

use crate::error::Error;
use crate::grid::Cell;
use crate::player::{same_player, Player};
use crate::ship::ships_for_grid;
use crate::{Active, New};

verus! {

/// The players registered so far whose ships are all placed, in order.
pub open spec fn ready_players(players: Seq<Player<New>>) -> Seq<Player<New>> {
    players.filter(|p: Player<New>| p.to_place@.len() == 0)
}

/// Positions, in increasing order, of the players among the first `n` that
/// are still alive.
pub open spec fn alive_upto(players: Seq<Player<Active>>, n: int) -> Seq<usize>
    decreases n,
{
    if n <= 0 {
        Seq::empty()
    } else if players[n - 1].alive() {
        alive_upto(players, n - 1).push((n - 1) as usize)
    } else {
        alive_upto(players, n - 1)
    }
}

/// Positions, in increasing order, of the players that are still alive.
pub open spec fn alive_indices(players: Seq<Player<Active>>) -> Seq<usize> {
    alive_upto(players, players.len() as int)
}

/// What the game stands at: `Draw` with nobody alive, `Winner` with one
/// player alive, `None` (undecided) with two or more.
pub open spec fn outcome(players: Seq<Player<Active>>) -> Option<GameResult> {
    let alive = alive_indices(players);
    if alive.len() == 0 {
        Some(GameResult::Draw)
    } else if alive.len() == 1 {
        Some(GameResult::Winner(alive[0]))
    } else {
        None
    }
}

proof fn lemma_alive_upto(players: Seq<Player<Active>>, n: int)
    requires
        0 <= n <= players.len(),
        players.len() <= usize::MAX,
    ensures
        forall|j: usize| #[trigger]
            alive_upto(players, n).contains(j) <==> (j < n && players[j as int].alive()),
        forall|a: int, b: int|
            0 <= a < b < alive_upto(players, n).len() ==> #[trigger] alive_upto(players, n)[a]
                < #[trigger] alive_upto(players, n)[b],
        forall|a: int|
            0 <= a < alive_upto(players, n).len() ==> #[trigger] alive_upto(players, n)[a] < n,
    decreases n,
{
    if n > 0 {
        lemma_alive_upto(players, n - 1);
        let prev = alive_upto(players, n - 1);
        let cur = alive_upto(players, n);
        assert forall|j: usize| #[trigger]
            cur.contains(j) <==> (j < n && players[j as int].alive()) by {
            if cur.contains(j) {
                let a = choose|a: int| 0 <= a < cur.len() && cur[a] == j;
                if a < prev.len() {
                    assert(prev[a] == j);
                    assert(prev.contains(j));
                }
            }
            if j < n - 1 && players[j as int].alive() {
                assert(prev.contains(j));
                let a = choose|a: int| 0 <= a < prev.len() && prev[a] == j;
                assert(cur[a] == j);
            }
            if j == n - 1 && players[j as int].alive() {
                assert(cur[prev.len() as int] == j);
            }
        }
    }
}

/// The result names `Winner(p)` exactly when `p` is the one player alive,
/// `Draw` exactly when nobody is alive, and nothing while two or more are.
pub proof fn lemma_outcome(players: Seq<Player<Active>>, p: usize)
    requires
        players.len() <= usize::MAX,
    ensures
        outcome(players) == Some(GameResult::Winner(p)) <==> {
            &&& p < players.len()
            &&& players[p as int].alive()
            &&& forall|q: int| 0 <= q < players.len() && q != p ==> !(#[trigger] players[q]).alive()
        },
        outcome(players) == Some(GameResult::Draw) <==> forall|q: int|
            0 <= q < players.len() ==> !(#[trigger] players[q]).alive(),
        outcome(players) is None <==> exists|q1: int, q2: int|
            0 <= q1 < q2 < players.len() && (#[trigger] players[q1]).alive()
                && (#[trigger] players[q2]).alive(),
{
    let n = players.len() as int;
    let alive = alive_indices(players);
    lemma_alive_upto(players, n);
    if outcome(players) == Some(GameResult::Winner(p)) {
        assert(alive[0] == p);
        assert(alive.contains(p));
        assert forall|q: int| 0 <= q < players.len() && q != p implies !(
        #[trigger] players[q]).alive() by {
            if players[q].alive() {
                assert(alive.contains(q as usize));
            }
        }
    }
    if p < players.len() && players[p as int].alive() && forall|q: int|
        0 <= q < players.len() && q != p ==> !(#[trigger] players[q]).alive() {
        assert(alive.contains(p));
        assert forall|a: int| 0 <= a < alive.len() implies alive[a] == p by {
            assert(alive.contains(alive[a]));
        }
        if alive.len() > 1 {
            assert(alive[0] < alive[1]);
        }
    }
    if forall|q: int| 0 <= q < players.len() ==> !(#[trigger] players[q]).alive() {
        if alive.len() > 0 {
            assert(alive.contains(alive[0]));
        }
    }
    if alive.len() == 0 {
        assert forall|q: int| 0 <= q < players.len() implies !(#[trigger] players[q]).alive() by {
            if players[q].alive() {
                assert(alive.contains(q as usize));
            }
        }
    }
    if alive.len() >= 2 {
        assert(alive.contains(alive[0]));
        assert(alive.contains(alive[1]));
        assert(alive[0] < alive[1]);
        assert(players[alive[0] as int].alive() && players[alive[1] as int].alive());
    }
    if exists|q1: int, q2: int|
        0 <= q1 < q2 < players.len() && (#[trigger] players[q1]).alive()
            && (#[trigger] players[q2]).alive() {
        let (q1, q2) = choose|q1: int, q2: int|
            0 <= q1 < q2 < players.len() && (#[trigger] players[q1]).alive()
                && (#[trigger] players[q2]).alive();
        assert(alive.contains(q1 as usize));
        assert(alive.contains(q2 as usize));
        if alive.len() == 1 {
            assert(alive[0] == q1 as usize);
        }
    }
}

/// Position `j` is among the opponents of turn `me` exactly when it is
/// another player who is still alive.
pub proof fn lemma_opponents(players: Seq<Player<Active>>, me: usize, j: usize)
    requires
        players.len() <= usize::MAX,
    ensures
        others(alive_indices(players), me).contains(j) <==> (j != me && j < players.len()
            && players[j as int].alive()),
{
    let alive = alive_indices(players);
    let pred = other_than(me);
    lemma_alive_upto(players, players.len() as int);
    if alive.filter(pred).contains(j) {
        alive.lemma_filter_contains_rev(pred, j);
        let a = choose|a: int| 0 <= a < alive.filter(pred).len() && alive.filter(pred)[a] == j;
        alive.lemma_filter_pred(pred, a);
    }
    if j != me && j < players.len() && players[j as int].alive() {
        assert(alive.contains(j));
        let a = choose|a: int| 0 <= a < alive.len() && alive[a] == j;
        alive.lemma_filter_contains(pred, a);
    }
}

/// Holds of every position but `me`.
pub open spec fn other_than(me: usize) -> spec_fn(usize) -> bool {
    |j: usize| j != me
}

/// `s` without the position `me`.
pub open spec fn others(s: Seq<usize>, me: usize) -> Seq<usize> {
    s.filter(other_than(me))
}

/// A group of players on grids of one size. `Stage` is `New` while players
/// register and place their ships, `Active` once combat began.
#[derive(Debug)]
pub struct Game<Stage> {
    pub stage: PhantomData<Stage>,
    pub grid_size: usize,
    pub players: Vec<Player<Stage>>,
}

impl<Stage> Game<Stage> {
    pub open spec fn wf(&self) -> bool {
        &&& self.grid_size * self.grid_size <= usize::MAX
        &&& forall|i: int|
            0 <= i < self.players@.len() ==> (#[trigger] self.players@[i]).wf()
                && self.players@[i].grid.size == self.grid_size
    }
}

/// One player's move in a round: the player, by position, and the
/// positions of every other player alive when the round was made.
#[derive(Debug, PartialEq, Eq)]
pub struct Turn {
    pub player: usize,
    pub opponents: Vec<usize>,
}

impl Turn {
    fn new(player: usize, opponents: Vec<usize>) -> (r: Turn)
        ensures
            r.player == player,
            r.opponents == opponents,
    {
        Turn { player, opponents }
    }
}

/// How a game ended: the one player left, by position, or nobody.
#[derive(Clone, Copy, Debug, PartialEq, Eq, Structural)]
pub enum GameResult {
    Winner(usize),
    Draw,
}

impl Game<New> {
    /// An empty game on grids of side `grid_size`.
    pub fn new(grid_size: usize) -> (r: Game<New>)
        requires
            grid_size * grid_size <= usize::MAX,
        ensures
            r.wf(),
            r.grid_size == grid_size,
            r.players@.len() == 0,
    {
        Game { stage: PhantomData, grid_size, players: Vec::new() }
    }

    /// Registers a player named `name` with a blank grid of the game's size
    /// and every ship that fits it still to place, and hands them back for
    /// placement.
    pub fn add_player(&mut self, name: &str) -> (r: &mut Player<New>)
        requires
            old(self).wf(),
        ensures
            r.wf(),
            r.name@ == name@,
            r.to_place@ == ships_for_grid(old(self).grid_size as int),
            r.grid.size == old(self).grid_size,
            forall|k: int| 0 <= k < r.grid.cells@.len() ==> #[trigger] r.grid.cells@[k] == Cell::blank(),
            final(self).grid_size == old(self).grid_size,
            final(self).players@ == old(self).players@.push(*final(r)),
    {
        let player = Player::new(name, self.grid_size);
        self.players.push(player);
        let last = self.players.len() - 1;
        &mut self.players[last]
    }

    /// At least two registered players have placed all their ships.
    pub fn is_ready(&self) -> (r: bool)
        ensures
            r == (ready_players(self.players@).len() >= 2),
    {
        let ghost pred = |p: Player<New>| p.to_place@.len() == 0;
        let mut n: usize = 0;
        let mut i: usize = 0;
        while i < self.players.len()
            invariant
                i <= self.players@.len(),
                pred == (|p: Player<New>| p.to_place@.len() == 0),
                n == self.players@.take(i as int).filter(pred).len(),
                n <= i,
            decreases self.players@.len() - i,
        {
            proof {
                reveal(Seq::filter);
                assert(self.players@.take(i + 1).drop_last() == self.players@.take(i as int));
            }
            if self.players[i].is_ready() {
                n = n + 1;
            }
            i = i + 1;
        }
        assert(self.players@.take(i as int) == self.players@);
        n >= 2
    }

    /// Begins combat: every ready player, in order, becomes an active player;
    /// those who never finished setup are dropped. Refused while fewer than
    /// two players are ready.
    pub fn start(self) -> (r: Result<Game<Active>, Error>)
        requires
            self.wf(),
        ensures
            ready_players(self.players@).len() < 2 ==> (r matches Err(Error::NotReady(v))
                && v@.len() == 0),
            ready_players(self.players@).len() >= 2 ==> (r matches Ok(g) && {
                &&& g.wf()
                &&& g.grid_size == self.grid_size
                &&& g.players@.len() == ready_players(self.players@).len()
                &&& forall|i: int|
                    0 <= i < g.players@.len() ==> same_player(
                        #[trigger] ready_players(self.players@)[i],
                        g.players@[i],
                    )
            }),
    {
        if !self.is_ready() {
            return Err(Error::NotReady(Vec::new()));
        }
        let ghost all = self.players@;
        let ghost pred = |p: Player<New>| p.to_place@.len() == 0;
        let grid_size = self.grid_size;
        let mut rest = self.players;
        let mut active: Vec<Player<Active>> = Vec::new();
        let mut taken: usize = 0;
        let total = rest.len();
        while rest.len() > 0
            invariant
                all == self.players@,
                all.len() == total,
                forall|i: int|
                    0 <= i < active@.len() ==> (#[trigger] active@[i]).wf() && active@[i].grid.size
                        == grid_size,
                pred == (|p: Player<New>| p.to_place@.len() == 0),
                taken + rest@.len() == all.len(),
                rest@ == all.skip(taken as int),
                active@.len() == all.take(taken as int).filter(pred).len(),
                forall|i: int|
                    0 <= i < active@.len() ==> same_player(
                        #[trigger] all.take(taken as int).filter(pred)[i],
                        active@[i],
                    ),
                forall|i: int|
                    0 <= i < all.len() ==> (#[trigger] all[i]).wf() && all[i].grid.size
                        == grid_size,
            decreases rest@.len(),
        {
            let p = rest.remove(0);
            proof {
                reveal(Seq::filter);
                assert(all.take(taken + 1).drop_last() == all.take(taken as int));
                assert(all[taken as int] == p);
            }
            if p.is_ready() {
                if let Ok(a) = p.ready() {
                    active.push(a);
                }
            }
            taken = taken + 1;
            proof {
                assert(rest@ =~= all.skip(taken as int));
            }
        }
        assert(all.take(taken as int) == all);
        Ok(Game { stage: PhantomData, grid_size, players: active })
    }
}

impl Game<Active> {
    /// Positions of the players still alive, in order.
    fn alive_players(&self) -> (r: Vec<usize>)
        ensures
            r@ == alive_indices(self.players@),
    {
        let mut r: Vec<usize> = Vec::new();
        let mut i: usize = 0;
        while i < self.players.len()
            invariant
                i <= self.players@.len(),
                r@ == alive_upto(self.players@, i as int),
            decreases self.players@.len() - i,
        {
            if self.players[i].is_alive() {
                r.push(i);
            }
            i = i + 1;
        }
        r
    }

    /// `Winner` when exactly one player is alive, `Draw` when nobody is,
    /// and `None` while two or more are.
    pub fn result(&self) -> (r: Option<GameResult>)
        ensures
            r == outcome(self.players@),
    {
        let alive = self.alive_players();
        if alive.len() == 0 {
            Some(GameResult::Draw)
        } else if alive.len() == 1 {
            Some(GameResult::Winner(alive[0]))
        } else {
            None
        }
    }

    /// One turn per player, in order: the player and every other player
    /// alive now.
    pub fn round(&self) -> (r: Vec<Turn>)
        ensures
            r@.len() == self.players@.len(),
            forall|i: int|
                0 <= i < r@.len() ==> (#[trigger] r@[i]).player == i && r@[i].opponents@ == others(
                    alive_indices(self.players@),
                    i as usize,
                ),
    {
        let alive = self.alive_players();
        let mut turns: Vec<Turn> = Vec::new();
        let mut i: usize = 0;
        while i < self.players.len()
            invariant
                i <= self.players@.len(),
                alive@ == alive_indices(self.players@),
                turns@.len() == i,
                forall|t: int|
                    0 <= t < i ==> (#[trigger] turns@[t]).player == t && turns@[t].opponents@
                        == others(alive@, t as usize),
            decreases self.players@.len() - i,
        {
            let mut opponents: Vec<usize> = Vec::new();
            let mut k: usize = 0;
            while k < alive.len()
                invariant
                    k <= alive@.len(),
                    opponents@ == others(alive@.take(k as int), i),
                decreases alive@.len() - k,
            {
                proof {
                    reveal(Seq::filter);
                    assert(alive@.take(k + 1).drop_last() == alive@.take(k as int));
                }
                if alive[k] != i {
                    opponents.push(alive[k]);
                }
                k = k + 1;
            }
            assert(alive@.take(k as int) == alive@);
            turns.push(Turn::new(i, opponents));
            i = i + 1;
        }
        turns
    }
}

} // verus!
