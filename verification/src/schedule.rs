//! The order of work within one tick.
//!
//! A tick advances the player, then advances each autonomous body and tests it
//! against the player, then tests every pair of autonomous bodies once, in the
//! order of the collection. Each step acts on the bodies as the steps before it
//! left them.

use vstd::prelude::*;

verus! {

/// One unit of work on the bodies. Autonomous bodies are named by their index
/// in the collection.
#[derive(Clone, Copy, Debug, PartialEq, Eq)]
pub enum Step {
    /// Advance the player by one time step.
    IntegratePlayer,
    /// Advance the autonomous body by one time step.
    Integrate(usize),
    /// Test the player against the autonomous body and resolve a collision.
    CollidePlayer(usize),
    /// Test the first autonomous body against the second and resolve a collision.
    CollidePair(usize, usize),
}

impl Step {
    /// The step names only bodies of a collection of `n`, and a pair names a
    /// body and a later one.
    pub open spec fn fits(self, n: usize) -> bool {
        match self {
            Step::IntegratePlayer => true,
            Step::Integrate(i) => i < n,
            Step::CollidePlayer(i) => i < n,
            Step::CollidePair(i, j) => i < j < n,
        }
    }

    /// The step is a collision test that involves autonomous body `i`.
    pub open spec fn collides(self, i: usize) -> bool {
        match self {
            Step::CollidePlayer(a) => a == i,
            Step::CollidePair(a, b) => a == i || b == i,
            _ => false,
        }
    }
}

/// Each of the `n` bodies in turn: advance it, then test it against the player.
pub open spec fn sweep(n: usize) -> Seq<Step> {
    Seq::new(
        2 * n as nat,
        |k: int|
            if k % 2 == 0 {
                Step::Integrate((k / 2) as usize)
            } else {
                Step::CollidePlayer((k / 2) as usize)
            },
    )
}

/// Body `i` against each later body of the `n`, nearest first.
pub open spec fn pair_row(i: usize, n: usize) -> Seq<Step> {
    Seq::new(
        if i < n {
            (n - i - 1) as nat
        } else {
            0
        },
        |k: int| Step::CollidePair(i, (i + 1 + k) as usize),
    )
}

/// The rows of the first `m` bodies, one after another.
pub open spec fn pair_rows(m: usize, n: usize) -> Seq<Step>
    decreases m,
{
    if m == 0 {
        Seq::empty()
    } else {
        pair_rows((m - 1) as usize, n) + pair_row((m - 1) as usize, n)
    }
}

/// The steps of one tick over `n` autonomous bodies, in order.
pub open spec fn tick_steps(n: usize) -> Seq<Step> {
    seq![Step::IntegratePlayer] + sweep(n) + pair_rows(n, n)
}

/// Where the test of body `i` against body `j` stands among the steps.
pub open spec fn pair_position(n: usize, i: usize, j: usize) -> int {
    1 + 2 * n + pair_rows(i, n).len() + (j - i - 1)
}

/// A pair comes before another in the order of the collection: by its first
/// body, then by its second.
pub open spec fn pair_before(a: Step, b: Step) -> bool {
    match (a, b) {
        (Step::CollidePair(i, j), Step::CollidePair(k, l)) => i < k || (i == k && j < l),
        _ => false,
    }
}

/// Lists the steps of one tick over `n` autonomous bodies. Every step names
/// bodies of the collection, so each can be carried out by index.
pub fn tick_plan(n: usize) -> (steps: Vec<Step>)
    ensures
        steps@ == tick_steps(n),
        forall|k: int| 0 <= k < steps@.len() ==> (#[trigger] steps@[k]).fits(n),
{
    let mut steps: Vec<Step> = Vec::new();
    steps.push(Step::IntegratePlayer);
    let mut i: usize = 0;
    while i < n
        invariant
            i <= n,
            steps@ == seq![Step::IntegratePlayer] + sweep(i),
        decreases n - i,
    {
        steps.push(Step::Integrate(i));
        steps.push(Step::CollidePlayer(i));
        i = i + 1;
        assert(steps@ =~= seq![Step::IntegratePlayer] + sweep(i));
    }
    let ghost head = seq![Step::IntegratePlayer] + sweep(n);
    assert(steps@ =~= head + pair_rows(0, n));
    i = 0;
    while i < n
        invariant
            i <= n,
            steps@ == head + pair_rows(i, n),
        decreases n - i,
    {
        let mut j: usize = i + 1;
        assert(steps@ =~= head + pair_rows(i, n) + pair_row(i, n).take(0));
        while j < n
            invariant
                i < j <= n,
                steps@ == head + pair_rows(i, n) + pair_row(i, n).take(j - i - 1),
            decreases n - j,
        {
            steps.push(Step::CollidePair(i, j));
            j = j + 1;
            assert(steps@ =~= head + pair_rows(i, n) + pair_row(i, n).take(j - i - 1));
        }
        assert(pair_row(i, n).take(n - i - 1) =~= pair_row(i, n));
        i = i + 1;
        assert(steps@ =~= head + pair_rows(i, n));
    }
    proof {
        lemma_steps_fit(n);
    }
    steps
}

/// The number of steps: one for the player, two for each body, one for each
/// pair of bodies.
pub proof fn lemma_steps_len(n: usize)
    ensures
        2 * tick_steps(n).len() == 2 + 4 * n + n * (n - 1),
{
    lemma_rows_len(n, n);
    assert(n * (2 * n - n - 1) == n * (n - 1)) by (nonlinear_arith);
}

/// Every step names bodies of the collection, and every pair a body and a
/// later one.
pub proof fn lemma_steps_fit(n: usize)
    ensures
        forall|k: int| 0 <= k < tick_steps(n).len() ==> (#[trigger] tick_steps(n)[k]).fits(n),
{
    lemma_rows_entries(n, n);
    assert forall|k: int| 0 <= k < tick_steps(n).len() implies (#[trigger] tick_steps(n)[k]).fits(
        n,
    ) by {
        if k == 0 {
        } else if k < 1 + 2 * n {
            assert(tick_steps(n)[k] == sweep(n)[k - 1]);
        } else {
            assert(tick_steps(n)[k] == pair_rows(n, n)[k - 1 - 2 * n]);
        }
    }
}

/// The player is advanced first and only once. Body `i` is advanced once, the
/// test against the player follows at once, and every test that involves the
/// body comes after its advance.
pub proof fn lemma_advance_then_collide(n: usize, i: usize)
    requires
        i < n,
    ensures
        tick_steps(n)[0] == Step::IntegratePlayer,
        tick_steps(n)[1 + 2 * i] == Step::Integrate(i),
        tick_steps(n)[2 + 2 * i] == Step::CollidePlayer(i),
        forall|k: int|
            0 <= k < tick_steps(n).len() && #[trigger] tick_steps(n)[k] == Step::IntegratePlayer
                ==> k == 0,
        forall|k: int|
            0 <= k < tick_steps(n).len() && #[trigger] tick_steps(n)[k] == Step::Integrate(i)
                ==> k == 1 + 2 * i,
        forall|k: int|
            0 <= k < tick_steps(n).len() && (#[trigger] tick_steps(n)[k]).collides(i) ==> k > 1
                + 2 * i,
{
    lemma_rows_entries(n, n);
    assert(tick_steps(n)[1 + 2 * i] == sweep(n)[2 * i]);
    assert(tick_steps(n)[2 + 2 * i] == sweep(n)[2 * i + 1]);
    assert forall|k: int| 0 <= k < tick_steps(n).len() implies ({
        &&& #[trigger] tick_steps(n)[k] == Step::IntegratePlayer ==> k == 0
        &&& tick_steps(n)[k] == Step::Integrate(i) ==> k == 1 + 2 * i
        &&& tick_steps(n)[k].collides(i) ==> k > 1 + 2 * i
    }) by {
        if k == 0 {
        } else if k < 1 + 2 * n {
            assert(tick_steps(n)[k] == sweep(n)[k - 1]);
        } else {
            assert(tick_steps(n)[k] == pair_rows(n, n)[k - 1 - 2 * n]);
        }
    }
}

/// Every pair of bodies is tested exactly once, after all bodies were advanced.
pub proof fn lemma_pair_once(n: usize, i: usize, j: usize)
    requires
        i < j < n,
    ensures
        2 * n < pair_position(n, i, j) < tick_steps(n).len(),
        tick_steps(n)[pair_position(n, i, j)] == Step::CollidePair(i, j),
        forall|k: int|
            0 <= k < tick_steps(n).len() && #[trigger] tick_steps(n)[k] == Step::CollidePair(i, j)
                ==> k == pair_position(n, i, j),
{
    lemma_rows_entries(n, n);
    lemma_rows_hold(i, j, n);
    let at = pair_position(n, i, j);
    assert(tick_steps(n)[at] == pair_rows(n, n)[at - 1 - 2 * n]);
    assert forall|k: int|
        0 <= k < tick_steps(n).len() && #[trigger] tick_steps(n)[k] == Step::CollidePair(
            i,
            j,
        ) implies k == at by {
        if k == 0 {
        } else if k < 1 + 2 * n {
            assert(tick_steps(n)[k] == sweep(n)[k - 1]);
        } else {
            assert(tick_steps(n)[k] == pair_rows(n, n)[k - 1 - 2 * n]);
        }
    }
}

/// Pairs are tested in the order of the collection: of two tests, the earlier
/// one has the earlier first body, or the same first body and the earlier
/// second body.
pub proof fn lemma_pairs_in_order(n: usize, a: int, b: int)
    requires
        0 <= a < b < tick_steps(n).len(),
        tick_steps(n)[a] is CollidePair,
        tick_steps(n)[b] is CollidePair,
    ensures
        pair_before(tick_steps(n)[a], tick_steps(n)[b]),
{
    lemma_rows_entries(n, n);
    assert(a >= 1 + 2 * n) by {
        if 0 < a < 1 + 2 * n {
            assert(tick_steps(n)[a] == sweep(n)[a - 1]);
        }
    }
    let x = pair_rows(n, n)[a - 1 - 2 * n];
    let y = pair_rows(n, n)[b - 1 - 2 * n];
    assert(tick_steps(n)[a] == x);
    assert(tick_steps(n)[b] == y);
    if let Step::CollidePair(i, j) = x {
        if let Step::CollidePair(k, l) = y {
            if i > k {
                lemma_rows_prefix((k + 1) as usize, i, n);
                assert(pair_rows((k + 1) as usize, n) == pair_rows(k, n) + pair_row(k, n));
            }
        }
    }
}

/// The rows of the first `m` of `n` bodies hold `m * (2n - m - 1) / 2` tests.
pub proof fn lemma_rows_len(m: usize, n: usize)
    requires
        m <= n,
    ensures
        2 * pair_rows(m, n).len() == m * (2 * n - m - 1),
    decreases m,
{
    if m == 0 {
        assert(0 == m * (2 * n - m - 1)) by (nonlinear_arith)
            requires
                m == 0,
        ;
    } else {
        let p = (m - 1) as usize;
        lemma_rows_len(p, n);
        assert(pair_row(p, n).len() == n - m);
        assert(p * (2 * n - p - 1) + 2 * (n - m) == m * (2 * n - m - 1)) by (nonlinear_arith)
            requires
                p == m - 1,
        ;
    }
}

/// The rows of the first `i` bodies open the rows of the first `m`.
proof fn lemma_rows_prefix(i: usize, m: usize, n: usize)
    requires
        i <= m,
    ensures
        pair_rows(i, n).len() <= pair_rows(m, n).len(),
        pair_rows(m, n).take(pair_rows(i, n).len() as int) == pair_rows(i, n),
    decreases m,
{
    if i < m {
        let p = (m - 1) as usize;
        lemma_rows_prefix(i, p, n);
        let len = pair_rows(i, n).len() as int;
        assert(pair_rows(m, n).take(len) =~= pair_rows(p, n).take(len));
    } else {
        assert(pair_rows(m, n).take(pair_rows(m, n).len() as int) =~= pair_rows(m, n));
    }
}

/// Each entry of the rows is a pair of a body below `m` and a later one, and
/// stands where its row begins plus its place in the row.
proof fn lemma_rows_entries(m: usize, n: usize)
    requires
        m <= n,
    ensures
        forall|k: int|
            0 <= k < pair_rows(m, n).len() ==> {
                &&& (#[trigger] pair_rows(m, n)[k]) matches Step::CollidePair(i, j)
                &&& i < m
                &&& i < j < n
                &&& k == pair_rows(i, n).len() + (j - i - 1)
            },
    decreases m,
{
    if m > 0 {
        let p = (m - 1) as usize;
        lemma_rows_entries(p, n);
        let before = pair_rows(p, n);
        assert forall|k: int| 0 <= k < pair_rows(m, n).len() implies {
            &&& (#[trigger] pair_rows(m, n)[k]) matches Step::CollidePair(i, j)
            &&& i < m
            &&& i < j < n
            &&& k == pair_rows(i, n).len() + (j - i - 1)
        } by {
            if k < before.len() {
                assert(pair_rows(m, n)[k] == before[k]);
            } else {
                assert(pair_rows(m, n)[k] == pair_row(p, n)[k - before.len()]);
            }
        }
    }
}

/// The pair of `i` and `j` stands in the rows, in row `i`.
proof fn lemma_rows_hold(i: usize, j: usize, n: usize)
    requires
        i < j < n,
    ensures
        0 <= pair_rows(i, n).len() + (j - i - 1) < pair_rows(n, n).len(),
        pair_rows(n, n)[pair_rows(i, n).len() + (j - i - 1)] == Step::CollidePair(i, j),
{
    let next = (i + 1) as usize;
    let k = pair_rows(i, n).len() + (j - i - 1);
    lemma_rows_prefix(next, n, n);
    assert(pair_rows(next, n) == pair_rows(i, n) + pair_row(i, n));
    assert(pair_rows(next, n)[k] == pair_row(i, n)[j - i - 1]);
    assert(pair_rows(n, n).take(pair_rows(next, n).len() as int)[k] == pair_rows(n, n)[k]);
}

} // verus!
