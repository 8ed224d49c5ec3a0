use vstd::prelude::*;

verus! {

/// Position that follows `position` when `count` backends take turns.
pub open spec fn rotate(position: nat, count: nat) -> nat {
    (position + 1) % count
}

/// Position reached from `position` after `steps` turns among `count` backends.
pub open spec fn rotations(position: nat, count: nat, steps: nat) -> nat
    decreases steps,
{
    if steps == 0 {
        position
    } else {
        rotate(rotations(position, count, (steps - 1) as nat), count)
    }
}

/// Hands out backend base URLs in turn, starting over after the last one.
pub struct RoundRobinLoadBalancer {
    urls: Vec<String>,
    counter: usize,
}

impl RoundRobinLoadBalancer {
    #[verifier::type_invariant]
    spec fn position_in_range(self) -> bool {
        self.counter == 0 || self.counter < self.urls@.len()
    }

    /// The backend base URLs, in the order in which they take turns.
    pub closed spec fn backends(&self) -> Seq<Seq<char>> {
        self.urls@.map_values(|u: String| u@)
    }

    /// Index of the backend that the next call of `get_next_url` hands out.
    pub closed spec fn position(&self) -> nat {
        self.counter as nat
    }

    /// A balancer over `urls` whose first turn goes to `urls[0]`.
    pub fn new(urls: Vec<String>) -> (balancer: Self)
        ensures
            balancer.backends() == urls@.map_values(|u: String| u@),
            balancer.position() == 0,
    {
        RoundRobinLoadBalancer { urls, counter: 0 }
    }

    /// The number of backends.
    pub fn len(&self) -> (n: usize)
        ensures
            n == self.backends().len(),
    {
        self.urls.len()
    }

    /// The base URL of backend `i`.
    pub fn url_at(&self, i: usize) -> (url: &String)
        requires
            i < self.backends().len(),
        ensures
            url@ == self.backends()[i as int],
    {
        &self.urls[i]
    }

    /// Hands out the base URL whose turn it is and passes the turn on.
    pub fn get_next_url(&mut self) -> (url: String)
        requires
            old(self).backends().len() > 0,
        ensures
            old(self).position() < old(self).backends().len(),
            url@ == old(self).backends()[old(self).position() as int],
            final(self).backends() == old(self).backends(),
            final(self).position() == rotate(old(self).position(), old(self).backends().len()),
    {
        proof {
            use_type_invariant(&*self);
        }
        let index = self.counter;
        let url = self.urls[index].clone();
        let count = self.urls.len();
        self.counter = (index + 1) % count;
        url
    }
}

/// For `0 <= y < 2n`, reducing modulo `n` subtracts `n` at most once.
proof fn lemma_mod_window(y: int, n: int)
    requires
        0 < n,
        0 <= y < 2 * n,
    ensures
        y % n == (if y < n { y } else { y - n }),
{
    if y < n {
        vstd::arithmetic::div_mod::lemma_fundamental_div_mod_converse_mod(y, n, 0, y);
    } else {
        vstd::arithmetic::div_mod::lemma_fundamental_div_mod_converse_mod(y, n, 1, y - n);
    }
}

/// Law: from position `p` among `n` backends, `k` turns later the turn is at `(p + k) % n`.
pub proof fn lemma_rotations_closed_form(p: nat, n: nat, k: nat)
    requires
        p < n,
    ensures
        rotations(p, n, k) == (p + k) % n,
    decreases k,
{
    if k == 0 {
        vstd::arithmetic::div_mod::lemma_small_mod(p, n);
    } else {
        lemma_rotations_closed_form(p, n, (k - 1) as nat);
        let x: int = p + k - 1;
        assert(rotations(p, n, (k - 1) as nat) == x % (n as int));
        let q = x / (n as int);
        let r = x % (n as int);
        vstd::arithmetic::div_mod::lemma_fundamental_div_mod(x, n as int);
        vstd::arithmetic::div_mod::lemma_mod_bound(x, n as int);
        lemma_mod_window(r + 1, n as int);
        if r + 1 < n {
            vstd::arithmetic::div_mod::lemma_fundamental_div_mod_converse_mod(
                x + 1,
                n as int,
                q,
                r + 1,
            );
        } else {
            assert((q + 1) * n == q * n + n) by (nonlinear_arith);
            vstd::arithmetic::div_mod::lemma_fundamental_div_mod_converse_mod(
                x + 1,
                n as int,
                q + 1,
                0,
            );
        }
        assert((p + k) % n == (x + 1) % (n as int));
        assert(rotations(p, n, k) == (r + 1) % (n as int));
    }
}

/// Law: after as many turns as there are backends, the turn is back where it started.
pub proof fn lemma_full_cycle_returns(p: nat, n: nat)
    requires
        p < n,
    ensures
        rotations(p, n, n) == p,
{
    lemma_rotations_closed_form(p, n, n);
    lemma_mod_window((p + n) as int, n as int);
}

/// Law: in any `n` consecutive turns among `n` backends, every backend gets
/// exactly one turn.
pub proof fn lemma_each_backend_once_per_cycle(p: nat, n: nat, i: nat)
    requires
        p < n,
        i < n,
    ensures
        exists|j: nat| j < n && rotations(p, n, j) == i,
        forall|j1: nat, j2: nat|
            j1 < n && j2 < n && rotations(p, n, j1) == i && rotations(p, n, j2) == i ==> j1 == j2,
{
    lemma_mod_window(i + n - p, n as int);
    let j: nat = (if i + n - p < n { i + n - p } else { i - p }) as nat;
    lemma_rotations_closed_form(p, n, j);
    lemma_mod_window((p + j) as int, n as int);
    assert(rotations(p, n, j) == i);
    assert forall|j1: nat, j2: nat|
        j1 < n && j2 < n && rotations(p, n, j1) == i && rotations(p, n, j2) == i implies j1
        == j2 by {
        lemma_rotations_closed_form(p, n, j1);
        lemma_rotations_closed_form(p, n, j2);
        lemma_mod_window((p + j1) as int, n as int);
        lemma_mod_window((p + j2) as int, n as int);
    }
}

/// What one call of `get_next_url` does, as its contract states it: `url`
/// is handed out and the turn passes from `before` to `after`.
pub open spec fn is_turn(before: RoundRobinLoadBalancer, after: RoundRobinLoadBalancer, url: Seq<
    char,
>) -> bool {
    &&& before.position() < before.backends().len()
    &&& url == before.backends()[before.position() as int]
    &&& after.backends() == before.backends()
    &&& after.position() == rotate(before.position(), before.backends().len())
}

/// Whether one of the first `count` balancers of a trace has the turn at `k`.
pub open spec fn served_within(states: Seq<RoundRobinLoadBalancer>, k: nat, count: nat) -> bool {
    exists|j: int| 0 <= j < count && #[trigger] states[j].position() == k
}

/// Law over consecutive calls of `get_next_url`: with `states[i]` the
/// balancer before call `i` and `urls[i]` what that call handed out, call `i`
/// hands out backend `(c + i) % n`; after `n` calls the turn is back at `c`;
/// and in the first `n` calls every backend is handed out exactly once.
pub proof fn lemma_consecutive_calls(states: Seq<RoundRobinLoadBalancer>, urls: Seq<Seq<char>>)
    requires
        urls.len() > 0,
        states.len() == urls.len() + 1,
        forall|i: int| 0 <= i < urls.len() ==> is_turn(states[i], states[i + 1], #[trigger] urls[i]),
    ensures
        ({
            let n = states[0].backends().len();
            let c = states[0].position();
            &&& forall|i: int|
                0 <= i < urls.len() ==> #[trigger] urls[i] == states[0].backends()[(c + i) % (
                n as int)]
            &&& forall|i: int|
                0 <= i <= urls.len() ==> (#[trigger] states[i]).backends() == states[0].backends()
                    && states[i].position() == (c + i) % (n as int)
            &&& urls.len() >= n ==> states[n as int].position() == c
            &&& urls.len() >= n ==> forall|k: nat|
                k < n ==> #[trigger] served_within(states, k, n)
            &&& urls.len() >= n ==> forall|j1: int, j2: int|
                0 <= j1 < n && 0 <= j2 < n && #[trigger] states[j1].position()
                    == #[trigger] states[j2].position() ==> j1 == j2
        }),
{
    let n = states[0].backends().len();
    let c = states[0].position();
    assert(is_turn(states[0], states[1], urls[0]));
    assert forall|i: int| 0 <= i <= urls.len() implies (#[trigger] states[i]).backends()
        == states[0].backends() && states[i].position() == rotations(c, n, i as nat) by {
        lemma_trace_positions(states, urls, i);
    }
    assert forall|i: int| 0 <= i <= urls.len() implies (#[trigger] states[i]).position() == (c
        + i) % (n as int) by {
        lemma_rotations_closed_form(c, n, i as nat);
    }
    assert forall|i: int| 0 <= i < urls.len() implies #[trigger] urls[i] == states[0].backends()[(c
        + i) % (n as int)] by {
        assert(is_turn(states[i], states[i + 1], urls[i]));
        assert(states[i].position() == (c + i) % (n as int));
    }
    if urls.len() >= n {
        lemma_full_cycle_returns(c, n);
        assert(states[n as int].position() == rotations(c, n, n));
        assert forall|k: nat| k < n implies #[trigger] served_within(states, k, n) by {
            lemma_each_backend_once_per_cycle(c, n, k);
            let j: nat = choose|j: nat| j < n && rotations(c, n, j) == k;
            assert(states[j as int].position() == rotations(c, n, j));
        }
        assert forall|j1: int, j2: int|
            0 <= j1 < n && 0 <= j2 < n && #[trigger] states[j1].position()
                == #[trigger] states[j2].position() implies j1 == j2 by {
            let k = states[j1].position();
            assert(states[j1].position() == rotations(c, n, j1 as nat));
            assert(states[j2].position() == rotations(c, n, j2 as nat));
            lemma_rotations_closed_form(c, n, j1 as nat);
            vstd::arithmetic::div_mod::lemma_mod_bound((c + j1) as int, n as int);
            lemma_each_backend_once_per_cycle(c, n, k);
        }
    }
}

/// The balancer before call `i` of a trace has the first one's backends and
/// the turn `i` rotations on.
proof fn lemma_trace_positions(states: Seq<RoundRobinLoadBalancer>, urls: Seq<Seq<char>>, i: int)
    requires
        states.len() == urls.len() + 1,
        forall|k: int| 0 <= k < urls.len() ==> is_turn(states[k], states[k + 1], #[trigger] urls[k]),
        0 <= i <= urls.len(),
    ensures
        states[i].backends() == states[0].backends(),
        states[i].position() == rotations(
            states[0].position(),
            states[0].backends().len(),
            i as nat,
        ),
    decreases i,
{
    if i > 0 {
        lemma_trace_positions(states, urls, i - 1);
        assert(is_turn(states[i - 1], states[i], urls[i - 1]));
    }
}

} // verus!
