//! The index arithmetic of the cursor.

use vstd::arithmetic::div_mod::{lemma_fundamental_div_mod, lemma_fundamental_div_mod_converse};
use vstd::prelude::*;
use vstd::seq_lib::to_multiset_build;

verus! {

/// The cursor that follows `current` in a pool of `len` hosts: one step on, or
/// back at zero once `current` stands on the last host or beyond it.
pub open spec fn successor(current: nat, len: nat) -> nat {
    if current + 1 >= len {
        0
    } else {
        current + 1
    }
}

/// The cursor after `steps` advancements, none of them interleaved with
/// another, that began with the cursor at `start`.
pub open spec fn cursor_after(start: nat, steps: nat, len: nat) -> nat
    decreases steps,
{
    if steps == 0 {
        start
    } else {
        successor(cursor_after(start, (steps - 1) as nat, len), len)
    }
}

/// The positions that a run of `calls` advancements fetches, one after the
/// other, when the cursor stood at `start` before the first: each advancement
/// fetches the position it found and leaves its successor.
pub open spec fn fetched_in_run(start: nat, calls: nat, len: nat) -> Seq<nat> {
    Seq::new(calls, |k: int| cursor_after(start, k as nat, len))
}

/// Computes the cursor that follows `current` in a pool of `len` hosts.
/// Whatever `current` is, the result is a position in the pool if the pool
/// has any.
pub fn next_index(current: usize, len: usize) -> (next: usize)
    ensures
        next == successor(current as nat, len as nat),
        len >= 1 ==> next < len,
{
    if len == 0 || current >= len - 1 {
        0
    } else {
        current + 1
    }
}

/// On a position in the pool, advancing adds one modulo the pool's length.
pub proof fn lemma_successor_is_modular(current: nat, len: nat)
    requires
        current < len,
    ensures
        successor(current, len) == (current + 1) % len,
{
    let m = len as int;
    let x = current as int + 1;
    if x >= m {
        lemma_fundamental_div_mod_converse(x, m, 1, 0);
    } else {
        lemma_fundamental_div_mod_converse(x, m, 0, x);
    }
}

/// The cursor never leaves a non-empty pool: if it began on a position in the
/// pool, or has been advanced at least once, it is on a position in the pool.
pub proof fn lemma_cursor_stays_in_bounds(start: nat, steps: nat, len: nat)
    requires
        len >= 1,
        start < len || steps >= 1,
    ensures
        cursor_after(start, steps, len) < len,
{
}

/// From a position in the pool, `steps` advancements move the cursor by
/// `steps` modulo the pool's length.
pub proof fn lemma_cursor_after_is_modular(start: nat, steps: nat, len: nat)
    requires
        start < len,
    ensures
        cursor_after(start, steps, len) == (start + steps) % len,
    decreases steps,
{
    let m = len as int;
    if steps == 0 {
        lemma_fundamental_div_mod_converse(start as int, m, 0, start as int);
    } else {
        let before = cursor_after(start, (steps - 1) as nat, len) as int;
        lemma_cursor_after_is_modular(start, (steps - 1) as nat, len);
        lemma_successor_is_modular(before as nat, len);
        // `before` is (start + steps - 1) % m, and the step adds one modulo m.
        let x = start as int + steps as int - 1;
        let q = x / m;
        lemma_fundamental_div_mod(x, m);
        if before + 1 >= m {
            assert(x + 1 == (q + 1) * m + 0) by (nonlinear_arith)
                requires
                    x == m * q + before,
                    before + 1 == m,
            ;
            lemma_fundamental_div_mod_converse(x + 1, m, q + 1, 0);
        } else {
            assert(x + 1 == q * m + (before + 1)) by (nonlinear_arith)
                requires
                    x == m * q + before,
            ;
            lemma_fundamental_div_mod_converse(x + 1, m, q, before + 1);
        }
    }
}

/// A full round brings the cursor back: after as many advancements as the
/// pool has hosts, the cursor is where it began.
pub proof fn lemma_full_round_returns(start: nat, len: nat)
    requires
        start < len,
    ensures
        cursor_after(start, len, len) == start,
{
    let m = len as int;
    lemma_cursor_after_is_modular(start, len, len);
    lemma_fundamental_div_mod_converse(start as int + m, m, 1, start as int);
}

/// No position comes up twice within one round: two runs of advancements
/// from the same start that differ by fewer steps than the pool has hosts
/// leave the cursor on different positions.
pub proof fn lemma_no_repeat_within_round(start: nat, fewer: nat, more: nat, len: nat)
    requires
        start < len,
        fewer < more < fewer + len,
    ensures
        cursor_after(start, fewer, len) != cursor_after(start, more, len),
{
    let m = len as int;
    let a = start as int + fewer as int;
    let b = start as int + more as int;
    lemma_cursor_after_is_modular(start, fewer, len);
    lemma_cursor_after_is_modular(start, more, len);
    lemma_fundamental_div_mod(a, m);
    lemma_fundamental_div_mod(b, m);
    if a % m == b % m {
        // Then b - a is a multiple of m that lies strictly between 0 and m.
        let d = b / m - a / m;
        assert(b - a == m * d) by (nonlinear_arith)
            requires
                a == m * (a / m) + a % m,
                b == m * (b / m) + b % m,
                a % m == b % m,
                d == b / m - a / m,
        ;
        assert(false) by (nonlinear_arith)
            requires
                0 < m * d < m,
        ;
    }
}

/// A run of advancements fetches the positions in round-robin order: from a
/// position in the pool, the advancement numbered `k`, counting from zero,
/// fetches `start + k` modulo the pool's length, so none is skipped and none
/// is handed out twice before the round is over.
pub proof fn lemma_run_is_round_robin(start: nat, calls: nat, len: nat)
    requires
        start < len,
    ensures
        fetched_in_run(start, calls, len) == Seq::new(calls, |k: int| ((start + k) % (len as int)) as nat),
{
    let fetched = fetched_in_run(start, calls, len);
    let expected = Seq::new(calls, |k: int| ((start + k) % (len as int)) as nat);
    assert forall|k: int| 0 <= k < calls implies #[trigger] fetched[k] == expected[k] by {
        lemma_cursor_after_is_modular(start, k as nat, len);
    }
    assert(fetched =~= expected);
}

/// A run shares the pool out fairly: it fetches every position once in each
/// full round, and once more the positions that the rest of the run reaches,
/// which are the first `calls % len` counted from `start` around the pool.
pub proof fn lemma_run_shares_fairly(start: nat, calls: nat, len: nat, position: nat)
    requires
        start < len,
        position < len,
    ensures
        fetched_in_run(start, calls, len).to_multiset().count(position) == calls / len + if (position
            + len - start) % (len as int) < calls % len {
            1nat
        } else {
            0nat
        },
    decreases calls,
{
    let n = len as int;
    let s = start as int;
    let p = position as int;
    // How far `position` lies from `start`, counted around the pool.
    if p >= s {
        lemma_fundamental_div_mod_converse(p + n - s, n, 1, p - s);
    } else {
        lemma_fundamental_div_mod_converse(p + n - s, n, 0, p + n - s);
    }
    if calls == 0 {
        assert(fetched_in_run(start, 0, len) =~= Seq::<nat>::empty());
        Seq::<nat>::empty().to_multiset_ensures();
        lemma_fundamental_div_mod_converse(0, n, 0, 0);
    } else {
        let shorter = (calls - 1) as nat;
        let before = fetched_in_run(start, shorter, len);
        let fetched = cursor_after(start, shorter, len);
        lemma_run_shares_fairly(start, shorter, len, position);
        assert(fetched_in_run(start, calls, len) =~= before.push(fetched));
        to_multiset_build(before, fetched);
        lemma_cursor_after_is_modular(start, shorter, len);
        let k = shorter as int;
        let q = k / n;
        let r = k % n;
        lemma_fundamental_div_mod(k, n);
        // The position that the last advancement fetched.
        if s + r < n {
            assert(s + k == q * n + (s + r)) by (nonlinear_arith)
                requires
                    k == n * q + r,
            ;
            lemma_fundamental_div_mod_converse(s + k, n, q, s + r);
        } else {
            assert(s + k == (q + 1) * n + (s + r - n)) by (nonlinear_arith)
                requires
                    k == n * q + r,
            ;
            lemma_fundamental_div_mod_converse(s + k, n, q + 1, s + r - n);
        }
        // The rounds and the rest of the run that is one advancement longer.
        if r + 1 < n {
            assert(k + 1 == q * n + (r + 1)) by (nonlinear_arith)
                requires
                    k == n * q + r,
            ;
            lemma_fundamental_div_mod_converse(k + 1, n, q, r + 1);
        } else {
            assert(k + 1 == (q + 1) * n + 0) by (nonlinear_arith)
                requires
                    k == n * q + r,
                    r + 1 == n,
            ;
            lemma_fundamental_div_mod_converse(k + 1, n, q + 1, 0);
        }
    }
}

} // verus!
