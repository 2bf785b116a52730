//! The rotation cursor of a backend pool and the arithmetic of round-robin
//! selection.

use vstd::prelude::*;
use vstd::arithmetic::div_mod::lemma_fundamental_div_mod;
use vstd::arithmetic::div_mod::lemma_fundamental_div_mod_converse;

verus! {

/// Index of the backend that serves the request holding `ticket`, in a pool
/// of `len` backends.
pub open spec fn slot_of(ticket: nat, len: nat) -> nat
    recommends
        len > 0,
{
    ticket % len
}

/// The cursor value that follows `ticket`: one more, wrapping to zero past
/// the largest machine word.
pub open spec fn following(ticket: nat) -> nat {
    if ticket >= usize::MAX {
        0
    } else {
        ticket + 1
    }
}

/// The ticket handed to request number `i` (counting from zero) when requests
/// are served one after another from a fresh cursor.
pub open spec fn ticket_at(i: nat) -> nat
    decreases i,
{
    if i == 0 {
        0
    } else {
        following(ticket_at((i - 1) as nat))
    }
}

/// How many of the `count` consecutive tickets `start, start + 1, ..` fall on
/// backend `index` in a pool of `len` backends. Callers that each take one
/// ticket from a shared cursor hold such a run between them, in whatever
/// order they come.
pub open spec fn hits(start: nat, count: nat, len: nat, index: nat) -> nat
    decreases count,
{
    if count == 0 {
        0
    } else {
        let before = hits(start, (count - 1) as nat, len, index);
        if slot_of((start + count - 1) as nat, len) == index {
            before + 1
        } else {
            before
        }
    }
}

/// The selections that the first `upto` backends receive together from the
/// `count` consecutive tickets that begin at `start`.
pub open spec fn served(start: nat, count: nat, len: nat, upto: nat) -> nat
    decreases upto,
{
    if upto == 0 {
        0
    } else {
        served(start, count, len, (upto - 1) as nat) + hits(
            start,
            count,
            len,
            (upto - 1) as nat,
        )
    }
}

/// Maps a ticket to a position in a pool of `len` backends.
pub fn slot(ticket: usize, len: usize) -> (index: usize)
    requires
        len > 0,
    ensures
        index == slot_of(ticket as nat, len as nat),
        index < len,
{
    ticket % len
}

/// A rotation cursor owned by one caller at a time: the sequential form of
/// the shared counter.
pub struct Rotation {
    next: usize,
}

impl Rotation {
    /// The ticket that the next call of `take` hands out.
    pub closed spec fn position(&self) -> nat {
        self.next as nat
    }

    /// A fresh cursor, at ticket zero.
    pub fn new() -> (r: Rotation)
        ensures
            r.position() == 0,
    {
        Rotation { next: 0 }
    }

    /// A cursor that hands out `ticket` next.
    pub fn at(ticket: usize) -> (r: Rotation)
        ensures
            r.position() == ticket as nat,
    {
        Rotation { next: ticket }
    }

    /// Hands out the current ticket and moves the cursor on, wrapping at the
    /// end of the machine word.
    pub fn take(&mut self) -> (ticket: usize)
        ensures
            ticket as nat == old(self).position(),
            final(self).position() == following(old(self).position()),
    {
        let ticket: usize = self.next;
        self.next = if ticket == usize::MAX {
            0
        } else {
            ticket + 1
        };
        ticket
    }

    /// Selects the next backend position in a pool of `len` backends and
    /// consumes one ticket, whatever later becomes of the request.
    pub fn select(&mut self, len: usize) -> (index: usize)
        requires
            len > 0,
        ensures
            index as nat == slot_of(old(self).position(), len as nat),
            index < len,
            final(self).position() == following(old(self).position()),
    {
        let ticket: usize = self.take();
        slot(ticket, len)
    }
}

/// Tickets count the requests for as long as the cursor has not wrapped.
pub proof fn lemma_ticket_counts(i: nat)
    requires
        i <= usize::MAX,
    ensures
        ticket_at(i) == i,
    decreases i,
{
    if i > 0 {
        lemma_ticket_counts((i - 1) as nat);
    }
}

/// Every ticket is a machine word, also after the cursor has wrapped.
pub proof fn lemma_ticket_bounded(i: nat)
    ensures
        ticket_at(i) <= usize::MAX,
    decreases i,
{
    if i > 0 {
        lemma_ticket_bounded((i - 1) as nat);
    }
}

/// Law of sequential rotation: served one after another from a fresh cursor,
/// request number `i` goes to backend `i mod len`, for every request before
/// the cursor wraps.
pub proof fn lemma_sequential_order(i: nat, len: nat)
    requires
        len > 0,
        i <= usize::MAX,
    ensures
        slot_of(ticket_at(i), len) == i % len,
{
    lemma_ticket_counts(i);
}

/// Law of valid selection: every ticket, before or after a wrap of the
/// cursor, selects a position inside the pool.
pub proof fn lemma_slot_in_pool(i: nat, len: nat)
    requires
        len > 0,
    ensures
        slot_of(ticket_at(i), len) < len,
{
}

/// Tickets below `t` that fall on backend `index`, in closed form.
spec fn below(t: nat, len: nat, index: nat) -> int {
    (t + len - 1 - index) / (len as int)
}

/// One more ticket adds one to the count exactly when it falls on `index`.
proof fn lemma_below_step(t: nat, len: nat, index: nat)
    requires
        len > 0,
        index < len,
    ensures
        below(t + 1, len, index) == below(t, len, index) + if slot_of(t, len) == index {
            1int
        } else {
            0int
        },
{
    let m = len as int;
    let u = t + len - 1 - index;
    let q = u / m;
    let r = u % m;
    lemma_fundamental_div_mod(u, m);
    assert((q + 1) * m == q * m + m) by (nonlinear_arith);
    assert(m * q == q * m) by (nonlinear_arith);
    if r == m - 1 {
        lemma_fundamental_div_mod_converse(u + 1, m, q + 1, 0);
        lemma_fundamental_div_mod_converse(t as int, m, q, index as int);
    } else {
        lemma_fundamental_div_mod_converse(u + 1, m, q, r + 1);
        if slot_of(t, len) == index {
            let qt = (t as int) / m;
            lemma_fundamental_div_mod(t as int, m);
            assert(m * qt == qt * m) by (nonlinear_arith);
            assert((q - qt - 1) * m == q * m - qt * m - m) by (nonlinear_arith);
            assert((q - qt - 1) * m == -(r + 1));
            assert(false) by (nonlinear_arith)
                requires
                    (q - qt - 1) * m == -(r + 1),
                    0 <= r,
                    r + 1 < m,
            ;
        }
    }
}

/// The count of a run is the difference of the counts below its two ends.
proof fn lemma_hits_closed_form(start: nat, count: nat, len: nat, index: nat)
    requires
        len > 0,
        index < len,
    ensures
        hits(start, count, len, index) == below(start + count, len, index) - below(
            start,
            len,
            index,
        ),
    decreases count,
{
    if count > 0 {
        lemma_hits_closed_form(start, (count - 1) as nat, len, index);
        lemma_below_step((start + count - 1) as nat, len, index);
    }
}

/// A step of `k` moves the quotient by `m` by the floor or the ceiling of
/// `k / m`.
proof fn lemma_quotient_gap(a: int, k: int, m: int)
    requires
        a >= 0,
        k >= 0,
        m > 0,
    ensures
        k / m <= (a + k) / m - a / m <= (k + m - 1) / m,
{
    let qa = a / m;
    let ra = a % m;
    let qk = k / m;
    let rk = k % m;
    lemma_fundamental_div_mod(a, m);
    lemma_fundamental_div_mod(k, m);
    assert(m * qa == qa * m) by (nonlinear_arith);
    assert(m * qk == qk * m) by (nonlinear_arith);
    assert((qa + qk) * m == qa * m + qk * m) by (nonlinear_arith);
    assert((qa + qk + 1) * m == qa * m + qk * m + m) by (nonlinear_arith);
    assert((qk + 1) * m == qk * m + m) by (nonlinear_arith);
    if ra + rk < m {
        lemma_fundamental_div_mod_converse(a + k, m, qa + qk, ra + rk);
    } else {
        lemma_fundamental_div_mod_converse(a + k, m, qa + qk + 1, ra + rk - m);
    }
    if rk == 0 {
        lemma_fundamental_div_mod_converse(k + m - 1, m, qk, m - 1);
    } else {
        lemma_fundamental_div_mod_converse(k + m - 1, m, qk + 1, rk - 1);
    }
}

/// Law of fair share: of any `count` consecutive tickets, each backend of a
/// pool of `len` receives at least the floor and at most the ceiling of
/// `count / len`. The tickets are consecutive numbers: a run that crosses a
/// wrap of the cursor is two such runs.
pub proof fn lemma_fair_share(start: nat, count: nat, len: nat, index: nat)
    requires
        len > 0,
        index < len,
    ensures
        count / len <= hits(start, count, len, index) <= (count + len - 1) / (len as int),
{
    lemma_hits_closed_form(start, count, len, index);
    lemma_quotient_gap(start + len - 1 - index, count as int, len as int);
}

/// One more ticket adds one to the total of the first `upto` backends
/// exactly when it falls on one of them.
proof fn lemma_served_step(start: nat, count: nat, len: nat, upto: nat)
    requires
        count > 0,
    ensures
        served(start, count, len, upto) == served(start, (count - 1) as nat, len, upto) + if slot_of(
            (start + count - 1) as nat,
            len,
        ) < upto {
            1nat
        } else {
            0nat
        },
    decreases upto,
{
    if upto > 0 {
        lemma_served_step(start, count, len, (upto - 1) as nat);
    }
}

/// No tickets, no selections.
proof fn lemma_served_none(start: nat, len: nat, upto: nat)
    ensures
        served(start, 0, len, upto) == 0,
    decreases upto,
{
    if upto > 0 {
        lemma_served_none(start, len, (upto - 1) as nat);
    }
}

/// Law of exact accounting: the selections that the backends of a pool
/// receive from `count` consecutive tickets add up to `count`; none is lost
/// and none is counted twice.
pub proof fn lemma_every_ticket_served(start: nat, count: nat, len: nat)
    requires
        len > 0,
    ensures
        served(start, count, len, len) == count,
    decreases count,
{
    if count == 0 {
        lemma_served_none(start, len, len);
    } else {
        lemma_every_ticket_served(start, (count - 1) as nat, len);
        lemma_served_step(start, count, len, len);
    }
}

} // verus!
