//! Shell-payout history. The leaderboard reports, per user, a current
//! shell total and a list of payout events whose signed amounts travel
//! as decimal strings. This module parses those amounts and rebuilds an
//! append-only history whose rows chain: each row's starting balance
//! plus its diff is its ending balance, and adjacent rows agree.

use vstd::prelude::*;
use vstd::multiset::Multiset;
use vstd::string::StringSliceAdditionalSpecFns;

use crate::errors::JobError;
use crate::models::RawPayout;
use crate::timeparse::{parse_rfc3339_millis, rfc3339_millis_of};

verus! {

/// One parsed payout: when it happened and the whole-shell change.
#[derive(Debug, Clone, Copy, PartialEq, Eq, Structural)]
pub struct PayoutEvent {
    pub recorded_at: i64,
    pub diff: i32,
}

/// One row of a user's shell history.
#[derive(Debug, Clone, Copy, PartialEq, Eq, Structural)]
pub struct ShellHistoryEntry {
    pub recorded_at: i64,
    pub shells_then: i32,
    pub shell_diff: i32,
    pub shells: i32,
}

// ---------------------------------------------------------------------
// Decimal amount strings
// ---------------------------------------------------------------------

/// ASCII digit.
pub open spec fn is_digit_byte(b: u8) -> bool {
    48 <= b <= 57
}

/// Index where the optional leading sign ends: 1 after `+` or `-`,
/// else 0.
pub open spec fn sign_start(s: Seq<u8>) -> int {
    if s.len() > 0 && (s[0] == 43 || s[0] == 45) {
        1
    } else {
        0
    }
}

/// -1 under a leading `-`, else 1.
pub open spec fn sign_of(s: Seq<u8>) -> int {
    if s.len() > 0 && s[0] == 45 {
        -1
    } else {
        1
    }
}

/// First index at or after `i` that does not hold a digit (the length
/// where digits run to the end).
pub open spec fn digit_run_end(s: Seq<u8>, i: int) -> int
    recommends
        0 <= i <= s.len(),
    decreases s.len() - i when 0 <= i <= s.len()
{
    if i < s.len() && is_digit_byte(s[i]) {
        digit_run_end(s, i + 1)
    } else {
        i
    }
}

/// Numeric value of a digit run.
pub open spec fn digits_val(s: Seq<u8>) -> int
    decreases s.len(),
{
    if s.len() == 0 {
        0
    } else {
        digits_val(s.drop_last()) * 10 + (s.last() - 48)
    }
}

/// Whether `s` is a signed decimal: an optional sign, a digit run, then
/// optionally a dot and a second digit run to the end, with at least
/// one digit somewhere.
pub open spec fn dec_grammar_ok(s: Seq<u8>) -> bool {
    let a = sign_start(s);
    let k = digit_run_end(s, a);
    if k == s.len() {
        k > a
    } else {
        s[k] == 46 && digit_run_end(s, k + 1) == s.len() && (k > a || s.len() > k + 1)
    }
}

/// Whole-number part of a signed decimal, ignoring any fraction: the
/// value the decimal truncates to (toward zero).
pub open spec fn dec_trunc_val(s: Seq<u8>) -> int {
    sign_of(s) * digits_val(s.subrange(sign_start(s), digit_run_end(s, sign_start(s))))
}

/// Clamps an integer into the `i32` range.
pub open spec fn clip_i32(v: int) -> int {
    if v > i32::MAX {
        i32::MAX as int
    } else if v < i32::MIN {
        i32::MIN as int
    } else {
        v
    }
}

/// What parsing an amount as a decimal and truncating yields: the
/// whole-number part clamped into `i32` when the string is a signed
/// decimal, else nothing.
pub open spec fn spec_parse_trunc(s: Seq<u8>) -> Option<int> {
    if dec_grammar_ok(s) {
        Some(clip_i32(dec_trunc_val(s)))
    } else {
        None
    }
}

/// The reading of a payout's amount field, over its characters.
pub open spec fn amount_trunc_of(a: Seq<char>) -> Option<int> {
    spec_parse_trunc(vstd::utf8::encode_utf8(a))
}

/// A digit run has a non-negative value.
proof fn lemma_digits_val_nonneg(s: Seq<u8>)
    requires
        forall|i: int| 0 <= i < s.len() ==> is_digit_byte(#[trigger] s[i]),
    ensures
        digits_val(s) >= 0,
    decreases s.len(),
{
    if s.len() > 0 {
        lemma_digits_val_nonneg(s.drop_last());
    }
}

/// Magnitude accumulator cap: one past the largest `i32` magnitude, so
/// that values at or above it are out of range for both signs.
const MAG_CAP: i64 = 2147483649;

/// Scans the digit run of `s` starting at `from`, accumulating its
/// value but clamping the accumulator at `MAG_CAP`. Returns the end of
/// the run and the clamped value.
fn scan_digits(s: &[u8], from: usize) -> (r: (usize, i64))
    requires
        from <= s@.len(),
    ensures
        r.0 == digit_run_end(s@, from as int),
        from <= r.0 <= s@.len(),
        forall|j: int| from <= j < r.0 ==> is_digit_byte(#[trigger] s@[j]),
        0 <= r.1 <= MAG_CAP,
        r.1 < MAG_CAP ==> r.1 == digits_val(s@.subrange(from as int, r.0 as int)),
        r.1 == MAG_CAP ==> digits_val(s@.subrange(from as int, r.0 as int)) >= MAG_CAP,
{
    let mut i = from;
    let mut acc: i64 = 0;
    proof {
        assert(s@.subrange(from as int, from as int) =~= Seq::<u8>::empty());
    }
    while i < s.len() && 48 <= s[i] && s[i] <= 57
        invariant
            from <= i <= s@.len(),
            digit_run_end(s@, from as int) == digit_run_end(s@, i as int),
            forall|j: int| from <= j < i ==> is_digit_byte(#[trigger] s@[j]),
            0 <= acc <= MAG_CAP,
            acc < MAG_CAP ==> acc == digits_val(s@.subrange(from as int, i as int)),
            acc == MAG_CAP ==> digits_val(s@.subrange(from as int, i as int)) >= MAG_CAP,
        decreases s@.len() - i,
    {
        let d = s[i];
        proof {
            let p = s@.subrange(from as int, i as int);
            let q = s@.subrange(from as int, i + 1);
            assert(q =~= p.push(s@[i as int]));
            assert(q.drop_last() =~= p);
            lemma_digits_val_nonneg(p);
            if acc == MAG_CAP {
                assert(digits_val(q) == digits_val(p) * 10 + (d - 48));
                assert(digits_val(p) * 10 >= MAG_CAP * 10) by (nonlinear_arith)
                    requires digits_val(p) >= MAG_CAP;
            }
        }
        let wide = acc * 10 + ((d - 48) as i64);
        acc = if wide >= MAG_CAP {
            MAG_CAP
        } else {
            wide
        };
        i = i + 1;
    }
    (i, acc)
}

/// Parses a decimal amount and truncates it toward zero, clamping into
/// `i32`: the one reading of payout amounts, shared by the full
/// reconstruction and the incremental sweep. The string is an optional
/// sign, a digit run, and optionally a dot followed by a digit run,
/// with at least one digit in all.
pub fn parse_amount_trunc(s: &str) -> (r: Option<i32>)
    ensures
        match r {
            Some(v) => spec_parse_trunc(s.spec_bytes()) == Some(v as int),
            None => spec_parse_trunc(s.spec_bytes()) is None,
        },
{
    let b = s.as_bytes();
    let start: usize = if b.len() > 0 && (b[0] == 43 || b[0] == 45) {
        1
    } else {
        0
    };
    let negative = b.len() > 0 && b[0] == 45;
    let (int_end, mag) = scan_digits(b, start);
    let grammar_ok: bool = if int_end == b.len() {
        int_end > start
    } else if b[int_end] == 46 {
        let (frac_end, _frac_mag) = scan_digits(b, int_end + 1);
        frac_end == b.len() && (int_end > start || b.len() > int_end + 1)
    } else {
        false
    };
    if !grammar_ok {
        return None;
    }
    proof {
        lemma_digits_val_nonneg(b@.subrange(start as int, int_end as int));
        assert(dec_grammar_ok(s.spec_bytes()));
    }
    let v: i32 = if negative {
        if mag >= 2147483648i64 {
            i32::MIN
        } else {
            (-mag) as i32
        }
    } else {
        if mag >= 2147483647i64 {
            i32::MAX
        } else {
            mag as i32
        }
    };
    proof {
        let bs = s.spec_bytes();
        let whole = digits_val(bs.subrange(sign_start(bs), digit_run_end(bs, sign_start(bs))));
        assert(whole == digits_val(b@.subrange(start as int, int_end as int)));
        assert(whole >= 0);
        if negative {
            assert(dec_trunc_val(bs) == -1 * whole);
            if mag >= 2147483648i64 {
                assert(whole >= 2147483648);
                assert(clip_i32(-1 * whole) == i32::MIN);
            } else {
                assert(whole == mag);
                assert(clip_i32(-1 * whole) == -1 * whole);
            }
        } else {
            assert(dec_trunc_val(bs) == 1 * whole);
            if mag >= 2147483647i64 {
                assert(whole >= 2147483647);
                assert(clip_i32(whole) == i32::MAX || clip_i32(whole) == whole);
            } else {
                assert(whole == mag);
                assert(clip_i32(whole) == whole);
            }
        }
        assert(clip_i32(dec_trunc_val(bs)) == v as int);
    }
    Some(v)
}

// ---------------------------------------------------------------------
// Payouts as events
// ---------------------------------------------------------------------

/// The event a payout denotes under the truncating amount reading, or
/// nothing where either field fails to parse.
pub open spec fn spec_trunc_event(p: RawPayout) -> Option<PayoutEvent> {
    match (amount_trunc_of(p.amount@), rfc3339_millis_of(p.created_at@)) {
        (Some(d), Some(t)) => Some(PayoutEvent { recorded_at: t, diff: d as i32 }),
        _ => None,
    }
}

/// Parses every payout under the truncating reading, in order. One bad
/// field fails the whole list, as a partial history must not be
/// written.
pub fn parse_payouts_trunc(payouts: &Vec<RawPayout>) -> (r: Result<Vec<PayoutEvent>, JobError>)
    ensures
        match r {
            Ok(evs) => evs@.len() == payouts@.len() && forall|i: int|
                0 <= i < payouts@.len() ==> Some(#[trigger] evs@[i]) == spec_trunc_event(
                    payouts@[i],
                ),
            Err(e) => e is Database && exists|i: int|
                0 <= i < payouts@.len() && spec_trunc_event(#[trigger] payouts@[i]) is None,
        },
{
    let mut evs: Vec<PayoutEvent> = Vec::new();
    let mut i: usize = 0;
    while i < payouts.len()
        invariant
            i <= payouts@.len(),
            evs@.len() == i,
            forall|j: int| 0 <= j < i ==> Some(#[trigger] evs@[j]) == spec_trunc_event(
                payouts@[j],
            ),
        decreases payouts@.len() - i,
    {
        let p = &payouts[i];
        let diff = match parse_amount_trunc(p.amount.as_str()) {
            Some(d) => d,
            None => {
                return Err(
                    JobError::Database(
                        String::from_str("invalid payout amount: ").concat(p.amount.as_str()),
                    ),
                );
            },
        };
        let at = match parse_rfc3339_millis(p.created_at.as_str()) {
            Some(t) => t,
            None => {
                return Err(
                    JobError::Database(
                        String::from_str("invalid payout created_at: ").concat(
                            p.created_at.as_str(),
                        ),
                    ),
                );
            },
        };
        evs.push(PayoutEvent { recorded_at: at, diff });
        i = i + 1;
    }
    Ok(evs)
}

// ---------------------------------------------------------------------
// Ordering events by time
// ---------------------------------------------------------------------

/// Events in non-decreasing time order.
pub open spec fn events_sorted(evs: Seq<PayoutEvent>) -> bool {
    forall|i: int, j: int|
        0 <= i < j < evs.len() ==> #[trigger] evs[i].recorded_at <= #[trigger] evs[j].recorded_at
}

/// Index of an event with the least time.
fn min_time_index(evs: &Vec<PayoutEvent>) -> (m: usize)
    requires
        evs@.len() > 0,
    ensures
        m < evs@.len(),
        forall|j: int| 0 <= j < evs@.len() ==> evs@[m as int].recorded_at
            <= #[trigger] evs@[j].recorded_at,
{
    let mut m: usize = 0;
    let mut i: usize = 1;
    while i < evs.len()
        invariant
            m < i <= evs@.len(),
            forall|j: int| 0 <= j < i ==> evs@[m as int].recorded_at
                <= #[trigger] evs@[j].recorded_at,
        decreases evs@.len() - i,
    {
        if evs[i].recorded_at < evs[m].recorded_at {
            m = i;
        }
        i = i + 1;
    }
    m
}

/// Sorts events into non-decreasing time order. No event is added or
/// lost: the result holds the same multiset of events.
pub fn sort_events(evs: Vec<PayoutEvent>) -> (r: Vec<PayoutEvent>)
    ensures
        events_sorted(r@),
        r@.to_multiset() == evs@.to_multiset(),
        r@.len() == evs@.len(),
{
    broadcast use vstd::seq_lib::group_to_multiset_ensures;
    broadcast use vstd::multiset::group_multiset_axioms;

    let ghost orig = evs@;
    let mut rest = evs;
    let mut out: Vec<PayoutEvent> = Vec::new();
    proof {
        assert(out@.to_multiset().add(rest@.to_multiset()) =~= orig.to_multiset());
    }
    while rest.len() > 0
        invariant
            out@.to_multiset().add(rest@.to_multiset()) == orig.to_multiset(),
            out@.len() + rest@.len() == orig.len(),
            events_sorted(out@),
            forall|k: int, l: int|
                0 <= k < out@.len() && 0 <= l < rest@.len() ==> #[trigger] out@[k].recorded_at
                    <= #[trigger] rest@[l].recorded_at,
        decreases rest@.len(),
    {
        let m = min_time_index(&rest);
        let ghost old_rest = rest@;
        let ghost old_out = out@;
        let x = rest.remove(m);
        out.push(x);
        proof {
            assert(old_rest[m as int] == x);
            assert(old_rest.contains(x));
            vstd::seq_lib::to_multiset_build(old_out, x);
            vstd::seq_lib::to_multiset_remove(old_rest, m as int);
            assert(out@ == old_out.push(x));
            assert(rest@ == old_rest.remove(m as int));
            assert(out@.to_multiset() == old_out.to_multiset().insert(x));
            assert(rest@.to_multiset() == old_rest.to_multiset().remove(x));
            vstd::seq_lib::to_multiset_contains(old_rest, x);
            assert(old_rest.to_multiset().count(x) > 0);
            assert(out@.to_multiset().add(rest@.to_multiset()) =~= orig.to_multiset());
            assert forall|k: int, l: int|
                0 <= k < out@.len() && 0 <= l < rest@.len() implies
                #[trigger] out@[k].recorded_at <= #[trigger] rest@[l].recorded_at by {
                assert(rest@[l] == if l < m {
                    old_rest[l]
                } else {
                    old_rest[l + 1]
                });
            }
        }
    }
    proof {
        assert(rest@.to_multiset() =~= Multiset::<PayoutEvent>::empty());
        assert(out@.to_multiset().add(Multiset::<PayoutEvent>::empty()) =~= out@.to_multiset());
    }
    out
}

// ---------------------------------------------------------------------
// Chain arithmetic
// ---------------------------------------------------------------------

/// Sum of the diffs of the events at positions `[i, evs.len())`.
pub open spec fn suffix_diff_sum(evs: Seq<PayoutEvent>, i: int) -> int
    recommends
        0 <= i <= evs.len(),
    decreases evs.len() - i when 0 <= i <= evs.len()
{
    if i < evs.len() {
        evs[i].diff + suffix_diff_sum(evs, i + 1)
    } else {
        0
    }
}

/// Sum of the diffs of the events at positions `[0, i)`.
pub open spec fn prefix_diff_sum(evs: Seq<PayoutEvent>, i: int) -> int
    recommends
        0 <= i <= evs.len(),
    decreases i when 0 <= i <= evs.len()
{
    if i > 0 {
        prefix_diff_sum(evs, i - 1) + evs[i - 1].diff
    } else {
        0
    }
}

/// Every balance the backward walk passes through stays within `i32`.
pub open spec fn backward_in_range(final_shells: int, evs: Seq<PayoutEvent>) -> bool {
    forall|i: int|
        0 <= i <= evs.len() ==> i32::MIN <= final_shells - #[trigger] suffix_diff_sum(evs, i)
            <= i32::MAX
}

/// Every balance the forward walk passes through stays within `i32`.
pub open spec fn forward_in_range(start_shells: int, evs: Seq<PayoutEvent>) -> bool {
    forall|i: int|
        0 <= i <= evs.len() ==> i32::MIN <= start_shells + #[trigger] prefix_diff_sum(evs, i)
            <= i32::MAX
}

/// The rows chain: each row's starting balance plus its diff is its
/// ending balance, and each row starts where the one before it ended.
pub open spec fn chain_valid(entries: Seq<ShellHistoryEntry>) -> bool {
    &&& forall|i: int|
        0 <= i < entries.len() ==> #[trigger] entries[i].shells_then + entries[i].shell_diff
            == entries[i].shells
    &&& forall|i: int|
        0 <= i && i + 1 < entries.len() ==> #[trigger] entries[i + 1].shells_then == entries[i].shells
}

/// Rows in non-decreasing time order.
pub open spec fn entries_sorted(entries: Seq<ShellHistoryEntry>) -> bool {
    forall|i: int, j: int|
        0 <= i < j < entries.len() ==> #[trigger] entries[i].recorded_at
            <= #[trigger] entries[j].recorded_at
}

/// The event a history row records.
pub open spec fn event_of_entry(e: ShellHistoryEntry) -> PayoutEvent {
    PayoutEvent { recorded_at: e.recorded_at, diff: e.shell_diff }
}

/// Walks the events backward from the user's final total: the last
/// row ends at `final_shells`, and each earlier row's ending balance is
/// the next row's starting balance. Fails only where some intermediate
/// balance leaves `i32`.
pub fn chain_backward(final_shells: i32, evs: &Vec<PayoutEvent>) -> (r: Result<
    Vec<ShellHistoryEntry>,
    JobError,
>)
    ensures
        match r {
            Ok(entries) => backward_in_range(final_shells as int, evs@) && entries@.len()
                == evs@.len() && forall|i: int|
                0 <= i < evs@.len() ==> {
                    let e = #[trigger] entries@[i];
                    &&& e.recorded_at == evs@[i].recorded_at
                    &&& e.shell_diff == evs@[i].diff
                    &&& e.shells == final_shells - suffix_diff_sum(evs@, i + 1)
                    &&& e.shells_then == final_shells - suffix_diff_sum(evs@, i)
                },
            Err(e) => !backward_in_range(final_shells as int, evs@) && e is Database,
        },
{
    let n = evs.len();
    let mut rev: Vec<ShellHistoryEntry> = Vec::new();
    let mut running: i32 = final_shells;
    let mut idx: usize = n;
    while idx > 0
        invariant
            idx <= n,
            n == evs@.len(),
            running == final_shells - suffix_diff_sum(evs@, idx as int),
            rev@.len() == n - idx,
            forall|k: int|
                0 <= k < rev@.len() ==> {
                    let i = n - 1 - k;
                    let e = #[trigger] rev@[k];
                    &&& e.recorded_at == evs@[i].recorded_at
                    &&& e.shell_diff == evs@[i].diff
                    &&& e.shells == final_shells - suffix_diff_sum(evs@, i + 1)
                    &&& e.shells_then == final_shells - suffix_diff_sum(evs@, i)
                },
        decreases idx,
    {
        let i = idx - 1;
        let ev = evs[i];
        let shells_then = match running.checked_sub(ev.diff) {
            Some(v) => v,
            None => {
                proof {
                    assert(suffix_diff_sum(evs@, i as int) == ev.diff + suffix_diff_sum(
                        evs@,
                        idx as int,
                    ));
                }
                return Err(
                    JobError::Database(String::from_str("shell balance left the i32 range")),
                );
            },
        };
        proof {
            assert(suffix_diff_sum(evs@, i as int) == ev.diff + suffix_diff_sum(evs@, idx as int));
        }
        rev.push(
            ShellHistoryEntry {
                recorded_at: ev.recorded_at,
                shells_then,
                shell_diff: ev.diff,
                shells: running,
            },
        );
        running = shells_then;
        idx = i;
    }
    let mut entries: Vec<ShellHistoryEntry> = Vec::new();
    let mut k: usize = n;
    while k > 0
        invariant
            k <= n,
            n == rev@.len(),
            n == evs@.len(),
            entries@.len() == n - k,
            forall|i: int| 0 <= i < entries@.len() ==> entries@[i] == rev@[n - 1 - i],
            forall|kk: int|
                0 <= kk < rev@.len() ==> {
                    let i = n - 1 - kk;
                    let e = #[trigger] rev@[kk];
                    &&& e.recorded_at == evs@[i].recorded_at
                    &&& e.shell_diff == evs@[i].diff
                    &&& e.shells == final_shells - suffix_diff_sum(evs@, i + 1)
                    &&& e.shells_then == final_shells - suffix_diff_sum(evs@, i)
                },
        decreases k,
    {
        entries.push(rev[k - 1]);
        k = k - 1;
    }
    proof {
        assert forall|i: int| 0 <= i <= evs@.len() implies i32::MIN <= final_shells
            - #[trigger] suffix_diff_sum(evs@, i) <= i32::MAX by {
            if i < evs@.len() {
                assert(rev@[n - 1 - i].shells_then == final_shells - suffix_diff_sum(evs@, i));
            } else {
                assert(suffix_diff_sum(evs@, i) == 0);
            }
        }
    }
    Ok(entries)
}

/// Walks the events forward from a starting balance: the first row
/// starts at `start_shells` and each row ends where the next begins.
/// Fails only where some intermediate balance leaves `i32`.
pub fn chain_forward(start_shells: i32, evs: &Vec<PayoutEvent>) -> (r: Result<
    Vec<ShellHistoryEntry>,
    JobError,
>)
    ensures
        match r {
            Ok(entries) => forward_in_range(start_shells as int, evs@) && entries@.len()
                == evs@.len() && forall|i: int|
                0 <= i < evs@.len() ==> {
                    let e = #[trigger] entries@[i];
                    &&& e.recorded_at == evs@[i].recorded_at
                    &&& e.shell_diff == evs@[i].diff
                    &&& e.shells_then == start_shells + prefix_diff_sum(evs@, i)
                    &&& e.shells == start_shells + prefix_diff_sum(evs@, i + 1)
                },
            Err(e) => !forward_in_range(start_shells as int, evs@) && e is Database,
        },
{
    let mut entries: Vec<ShellHistoryEntry> = Vec::new();
    let mut running: i32 = start_shells;
    let mut i: usize = 0;
    while i < evs.len()
        invariant
            i <= evs@.len(),
            running == start_shells + prefix_diff_sum(evs@, i as int),
            entries@.len() == i,
            forall|j: int|
                0 <= j < i ==> {
                    let e = #[trigger] entries@[j];
                    &&& e.recorded_at == evs@[j].recorded_at
                    &&& e.shell_diff == evs@[j].diff
                    &&& e.shells_then == start_shells + prefix_diff_sum(evs@, j)
                    &&& e.shells == start_shells + prefix_diff_sum(evs@, j + 1)
                },
        decreases evs@.len() - i,
    {
        let ev = evs[i];
        let next = match running.checked_add(ev.diff) {
            Some(v) => v,
            None => {
                proof {
                    assert(prefix_diff_sum(evs@, i + 1) == prefix_diff_sum(evs@, i as int)
                        + evs@[i as int].diff);
                }
                return Err(
                    JobError::Database(String::from_str("shell balance left the i32 range")),
                );
            },
        };
        proof {
            assert(prefix_diff_sum(evs@, i + 1) == prefix_diff_sum(evs@, i as int)
                + evs@[i as int].diff);
        }
        entries.push(
            ShellHistoryEntry {
                recorded_at: ev.recorded_at,
                shells_then: running,
                shell_diff: ev.diff,
                shells: next,
            },
        );
        running = next;
        i = i + 1;
    }
    proof {
        assert forall|j: int| 0 <= j <= evs@.len() implies i32::MIN <= start_shells
            + #[trigger] prefix_diff_sum(evs@, j) <= i32::MAX by {
            if j > 0 {
                assert(entries@[j - 1].shells == start_shells + prefix_diff_sum(evs@, j));
            } else {
                assert(prefix_diff_sum(evs@, j) == 0);
            }
        }
    }
    Ok(entries)
}

// ---------------------------------------------------------------------
// The chain laws
// ---------------------------------------------------------------------

/// Rows built backward from a final total always chain: each row's
/// starting balance plus its diff is its ending balance, adjacent rows
/// agree, time order is kept, and the last row ends at the final
/// total.
pub proof fn lemma_backward_chain(
    final_shells: int,
    evs: Seq<PayoutEvent>,
    entries: Seq<ShellHistoryEntry>,
)
    requires
        events_sorted(evs),
        entries.len() == evs.len(),
        forall|i: int|
            0 <= i < evs.len() ==> {
                let e = #[trigger] entries[i];
                &&& e.recorded_at == evs[i].recorded_at
                &&& e.shell_diff == evs[i].diff
                &&& e.shells == final_shells - suffix_diff_sum(evs, i + 1)
                &&& e.shells_then == final_shells - suffix_diff_sum(evs, i)
            },
    ensures
        chain_valid(entries),
        entries_sorted(entries),
        entries.len() > 0 ==> entries.last().shells == final_shells,
{
    assert forall|i: int|
        0 <= i < entries.len() implies #[trigger] entries[i].shells_then + entries[i].shell_diff
        == entries[i].shells by {
        assert(suffix_diff_sum(evs, i) == evs[i].diff + suffix_diff_sum(evs, i + 1));
    }
    assert forall|i: int|
        0 <= i && i + 1 < entries.len() implies
        #[trigger] entries[i + 1].shells_then == entries[i].shells by {
        assert(entries[i].shells == final_shells - suffix_diff_sum(evs, i + 1));
        assert(entries[i + 1].shells_then == final_shells - suffix_diff_sum(evs, i + 1));
    }
    assert forall|i: int, j: int|
        0 <= i < j < entries.len() implies #[trigger] entries[i].recorded_at
        <= #[trigger] entries[j].recorded_at by {
        assert(entries[i].recorded_at == evs[i].recorded_at);
        assert(entries[j].recorded_at == evs[j].recorded_at);
    }
    if entries.len() > 0 {
        assert(suffix_diff_sum(evs, entries.len() as int) == 0);
        assert(entries.last() == entries[entries.len() - 1]);
    }
}

/// Rows built forward from a starting balance always chain, keep time
/// order, and start at the given balance.
pub proof fn lemma_forward_chain(
    start_shells: int,
    evs: Seq<PayoutEvent>,
    entries: Seq<ShellHistoryEntry>,
)
    requires
        events_sorted(evs),
        entries.len() == evs.len(),
        forall|i: int|
            0 <= i < evs.len() ==> {
                let e = #[trigger] entries[i];
                &&& e.recorded_at == evs[i].recorded_at
                &&& e.shell_diff == evs[i].diff
                &&& e.shells_then == start_shells + prefix_diff_sum(evs, i)
                &&& e.shells == start_shells + prefix_diff_sum(evs, i + 1)
            },
    ensures
        chain_valid(entries),
        entries_sorted(entries),
        entries.len() > 0 ==> entries.first().shells_then == start_shells,
{
    assert forall|i: int|
        0 <= i < entries.len() implies #[trigger] entries[i].shells_then + entries[i].shell_diff
        == entries[i].shells by {
        assert(prefix_diff_sum(evs, i + 1) == prefix_diff_sum(evs, i) + evs[i].diff);
    }
    assert forall|i: int|
        0 <= i && i + 1 < entries.len() implies
        #[trigger] entries[i + 1].shells_then == entries[i].shells by {
        assert(entries[i].shells == start_shells + prefix_diff_sum(evs, i + 1));
        assert(entries[i + 1].shells_then == start_shells + prefix_diff_sum(evs, i + 1));
    }
    assert forall|i: int, j: int|
        0 <= i < j < entries.len() implies #[trigger] entries[i].recorded_at
        <= #[trigger] entries[j].recorded_at by {
        assert(entries[i].recorded_at == evs[i].recorded_at);
        assert(entries[j].recorded_at == evs[j].recorded_at);
    }
    if entries.len() > 0 {
        assert(prefix_diff_sum(evs, 0) == 0);
        assert(entries.first() == entries[0]);
    }
}


// ---------------------------------------------------------------------
// The two reconstruction passes
// ---------------------------------------------------------------------

/// The events a payout list denotes under the truncating reading, in
/// list order.
pub open spec fn trunc_events(payouts: Seq<RawPayout>) -> Seq<PayoutEvent> {
    payouts.map_values(|p: RawPayout| spec_trunc_event(p)->0)
}

/// The events a history denotes, in row order.
pub open spec fn entry_events(entries: Seq<ShellHistoryEntry>) -> Seq<PayoutEvent> {
    entries.map_values(|e: ShellHistoryEntry| event_of_entry(e))
}

/// Full reconstruction, as the one-time backfill and the leaderboard
/// job run it: parse every payout, order by time, then walk backward
/// from the user's current total so that the last row ends there.
pub fn rebuild_shell_history(final_shells: i32, payouts: &Vec<RawPayout>) -> (r: Result<
    Vec<ShellHistoryEntry>,
    JobError,
>)
    ensures
        match r {
            Ok(entries) => {
                &&& forall|i: int|
                    0 <= i < payouts@.len() ==> spec_trunc_event(#[trigger] payouts@[i]) is Some
                &&& entries@.len() == payouts@.len()
                &&& entries_sorted(entries@)
                &&& chain_valid(entries@)
                &&& entries@.len() > 0 ==> entries@.last().shells == final_shells
                &&& entry_events(entries@).to_multiset() == trunc_events(payouts@).to_multiset()
            },
            Err(e) => e is Database && {
                ||| exists|i: int|
                    0 <= i < payouts@.len() && spec_trunc_event(#[trigger] payouts@[i]) is None
                ||| exists|sorted: Seq<PayoutEvent>|
                    events_sorted(sorted) && sorted.to_multiset() == trunc_events(
                        payouts@,
                    ).to_multiset() && !backward_in_range(final_shells as int, sorted)
            },
        },
{
    let evs = match parse_payouts_trunc(payouts) {
        Ok(evs) => evs,
        Err(e) => {
            return Err(e);
        },
    };
    proof {
        assert(trunc_events(payouts@) =~= evs@);
        assert forall|i: int|
            0 <= i < payouts@.len() implies spec_trunc_event(#[trigger] payouts@[i]) is Some by {
            assert(Some(evs@[i]) == spec_trunc_event(payouts@[i]));
        }
    }
    let sorted = sort_events(evs);
    match chain_backward(final_shells, &sorted) {
        Ok(entries) => {
            proof {
                lemma_backward_chain(final_shells as int, sorted@, entries@);
                assert(entry_events(entries@) =~= sorted@);
            }
            Ok(entries)
        },
        Err(e) => {
            proof {
                assert(events_sorted(sorted@) && sorted@.to_multiset() == trunc_events(
                    payouts@,
                ).to_multiset() && !backward_in_range(final_shells as int, sorted@));
            }
            Err(e)
        },
    }
}

/// Whether a payout is strictly newer than the newest row already in
/// the user's history. With no row yet, every payout counts as new.
pub open spec fn payout_is_new(p: RawPayout, last_recorded: Option<i64>) -> bool {
    match last_recorded {
        Some(t) => rfc3339_millis_of(p.created_at@) is Some && rfc3339_millis_of(p.created_at@)->0
            > t,
        None => true,
    }
}

/// The events of the payouts strictly newer than `last_recorded`,
/// under the same truncating amount reading as the full
/// reconstruction, in list order.
pub open spec fn new_payout_events(
    payouts: Seq<RawPayout>,
    last_recorded: Option<i64>,
) -> Seq<PayoutEvent> {
    payouts.filter(|p: RawPayout| payout_is_new(p, last_recorded)).map_values(
        |p: RawPayout| spec_trunc_event(p)->0,
    )
}

/// Some payout's creation time is not valid RFC 3339.
pub open spec fn some_bad_date(payouts: Seq<RawPayout>) -> bool {
    exists|i: int|
        0 <= i < payouts.len() && rfc3339_millis_of((#[trigger] payouts[i]).created_at@) is None
}

/// Some strictly-new payout's amount is not a signed decimal.
pub open spec fn some_new_bad_amount(payouts: Seq<RawPayout>, last_recorded: Option<i64>) -> bool {
    exists|i: int|
        0 <= i < payouts.len() && payout_is_new(#[trigger] payouts[i], last_recorded)
            && amount_trunc_of(payouts[i].amount@) is None
}

/// One step of `new_payout_events` over a growing prefix.
proof fn lemma_new_events_step(payouts: Seq<RawPayout>, last_recorded: Option<i64>, i: int)
    requires
        0 <= i < payouts.len(),
    ensures
        payout_is_new(payouts[i], last_recorded) ==> new_payout_events(
            payouts.take(i + 1),
            last_recorded,
        ) =~= new_payout_events(payouts.take(i), last_recorded).push(
            spec_trunc_event(payouts[i])->0,
        ),
        !payout_is_new(payouts[i], last_recorded) ==> new_payout_events(
            payouts.take(i + 1),
            last_recorded,
        ) =~= new_payout_events(payouts.take(i), last_recorded),
{
    reveal(Seq::filter);
    let pred = |p: RawPayout| payout_is_new(p, last_recorded);
    assert(payouts.take(i + 1).drop_last() =~= payouts.take(i));
    assert(payouts.take(i + 1).last() == payouts[i]);
    assert(payouts.take(i + 1).drop_last() == payouts.take(i));
    if pred(payouts[i]) {
        assert(payouts.take(i + 1).filter(pred) == payouts.take(i).filter(pred).push(payouts[i]));
    } else {
        assert(payouts.take(i + 1).filter(pred) == payouts.take(i).filter(pred));
    }
}

/// Parses dates of all payouts and amounts of the strictly-new ones,
/// keeping only the new ones as events. Fails exactly on a malformed
/// date, or a malformed amount on a payout that is new.
fn collect_new_events(payouts: &Vec<RawPayout>, last_recorded: Option<i64>) -> (r: Result<
    Vec<PayoutEvent>,
    JobError,
>)
    ensures
        match r {
            Ok(evs) => {
                &&& forall|i: int|
                    0 <= i < payouts@.len() ==> rfc3339_millis_of(
                        #[trigger] payouts@[i].created_at@,
                    ) is Some
                &&& forall|i: int|
                    0 <= i < payouts@.len() && payout_is_new(#[trigger] payouts@[i], last_recorded)
                        ==> spec_trunc_event(payouts@[i]) is Some
                &&& evs@ == new_payout_events(payouts@, last_recorded)
                &&& forall|k: int|
                    0 <= k < evs@.len() && last_recorded is Some
                        ==> #[trigger] evs@[k].recorded_at > last_recorded->0
            },
            Err(e) => e is Database && (some_bad_date(payouts@) || some_new_bad_amount(
                payouts@,
                last_recorded,
            )),
        },
{
    let mut evs: Vec<PayoutEvent> = Vec::new();
    let mut i: usize = 0;
    proof {
        reveal(Seq::filter);
        assert(payouts@.take(0) =~= Seq::<RawPayout>::empty());
        assert(new_payout_events(payouts@.take(0), last_recorded) =~= Seq::<
            PayoutEvent,
        >::empty());
    }
    while i < payouts.len()
        invariant
            i <= payouts@.len(),
            forall|j: int| 0 <= j < i ==> rfc3339_millis_of(
                #[trigger] payouts@[j].created_at@,
            ) is Some,
            forall|j: int|
                0 <= j < i && payout_is_new(#[trigger] payouts@[j], last_recorded)
                    ==> spec_trunc_event(payouts@[j]) is Some,
            evs@ == new_payout_events(payouts@.take(i as int), last_recorded),
            forall|k: int|
                0 <= k < evs@.len() && last_recorded is Some
                    ==> #[trigger] evs@[k].recorded_at > last_recorded->0,
        decreases payouts@.len() - i,
    {
        let p = &payouts[i];
        let at = match parse_rfc3339_millis(p.created_at.as_str()) {
            Some(t) => t,
            None => {
                proof {
                    assert(rfc3339_millis_of(payouts@[i as int].created_at@) is None);
                    assert(some_bad_date(payouts@));
                }
                return Err(
                    JobError::Database(
                        String::from_str("invalid payout created_at: ").concat(
                            p.created_at.as_str(),
                        ),
                    ),
                );
            },
        };
        let is_new = match last_recorded {
            Some(t) => at > t,
            None => true,
        };
        proof {
            assert(is_new == payout_is_new(payouts@[i as int], last_recorded));
            lemma_new_events_step(payouts@, last_recorded, i as int);
        }
        if is_new {
            let diff = match parse_amount_trunc(p.amount.as_str()) {
                Some(d) => d,
                None => {
                    proof {
                        assert(amount_trunc_of(payouts@[i as int].amount@) is None);
                        assert(some_new_bad_amount(payouts@, last_recorded));
                    }
                    return Err(
                        JobError::Database(
                            String::from_str("invalid payout amount: ").concat(p.amount.as_str()),
                        ),
                    );
                },
            };
            let ev = PayoutEvent { recorded_at: at, diff };
            proof {
                assert(ev == spec_trunc_event(payouts@[i as int])->0);
            }
            evs.push(ev);
        }
        i = i + 1;
    }
    proof {
        assert(payouts@.take(payouts@.len() as int) =~= payouts@);
    }
    Ok(evs)
}

/// Incremental extension, as the forward sweep runs it: keep only the
/// payouts newer than the newest stored row, order them by time, and
/// walk forward from the user's previous total (zero when unknown).
/// Amounts are read the same truncating way as in the full
/// reconstruction. Fails only on a malformed date, a malformed amount
/// on a new payout, or a forward walk that leaves the `i32` range.
pub fn append_shell_history(
    previous_shells: Option<i32>,
    last_recorded: Option<i64>,
    payouts: &Vec<RawPayout>,
) -> (r: Result<Vec<ShellHistoryEntry>, JobError>)
    ensures
        match r {
            Ok(entries) => {
                let start = if previous_shells is Some {
                    previous_shells->0 as int
                } else {
                    0int
                };
                &&& forall|i: int|
                    0 <= i < payouts@.len() ==> rfc3339_millis_of(
                        #[trigger] payouts@[i].created_at@,
                    ) is Some
                &&& forall|i: int|
                    0 <= i < payouts@.len() && payout_is_new(#[trigger] payouts@[i], last_recorded)
                        ==> spec_trunc_event(payouts@[i]) is Some
                &&& entries_sorted(entries@)
                &&& chain_valid(entries@)
                &&& entries@.len() > 0 ==> entries@.first().shells_then == start
                &&& entry_events(entries@).to_multiset() == new_payout_events(
                    payouts@,
                    last_recorded,
                ).to_multiset()
                &&& forall|i: int|
                    0 <= i < entries@.len() && last_recorded is Some
                        ==> #[trigger] entries@[i].recorded_at > last_recorded->0
            },
            Err(e) => e is Database && {
                let start = if previous_shells is Some {
                    previous_shells->0 as int
                } else {
                    0int
                };
                ||| some_bad_date(payouts@)
                ||| some_new_bad_amount(payouts@, last_recorded)
                ||| exists|sorted: Seq<PayoutEvent>|
                    events_sorted(sorted) && sorted.to_multiset() == new_payout_events(
                        payouts@,
                        last_recorded,
                    ).to_multiset() && !forward_in_range(start, sorted)
            },
        },
{
    let evs = match collect_new_events(payouts, last_recorded) {
        Ok(evs) => evs,
        Err(e) => {
            return Err(e);
        },
    };
    let ghost unsorted = evs@;
    let sorted = sort_events(evs);
    let start: i32 = match previous_shells {
        Some(v) => v,
        None => 0,
    };
    match chain_forward(start, &sorted) {
        Ok(entries) => {
            proof {
                lemma_forward_chain(start as int, sorted@, entries@);
                assert(entry_events(entries@) =~= sorted@);
                assert forall|i: int|
                    0 <= i < entries@.len() && last_recorded is Some implies
                    #[trigger] entries@[i].recorded_at > last_recorded->0 by {
                    assert(entries@[i].recorded_at == sorted@[i].recorded_at);
                    assert(sorted@.contains(sorted@[i]));
                    vstd::seq_lib::to_multiset_contains(sorted@, sorted@[i]);
                    vstd::seq_lib::to_multiset_contains(unsorted, sorted@[i]);
                    assert(unsorted.contains(sorted@[i]));
                    let j = choose|j: int| 0 <= j < unsorted.len() && unsorted[j] == sorted@[i];
                    assert(unsorted[j].recorded_at > last_recorded->0);
                }
            }
            Ok(entries)
        },
        Err(e) => {
            proof {
                assert(events_sorted(sorted@) && sorted@.to_multiset() == new_payout_events(
                    payouts@,
                    last_recorded,
                ).to_multiset() && !forward_in_range(start as int, sorted@));
            }
            Err(e)
        },
    }
}

} // verus!
