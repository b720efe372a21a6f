//! The byte codes of a cached boolean and the decisions that read them.
//!
//! The cell stores one byte. `UNSET` means that no value has been computed yet;
//! `TRUE` and `FALSE` hold the cached value. The functions here take a byte that
//! the cell held (or the outcome of an exchange on the cell) and say what the
//! caller is answered; `settle` carries out the whole decision of `get_or_set`
//! for the byte it loaded, with the exchange on the cell handed in as a closure.

use vstd::prelude::*;

verus! {

/// The code of a cell that holds no value yet.
pub const UNSET: u8 = 0;

/// The code of a cell that holds `false`.
pub const FALSE: u8 = 0xFF;

/// The code of a cell that holds `true`.
pub const TRUE: u8 = 1;

/// What a byte of the cell means: `None` while unset, otherwise the cached value.
/// A byte outside the three codes is never written by this crate; it reads as
/// `false`, as the answer after a lost exchange already treats it.
pub open spec fn decode(raw: u8) -> Option<bool> {
    if raw == UNSET {
        None
    } else {
        Some(raw == TRUE)
    }
}

/// The code that stores `value`.
pub open spec fn encode(value: bool) -> u8 {
    if value {
        TRUE
    } else {
        FALSE
    }
}

/// The cached value that a byte of the cell holds, if any.
pub fn state_value(raw: u8) -> (r: Option<bool>)
    ensures
        r == decode(raw),
{
    if raw == TRUE {
        Some(true)
    } else if raw == UNSET {
        None
    } else {
        Some(false)
    }
}

/// Whether a byte of the cell holds a value, `true` or `false`.
pub fn state_is_set(raw: u8) -> (r: bool)
    ensures
        r == (raw != UNSET),
        r == decode(raw).is_some(),
{
    raw != UNSET
}

/// The code to store for a freshly computed `value`.
pub fn state_for(value: bool) -> (r: u8)
    ensures
        r == encode(value),
{
    if value {
        TRUE
    } else {
        FALSE
    }
}

/// What a caller that computed `computed` is answered after its exchange of
/// `UNSET` for the code of `computed`: its own value when the exchange
/// succeeded; otherwise the value that the code found in the cell stands for.
pub open spec fn settled(computed: bool, outcome: Result<u8, u8>) -> bool {
    match outcome {
        Ok(_) => computed,
        Err(actual) => actual == TRUE,
    }
}

/// The byte that the cell holds right after such an exchange.
pub open spec fn stored_after(computed: bool, outcome: Result<u8, u8>) -> u8 {
    match outcome {
        Ok(_) => encode(computed),
        Err(actual) => actual,
    }
}

/// The answer after an exchange, as `settled` states it.
pub fn exchange_result(computed: bool, outcome: Result<u8, u8>) -> (r: bool)
    ensures
        r == settled(computed, outcome),
{
    match outcome {
        Ok(_) => computed,
        Err(actual) => actual == TRUE,
    }
}

/// The decision of `get_or_set` for the byte `current` that it loaded.
///
/// A byte that holds a value is answered with that value, and neither closure is
/// called. An unset byte makes it call `f` once, hand the code of the value `c`
/// that `f` returned to `exchange` once (which tries to swap `UNSET` for it), and
/// answer `settled(c, o)` for the outcome `o`: `c` itself when the exchange won,
/// the value of the code that it found otherwise.
pub fn settle<F, X>(current: u8, f: F, exchange: X) -> (r: bool)
    where
        F: FnOnce() -> bool,
        X: FnOnce(u8) -> Result<u8, u8>,
    requires
        current == UNSET ==> f.requires(()),
        current == UNSET ==> forall|t: u8| exchange.requires((t,)),
    ensures
        current != UNSET ==> decode(current) == Some(r),
        current == UNSET ==> exists|c: bool, o: Result<u8, u8>|
            f.ensures((), c) && exchange.ensures((encode(c),), o) && r == settled(c, o),
{
    match state_value(current) {
        Some(value) => value,
        None => {
            let computed_value = f();
            let target_state = state_for(computed_value);
            let outcome = exchange(target_state);
            let r = exchange_result(computed_value, outcome);
            assert(f.ensures((), computed_value) && exchange.ensures(
                (encode(computed_value),),
                outcome,
            ));
            r
        },
    }
}

/// A value that `get_or_set` stores is read back by `get` as that value, and the
/// cell then counts as set: the code of each value differs from `UNSET`.
pub proof fn lemma_stored_value_reads_back(value: bool)
    ensures
        decode(encode(value)) == Some(value),
        encode(value) != UNSET,
{
}

/// `is_set` and `get` agree on every byte: the cell is set exactly when `get`
/// answers `Some`.
pub proof fn lemma_is_set_iff_has_value(raw: u8)
    ensures
        (raw != UNSET) <==> decode(raw).is_some(),
{
}

/// After `reset` the cell holds `UNSET`, which `get` answers with `None` and
/// `is_set` with `false`.
pub proof fn lemma_reset_reads_unset()
    ensures
        decode(UNSET) == None::<bool>,
{
}

/// Every caller of `get_or_set` that computed a value is answered with the value
/// that the cell holds right after its exchange, whether its own exchange won or
/// another writer's did (a failed exchange finds a byte other than `UNSET`). So
/// callers that race on an unset cell all return the value that was stored.
pub proof fn lemma_exchange_answers_stored(computed: bool, outcome: Result<u8, u8>)
    requires
        outcome matches Err(actual) ==> actual != UNSET,
    ensures
        decode(stored_after(computed, outcome)) == Some(settled(computed, outcome)),
{
}

/// What a compare-and-swap of `UNSET` for `target` does to a cell that holds
/// `cell`, as `AtomicU8::compare_exchange` documents it: on an unset cell it writes
/// `target` and reports `Ok(UNSET)`; on any other byte it writes nothing and
/// reports `Err` of the byte found. The first component is the report, the second
/// the byte the cell holds afterwards.
pub open spec fn swap_unset(cell: u8, target: u8) -> (Result<u8, u8>, u8) {
    if cell == UNSET {
        (Ok(UNSET), target)
    } else {
        (Err(cell), cell)
    }
}

/// The byte a cell that starts at `cell` holds after the callers that computed
/// `computed[0]`, `computed[1]`, ... have made their exchanges, in that order.
pub open spec fn cell_after(cell: u8, computed: Seq<bool>) -> u8
    decreases computed.len(),
{
    if computed.len() == 0 {
        cell
    } else {
        swap_unset(cell_after(cell, computed.drop_last()), encode(computed.last())).1
    }
}

/// What the caller at position `i` of that order is answered.
pub open spec fn answer_in_order(cell: u8, computed: Seq<bool>, i: int) -> bool {
    settled(computed[i], swap_unset(cell_after(cell, computed.take(i)), encode(computed[i])).0)
}

/// A set value is never replaced: a caller that found the cell unset when it
/// loaded, but whose exchange meets a set byte, leaves that byte in place and is
/// answered the value it holds, whatever it computed itself.
pub proof fn lemma_set_value_kept(cell: u8, computed: bool)
    requires
        cell != UNSET,
    ensures
        swap_unset(cell, encode(computed)).1 == cell,
        decode(cell) == Some(settled(computed, swap_unset(cell, encode(computed)).0)),
{
}

/// After `reset` the next caller recomputes: its exchange on the unset cell wins,
/// it is answered the value it computed, and the cell then holds that value,
/// whatever the cell held before the reset.
pub proof fn lemma_reset_recomputes(before: u8, computed: bool)
    ensures
        settled(computed, swap_unset(UNSET, encode(computed)).0) == computed,
        decode(swap_unset(UNSET, encode(computed)).1) == Some(computed),
{
}

/// Callers racing on an unset cell all return one value: whatever each of them
/// computed, and in whatever order their exchanges land, every caller is answered
/// the value computed by the first to exchange, and the cell holds that value.
pub proof fn lemma_racing_callers_agree(computed: Seq<bool>)
    requires
        computed.len() > 0,
    ensures
        cell_after(UNSET, computed) == encode(computed[0]),
        forall|i: int| 0 <= i < computed.len() ==> #[trigger] answer_in_order(UNSET, computed, i)
            == computed[0],
    decreases computed.len(),
{
    if computed.len() == 1 {
        assert(computed.drop_last() =~= Seq::<bool>::empty());
        assert(cell_after(UNSET, computed.drop_last()) == UNSET);
        assert(computed.take(0) =~= Seq::<bool>::empty());
        assert(computed.last() == computed[0]);
    } else {
        let prefix = computed.drop_last();
        lemma_racing_callers_agree(prefix);
        assert(prefix[0] == computed[0]);
        assert(cell_after(UNSET, prefix) != UNSET);
        assert forall|i: int| 0 <= i < computed.len() implies #[trigger] answer_in_order(
            UNSET,
            computed,
            i,
        ) == computed[0] by {
            if i == 0 {
                assert(computed.take(0) =~= Seq::<bool>::empty());
            } else if i < computed.len() - 1 {
                assert(computed.take(i) =~= prefix.take(i));
                assert(answer_in_order(UNSET, prefix, i) == computed[0]);
            } else {
                assert(computed.take(i) =~= prefix);
            }
        }
    }
}

} // verus!
