use crate::field::{field_pow, lemma_field_pow_one, modulus};
use crate::trace::{Claim, Column, TraceView};
use vstd::arithmetic::div_mod::{lemma_mod_self_0, lemma_small_mod};
use vstd::prelude::*;

verus! {

/// The assigned trace for `b^e` is accepted exactly under the public inputs
/// `[b, e, b^e]`: the transition constraint holds on every active row, and a wrong base,
/// exponent or claimed result is rejected.
pub proof fn lemma_witness_accepted_iff(m: TraceView, b: nat, e: nat, c: Claim)
    requires
        1 <= e,
        b < modulus(),
        e < modulus(),
        m.is_witness(b, e),
    ensures
        forall|i: int| 0 <= i < m.len() && #[trigger] m.selector[i] ==> m.gate_holds(i),
        m.satisfied(c) <==> (c.base == b && c.exponent == e && c.result == field_pow(b, e)),
{
    assert forall|i: int| 0 <= i < m.len() && #[trigger] m.selector[i] implies m.gate_holds(i) by {
        assert(m.result[i + 1] == field_pow(b, (i + 2) as nat));
        assert(m.result[i] == field_pow(b, (i + 1) as nat));
        assert(m.exponent[i + 1] + 1 == e - i);
        lemma_small_mod((e - i) as nat, modulus());
        assert(m.base[i] == b);
        assert(m.base[i + 1] == b);
    }
    lemma_field_pow_one(b);
    assert(m.result[0] == field_pow(b, 1));
    assert(m.result[e - 1] == field_pow(b, e));
}

/// Once the assigned trace is accepted, changing any one occupied cell to
/// another field element makes the same public inputs rejected.
pub proof fn lemma_changed_cell_rejected(
    m: TraceView,
    b: nat,
    e: nat,
    c: Claim,
    col: Column,
    row: int,
    v: nat,
)
    requires
        1 <= e,
        b < modulus(),
        e < modulus(),
        m.is_witness(b, e),
        m.satisfied(c),
        0 <= row < e,
        v < modulus(),
        v != m.cell(col, row),
    ensures
        !m.with_cell(col, row, v).satisfied(c),
{
    let m2 = m.with_cell(col, row, v);
    if row >= 1 {
        let i = row - 1;
        assert(m.selector[i]);
        assert(m.gate_holds(i));
        if m2.satisfied(c) {
            assert(m2.selector[i]);
            assert(m2.gate_holds(i));
            match col {
                Column::Result => {},
                Column::Exponent => {
                    assert(m.exponent[row] == e - row);
                    lemma_small_mod((e - row + 1) as nat, modulus());
                    if v + 1 < modulus() {
                        lemma_small_mod((v + 1) as nat, modulus());
                    } else {
                        lemma_mod_self_0(modulus() as int);
                    }
                },
                Column::Base => {},
            }
        }
    }
}

/// With exponent 1 the trace is one row holding the base, with no active
/// row, and it is accepted exactly when the claimed result is the base.
pub proof fn lemma_unit_exponent(m: TraceView, b: nat, c: Claim)
    requires
        b < modulus(),
        m.is_witness(b, 1),
    ensures
        m.len() == 1,
        !m.selector[0],
        m.result[0] == b,
        m.base[0] == b,
        m.satisfied(c) <==> (c.base == b && c.exponent == 1 && c.result == b),
{
    lemma_witness_accepted_iff(m, b, 1, c);
    lemma_field_pow_one(b);
}

} // verus!
