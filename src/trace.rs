use crate::field::{field_pow, lemma_field_pow_one, modulus, Felt};
use vstd::arithmetic::div_mod::lemma_small_mod;
use vstd::prelude::*;

verus! {

/// Why no witness could be assigned.
#[derive(Debug, PartialEq, Eq, Structural)]
pub enum ExpError {
    /// The exponent needs at least as many rows as the trace has.
    CapacityError,
    /// The exponent is zero, for which the recurrence has no terminal row.
    UndefinedRecurrenceError,
}

/// One of the three value columns of the trace.
#[derive(Clone, Copy, Debug, PartialEq, Eq, Structural)]
pub enum Column {
    Result,
    Exponent,
    Base,
}

/// The public input vector `[base, exponent, result]`.
pub struct PublicInputs {
    pub base: Felt,
    pub exponent: Felt,
    pub result: Felt,
}

/// The public inputs as integers below the modulus.
pub struct Claim {
    pub base: nat,
    pub exponent: nat,
    pub result: nat,
}

impl View for PublicInputs {
    type V = Claim;

    open spec fn view(&self) -> Claim {
        Claim { base: self.base.value(), exponent: self.exponent.value(), result: self.result.value() }
    }
}

/// The occupied rows of the trace: three value columns and the selector.
pub struct ExpTrace {
    pub result: Vec<Felt>,
    pub exponent: Vec<Felt>,
    pub base: Vec<Felt>,
    pub selector: Vec<bool>,
}

/// A trace with each cell read as an integer below the modulus.
pub struct TraceView {
    pub result: Seq<nat>,
    pub exponent: Seq<nat>,
    pub base: Seq<nat>,
    pub selector: Seq<bool>,
}

/// The integers that a column of elements stands for.
pub open spec fn values_of(s: Seq<Felt>) -> Seq<nat> {
    s.map_values(|f: Felt| f.value())
}

impl View for ExpTrace {
    type V = TraceView;

    open spec fn view(&self) -> TraceView {
        TraceView {
            result: values_of(self.result@),
            exponent: values_of(self.exponent@),
            base: values_of(self.base@),
            selector: self.selector@,
        }
    }
}

impl TraceView {
    pub open spec fn len(self) -> nat {
        self.result.len()
    }

    /// At least one row, and every column as long as the others.
    pub open spec fn well_shaped(self) -> bool {
        &&& self.len() >= 1
        &&& self.exponent.len() == self.len()
        &&& self.base.len() == self.len()
        &&& self.selector.len() == self.len()
    }

    /// The transition constraint at row `i`: the next row exists, the running result is
    /// multiplied by the base, the exponent drops by one and the base is
    /// carried over unchanged.
    pub open spec fn gate_holds(self, i: int) -> bool {
        &&& i + 1 < self.len()
        &&& self.result[i + 1] == (self.result[i] * self.base[i]) % modulus()
        &&& self.exponent[i] == (self.exponent[i + 1] + 1) % modulus()
        &&& self.base[i + 1] == self.base[i]
    }

    /// Row 0 of Result and Base holds the public base, row 0 of Exponent the
    /// public exponent, and the last Result cell the claimed result.
    pub open spec fn bound_to(self, c: Claim) -> bool {
        &&& self.result[0] == c.base
        &&& self.base[0] == c.base
        &&& self.exponent[0] == c.exponent
        &&& self.result[self.len() - 1] == c.result
    }

    /// What the backend's check accepts: the transition constraint holds on every selected
    /// row and every copy constraint to the public inputs holds.
    pub open spec fn satisfied(self, c: Claim) -> bool {
        &&& self.well_shaped()
        &&& forall|i: int| 0 <= i < self.len() && #[trigger] self.selector[i] ==> self.gate_holds(i)
        &&& self.bound_to(c)
    }

    /// The cell at `row` of `col`.
    pub open spec fn cell(self, col: Column, row: int) -> nat {
        match col {
            Column::Result => self.result[row],
            Column::Exponent => self.exponent[row],
            Column::Base => self.base[row],
        }
    }

    /// The same trace with the cell at `row` of `col` replaced by `v`.
    pub open spec fn with_cell(self, col: Column, row: int, v: nat) -> TraceView {
        match col {
            Column::Result => TraceView { result: self.result.update(row, v), ..self },
            Column::Exponent => TraceView { exponent: self.exponent.update(row, v), ..self },
            Column::Base => TraceView { base: self.base.update(row, v), ..self },
        }
    }

    /// The trace that the assigner builds for base `b` and exponent `e`:
    /// `e` rows, row `i` holding `b^(i+1)`, `e - i` and `b`, with the transition constraint
    /// on every row but the last.
    pub open spec fn is_witness(self, b: nat, e: nat) -> bool {
        &&& self.len() == e
        &&& self.exponent.len() == e
        &&& self.base.len() == e
        &&& self.selector.len() == e
        &&& forall|i: int| 0 <= i < e ==> #[trigger] self.result[i] == field_pow(b, (i + 1) as nat)
        &&& forall|i: int| 0 <= i < e ==> #[trigger] self.exponent[i] == e - i
        &&& forall|i: int| 0 <= i < e ==> #[trigger] self.base[i] == b
        &&& forall|i: int| 0 <= i < e ==> #[trigger] self.selector[i] == (i + 1 < e)
    }
}

/// The selector policy: in a trace of `rows` occupied rows the transition constraint is on
/// every row that has a next row, and off on the last.
pub fn selector_enabled(row: usize, rows: usize) -> (r: bool)
    ensures
        r == (row + 1 < rows),
{
    row < rows && rows - row > 1
}

impl ExpTrace {
    /// The number of occupied rows.
    pub fn rows(&self) -> (r: usize)
        ensures
            r == self@.len(),
    {
        self.result.len()
    }

    /// The last cell of the Result column: the computed power.
    pub fn final_result(&self) -> (r: &Felt)
        requires
            self@.len() >= 1,
        ensures
            *r == self.result@[self.result@.len() - 1],
    {
        &self.result[self.result.len() - 1]
    }

    /// Fills the trace for `base^exponent` by repeated multiplication,
    /// stopping at the row whose exponent is 1, in a trace that may hold
    /// `height` rows and needs a row to spare.
    pub fn assign(base: &Felt, exponent: &Felt, height: usize) -> (r: Result<ExpTrace, ExpError>)
        ensures
            exponent.value() == 0 ==> r == Err::<ExpTrace, ExpError>(ExpError::UndefinedRecurrenceError),
            exponent.value() >= 1 && exponent.value() >= height ==> r == Err::<ExpTrace, ExpError>(ExpError::CapacityError),
            1 <= exponent.value() < height ==> (r matches Ok(t) && t@.is_witness(base.value(), exponent.value())),
    {
        proof {
            use_type_invariant(base);
            use_type_invariant(exponent);
        }
        let ghost b = base.value();
        let ghost e = exponent.value();
        let one = Felt::one();
        if exponent.equals(&Felt::zero()) {
            return Err(ExpError::UndefinedRecurrenceError);
        }
        if height < 2 {
            return Err(ExpError::CapacityError);
        }
        let mut result: Vec<Felt> = Vec::new();
        let mut exps: Vec<Felt> = Vec::new();
        let mut bases: Vec<Felt> = Vec::new();
        result.push(*base);
        exps.push(*exponent);
        bases.push(*base);
        proof {
            lemma_field_pow_one(b);
        }
        let mut cur_r: Felt = *base;
        let mut cur_e: Felt = *exponent;
        let mut i: usize = 0;
        while !cur_e.equals(&one)
            invariant
                b == base.value(),
                e == exponent.value(),
                b < modulus(),
                e < modulus(),
                one.value() == 1,
                i + 1 < height,
                i < e,
                result@.len() == i + 1,
                exps@.len() == i + 1,
                bases@.len() == i + 1,
                cur_r.value() == field_pow(b, (i + 1) as nat),
                cur_e.value() == e - i,
                forall|j: int| 0 <= j <= i ==> #[trigger] result@[j].value() == field_pow(b, (j + 1) as nat),
                forall|j: int| 0 <= j <= i ==> #[trigger] exps@[j].value() == e - j,
                forall|j: int| 0 <= j <= i ==> #[trigger] bases@[j].value() == b,
            decreases e - i,
        {
            if i + 2 >= height {
                return Err(ExpError::CapacityError);
            }
            let next_r = cur_r.mul(base);
            let next_e = cur_e.sub(&one);
            proof {
                lemma_small_mod((e - i - 1) as nat, modulus());
                assert(e - i + modulus() - 1 == (e - i - 1) + modulus());
                vstd::arithmetic::div_mod::lemma_mod_add_multiples_vanish((e - i - 1) as int, modulus() as int);
            }
            result.push(next_r);
            exps.push(next_e);
            bases.push(*base);
            cur_r = next_r;
            cur_e = next_e;
            i = i + 1;
        }
        let rows = i + 1;
        let mut selector: Vec<bool> = Vec::new();
        let mut j: usize = 0;
        while j < rows
            invariant
                j <= rows,
                selector@.len() == j,
                forall|k: int| 0 <= k < j ==> #[trigger] selector@[k] == (k + 1 < rows),
            decreases rows - j,
        {
            selector.push(selector_enabled(j, rows));
            j = j + 1;
        }
        let t = ExpTrace { result, exponent: exps, base: bases, selector };
        proof {
            assert(t@.is_witness(b, e));
        }
        Ok(t)
    }

    /// Checks the transition constraint on every selected row and the copy constraints to the
    /// public inputs.
    pub fn is_satisfied(&self, public: &PublicInputs) -> (r: bool)
        ensures
            r == self@.satisfied(public@),
    {
        let n = self.result.len();
        if n == 0 || self.exponent.len() != n || self.base.len() != n || self.selector.len() != n {
            return false;
        }
        if !self.result[0].equals(&public.base) || !self.base[0].equals(&public.base)
            || !self.exponent[0].equals(&public.exponent) || !self.result[n - 1].equals(
            &public.result,
        ) {
            return false;
        }
        let one = Felt::one();
        let mut i: usize = 0;
        while i < n
            invariant
                n == self.result@.len(),
                self@.well_shaped(),
                one.value() == 1,
                i <= n,
                forall|k: int| 0 <= k < i && #[trigger] self@.selector[k] ==> self@.gate_holds(k),
            decreases n - i,
        {
            if self.selector[i] {
                if i + 1 >= n {
                    return false;
                }
                let product = self.result[i].mul(&self.base[i]);
                let stepped = self.exponent[i + 1].add(&one);
                if !self.result[i + 1].equals(&product) || !self.exponent[i].equals(&stepped)
                    || !self.base[i + 1].equals(&self.base[i]) {
                    return false;
                }
            }
            i = i + 1;
        }
        true
    }
}

} // verus!
