//! Constraint systems: the arithmetic circuit that a proof speaks of.
//!
//! A circuit is a list of constraints over numbered wires. Each constraint
//! holds three linear combinations `a`, `b`, `c` of wires and asks that
//! `a * b = c` in the field. Wire 0 always carries the constant one; the
//! wires after it, up to the number of public wires, are the public inputs.
use crate::bytes::{le_bytes, push_u64_le};
use crate::error::{ArtifactFile, ArtifactLoadError};
use crate::field::{field_bytes, field_values, modulus, FieldElement};
use vstd::prelude::*;

verus! {

/// One term of a linear combination: a coefficient on a wire.
#[derive(Debug, Clone, Copy, PartialEq, Eq)]
pub struct Term {
    pub wire: usize,
    pub coeff: FieldElement,
}

/// One constraint: `a * b = c`.
#[derive(Debug, Clone, PartialEq, Eq)]
pub struct Constraint {
    pub a: Vec<Term>,
    pub b: Vec<Term>,
    pub c: Vec<Term>,
}

/// A term as numbers.
pub struct TermView {
    pub wire: nat,
    pub coeff: nat,
}

/// A constraint as numbers.
pub struct ConstraintView {
    pub a: Seq<TermView>,
    pub b: Seq<TermView>,
    pub c: Seq<TermView>,
}

/// A constraint system as numbers.
pub struct SystemView {
    pub num_public: nat,
    pub num_wires: nat,
    pub constraints: Seq<ConstraintView>,
}

pub open spec fn term_view(term: Term) -> TermView {
    TermView { wire: term.wire as nat, coeff: term.coeff@ }
}

pub open spec fn terms_view(terms: Seq<Term>) -> Seq<TermView> {
    terms.map_values(|t: Term| term_view(t))
}

pub open spec fn constraint_view(constraint: Constraint) -> ConstraintView {
    ConstraintView {
        a: terms_view(constraint.a@),
        b: terms_view(constraint.b@),
        c: terms_view(constraint.c@),
    }
}

pub open spec fn constraints_view(constraints: Seq<Constraint>) -> Seq<ConstraintView> {
    constraints.map_values(|c: Constraint| constraint_view(c))
}

/// The place of the first term that names a wire from `num_wires` on.
pub open spec fn first_stray(terms: Seq<TermView>, num_wires: nat) -> int {
    choose|j: int|
        0 <= j < terms.len() && (#[trigger] terms[j]).wire >= num_wires && forall|k: int|
            0 <= k < j ==> (#[trigger] terms[k]).wire < num_wires
}

/// The wire that the first stray term of a constraint names: the first
/// of `a` if `a` has one, else the first of `b`, else the first of `c`.
pub open spec fn stray_wire(constraint: ConstraintView, num_wires: nat) -> nat {
    if !terms_in_range(constraint.a, num_wires) {
        constraint.a[first_stray(constraint.a, num_wires)].wire
    } else if !terms_in_range(constraint.b, num_wires) {
        constraint.b[first_stray(constraint.b, num_wires)].wire
    } else {
        constraint.c[first_stray(constraint.c, num_wires)].wire
    }
}

/// Whether every term names a wire below `num_wires`.
pub open spec fn terms_in_range(terms: Seq<TermView>, num_wires: nat) -> bool {
    forall|j: int| 0 <= j < terms.len() ==> (#[trigger] terms[j]).wire < num_wires
}

pub open spec fn constraint_in_range(constraint: ConstraintView, num_wires: nat) -> bool {
    &&& terms_in_range(constraint.a, num_wires)
    &&& terms_in_range(constraint.b, num_wires)
    &&& terms_in_range(constraint.c, num_wires)
}

impl SystemView {
    /// A system is well formed when it has the constant wire, no more
    /// public wires than wires, and no term on a wire that does not exist.
    pub open spec fn wf(self) -> bool {
        &&& 1 <= self.num_public <= self.num_wires
        &&& forall|i: int|
            0 <= i < self.constraints.len() ==> constraint_in_range(
                #[trigger] self.constraints[i],
                self.num_wires,
            )
    }
}

/// The value of a linear combination under an assignment, in the field.
pub open spec fn combination_value(terms: Seq<TermView>, assignment: Seq<nat>) -> nat
    decreases terms.len(),
{
    if terms.len() == 0 {
        0
    } else {
        let last = terms.last();
        (combination_value(terms.drop_last(), assignment) + (last.coeff * assignment[last.wire
            as int]) % modulus()) % modulus()
    }
}

/// Whether the assignment meets one constraint.
pub open spec fn constraint_holds(constraint: ConstraintView, assignment: Seq<nat>) -> bool {
    (combination_value(constraint.a, assignment) * combination_value(constraint.b, assignment))
        % modulus() == combination_value(constraint.c, assignment)
}

/// Whether the assignment gives every wire a value and meets every
/// constraint, with the constant one on wire 0.
pub open spec fn satisfied(system: SystemView, assignment: Seq<nat>) -> bool {
    &&& assignment.len() == system.num_wires
    &&& assignment.len() > 0 && assignment[0] == 1
    &&& forall|i: int|
        0 <= i < system.constraints.len() ==> constraint_holds(
            #[trigger] system.constraints[i],
            assignment,
        )
}

/// The place of the first term on a wire from `num_wires` on, if there is one.
fn find_stray(terms: &Vec<Term>, num_wires: usize) -> (found: Option<usize>)
    ensures
        found is None <==> terms_in_range(terms_view(terms@), num_wires as nat),
        found matches Some(j) ==> j < terms@.len() && terms@[j as int].wire >= num_wires && j
            == first_stray(terms_view(terms@), num_wires as nat),
{
    let mut j: usize = 0;
    while j < terms.len()
        invariant
            j <= terms@.len(),
            terms_in_range(terms_view(terms@).take(j as int), num_wires as nat),
        decreases terms@.len() - j,
    {
        if terms[j].wire >= num_wires {
            proof {
                let view = terms_view(terms@);
                assert(view[j as int].wire >= num_wires);
                assert forall|k: int| 0 <= k < j implies (#[trigger] view[k]).wire < num_wires by {
                    assert(view.take(j as int)[k].wire < num_wires);
                }
                let first = first_stray(view, num_wires as nat);
                if first < j {
                    assert(view[first].wire < num_wires);
                }
                if j < first {
                    assert(view[j as int].wire < num_wires);
                }
            }
            return Some(j);
        }
        assert forall|k: int| 0 <= k < j + 1 implies (#[trigger] terms_view(terms@).take(
            j + 1,
        )[k]).wire < num_wires by {
            if k < j {
                assert(terms_view(terms@).take(j as int)[k].wire < num_wires);
            }
        }
        j = j + 1;
    }
    assert(terms_view(terms@).take(j as int) =~= terms_view(terms@));
    None
}

/// The bytes of one term: its wire as a word, then its coefficient.
pub open spec fn term_bytes(term: TermView) -> Seq<u8> {
    le_bytes(term.wire, 8) + field_bytes(term.coeff)
}

/// The bytes of the terms of a combination, one after another.
pub open spec fn terms_body(terms: Seq<TermView>) -> Seq<u8>
    decreases terms.len(),
{
    if terms.len() == 0 {
        Seq::empty()
    } else {
        terms_body(terms.drop_last()) + term_bytes(terms.last())
    }
}

/// The bytes of a combination: the number of its terms as a word, then the
/// terms.
pub open spec fn combination_bytes(terms: Seq<TermView>) -> Seq<u8> {
    le_bytes(terms.len(), 8) + terms_body(terms)
}

/// The bytes of a constraint: its three combinations in the order a, b, c.
pub open spec fn constraint_bytes(constraint: ConstraintView) -> Seq<u8> {
    combination_bytes(constraint.a) + combination_bytes(constraint.b) + combination_bytes(
        constraint.c,
    )
}

/// The bytes of constraints, one after another.
pub open spec fn constraints_body(constraints: Seq<ConstraintView>) -> Seq<u8>
    decreases constraints.len(),
{
    if constraints.len() == 0 {
        Seq::empty()
    } else {
        constraints_body(constraints.drop_last()) + constraint_bytes(constraints.last())
    }
}

/// The bytes of a list of constraints: their number as a word, then the
/// constraints. This is the layout in which the proving backend reads them.
pub open spec fn constraint_list_bytes(constraints: Seq<ConstraintView>) -> Seq<u8> {
    le_bytes(constraints.len(), 8) + constraints_body(constraints)
}

/// The bytes of field elements, one after another.
pub open spec fn values_body(values: Seq<nat>) -> Seq<u8>
    decreases values.len(),
{
    if values.len() == 0 {
        Seq::empty()
    } else {
        values_body(values.drop_last()) + field_bytes(values.last())
    }
}

/// The bytes of a list of field elements: their number as a word, then the
/// elements. This is the layout in which the proving backend reads them.
pub open spec fn value_list_bytes(values: Seq<nat>) -> Seq<u8> {
    le_bytes(values.len(), 8) + values_body(values)
}

/// Whether the bytes of a combination say all of it: it has fewer terms
/// than a word counts, and every coefficient is below the prime.
pub open spec fn terms_canonical(terms: Seq<TermView>) -> bool {
    &&& terms.len() < 0x1_0000_0000_0000_0000nat
    &&& forall|j: int| 0 <= j < terms.len() ==> (#[trigger] terms[j]).coeff < modulus()
}

/// Whether the bytes of a constraint say all of it.
pub open spec fn constraint_canonical(constraint: ConstraintView) -> bool {
    &&& terms_canonical(constraint.a)
    &&& terms_canonical(constraint.b)
    &&& terms_canonical(constraint.c)
}

/// Whether the bytes of a list of constraints say all of it: there are
/// fewer constraints than a word counts, and the bytes of each say all of
/// it.
pub open spec fn constraints_canonical(constraints: Seq<ConstraintView>) -> bool {
    &&& constraints.len() < 0x1_0000_0000_0000_0000nat
    &&& forall|i: int|
        0 <= i < constraints.len() ==> constraint_canonical(#[trigger] constraints[i])
}

/// Whether the bytes of a list of field elements say all of it: there are
/// fewer elements than a word counts, and each is below the prime.
pub open spec fn values_canonical(values: Seq<nat>) -> bool {
    &&& values.len() < 0x1_0000_0000_0000_0000nat
    &&& forall|i: int| 0 <= i < values.len() ==> #[trigger] values[i] < modulus()
}

/// Appends the bytes of a combination to `out`.
fn push_combination(out: &mut Vec<u8>, terms: &Vec<Term>)
    ensures
        final(out)@ == old(out)@ + combination_bytes(terms_view(terms@)),
        terms_canonical(terms_view(terms@)),
{
    let ghost before = out@;
    let ghost view = terms_view(terms@);
    push_u64_le(out, terms.len() as u64);
    let mut j: usize = 0;
    while j < terms.len()
        invariant
            j <= terms@.len(),
            view == terms_view(terms@),
            forall|k: int| 0 <= k < j ==> (#[trigger] view[k]).coeff < modulus(),
            out@ == before + le_bytes(view.len(), 8) + terms_body(view.take(j as int)),
        decreases terms@.len() - j,
    {
        let term = terms[j];
        let ghost so_far = out@;
        push_u64_le(out, term.wire as u64);
        let coeff = term.coeff.encode();
        out.extend_from_slice(coeff.as_slice());
        proof {
            let next = view.take(j + 1);
            assert(next.drop_last() =~= view.take(j as int));
            assert(next.last() == view[j as int]);
            assert(out@ =~= so_far + term_bytes(view[j as int]));
            assert(out@ =~= before + le_bytes(view.len(), 8) + terms_body(next));
        }
        j = j + 1;
    }
    assert(view.take(j as int) =~= view);
    assert(out@ =~= before + combination_bytes(view));
}

/// The bytes of a list of field elements, as the proving backend reads them.
pub fn encode_values(values: &Vec<FieldElement>) -> (bytes: Vec<u8>)
    ensures
        bytes@ == value_list_bytes(field_values(values@)),
        values_canonical(field_values(values@)),
{
    let ghost view = field_values(values@);
    let mut out: Vec<u8> = Vec::new();
    push_u64_le(&mut out, values.len() as u64);
    let mut j: usize = 0;
    while j < values.len()
        invariant
            j <= values@.len(),
            view == field_values(values@),
            forall|k: int| 0 <= k < j ==> #[trigger] view[k] < modulus(),
            out@ == le_bytes(view.len(), 8) + values_body(view.take(j as int)),
        decreases values@.len() - j,
    {
        let ghost so_far = out@;
        let element = values[j].encode();
        out.extend_from_slice(element.as_slice());
        proof {
            let next = view.take(j + 1);
            assert(next.drop_last() =~= view.take(j as int));
            assert(next.last() == view[j as int]);
            assert(out@ =~= so_far + field_bytes(view[j as int]));
            assert(out@ =~= le_bytes(view.len(), 8) + values_body(next));
        }
        j = j + 1;
    }
    assert(view.take(j as int) =~= view);
    out
}

/// The value of a linear combination under an assignment.
pub fn evaluate(terms: &Vec<Term>, assignment: &Vec<FieldElement>) -> (value: FieldElement)
    requires
        terms_in_range(terms_view(terms@), assignment@.len()),
    ensures
        value@ == combination_value(terms_view(terms@), field_values(assignment@)),
        value.canonical(),
{
    let ghost view = terms_view(terms@);
    let ghost values = field_values(assignment@);
    let mut total = FieldElement::zero();
    let mut j: usize = 0;
    while j < terms.len()
        invariant
            j <= terms@.len(),
            view == terms_view(terms@),
            values == field_values(assignment@),
            terms_in_range(view, assignment@.len()),
            total@ == combination_value(view.take(j as int), values),
            total.canonical(),
        decreases terms@.len() - j,
    {
        let term = terms[j];
        assert(view[j as int].wire < assignment@.len());
        let product = term.coeff.times(&assignment[term.wire]);
        total = total.plus(&product);
        proof {
            let next = view.take(j + 1);
            assert(next.drop_last() =~= view.take(j as int));
            assert(next.last() == view[j as int]);
        }
        j = j + 1;
    }
    assert(view.take(j as int) =~= view);
    total
}

/// A constraint system, well formed.
#[derive(Debug, PartialEq, Eq)]
pub struct ConstraintSystem {
    num_public: usize,
    num_wires: usize,
    constraints: Vec<Constraint>,
}

impl View for ConstraintSystem {
    type V = SystemView;

    closed spec fn view(&self) -> SystemView {
        SystemView {
            num_public: self.num_public as nat,
            num_wires: self.num_wires as nat,
            constraints: constraints_view(self.constraints@),
        }
    }
}

impl ConstraintSystem {
    /// Every constraint system is well formed.
    #[verifier::type_invariant]
    pub closed spec fn wf(&self) -> bool {
        self@.wf()
    }

    /// A constraint system stands for a well-formed view.
    pub proof fn lemma_wf(self)
        requires
            self.wf(),
        ensures
            self@.wf(),
    {
    }

    /// Takes a circuit description in, after checking that it is well
    /// formed. `num_public` counts the constant wire and the public inputs.
    pub fn new(num_public: usize, num_wires: usize, constraints: Vec<Constraint>) -> (result:
        Result<ConstraintSystem, ArtifactLoadError>)
        ensures
            match result {
                Ok(system) => {
                    &&& system.wf()
                    &&& system@ == (SystemView {
                        num_public: num_public as nat,
                        num_wires: num_wires as nat,
                        constraints: constraints_view(constraints@),
                    })
                },
                Err(ArtifactLoadError::NoConstantWire) => num_public == 0,
                Err(ArtifactLoadError::PublicExceedsWires { public, wires }) => {
                    &&& num_public > num_wires
                    &&& public == num_public
                    &&& wires == num_wires
                },
                Err(ArtifactLoadError::WireOutOfRange { constraint, wire }) => {
                    &&& 1 <= num_public <= num_wires
                    &&& constraint < constraints@.len()
                    &&& wire >= num_wires
                    &&& wire == stray_wire(
                        constraints_view(constraints@)[constraint as int],
                        num_wires as nat,
                    )
                    &&& !constraint_in_range(
                        constraints_view(constraints@)[constraint as int],
                        num_wires as nat,
                    )
                    &&& forall|i: int|
                        0 <= i < constraint ==> constraint_in_range(
                            #[trigger] constraints_view(constraints@)[i],
                            num_wires as nat,
                        )
                },
                Err(_) => false,
            },
            (SystemView {
                num_public: num_public as nat,
                num_wires: num_wires as nat,
                constraints: constraints_view(constraints@),
            }).wf() ==> result is Ok,
    {
        if num_public == 0 {
            return Err(ArtifactLoadError::NoConstantWire);
        }
        if num_public > num_wires {
            return Err(
                ArtifactLoadError::PublicExceedsWires { public: num_public, wires: num_wires },
            );
        }
        let ghost view = constraints_view(constraints@);
        let mut i: usize = 0;
        while i < constraints.len()
            invariant
                i <= constraints@.len(),
                1 <= num_public <= num_wires,
                view == constraints_view(constraints@),
                forall|k: int|
                    0 <= k < i ==> constraint_in_range(#[trigger] view[k], num_wires as nat),
            decreases constraints@.len() - i,
        {
            let constraint = &constraints[i];
            assert(view[i as int] == constraint_view(*constraint));
            match find_stray(&constraint.a, num_wires) {
                Some(j) => {
                    proof {
                        let terms = terms_view(constraint.a@);
                        assert(terms[j as int].wire >= num_wires);
                        assert(!terms_in_range(terms, num_wires as nat));
                        assert(!constraint_in_range(view[i as int], num_wires as nat));
                        let whole = SystemView {
                            num_public: num_public as nat,
                            num_wires: num_wires as nat,
                            constraints: view,
                        };
                        assert(whole.constraints[i as int] == view[i as int]);
                        assert(!whole.wf());
                    }
                    return Err(
                        ArtifactLoadError::WireOutOfRange {
                            constraint: i,
                            wire: constraint.a[j].wire,
                        },
                    );
                },
                None => {},
            }
            match find_stray(&constraint.b, num_wires) {
                Some(j) => {
                    proof {
                        let terms = terms_view(constraint.b@);
                        assert(terms[j as int].wire >= num_wires);
                        assert(!terms_in_range(terms, num_wires as nat));
                        assert(!constraint_in_range(view[i as int], num_wires as nat));
                        let whole = SystemView {
                            num_public: num_public as nat,
                            num_wires: num_wires as nat,
                            constraints: view,
                        };
                        assert(whole.constraints[i as int] == view[i as int]);
                        assert(!whole.wf());
                    }
                    return Err(
                        ArtifactLoadError::WireOutOfRange {
                            constraint: i,
                            wire: constraint.b[j].wire,
                        },
                    );
                },
                None => {},
            }
            match find_stray(&constraint.c, num_wires) {
                Some(j) => {
                    proof {
                        let terms = terms_view(constraint.c@);
                        assert(terms[j as int].wire >= num_wires);
                        assert(!terms_in_range(terms, num_wires as nat));
                        assert(!constraint_in_range(view[i as int], num_wires as nat));
                        let whole = SystemView {
                            num_public: num_public as nat,
                            num_wires: num_wires as nat,
                            constraints: view,
                        };
                        assert(whole.constraints[i as int] == view[i as int]);
                        assert(!whole.wf());
                    }
                    return Err(
                        ArtifactLoadError::WireOutOfRange {
                            constraint: i,
                            wire: constraint.c[j].wire,
                        },
                    );
                },
                None => {},
            }
            i = i + 1;
        }
        Ok(ConstraintSystem { num_public, num_wires, constraints })
    }

    /// Takes in what was read of the two files of a compiled circuit: of
    /// the constraint file the numbers of public wires and of wires and
    /// the constraints, or `None` where it could not be read; of the
    /// witness module whether it could be read. Both must have been read,
    /// and the constraints must be well formed as `new` asks.
    pub fn load(
        constraint_file: Option<(usize, usize, Vec<Constraint>)>,
        witness_module_read: bool,
    ) -> (result: Result<ConstraintSystem, ArtifactLoadError>)
        ensures
            match result {
                Ok(system) => {
                    &&& constraint_file matches Some(read)
                    &&& witness_module_read
                    &&& system.wf()
                    &&& system@ == (SystemView {
                        num_public: read.0 as nat,
                        num_wires: read.1 as nat,
                        constraints: constraints_view(read.2@),
                    })
                },
                Err(ArtifactLoadError::Unreadable { file }) => match file {
                    ArtifactFile::ConstraintFile => constraint_file is None,
                    ArtifactFile::WitnessModule => constraint_file is Some && !witness_module_read,
                },
                Err(ArtifactLoadError::NotFound) => false,
                Err(ArtifactLoadError::Mismatch { .. }) => false,
                Err(_) => {
                    &&& constraint_file matches Some(read)
                    &&& witness_module_read
                    &&& !(SystemView {
                        num_public: read.0 as nat,
                        num_wires: read.1 as nat,
                        constraints: constraints_view(read.2@),
                    }).wf()
                },
            },
    {
        let (num_public, num_wires, constraints) = match constraint_file {
            None => {
                return Err(ArtifactLoadError::Unreadable { file: ArtifactFile::ConstraintFile });
            },
            Some(read) => read,
        };
        if !witness_module_read {
            return Err(ArtifactLoadError::Unreadable { file: ArtifactFile::WitnessModule });
        }
        ConstraintSystem::new(num_public, num_wires, constraints)
    }

    /// Checks that the two files describe one circuit, as far as the
    /// number of wires tells: the witness module must fill as many wires
    /// as the constraints have.
    pub fn check_witness_size(&self, filled: usize) -> (result: Result<(), ArtifactLoadError>)
        ensures
            match result {
                Ok(_) => filled == self@.num_wires,
                Err(e) => filled != self@.num_wires && e == (ArtifactLoadError::Mismatch {
                    wires: self@.num_wires as usize,
                    witness: filled,
                }),
            },
    {
        if filled == self.num_wires {
            Ok(())
        } else {
            Err(ArtifactLoadError::Mismatch { wires: self.num_wires, witness: filled })
        }
    }

    /// The number of public wires, the constant wire among them.
    pub fn num_public(&self) -> (n: usize)
        ensures
            n == self@.num_public,
            1 <= n <= self@.num_wires,
    {
        proof {
            use_type_invariant(self);
        }
        self.num_public
    }

    /// The number of wires.
    pub fn num_wires(&self) -> (n: usize)
        ensures
            n == self@.num_wires,
    {
        self.num_wires
    }

    /// The number of constraints.
    pub fn num_constraints(&self) -> (n: usize)
        ensures
            n == self@.constraints.len(),
    {
        self.constraints.len()
    }

    /// The constraints.
    pub fn constraints(&self) -> (constraints: &Vec<Constraint>)
        ensures
            constraints_view(constraints@) == self@.constraints,
            self@.wf(),
    {
        proof {
            use_type_invariant(self);
        }
        &self.constraints
    }

    /// The bytes of the constraints, as the proving backend reads them.
    pub fn encode_constraints(&self) -> (bytes: Vec<u8>)
        ensures
            bytes@ == constraint_list_bytes(self@.constraints),
            constraints_canonical(self@.constraints),
    {
        let ghost view = self@.constraints;
        let mut out: Vec<u8> = Vec::new();
        push_u64_le(&mut out, self.constraints.len() as u64);
        let mut i: usize = 0;
        while i < self.constraints.len()
            invariant
                i <= self.constraints@.len(),
                view == self@.constraints,
                forall|k: int| 0 <= k < i ==> constraint_canonical(#[trigger] view[k]),
                out@ == le_bytes(view.len(), 8) + constraints_body(view.take(i as int)),
            decreases self.constraints@.len() - i,
        {
            let constraint = &self.constraints[i];
            let ghost so_far = out@;
            assert(view[i as int] == constraint_view(*constraint));
            push_combination(&mut out, &constraint.a);
            push_combination(&mut out, &constraint.b);
            push_combination(&mut out, &constraint.c);
            proof {
                let next = view.take(i + 1);
                assert(next.drop_last() =~= view.take(i as int));
                assert(next.last() == view[i as int]);
                assert(out@ =~= so_far + constraint_bytes(view[i as int]));
                assert(out@ =~= le_bytes(view.len(), 8) + constraints_body(next));
            }
            i = i + 1;
        }
        assert(view.take(i as int) =~= view);
        out
    }

    /// The first constraint that the assignment breaks, if it breaks one.
    /// The assignment must give every wire a value.
    pub fn first_broken(&self, assignment: &Vec<FieldElement>) -> (broken: Option<usize>)
        requires
            assignment@.len() == self@.num_wires,
        ensures
            match broken {
                Some(i) => {
                    &&& i < self@.constraints.len()
                    &&& !constraint_holds(
                        self@.constraints[i as int],
                        field_values(assignment@),
                    )
                    &&& forall|k: int|
                        0 <= k < i ==> constraint_holds(
                            #[trigger] self@.constraints[k],
                            field_values(assignment@),
                        )
                },
                None => forall|k: int|
                    0 <= k < self@.constraints.len() ==> constraint_holds(
                        #[trigger] self@.constraints[k],
                        field_values(assignment@),
                    ),
            },
    {
        proof {
            use_type_invariant(self);
        }
        let ghost values = field_values(assignment@);
        let mut i: usize = 0;
        while i < self.constraints.len()
            invariant
                i <= self.constraints@.len(),
                self@.wf(),
                assignment@.len() == self@.num_wires,
                values == field_values(assignment@),
                forall|k: int| 0 <= k < i ==> constraint_holds(#[trigger] self@.constraints[k], values),
            decreases self.constraints@.len() - i,
        {
            let constraint = &self.constraints[i];
            assert(self@.constraints[i as int] == constraint_view(*constraint));
            assert(constraint_in_range(self@.constraints[i as int], self@.num_wires));
            let a = evaluate(&constraint.a, assignment);
            let b = evaluate(&constraint.b, assignment);
            let c = evaluate(&constraint.c, assignment);
            if !a.times(&b).same(&c) {
                return Some(i);
            }
            i = i + 1;
        }
        None
    }
}

} // verus!
