//! Binding named inputs and taking in the full assignment.
//!
//! A circuit declares input signals by name, each with the number of
//! values it takes. A builder collects values under names. Before the
//! witness calculation is asked, the names are checked against the
//! declaration; what the calculation hands back is taken in only if it
//! gives every wire a value and meets every constraint.
use crate::circuit::{constraint_holds, satisfied, ConstraintSystem, SystemView};
use crate::error::WitnessError;
use crate::field::{field_values, modulus, FieldElement};
use crate::bytes::le_value;
use vstd::prelude::*;

verus! {

/// An input signal that a circuit declares.
#[derive(Debug, Clone, PartialEq, Eq)]
pub struct InputSignal {
    pub name: String,
    /// The number of values that the signal takes.
    pub len: usize,
}

/// The values bound to one name, in the order in which they were bound.
#[derive(Debug, Clone, PartialEq, Eq)]
pub struct Binding {
    pub name: String,
    pub values: Vec<FieldElement>,
}

/// A declared signal as plain values.
pub struct SignalView {
    pub name: Seq<char>,
    pub len: nat,
}

/// A binding as plain values.
pub struct BindingView {
    pub name: Seq<char>,
    pub values: Seq<nat>,
}

pub open spec fn signals_view(signals: Seq<InputSignal>) -> Seq<SignalView> {
    signals.map_values(|s: InputSignal| SignalView { name: s.name@, len: s.len as nat })
}

pub open spec fn bindings_view(bindings: Seq<Binding>) -> Seq<BindingView> {
    bindings.map_values(|b: Binding| BindingView { name: b.name@, values: field_values(b.values@) })
}

/// Whether a signal of that name is declared.
pub open spec fn is_declared(declared: Seq<SignalView>, name: Seq<char>) -> bool {
    exists|i: int| 0 <= i < declared.len() && (#[trigger] declared[i]).name == name
}

/// Whether values are bound under that name.
pub open spec fn is_bound(bound: Seq<BindingView>, name: Seq<char>) -> bool {
    exists|i: int| 0 <= i < bound.len() && (#[trigger] bound[i]).name == name
}

/// The place of the first binding under that name.
pub open spec fn binding_index(bound: Seq<BindingView>, name: Seq<char>) -> int {
    choose|i: int|
        0 <= i < bound.len() && (#[trigger] bound[i]).name == name && forall|k: int|
            0 <= k < i ==> (#[trigger] bound[k]).name != name
}

/// The number of values bound under that name.
pub open spec fn bound_count(bound: Seq<BindingView>, name: Seq<char>) -> nat {
    if is_bound(bound, name) {
        bound[binding_index(bound, name)].values.len()
    } else {
        0
    }
}

/// The bindings after one more value is bound under a name: the value
/// joins the first binding of that name, or starts a new one at the end.
pub open spec fn with_value(bound: Seq<BindingView>, name: Seq<char>, value: nat) -> Seq<
    BindingView,
> {
    if is_bound(bound, name) {
        let i = binding_index(bound, name);
        bound.update(i, BindingView { name, values: bound[i].values.push(value) })
    } else {
        bound.push(BindingView { name, values: seq![value] })
    }
}

/// Whether binding number `i` is under a name that is not declared.
pub open spec fn unknown_at(declared: Seq<SignalView>, bound: Seq<BindingView>, i: int) -> bool {
    !is_declared(declared, bound[i].name)
}

/// Whether declared signal number `j` has another number of values bound
/// than it takes.
pub open spec fn miscounted_at(declared: Seq<SignalView>, bound: Seq<BindingView>, j: int)
    -> bool {
    bound_count(bound, declared[j].name) != declared[j].len
}

/// What is wrong with the bindings, as far as the declaration tells.
pub enum BindingFault {
    /// Binding number `index` is under a name that is not declared, and it
    /// is the first such.
    Unknown { index: int },
    /// Declared signal number `index` has too few values, and it is the
    /// first with a wrong number.
    Missing { index: int },
    /// Declared signal number `index` has too many values, and it is the
    /// first with a wrong number.
    Surplus { index: int },
}

/// The first fault of the bindings: an undeclared name before a wrong
/// number of values, each the first of its kind.
pub open spec fn binding_fault(declared: Seq<SignalView>, bound: Seq<BindingView>) -> Option<
    BindingFault,
> {
    if exists|i: int| 0 <= i < bound.len() && #[trigger] unknown_at(declared, bound, i) {
        Some(
            BindingFault::Unknown {
                index: choose|i: int|
                    0 <= i < bound.len() && #[trigger] unknown_at(declared, bound, i) && forall|
                        k: int,
                    |
                        0 <= k < i ==> !#[trigger] unknown_at(declared, bound, k),
            },
        )
    } else if exists|j: int| 0 <= j < declared.len() && #[trigger] miscounted_at(declared, bound, j) {
        let j = choose|j: int|
            0 <= j < declared.len() && #[trigger] miscounted_at(declared, bound, j) && forall|
                k: int,
            |
                0 <= k < j ==> !#[trigger] miscounted_at(declared, bound, k);
        if bound_count(bound, declared[j].name) < declared[j].len {
            Some(BindingFault::Missing { index: j })
        } else {
            Some(BindingFault::Surplus { index: j })
        }
    } else {
        None
    }
}

/// Whether an error of the builder is the one that the fault calls for.
pub open spec fn reports(
    error: WitnessError,
    fault: BindingFault,
    declared: Seq<SignalView>,
    bound: Seq<BindingView>,
) -> bool {
    match fault {
        BindingFault::Unknown { index } => error matches WitnessError::UnknownInput { name }
            && name@ == bound[index].name,
        BindingFault::Missing { index } => error matches WitnessError::MissingInput { name }
            && name@ == declared[index].name,
        BindingFault::Surplus { index } => error matches WitnessError::SurplusInput { name }
            && name@ == declared[index].name,
    }
}

/// The place of the first signal of that name.
fn find_signal(declared: &Vec<InputSignal>, name: &String) -> (found: Option<usize>)
    ensures
        found is Some <==> is_declared(signals_view(declared@), name@),
        found matches Some(i) ==> i < declared@.len() && declared@[i as int].name@ == name@,
{
    let ghost view = signals_view(declared@);
    let mut i: usize = 0;
    while i < declared.len()
        invariant
            i <= declared@.len(),
            view == signals_view(declared@),
            forall|k: int| 0 <= k < i ==> (#[trigger] view[k]).name != name@,
        decreases declared@.len() - i,
    {
        if declared[i].name == *name {
            assert(view[i as int].name == name@);
            return Some(i);
        }
        i = i + 1;
    }
    None
}

/// The place of the first binding under that name.
fn find_binding(bound: &Vec<Binding>, name: &String) -> (found: Option<usize>)
    ensures
        found is Some <==> is_bound(bindings_view(bound@), name@),
        found matches Some(i) ==> i == binding_index(bindings_view(bound@), name@) && i
            < bound@.len(),
{
    let ghost view = bindings_view(bound@);
    let mut i: usize = 0;
    while i < bound.len()
        invariant
            i <= bound@.len(),
            view == bindings_view(bound@),
            forall|k: int| 0 <= k < i ==> (#[trigger] view[k]).name != name@,
        decreases bound@.len() - i,
    {
        if bound[i].name == *name {
            proof {
                assert(view[i as int].name == name@);
                let j = binding_index(view, name@);
                if j < i {
                    assert(view[j].name != name@);
                }
                if i < j {
                    assert(view[i as int].name != name@);
                }
            }
            return Some(i);
        }
        i = i + 1;
    }
    None
}

/// The number of values bound under that name.
fn count_bound(bound: &Vec<Binding>, name: &String) -> (count: usize)
    ensures
        count == bound_count(bindings_view(bound@), name@),
{
    match find_binding(bound, name) {
        Some(i) => {
            assert(bindings_view(bound@)[i as int].values.len() == bound@[i as int].values@.len());
            bound[i].values.len()
        },
        None => 0,
    }
}

/// Where no name is undeclared and signal number `j` is the first with a
/// wrong number of values, the fault of the bindings is that one.
proof fn lemma_fault_is_miscount(declared: Seq<SignalView>, bound: Seq<BindingView>, j: int)
    requires
        0 <= j < declared.len(),
        forall|k: int| 0 <= k < bound.len() ==> !#[trigger] unknown_at(declared, bound, k),
        forall|k: int| 0 <= k < j ==> !#[trigger] miscounted_at(declared, bound, k),
        miscounted_at(declared, bound, j),
    ensures
        binding_fault(declared, bound) == Some(
            if bound_count(bound, declared[j].name) < declared[j].len {
                BindingFault::Missing { index: j }
            } else {
                BindingFault::Surplus { index: j }
            },
        ),
{
    let first = choose|f: int|
        0 <= f < declared.len() && #[trigger] miscounted_at(declared, bound, f) && forall|k: int|
            0 <= k < f ==> !#[trigger] miscounted_at(declared, bound, k);
    if first < j {
        assert(!miscounted_at(declared, bound, first));
    }
    if j < first {
        assert(!miscounted_at(declared, bound, j));
    }
}

/// Where binding number `i` is the first under an undeclared name, the
/// fault of the bindings is that one.
proof fn lemma_fault_is_unknown(declared: Seq<SignalView>, bound: Seq<BindingView>, i: int)
    requires
        0 <= i < bound.len(),
        forall|k: int| 0 <= k < i ==> !#[trigger] unknown_at(declared, bound, k),
        unknown_at(declared, bound, i),
    ensures
        binding_fault(declared, bound) == Some(BindingFault::Unknown { index: i }),
{
    let first = choose|f: int|
        0 <= f < bound.len() && #[trigger] unknown_at(declared, bound, f) && forall|k: int|
            0 <= k < f ==> !#[trigger] unknown_at(declared, bound, k);
    if first < i {
        assert(!unknown_at(declared, bound, first));
    }
    if i < first {
        assert(!unknown_at(declared, bound, i));
    }
}

/// Collects named input values for one proof request.
#[derive(Debug)]
pub struct WitnessBuilder {
    declared: Vec<InputSignal>,
    bound: Vec<Binding>,
}

impl WitnessBuilder {
    /// The signals that the circuit declares.
    pub closed spec fn declared(&self) -> Seq<SignalView> {
        signals_view(self.declared@)
    }

    /// The values bound so far.
    pub closed spec fn bound(&self) -> Seq<BindingView> {
        bindings_view(self.bound@)
    }

    /// A builder for a circuit that declares the given input signals, with
    /// nothing bound.
    pub fn new(declared: Vec<InputSignal>) -> (builder: WitnessBuilder)
        ensures
            builder.declared() == signals_view(declared@),
            builder.bound() == Seq::<BindingView>::empty(),
    {
        let builder = WitnessBuilder { declared, bound: Vec::new() };
        assert(builder.bound() =~= Seq::<BindingView>::empty());
        builder
    }

    /// Binds one more value under a name. The value is a non-negative
    /// integer of any size, given by its little-endian bytes; it is
    /// reduced modulo the field's prime. The name is not looked at here:
    /// a name that the circuit does not declare makes `check` and `build`
    /// fail.
    pub fn bind(&mut self, name: &str, value: &[u8])
        ensures
            final(self).declared() == old(self).declared(),
            final(self).bound() == with_value(
                old(self).bound(),
                name@,
                le_value(value@) % modulus(),
            ),
    {
        let element = FieldElement::reduce(value);
        self.bind_element(name, element);
    }

    /// Binds one more value under a name.
    pub fn bind_element(&mut self, name: &str, element: FieldElement)
        ensures
            final(self).declared() == old(self).declared(),
            final(self).bound() == with_value(old(self).bound(), name@, element@),
    {
        let ghost before = bindings_view(self.bound@);
        let owned = name.to_owned();
        match find_binding(&self.bound, &owned) {
            Some(i) => {
                let mut values = self.bound[i].values.clone();
                assert(field_values(values@) == field_values(self.bound@[i as int].values@)) by {
                    lemma_same_values(values@, self.bound@[i as int].values@);
                }
                values.push(element);
                self.bound.set(i, Binding { name: owned, values });
                assert(bindings_view(self.bound@) =~= with_value(before, name@, element@)) by {
                    assert(field_values(values@) =~= before[i as int].values.push(element@));
                }
            },
            None => {
                let mut values: Vec<FieldElement> = Vec::new();
                values.push(element);
                self.bound.push(Binding { name: owned, values });
                assert(bindings_view(self.bound@) =~= with_value(before, name@, element@)) by {
                    assert(field_values(values@) =~= seq![element@]);
                }
            },
        }
    }

    /// The bindings, as they are to be handed to the witness calculation.
    pub fn bindings(&self) -> (bound: &Vec<Binding>)
        ensures
            bindings_view(bound@) == self.bound(),
    {
        &self.bound
    }

    /// Checks the bindings against the declaration: every name must be
    /// declared, and every declared signal must have as many values as it
    /// takes.
    pub fn check(&self) -> (result: Result<(), WitnessError>)
        ensures
            match result {
                Ok(_) => binding_fault(self.declared(), self.bound()) is None,
                Err(e) => binding_fault(self.declared(), self.bound()) matches Some(fault)
                    && reports(e, fault, self.declared(), self.bound()),
            },
    {
        let ghost declared = signals_view(self.declared@);
        let ghost bound = bindings_view(self.bound@);
        let mut i: usize = 0;
        while i < self.bound.len()
            invariant
                i <= self.bound@.len(),
                declared == signals_view(self.declared@),
                bound == bindings_view(self.bound@),
                forall|k: int| 0 <= k < i ==> !#[trigger] unknown_at(declared, bound, k),
            decreases self.bound@.len() - i,
        {
            match find_signal(&self.declared, &self.bound[i].name) {
                Some(_) => {},
                None => {
                    proof {
                        assert(bound[i as int].name == self.bound@[i as int].name@);
                        lemma_fault_is_unknown(declared, bound, i as int);
                    }
                    return Err(WitnessError::UnknownInput { name: self.bound[i].name.clone() });
                },
            }
            i = i + 1;
        }
        let mut j: usize = 0;
        while j < self.declared.len()
            invariant
                j <= self.declared@.len(),
                declared == signals_view(self.declared@),
                bound == bindings_view(self.bound@),
                forall|k: int| 0 <= k < bound.len() ==> !#[trigger] unknown_at(declared, bound, k),
                forall|k: int| 0 <= k < j ==> !#[trigger] miscounted_at(declared, bound, k),
            decreases self.declared@.len() - j,
        {
            let signal = &self.declared[j];
            let count = count_bound(&self.bound, &signal.name);
            assert(declared[j as int].name == signal.name@);
            if count != signal.len {
                proof {
                    lemma_fault_is_miscount(declared, bound, j as int);
                }
                if count < signal.len {
                    return Err(WitnessError::MissingInput { name: signal.name.clone() });
                } else {
                    return Err(WitnessError::SurplusInput { name: signal.name.clone() });
                }
            }
            j = j + 1;
        }
        Ok(())
    }

    /// Takes in what the witness calculation made of the bindings: the
    /// full assignment, or `None` where it found none. The bindings are
    /// checked first, as `check` does. The assignment is accepted only if
    /// it gives every wire of the circuit a value, the constant wire the
    /// value one, and meets every constraint.
    pub fn build(&self, system: &ConstraintSystem, solved: Option<Vec<FieldElement>>) -> (result:
        Result<WitnessAssignment, WitnessError>)
        ensures
            match result {
                Ok(witness) => {
                    &&& binding_fault(self.declared(), self.bound()) is None
                    &&& solved matches Some(values) && witness@ == field_values(values@)
                    &&& satisfied(system@, witness@)
                },
                Err(e) => match binding_fault(self.declared(), self.bound()) {
                    Some(fault) => reports(e, fault, self.declared(), self.bound()),
                    None => match solved {
                        None => e == WitnessError::NoSolution,
                        Some(values) => solution_fault(system@, field_values(values@)) == Some(e),
                    },
                },
            },
    {
        match self.check() {
            Err(e) => {
                return Err(e);
            },
            Ok(_) => {},
        }
        let values = match solved {
            None => {
                return Err(WitnessError::NoSolution);
            },
            Some(values) => values,
        };
        match check_solution(system, &values) {
            Some(e) => Err(e),
            None => Ok(WitnessAssignment { values }),
        }
    }
}

/// Negative binding: once a value is bound under a name that the circuit
/// does not declare, the bindings have a fault, and it is an undeclared
/// name. So `check` and `build` fail, whatever else is bound and whatever
/// the witness calculation hands back.
pub proof fn lemma_undeclared_name_fails(
    declared: Seq<SignalView>,
    bound: Seq<BindingView>,
    name: Seq<char>,
    value: nat,
)
    requires
        !is_declared(declared, name),
    ensures
        binding_fault(declared, with_value(bound, name, value)) matches Some(
            BindingFault::Unknown { index },
        ) && 0 <= index < with_value(bound, name, value).len(),
{
    let after = with_value(bound, name, value);
    if is_bound(bound, name) {
        let some = choose|i: int| 0 <= i < bound.len() && (#[trigger] bound[i]).name == name;
        lemma_first_bound(bound, name, some);
        let i = binding_index(bound, name);
        assert(0 <= i < bound.len());
        assert(after[i].name == name);
        assert(unknown_at(declared, after, i));
        lemma_first_unknown(declared, after, i);
    } else {
        let i = bound.len() as int;
        assert(after[i].name == name);
        assert(unknown_at(declared, after, i));
        lemma_first_unknown(declared, after, i);
    }
}

/// Where some binding is under a name, there is a first one.
proof fn lemma_first_bound(bound: Seq<BindingView>, name: Seq<char>, i: int)
    requires
        0 <= i < bound.len(),
        bound[i].name == name,
    ensures
        exists|j: int|
            0 <= j <= i && (#[trigger] bound[j]).name == name && forall|k: int|
                0 <= k < j ==> (#[trigger] bound[k]).name != name,
    decreases i,
{
    if exists|k: int| 0 <= k < i && (#[trigger] bound[k]).name == name {
        let k = choose|k: int| 0 <= k < i && (#[trigger] bound[k]).name == name;
        lemma_first_bound(bound, name, k);
    }
}

/// Where some binding is under an undeclared name, there is a first one.
proof fn lemma_first_unknown(declared: Seq<SignalView>, bound: Seq<BindingView>, i: int)
    requires
        0 <= i < bound.len(),
        unknown_at(declared, bound, i),
    ensures
        exists|j: int|
            0 <= j <= i && #[trigger] unknown_at(declared, bound, j) && forall|k: int|
                0 <= k < j ==> !#[trigger] unknown_at(declared, bound, k),
    decreases i,
{
    if exists|k: int| 0 <= k < i && #[trigger] unknown_at(declared, bound, k) {
        let k = choose|k: int| 0 <= k < i && #[trigger] unknown_at(declared, bound, k);
        lemma_first_unknown(declared, bound, k);
    }
}

/// The inputs of the product circuit `c = a * b`: the signals `a` and `b`,
/// one value each, with the two given values bound to them.
pub fn product_inputs(a: u64, b: u64) -> (builder: WitnessBuilder)
    ensures
        builder.declared() == seq![
            SignalView { name: "a"@, len: 1 },
            SignalView { name: "b"@, len: 1 },
        ],
        builder.bound() == seq![
            BindingView { name: "a"@, values: seq![a as nat] },
            BindingView { name: "b"@, values: seq![b as nat] },
        ],
{
    let mut declared: Vec<InputSignal> = Vec::new();
    declared.push(InputSignal { name: "a".to_owned(), len: 1 });
    declared.push(InputSignal { name: "b".to_owned(), len: 1 });
    let mut builder = WitnessBuilder::new(declared);
    assert(builder.declared() =~= seq![
        SignalView { name: "a"@, len: 1 },
        SignalView { name: "b"@, len: 1 },
    ]);
    builder.bind_element("a", FieldElement::from_u64(a));
    let ghost first = seq![BindingView { name: "a"@, values: seq![a as nat] }];
    assert(builder.bound() =~= first);
    builder.bind_element("b", FieldElement::from_u64(b));
    proof {
        reveal_strlit("a");
        reveal_strlit("b");
        assert("a"@[0] != "b"@[0]);
        assert(first[0].name != "b"@);
        assert(!is_bound(first, "b"@));
        assert(builder.bound() =~= seq![
            BindingView { name: "a"@, values: seq![a as nat] },
            BindingView { name: "b"@, values: seq![b as nat] },
        ]);
    }
    builder
}

/// Cloned elements stand for the same numbers.
proof fn lemma_same_values(a: Seq<FieldElement>, b: Seq<FieldElement>)
    requires
        a == b,
    ensures
        field_values(a) == field_values(b),
{
}

/// Why an assignment is not a witness of the circuit, if there is a
/// reason: it has the wrong length, has no one on the constant wire, or
/// breaks a constraint, the first such being named.
pub open spec fn solution_fault(system: SystemView, values: Seq<nat>) -> Option<WitnessError> {
    if values.len() != system.num_wires {
        Some(
            WitnessError::WrongWireCount {
                expected: system.num_wires as usize,
                found: values.len() as usize,
            },
        )
    } else if values[0] != 1 {
        Some(WitnessError::ConstantWireNotOne)
    } else if exists|i: int|
        0 <= i < system.constraints.len() && !constraint_holds(
            #[trigger] system.constraints[i],
            values,
        ) {
        Some(
            WitnessError::Unsatisfied {
                constraint: crate::groth16::first_broken_index(system, values) as usize,
            },
        )
    } else {
        None
    }
}

/// Why an assignment is not a witness of the circuit, if there is a reason.
pub fn check_solution(system: &ConstraintSystem, values: &Vec<FieldElement>) -> (fault: Option<
    WitnessError,
>)
    ensures
        fault == solution_fault(system@, field_values(values@)),
        fault is None <==> satisfied(system@, field_values(values@)),
{
    match crate::groth16::check_assignment(system, values) {
        None => None,
        Some(crate::error::ProveError::WrongWireCount { expected, found }) => Some(
            WitnessError::WrongWireCount { expected, found },
        ),
        Some(crate::error::ProveError::ConstantWireNotOne) => Some(
            WitnessError::ConstantWireNotOne,
        ),
        Some(crate::error::ProveError::Unsatisfied { constraint }) => Some(
            WitnessError::Unsatisfied { constraint },
        ),
        Some(_) => {
            assert(false);
            None
        },
    }
}

/// A full assignment: a value for every wire of a circuit.
#[derive(Debug, Clone, PartialEq, Eq)]
pub struct WitnessAssignment {
    values: Vec<FieldElement>,
}

impl View for WitnessAssignment {
    type V = Seq<nat>;

    closed spec fn view(&self) -> Seq<nat> {
        field_values(self.values@)
    }
}

impl WitnessAssignment {
    /// The assignment with the given values, unchecked: proving checks it.
    pub fn from_values(values: Vec<FieldElement>) -> (witness: WitnessAssignment)
        ensures
            witness@ == field_values(values@),
    {
        WitnessAssignment { values }
    }

    /// The values, one for each wire.
    pub fn values(&self) -> (values: &Vec<FieldElement>)
        ensures
            field_values(values@) == self@,
    {
        &self.values
    }

    /// The public inputs: the values of the public wires after the
    /// constant one, in the order of the wires. `None` where the
    /// assignment has fewer values than the circuit has public wires.
    pub fn public_inputs(&self, system: &ConstraintSystem) -> (inputs: Option<Vec<FieldElement>>)
        ensures
            match inputs {
                Some(inputs) => self@.len() >= system@.num_public && field_values(inputs@)
                    == self@.subrange(1, system@.num_public as int),
                None => self@.len() < system@.num_public,
            },
    {
        let num_public = system.num_public();
        if self.values.len() < num_public {
            return None;
        }
        let mut inputs: Vec<FieldElement> = Vec::new();
        let mut i: usize = 1;
        while i < num_public
            invariant
                1 <= i <= num_public <= self.values@.len(),
                inputs@.len() == i - 1,
                field_values(inputs@) == field_values(self.values@).subrange(1, i as int),
            decreases num_public - i,
        {
            let ghost before = inputs@;
            inputs.push(self.values[i]);
            proof {
                let wanted = field_values(self.values@).subrange(1, i + 1);
                assert(field_values(before) == field_values(self.values@).subrange(1, i as int));
                assert(field_values(inputs@).len() == wanted.len());
                assert forall|k: int| 0 <= k < wanted.len() implies field_values(inputs@)[k]
                    == wanted[k] by {
                    if k < before.len() {
                        assert(inputs@[k] == before[k]);
                        assert(field_values(before)[k] == field_values(self.values@).subrange(
                            1,
                            i as int,
                        )[k]);
                    }
                }
                assert(field_values(inputs@) =~= wanted);
            }
            i = i + 1;
        }
        Some(inputs)
    }
}

} // verus!
