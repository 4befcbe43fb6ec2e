use vstd::prelude::*;
use crate::circuit::{CircuitError, RegexSha2Base64Config};
use crate::pattern::{StatePair, SubstrDef, SubstrDefView, Transition};

verus! {

/// The fixed structural parameters of a composed circuit: its degree, its capacity, the
/// automaton tables it loads and the substring patterns it extracts.
pub struct CircuitShape {
    /// The constraint system's degree: the circuit has `2^degree` rows.
    pub degree: u32,
    pub max_byte_size: usize,
    pub skip_prefix: usize,
    pub initial: u64,
    pub transitions: Vec<Transition>,
    pub accepting: Vec<u64>,
    pub patterns: Vec<SubstrDef>,
}

/// A shape as a mathematical value.
pub struct ShapeView {
    pub degree: u32,
    pub max_byte_size: usize,
    pub skip_prefix: usize,
    pub initial: u64,
    pub transitions: Seq<Transition>,
    pub accepting: Seq<u64>,
    pub patterns: Seq<SubstrDefView>,
}

/// The views of a sequence of patterns.
pub open spec fn defs_view(defs: Seq<SubstrDef>) -> Seq<SubstrDefView> {
    Seq::new(defs.len(), |i: int| defs[i]@)
}

impl View for CircuitShape {
    type V = ShapeView;

    open spec fn view(&self) -> ShapeView {
        ShapeView {
            degree: self.degree,
            max_byte_size: self.max_byte_size,
            skip_prefix: self.skip_prefix,
            initial: self.initial,
            transitions: self.transitions@,
            accepting: self.accepting@,
            patterns: defs_view(self.patterns@),
        }
    }
}

/// The shape of a circuit of degree `degree` built from a configuration and its patterns.
pub open spec fn shape_of(c: RegexSha2Base64Config, defs: Seq<SubstrDef>, degree: u32) -> ShapeView {
    ShapeView {
        degree,
        max_byte_size: c.max_byte_size,
        skip_prefix: c.skip_prefix,
        initial: c.automaton.initial,
        transitions: c.automaton.transitions@,
        accepting: c.automaton.accepting@,
        patterns: defs_view(defs),
    }
}

fn copy_vec<T: Copy>(v: &Vec<T>) -> (r: Vec<T>)
    ensures
        r@ == v@,
{
    let mut r: Vec<T> = Vec::new();
    let mut i: usize = 0;
    while i < v.len()
        invariant
            i <= v@.len(),
            r@ == v@.subrange(0, i as int),
        decreases v@.len() - i,
    {
        r.push(v[i]);
        assert(r@ =~= v@.subrange(0, i + 1));
        i = i + 1;
    }
    assert(r@ =~= v@);
    r
}

fn copy_defs(v: &[SubstrDef]) -> (r: Vec<SubstrDef>)
    ensures
        defs_view(r@) == defs_view(v@),
{
    let mut r: Vec<SubstrDef> = Vec::new();
    let mut i: usize = 0;
    while i < v.len()
        invariant
            i <= v@.len(),
            r@.len() == i,
            forall|j: int| 0 <= j < i ==> (#[trigger] r@[j])@ == v@[j]@,
        decreases v@.len() - i,
    {
        let d = &v[i];
        r.push(
            SubstrDef {
                max_length: d.max_length,
                min_position: d.min_position,
                max_position: d.max_position,
                transitions: copy_vec(&d.transitions),
            },
        );
        i = i + 1;
    }
    assert(defs_view(r@) =~= defs_view(v@));
    r
}

fn eq_transitions(a: &Vec<Transition>, b: &Vec<Transition>) -> (r: bool)
    ensures
        r == (a@ == b@),
{
    if a.len() != b.len() {
        return false;
    }
    let mut i: usize = 0;
    while i < a.len()
        invariant
            i <= a@.len(),
            a@.len() == b@.len(),
            forall|j: int| 0 <= j < i ==> a@[j] == b@[j],
        decreases a@.len() - i,
    {
        if a[i] != b[i] {
            return false;
        }
        i = i + 1;
    }
    assert(a@ =~= b@);
    true
}

fn eq_pairs(a: &Vec<StatePair>, b: &Vec<StatePair>) -> (r: bool)
    ensures
        r == (a@ == b@),
{
    if a.len() != b.len() {
        return false;
    }
    let mut i: usize = 0;
    while i < a.len()
        invariant
            i <= a@.len(),
            a@.len() == b@.len(),
            forall|j: int| 0 <= j < i ==> a@[j] == b@[j],
        decreases a@.len() - i,
    {
        if a[i] != b[i] {
            return false;
        }
        i = i + 1;
    }
    assert(a@ =~= b@);
    true
}

fn eq_defs(a: &Vec<SubstrDef>, b: &Vec<SubstrDef>) -> (r: bool)
    ensures
        r == (defs_view(a@) == defs_view(b@)),
{
    if a.len() != b.len() {
        assert(defs_view(a@).len() != defs_view(b@).len());
        return false;
    }
    let mut i: usize = 0;
    while i < a.len()
        invariant
            i <= a@.len(),
            a@.len() == b@.len(),
            forall|j: int| 0 <= j < i ==> (#[trigger] a@[j])@ == b@[j]@,
        decreases a@.len() - i,
    {
        let (x, y) = (&a[i], &b[i]);
        if x.max_length != y.max_length || x.min_position != y.min_position || x.max_position
            != y.max_position || !eq_pairs(&x.transitions, &y.transitions) {
            assert(defs_view(a@)[i as int] != defs_view(b@)[i as int]);
            return false;
        }
        i = i + 1;
    }
    assert(defs_view(a@) =~= defs_view(b@));
    true
}

impl CircuitShape {
    /// The shape of a circuit of degree `degree` built from `config` and its patterns.
    pub fn of_config(config: &RegexSha2Base64Config, patterns: &[SubstrDef], degree: u32) -> (r:
        Self)
        ensures
            r@ == shape_of(*config, patterns@, degree),
    {
        CircuitShape {
            degree,
            max_byte_size: config.max_byte_size,
            skip_prefix: config.skip_prefix,
            initial: config.automaton.initial,
            transitions: copy_vec(&config.automaton.transitions),
            accepting: copy_vec(&config.automaton.accepting),
            patterns: copy_defs(patterns),
        }
    }

    /// A copy of the shape.
    pub fn duplicate(&self) -> (r: Self)
        ensures
            r@ == self@,
    {
        CircuitShape {
            degree: self.degree,
            max_byte_size: self.max_byte_size,
            skip_prefix: self.skip_prefix,
            initial: self.initial,
            transitions: copy_vec(&self.transitions),
            accepting: copy_vec(&self.accepting),
            patterns: copy_defs(self.patterns.as_slice()),
        }
    }

    /// Whether two shapes are identical.
    pub fn same_as(&self, other: &CircuitShape) -> (r: bool)
        ensures
            r == (self@ == other@),
    {
        self.degree == other.degree && self.max_byte_size == other.max_byte_size
            && self.skip_prefix == other.skip_prefix && self.initial == other.initial
            && eq_transitions(&self.transitions, &other.transitions) && inputs_equal(
            &self.accepting,
            &other.accepting,
        ) && eq_defs(&self.patterns, &other.patterns)
    }
}

/// Public setup parameters, sized by their degree.
pub struct SetupParams {
    pub degree: u32,
}

/// What key generation derives for one shape, for proving.
pub struct ProvingArtifact {
    pub shape: CircuitShape,
}

/// What key generation derives for one shape, for verifying.
pub struct VerifyingArtifact {
    pub shape: CircuitShape,
}

/// A proof, with the shape it was made for and its public inputs.
pub struct Proof {
    pub shape: CircuitShape,
    pub public_inputs: Vec<u64>,
    /// How many inner proofs it aggregates; zero for an application proof.
    pub inner_count: usize,
}

#[derive(Clone, Copy, Debug, PartialEq, Eq, Structural)]
pub enum PipelineError {
    /// Downsizing asked for a degree above the parameters' own.
    DegreeTooLarge,
    /// The parameters are too small for the circuit's degree.
    ParamsTooSmall,
    /// The witness was built for another shape than the proving artifact.
    ShapeMismatch,
    /// The witness does not satisfy the circuit's constraints.
    Unsatisfiable(CircuitError),
    /// Aggregation was asked for no proof at all.
    NoProofs,
    /// An inner proof does not belong to the inner verifying artifact.
    AggregationIncompatible,
}

/// Parameters of degree `k`.
pub fn gen_param(k: u32) -> (r: SetupParams)
    ensures
        r.degree == k,
{
    SetupParams { degree: k }
}

/// The degree that downsizing parameters of degree `degree` to `k` gives, if it is allowed.
pub open spec fn downsized(degree: u32, k: u32) -> Option<u32> {
    if k <= degree {
        Some(k)
    } else {
        None
    }
}

/// Downsizes parameters to degree `k`: an explicit step, never taken implicitly.
pub fn downsize_param(params: &SetupParams, k: u32) -> (r: Result<SetupParams, PipelineError>)
    ensures
        match downsized(params.degree, k) {
            Some(d) => r matches Ok(p) && p.degree == d,
            None => r == Err::<SetupParams, PipelineError>(PipelineError::DegreeTooLarge),
        },
{
    if k > params.degree {
        return Err(PipelineError::DegreeTooLarge);
    }
    Ok(SetupParams { degree: k })
}

/// Whether parameters of degree `degree` can serve a circuit of shape `s`.
pub open spec fn keygen_allowed(degree: u32, s: ShapeView) -> bool {
    s.degree <= degree
}

/// Derives the proving and verifying artifacts of a shape.
pub fn gen_keys(params: &SetupParams, shape: &CircuitShape) -> (r: Result<
    (ProvingArtifact, VerifyingArtifact),
    PipelineError,
>)
    ensures
        keygen_allowed(params.degree, shape@) <==> r is Ok,
        !keygen_allowed(params.degree, shape@) <==> r == Err::<
            (ProvingArtifact, VerifyingArtifact),
            PipelineError,
        >(PipelineError::ParamsTooSmall),
        r matches Ok((pk, vk)) ==> pk.shape@ == shape@ && vk.shape@ == shape@,
{
    if shape.degree > params.degree {
        return Err(PipelineError::ParamsTooSmall);
    }
    Ok((ProvingArtifact { shape: shape.duplicate() }, VerifyingArtifact { shape: shape.duplicate() }))
}

/// Proves the witness of `input` and the substrings in the circuit built from `config` and
/// `substr_defs`. A proving artifact of another shape is refused before any constraint is
/// assigned, and a witness that breaks a constraint gives no proof.
pub fn prove(
    pk: &ProvingArtifact,
    config: &RegexSha2Base64Config,
    substr_defs: &[SubstrDef],
    input: &[u8],
    substrings: &[Vec<u8>],
    public_inputs: &Vec<u64>,
) -> (r: Result<Proof, PipelineError>)
    ensures
        (pk.shape@ != shape_of(*config, substr_defs@, pk.shape.degree)) <==> r == Err::<
            Proof,
            PipelineError,
        >(PipelineError::ShapeMismatch),
        r is Ok <==> (pk.shape@ == shape_of(*config, substr_defs@, pk.shape.degree)
            && config.loaded && substr_defs@.len() == substrings@.len() && config.satisfiable(
            input@,
            substr_defs@,
            substrings@,
        )),
        r matches Ok(p) ==> p.shape@ == pk.shape@ && p.public_inputs@ == public_inputs@
            && p.inner_count == 0,
{
    let witness_shape = CircuitShape::of_config(config, substr_defs, pk.shape.degree);
    if !pk.shape.same_as(&witness_shape) {
        return Err(PipelineError::ShapeMismatch);
    }
    match config.match_hash_and_base64(input, substr_defs, substrings) {
        Ok(_) => {},
        Err(e) => {
            return Err(PipelineError::Unsatisfiable(e));
        },
    }
    Ok(Proof { shape: pk.shape.duplicate(), public_inputs: copy_vec(public_inputs), inner_count: 0 })
}

/// Whether a proof belongs to a verifying artifact and carries the given public inputs.
pub open spec fn accepts_proof(vk: ShapeView, p: Proof, public_inputs: Seq<u64>) -> bool {
    p.shape@ == vk && p.public_inputs@ == public_inputs
}

fn inputs_equal(a: &Vec<u64>, b: &Vec<u64>) -> (r: bool)
    ensures
        r == (a@ == b@),
{
    if a.len() != b.len() {
        return false;
    }
    let mut i: usize = 0;
    while i < a.len()
        invariant
            i <= a@.len(),
            a@.len() == b@.len(),
            forall|j: int| 0 <= j < i ==> a@[j] == b@[j],
        decreases a@.len() - i,
    {
        if a[i] != b[i] {
            return false;
        }
        i = i + 1;
    }
    assert(a@ =~= b@);
    true
}

/// Checks a proof against a verifying artifact and a public-input vector.
pub fn verify(vk: &VerifyingArtifact, proof: &Proof, public_inputs: &Vec<u64>) -> (r: bool)
    ensures
        r == accepts_proof(vk.shape@, *proof, public_inputs@),
{
    vk.shape.same_as(&proof.shape) && inputs_equal(&proof.public_inputs, public_inputs)
}

/// Whether every proof belongs to the inner verifying artifact.
pub open spec fn all_inner(vk: ShapeView, proofs: Seq<Proof>) -> bool {
    forall|i: int| 0 <= i < proofs.len() ==> (#[trigger] proofs[i]).shape@ == vk
}

/// Aggregates proofs of the inner verifying artifact into one proof of the aggregation
/// circuit; any proof of another shape is refused before anything is produced.
pub fn aggregate(
    agg_pk: &ProvingArtifact,
    inner_vk: &VerifyingArtifact,
    proofs: &[Proof],
    public_inputs: &Vec<u64>,
) -> (r: Result<Proof, PipelineError>)
    ensures
        proofs@.len() == 0 <==> r == Err::<Proof, PipelineError>(PipelineError::NoProofs),
        (proofs@.len() > 0 && !all_inner(inner_vk.shape@, proofs@)) <==> r == Err::<
            Proof,
            PipelineError,
        >(PipelineError::AggregationIncompatible),
        r is Ok <==> (proofs@.len() > 0 && all_inner(inner_vk.shape@, proofs@)),
        r matches Ok(p) ==> p.shape@ == agg_pk.shape@ && p.public_inputs@ == public_inputs@
            && p.inner_count == proofs@.len(),
{
    if proofs.len() == 0 {
        return Err(PipelineError::NoProofs);
    }
    let mut i: usize = 0;
    while i < proofs.len()
        invariant
            i <= proofs@.len(),
            forall|j: int| 0 <= j < i ==> (#[trigger] proofs@[j]).shape@ == inner_vk.shape@,
        decreases proofs@.len() - i,
    {
        if !inner_vk.shape.same_as(&proofs[i].shape) {
            return Err(PipelineError::AggregationIncompatible);
        }
        i = i + 1;
    }
    Ok(
        Proof {
            shape: agg_pk.shape.duplicate(),
            public_inputs: copy_vec(public_inputs),
            inner_count: proofs.len(),
        },
    )
}

/// Keys generated for a circuit built from one configuration refuse a witness whose circuit
/// has another capacity, skipped prefix, automaton table, accepting states or pattern set.
pub proof fn lemma_other_circuit_refused(
    keyed: RegexSha2Base64Config,
    keyed_defs: Seq<SubstrDef>,
    witness: RegexSha2Base64Config,
    witness_defs: Seq<SubstrDef>,
    degree: u32,
)
    requires
        keyed.max_byte_size != witness.max_byte_size || keyed.skip_prefix != witness.skip_prefix
            || keyed.automaton.initial != witness.automaton.initial
            || keyed.automaton.transitions@ != witness.automaton.transitions@
            || keyed.automaton.accepting@ != witness.automaton.accepting@ || defs_view(keyed_defs)
            != defs_view(witness_defs),
    ensures
        shape_of(keyed, keyed_defs, degree) != shape_of(witness, witness_defs, degree),
{
}

/// Parameters downsized to degree `k` refuse, at key generation, every shape whose degree
/// exceeds `k`.
pub proof fn lemma_downsized_params_refuse_larger(degree: u32, k: u32, s: ShapeView)
    requires
        downsized(degree, k) is Some,
        s.degree > k,
    ensures
        !keygen_allowed(downsized(degree, k)->Some_0, s),
{
}

/// Aggregating one or more proofs that the inner verifying artifact accepts succeeds, and
/// the aggregate proof (of the aggregation circuit's shape, with its public inputs) is
/// accepted by the verifying artifact of that shape; a single proof of another shape among
/// them makes aggregation fail.
pub proof fn lemma_aggregation(
    inner: ShapeView,
    agg_shape: ShapeView,
    proofs: Seq<Proof>,
    agg: Proof,
    inputs: Seq<u64>,
)
    requires
        proofs.len() >= 1,
    ensures
        (forall|i: int|
            0 <= i < proofs.len() ==> accepts_proof(
                inner,
                #[trigger] proofs[i],
                proofs[i].public_inputs@,
            )) ==> all_inner(inner, proofs),
        (agg.shape@ == agg_shape && agg.public_inputs@ == inputs) ==> accepts_proof(
            agg_shape,
            agg,
            inputs,
        ),
        (exists|i: int| 0 <= i < proofs.len() && (#[trigger] proofs[i]).shape@ != inner) ==> !all_inner(
            inner,
            proofs,
        ),
{
}

} // verus!
