use vstd::prelude::*;
use crate::binding::{bind_inputs, link_digest, BindError, lemma_flag_count_prefix, inputs_agree};
use crate::encoding::{b64_encode, encode_digest_text, lemma_decode_encode, sha256_bytes, sha256_of};
use crate::hash::{assign_hash, hashed_region, slice_from, HashError};
use crate::pattern::{
    accepts, assign_all_string, run_states, is_extraction, length_in_bounds, match_substr, occurs_in_window,
    Automaton, ExtractedSubstring, MatchError, SubstrDef, Transition,
};

verus! {

/// The automaton's start state.
pub const START_STATE: u64 = 0;

/// What the composed sub-circuits hand out: the extracted substrings and the digest's text.
pub struct RegexSha2Base64Result {
    pub substrs: Vec<ExtractedSubstring>,
    pub encoded_hash: Vec<u8>,
    /// The digest that the hash sub-circuit output.
    pub hash: Vec<u8>,
}

/// The pattern-match, hash and text-encoding sub-circuits over one input of fixed capacity.
pub struct RegexSha2Base64Config {
    /// The capacity of the input, in bytes.
    pub max_byte_size: usize,
    /// The number of leading bytes that the digest leaves out.
    pub skip_prefix: usize,
    /// The automaton, once its tables are loaded.
    pub automaton: Automaton,
    /// Whether the lookup tables have been loaded.
    pub loaded: bool,
}

#[derive(Clone, Copy, Debug, PartialEq, Eq, Structural)]
pub enum CircuitError {
    /// The lookup tables were not loaded before the witness was assigned.
    NotLoaded,
    /// The number of substrings differs from the number of patterns.
    PatternCountMismatch,
    Match(MatchError),
    Hash(HashError),
    Bind(BindError),
}

/// The automaton's states on an input that it reads to the end.
pub open spec fn run_of(a: Automaton, input: Seq<u8>) -> Seq<u64> {
    match run_states(a.transitions@, a.initial, input) {
        Some(st) => st,
        None => seq![],
    }
}

/// Whether every requested substring stands where its pattern allows it, read with the
/// pattern's moves of the run `st`.
pub open spec fn all_found(defs: Seq<SubstrDef>, h: Seq<u8>, st: Seq<u64>, subs: Seq<Vec<u8>>) -> bool {
    forall|k: int|
        0 <= k < defs.len() ==> length_in_bounds(defs[k]@, #[trigger] subs[k]@) && occurs_in_window(
            defs[k]@,
            h,
            st,
            subs[k]@,
        )
}

impl RegexSha2Base64Config {
    /// A configuration for inputs of up to `max_byte_size` bytes, with no tables loaded.
    pub fn construct(max_byte_size: usize, skip_prefix: usize) -> (r: Self)
        ensures
            r.max_byte_size == max_byte_size,
            r.skip_prefix == skip_prefix,
            !r.loaded,
    {
        RegexSha2Base64Config {
            max_byte_size,
            skip_prefix,
            automaton: Automaton {
                initial: START_STATE,
                transitions: Vec::new(),
                accepting: Vec::new(),
            },
            loaded: false,
        }
    }

    /// Loads the automaton's transition table and accepting states.
    pub fn load(&mut self, regex_lookups: &[Transition], accepted_states: &[u64])
        ensures
            final(self).max_byte_size == old(self).max_byte_size,
            final(self).skip_prefix == old(self).skip_prefix,
            final(self).automaton.initial == START_STATE,
            final(self).automaton.transitions@ == regex_lookups@,
            final(self).automaton.accepting@ == accepted_states@,
            final(self).loaded,
    {
        let mut transitions: Vec<Transition> = Vec::new();
        let mut i: usize = 0;
        while i < regex_lookups.len()
            invariant
                i <= regex_lookups@.len(),
                transitions@ == regex_lookups@.subrange(0, i as int),
            decreases regex_lookups@.len() - i,
        {
            transitions.push(regex_lookups[i]);
            assert(transitions@ =~= regex_lookups@.subrange(0, i + 1));
            i = i + 1;
        }
        let mut accepting: Vec<u64> = Vec::new();
        let mut j: usize = 0;
        while j < accepted_states.len()
            invariant
                j <= accepted_states@.len(),
                accepting@ == accepted_states@.subrange(0, j as int),
            decreases accepted_states@.len() - j,
        {
            accepting.push(accepted_states[j]);
            assert(accepting@ =~= accepted_states@.subrange(0, j + 1));
            j = j + 1;
        }
        assert(transitions@ =~= regex_lookups@);
        assert(accepting@ =~= accepted_states@);
        self.automaton = Automaton { initial: START_STATE, transitions, accepting };
        self.loaded = true;
    }

    /// Whether a witness for `input` and the substrings satisfies every constraint.
    pub open spec fn satisfiable(&self, input: Seq<u8>, defs: Seq<SubstrDef>, subs: Seq<Vec<u8>>) -> bool {
        &&& input.len() <= self.max_byte_size
        &&& accepts(self.automaton, input)
        &&& all_found(defs, input, run_of(self.automaton, input), subs)
        &&& self.skip_prefix <= input.len()
    }

    /// Assigns the witness of the composed sub-circuits: runs the automaton and extracts each
    /// substring, hashes the input, binds the two sub-circuits' bytes and lengths together,
    /// and links the digest's base64 text to the digest.
    pub fn match_hash_and_base64(
        &self,
        input: &[u8],
        substr_defs: &[SubstrDef],
        substrings: &[Vec<u8>],
    ) -> (r: Result<RegexSha2Base64Result, CircuitError>)
        ensures
            !self.loaded ==> r == Err::<RegexSha2Base64Result, CircuitError>(
                CircuitError::NotLoaded,
            ),
            self.loaded && substr_defs@.len() != substrings@.len() ==> r == Err::<
                RegexSha2Base64Result,
                CircuitError,
            >(CircuitError::PatternCountMismatch),
            r is Ok <==> (self.loaded && substr_defs@.len() == substrings@.len()
                && self.satisfiable(input@, substr_defs@, substrings@)),
            r matches Err(CircuitError::Match(_)) ==> !(input@.len() <= self.max_byte_size
                && accepts(self.automaton, input@) && all_found(
                substr_defs@,
                input@,
                run_of(self.automaton, input@),
                substrings@,
            )),
            r matches Err(CircuitError::Hash(e)) ==> e == HashError::PrefixTooLong,
            !(r matches Err(CircuitError::Bind(_))),
            r matches Ok(res) ==> {
                &&& res.substrs@.len() == substr_defs@.len()
                &&& forall|k: int|
                    0 <= k < substr_defs@.len() ==> is_extraction(
                        substr_defs@[k]@,
                        input@,
                        run_of(self.automaton, input@),
                        substrings@[k]@,
                        #[trigger] res.substrs@[k],
                    )
                &&& res.encoded_hash@ == b64_encode(
                    sha256_of(hashed_region(input@, self.skip_prefix as nat)),
                )
                &&& res.hash@ == sha256_of(hashed_region(input@, self.skip_prefix as nat))
                &&& res.hash@.len() == 32
            },
    {
        if !self.loaded {
            return Err(CircuitError::NotLoaded);
        }
        if substr_defs.len() != substrings.len() {
            return Err(CircuitError::PatternCountMismatch);
        }
        let max_input_size = self.max_byte_size;
        // The pattern-match sub-circuit.
        let assigned_all_strings = match assign_all_string(&self.automaton, input, max_input_size) {
            Ok(a) => a,
            Err(e) => {
                return Err(CircuitError::Match(e));
            },
        };
        let mut assigned_substrs: Vec<ExtractedSubstring> = Vec::new();
        let mut k: usize = 0;
        while k < substr_defs.len()
            invariant
                k <= substr_defs@.len(),
                self.loaded,
                max_input_size == self.max_byte_size,
                substr_defs@.len() == substrings@.len(),
                assigned_all_strings.wf(),
                assigned_all_strings.content() == input@,
                input@.len() <= max_input_size,
                accepts(self.automaton, input@),
                assigned_all_strings.states@ == run_of(self.automaton, input@),
                assigned_substrs@.len() == k,
                forall|j: int|
                    0 <= j < k ==> length_in_bounds(substr_defs@[j]@, #[trigger] substrings@[j]@)
                        && occurs_in_window(substr_defs@[j]@, input@, run_of(self.automaton, input@), substrings@[j]@),
                forall|j: int|
                    0 <= j < k ==> is_extraction(
                        substr_defs@[j]@,
                        input@,
                        run_of(self.automaton, input@),
                        substrings@[j]@,
                        #[trigger] assigned_substrs@[j],
                    ),
            decreases substr_defs@.len() - k,
        {
            match match_substr(&substr_defs[k], &assigned_all_strings, substrings[k].as_slice()) {
                Ok(e) => {
                    assigned_substrs.push(e);
                },
                Err(e) => {
                    assert(!all_found(substr_defs@, input@, run_of(self.automaton, input@), substrings@)) by {
                        assert(!(length_in_bounds(substr_defs@[k as int]@, substrings@[k as int]@)
                            && occurs_in_window(
                            substr_defs@[k as int]@,
                            input@,
                            run_of(self.automaton, input@),
                            substrings@[k as int]@,
                        )));
                    }
                    return Err(CircuitError::Match(e));
                },
            }
            k = k + 1;
        }
        // The hash sub-circuit.
        let assigned_hash_result = match assign_hash(input, max_input_size, self.skip_prefix) {
            Ok(w) => w,
            Err(e) => {
                return Err(CircuitError::Hash(e));
            },
        };
        // The same input reaches both sub-circuits.
        proof {
            lemma_flag_count_prefix(input@.len(), max_input_size as nat);
            assert(inputs_agree(
                assigned_all_strings.enable_flags@,
                assigned_all_strings.characters@,
                assigned_hash_result.input_bytes@,
            ));
        }
        match bind_inputs(
            assigned_all_strings.enable_flags.as_slice(),
            assigned_all_strings.characters.as_slice(),
            assigned_hash_result.input_bytes.as_slice(),
            assigned_hash_result.input_len,
        ) {
            Ok(()) => {},
            Err(e) => {
                return Err(CircuitError::Bind(e));
            },
        }
        // The digest's text is a witness computed in the clear: the circuit decodes it and
        // compares, which is cheaper than encoding the digest inside it.
        let region = slice_from(input, self.skip_prefix);
        let actual_hash = sha256_bytes(region.as_slice());
        let hash_base64 = encode_digest_text(actual_hash.as_slice());
        proof {
            lemma_decode_encode(actual_hash@);
        }
        match link_digest(assigned_hash_result.output_bytes.as_slice(), hash_base64.as_slice()) {
            Ok(()) => {},
            Err(e) => {
                return Err(CircuitError::Bind(e));
            },
        }
        Ok(
            RegexSha2Base64Result {
                substrs: assigned_substrs,
                encoded_hash: hash_base64,
                hash: assigned_hash_result.output_bytes,
            },
        )
    }
}

} // verus!
