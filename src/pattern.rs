use vstd::prelude::*;

verus! {

/// One entry of an automaton's transition table.
#[derive(Clone, Copy, Debug, PartialEq, Eq, Structural)]
pub struct Transition {
    pub from: u64,
    pub byte: u8,
    pub to: u64,
}

/// A precompiled automaton: its start state, transition table and accepting states.
pub struct Automaton {
    pub initial: u64,
    pub transitions: Vec<Transition>,
    pub accepting: Vec<u64>,
}

/// The state reached from `s` on byte `c`: the first entry of the table that matches.
pub open spec fn step(ts: Seq<Transition>, s: u64, c: u8) -> Option<u64>
    decreases ts.len(),
{
    if ts.len() == 0 {
        None
    } else if ts[0].from == s && ts[0].byte == c {
        Some(ts[0].to)
    } else {
        step(ts.subrange(1, ts.len() as int), s, c)
    }
}

/// The states visited on `input`, the start state first; `None` where a byte has no move.
pub open spec fn run_states(ts: Seq<Transition>, init: u64, input: Seq<u8>) -> Option<Seq<u64>>
    decreases input.len(),
{
    if input.len() == 0 {
        Some(seq![init])
    } else {
        match run_states(ts, init, input.drop_last()) {
            Some(st) => match step(ts, st.last(), input.last()) {
                Some(n) => Some(st.push(n)),
                None => None,
            },
            None => None,
        }
    }
}

pub proof fn lemma_run_len(ts: Seq<Transition>, init: u64, input: Seq<u8>)
    ensures
        run_states(ts, init, input) matches Some(st) ==> st.len() == input.len() + 1,
    decreases input.len(),
{
    if input.len() > 0 {
        lemma_run_len(ts, init, input.drop_last());
    }
}

/// Whether the input leads the automaton to an accepting state.
pub open spec fn accepts(a: Automaton, input: Seq<u8>) -> bool {
    match run_states(a.transitions@, a.initial, input) {
        Some(st) => a.accepting@.contains(st.last()),
        None => false,
    }
}

/// The per-position wires of the pattern-match sub-circuit.
pub struct AllString {
    /// The input, padded with zeros to the capacity.
    pub characters: Vec<u8>,
    /// `true` on the real content, `false` on the padding.
    pub enable_flags: Vec<bool>,
    /// The automaton's states, the start state first.
    pub states: Vec<u64>,
    /// The number of real positions.
    pub input_len: usize,
}

impl AllString {
    pub open spec fn wf(&self) -> bool {
        &&& self.input_len <= self.characters@.len()
        &&& self.states@.len() == self.input_len + 1
    }

    /// The real content, without the padding.
    pub open spec fn content(&self) -> Seq<u8> {
        self.characters@.subrange(0, self.input_len as int)
    }
}

/// The enable flags of `len` real positions in `cap` positions.
pub open spec fn flags_for(len: nat, cap: nat) -> Seq<bool> {
    Seq::new(cap, |i: int| i < len)
}

#[derive(Clone, Copy, Debug, PartialEq, Eq, Structural)]
pub enum MatchError {
    /// The input is longer than the capacity fixed for the circuit.
    InputTooLong,
    /// A byte of the input has no move in the automaton.
    NoTransition,
    /// The automaton ends outside its accepting states.
    NotAccepted,
    /// A requested substring is empty or longer than its pattern allows.
    LengthOutOfBounds,
    /// A requested substring does not occur where its pattern allows it.
    NotFound,
}

fn lookup_step(ts: &Vec<Transition>, s: u64, c: u8) -> (r: Option<u64>)
    ensures
        r == step(ts@, s, c),
{
    let mut j: usize = 0;
    assert(ts@.subrange(0, ts@.len() as int) =~= ts@);
    while j < ts.len()
        invariant
            j <= ts@.len(),
            step(ts@, s, c) == step(ts@.subrange(j as int, ts@.len() as int), s, c),
        decreases ts@.len() - j,
    {
        let t = ts[j];
        let ghost rest = ts@.subrange(j as int, ts@.len() as int);
        assert(rest.subrange(1, rest.len() as int) =~= ts@.subrange(j + 1, ts@.len() as int));
        if t.from == s && t.byte == c {
            return Some(t.to);
        }
        j = j + 1;
    }
    assert(ts@.subrange(j as int, ts@.len() as int).len() == 0);
    None
}

fn contains_state(v: &Vec<u64>, s: u64) -> (r: bool)
    ensures
        r == v@.contains(s),
{
    let mut j: usize = 0;
    while j < v.len()
        invariant
            j <= v@.len(),
            forall|k: int| 0 <= k < j ==> v@[k] != s,
        decreases v@.len() - j,
    {
        if v[j] == s {
            assert(v@[j as int] == s);
            return true;
        }
        j = j + 1;
    }
    false
}

impl Automaton {
    /// The states visited on `input`, or `None` where a byte has no move.
    pub fn run(&self, input: &[u8]) -> (r: Option<Vec<u64>>)
        ensures
            match r {
                Some(st) => run_states(self.transitions@, self.initial, input@) == Some(st@),
                None => run_states(self.transitions@, self.initial, input@) is None,
            },
    {
        let mut states: Vec<u64> = Vec::new();
        states.push(self.initial);
        let mut i: usize = 0;
        assert(input@.subrange(0, 0) =~= Seq::<u8>::empty());
        while i < input.len()
            invariant
                i <= input@.len(),
                run_states(self.transitions@, self.initial, input@.subrange(0, i as int)) == Some(
                    states@,
                ),
                states@.len() == i + 1,
            decreases input@.len() - i,
        {
            let ghost pre = input@.subrange(0, i + 1);
            assert(pre.drop_last() =~= input@.subrange(0, i as int));
            let last = states[i];
            match lookup_step(&self.transitions, last, input[i]) {
                Some(n) => {
                    states.push(n);
                },
                None => {
                    let mut k: usize = i + 1;
                    while k < input.len()
                        invariant
                            i < k <= input@.len(),
                            run_states(self.transitions@, self.initial, input@.subrange(0, k as int))
                                is None,
                        decreases input@.len() - k,
                    {
                        assert(input@.subrange(0, k + 1).drop_last() =~= input@.subrange(
                            0,
                            k as int,
                        ));
                        k = k + 1;
                    }
                    assert(input@.subrange(0, input@.len() as int) =~= input@);
                    return None;
                },
            }
            i = i + 1;
        }
        assert(input@.subrange(0, input@.len() as int) =~= input@);
        Some(states)
    }
}

/// Runs the automaton over the input and fills the sub-circuit's wires; the input must
/// fit in the capacity and be accepted.
pub fn assign_all_string(a: &Automaton, input: &[u8], capacity: usize) -> (r: Result<
    AllString,
    MatchError,
>)
    ensures
        r == Err::<AllString, MatchError>(MatchError::InputTooLong) <==> input@.len() > capacity,
        r == Err::<AllString, MatchError>(MatchError::NoTransition) <==> (input@.len() <= capacity
            && run_states(a.transitions@, a.initial, input@) is None),
        r == Err::<AllString, MatchError>(MatchError::NotAccepted) <==> (input@.len() <= capacity
            && run_states(a.transitions@, a.initial, input@) is Some && !accepts(*a, input@)),
        r is Ok <==> (input@.len() <= capacity && accepts(*a, input@)),
        r matches Ok(s) ==> {
            &&& s.characters@ == crate::hash::padded(input@, capacity as nat)
            &&& s.enable_flags@ == flags_for(input@.len(), capacity as nat)
            &&& run_states(a.transitions@, a.initial, input@) == Some(s.states@)
            &&& s.input_len == input@.len()
            &&& s.wf()
            &&& s.content() == input@
        },
{
    if input.len() > capacity {
        return Err(MatchError::InputTooLong);
    }
    let states = match a.run(input) {
        Some(st) => st,
        None => {
            return Err(MatchError::NoTransition);
        },
    };
    proof {
        lemma_run_len(a.transitions@, a.initial, input@);
    }
    if !contains_state(&a.accepting, states[states.len() - 1]) {
        return Err(MatchError::NotAccepted);
    }
    let mut characters: Vec<u8> = Vec::new();
    let mut enable_flags: Vec<bool> = Vec::new();
    let mut i: usize = 0;
    while i < capacity
        invariant
            i <= capacity,
            input@.len() <= capacity,
            characters@ == crate::hash::padded(input@, capacity as nat).subrange(0, i as int),
            enable_flags@ == flags_for(input@.len(), capacity as nat).subrange(0, i as int),
        decreases capacity - i,
    {
        let ghost p = crate::hash::padded(input@, capacity as nat);
        let ghost f = flags_for(input@.len(), capacity as nat);
        if i < input.len() {
            characters.push(input[i]);
            enable_flags.push(true);
        } else {
            characters.push(0);
            enable_flags.push(false);
        }
        assert(characters@ =~= p.subrange(0, i + 1));
        assert(enable_flags@ =~= f.subrange(0, i + 1));
        i = i + 1;
    }
    assert(characters@ =~= crate::hash::padded(input@, capacity as nat));
    assert(enable_flags@ =~= flags_for(input@.len(), capacity as nat));
    assert(characters@.subrange(0, input@.len() as int) =~= input@);
    Ok(AllString { characters, enable_flags, states, input_len: input.len() })
}

/// A move of the automaton, from one state to the next.
#[derive(Clone, Copy, Debug, PartialEq, Eq, Structural)]
pub struct StatePair {
    pub from: u64,
    pub to: u64,
}

/// What one requested substring is: the automaton moves that its bytes are read with,
/// where it may start, and how long it may be.
#[derive(Debug)]
pub struct SubstrDef {
    pub max_length: usize,
    pub min_position: usize,
    pub max_position: usize,
    pub transitions: Vec<StatePair>,
}

/// A substring pattern as a mathematical value.
pub struct SubstrDefView {
    pub max_length: usize,
    pub min_position: usize,
    pub max_position: usize,
    pub transitions: Seq<StatePair>,
}

impl View for SubstrDef {
    type V = SubstrDefView;

    open spec fn view(&self) -> SubstrDefView {
        SubstrDefView {
            max_length: self.max_length,
            min_position: self.min_position,
            max_position: self.max_position,
            transitions: self.transitions@,
        }
    }
}

/// A substring taken out of the input, with its offsets.
pub struct ExtractedSubstring {
    pub start: usize,
    pub end: usize,
    pub bytes: Vec<u8>,
}

/// Whether `n` stands in `h` at position `p`.
pub open spec fn occurs_at(h: Seq<u8>, n: Seq<u8>, p: int) -> bool {
    0 <= p && p + n.len() <= h.len() && h.subrange(p, p + n.len()) == n
}

/// The automaton's move at position `j` of a run.
pub open spec fn pair_at(st: Seq<u64>, j: int) -> StatePair {
    StatePair { from: st[j], to: st[j + 1] }
}

/// Whether the run reads the `len` positions from `p` on with moves of the pattern.
pub open spec fn states_allow(d: SubstrDefView, st: Seq<u64>, p: int, len: int) -> bool {
    forall|j: int| p <= j < p + len ==> d.transitions.contains(#[trigger] pair_at(st, j))
}

/// Whether `n` stands at `p` in `h` and the run `st` reads it with the pattern's moves.
pub open spec fn found_at(d: SubstrDefView, h: Seq<u8>, st: Seq<u64>, n: Seq<u8>, p: int) -> bool {
    occurs_at(h, n, p) && states_allow(d, st, p, n.len() as int)
}

/// Whether `n` stands, read with the pattern's moves, at a position that `d` allows.
pub open spec fn occurs_in_window(d: SubstrDefView, h: Seq<u8>, st: Seq<u64>, n: Seq<u8>) -> bool {
    exists|p: int| d.min_position <= p <= d.max_position && #[trigger] found_at(d, h, st, n, p)
}

/// The substring that `d` gives for `n`: at the first allowed position where the run reads
/// it with the pattern's moves.
pub open spec fn is_extraction(
    d: SubstrDefView,
    h: Seq<u8>,
    st: Seq<u64>,
    n: Seq<u8>,
    e: ExtractedSubstring,
) -> bool {
    &&& d.min_position <= e.start <= d.max_position
    &&& found_at(d, h, st, n, e.start as int)
    &&& forall|p: int| d.min_position <= p < e.start ==> !#[trigger] found_at(d, h, st, n, p)
    &&& e.end == e.start + n.len()
    &&& e.bytes@ == n
}

/// Whether the length of `n` fits the pattern `d`.
pub open spec fn length_in_bounds(d: SubstrDefView, n: Seq<u8>) -> bool {
    0 < n.len() <= d.max_length
}

fn matches_at(h: &Vec<u8>, hlen: usize, n: &[u8], p: usize) -> (r: bool)
    requires
        hlen <= h@.len(),
        p + n@.len() <= hlen,
    ensures
        r == occurs_at(h@.subrange(0, hlen as int), n@, p as int),
{
    let ghost c = h@.subrange(0, hlen as int);
    let mut k: usize = 0;
    while k < n.len()
        invariant
            k <= n@.len(),
            p + n@.len() <= hlen <= h@.len(),
            c == h@.subrange(0, hlen as int),
            forall|j: int| 0 <= j < k ==> c[p + j] == n@[j],
        decreases n@.len() - k,
    {
        if h[p + k] != n[k] {
            assert(c.subrange(p as int, p + n@.len())[k as int] != n@[k as int]);
            return false;
        }
        k = k + 1;
    }
    assert(c.subrange(p as int, p + n@.len()) =~= n@);
    true
}

fn contains_pair(v: &Vec<StatePair>, x: StatePair) -> (r: bool)
    ensures
        r == v@.contains(x),
{
    let mut j: usize = 0;
    while j < v.len()
        invariant
            j <= v@.len(),
            forall|k: int| 0 <= k < j ==> v@[k] != x,
        decreases v@.len() - j,
    {
        if v[j] == x {
            assert(v@[j as int] == x);
            return true;
        }
        j = j + 1;
    }
    false
}

fn allows_at(def: &SubstrDef, st: &Vec<u64>, p: usize, len: usize) -> (r: bool)
    requires
        p + len < st@.len(),
    ensures
        r == states_allow(def@, st@, p as int, len as int),
{
    let n = st.len();
    let end = p + len;
    let mut j: usize = p;
    while j < end
        invariant
            p <= j <= end,
            end == p + len,
            end < st@.len(),
            forall|k: int| p <= k < j ==> def@.transitions.contains(#[trigger] pair_at(st@, k)),
        decreases end - j,
    {
        let x = StatePair { from: st[j], to: st[j + 1] };
        if !contains_pair(&def.transitions, x) {
            assert(!def@.transitions.contains(pair_at(st@, j as int)));
            return false;
        }
        j = j + 1;
    }
    true
}

/// Finds the substring `needle` where the pattern `def` allows it, read with the pattern's
/// moves of the automaton: the first such position.
pub fn match_substr(def: &SubstrDef, all: &AllString, needle: &[u8]) -> (r: Result<
    ExtractedSubstring,
    MatchError,
>)
    requires
        all.wf(),
    ensures
        r matches Err(MatchError::LengthOutOfBounds) <==> !length_in_bounds(def@, needle@),
        r matches Err(MatchError::NotFound) <==> (length_in_bounds(def@, needle@)
            && !occurs_in_window(def@, all.content(), all.states@, needle@)),
        r is Ok <==> (length_in_bounds(def@, needle@) && occurs_in_window(
            def@,
            all.content(),
            all.states@,
            needle@,
        )),
        r matches Ok(e) ==> is_extraction(def@, all.content(), all.states@, needle@, e),
        r matches Err(e) ==> (e == MatchError::LengthOutOfBounds || e == MatchError::NotFound),
{
    let ghost h = all.content();
    let ghost st = all.states@;
    if needle.len() == 0 || needle.len() > def.max_length {
        return Err(MatchError::LengthOutOfBounds);
    }
    if needle.len() > all.input_len {
        assert forall|p: int| def.min_position <= p <= def.max_position implies !#[trigger] found_at(
            def@,
            h,
            st,
            needle@,
            p,
        ) by {}
        return Err(MatchError::NotFound);
    }
    let last = all.input_len - needle.len();
    let mut p: usize = def.min_position;
    while p <= def.max_position && p <= last
        invariant
            all.wf(),
            h == all.content(),
            st == all.states@,
            last + needle@.len() == all.input_len,
            0 < needle@.len() <= def.max_length,
            def.min_position <= p,
            forall|q: int| def.min_position <= q < p ==> !#[trigger] found_at(def@, h, st, needle@, q),
        decreases def.max_position + 1 - p,
    {
        if matches_at(&all.characters, all.input_len, needle, p) && allows_at(
            def,
            &all.states,
            p,
            needle.len(),
        ) {
            let bytes = crate::hash::slice_from(needle, 0);
            assert(bytes@ =~= needle@);
            assert(found_at(def@, h, st, needle@, p as int));
            return Ok(ExtractedSubstring { start: p, end: p + needle.len(), bytes });
        }
        p = p + 1;
    }
    assert forall|q: int| def.min_position <= q <= def.max_position implies !#[trigger] found_at(
        def@,
        h,
        st,
        needle@,
        q,
    ) by {}
    Err(MatchError::NotFound)
}

} // verus!
