use vstd::prelude::*;

use std::collections::HashMap;

use crate::rule::{apply, rule_for, Move, Rule, State};
use crate::tape::{from_symbols, loaded, Tape, TapeView};

verus! {

broadcast use vstd::std_specs::hash::group_hash_axioms;

/// How a run that reached a terminal state ended.
#[derive(Clone, Copy, Debug, PartialEq, Eq)]
pub enum Outcome {
    Accepted,
    Rejected,
}

/// Why a run ended without reaching a terminal state.
#[derive(Clone, Copy, Debug, PartialEq, Eq)]
pub enum RunError {
    /// The run reached a state with no registered rule.
    UndefinedState(usize),
    /// The state's rule has no entry for the symbol under the cursor.
    UnhandledSymbol { state: usize, symbol: Option<char> },
    /// The step budget ran out before a terminal state was reached.
    StepLimitExceeded,
}

/// The abstract configuration of a machine.
pub struct MachineView {
    pub states: Map<usize, Seq<Rule>>,
    pub accept: Option<usize>,
    pub reject: Option<usize>,
    pub tape: TapeView,
}

/// What a run from state `current` on tape `tape` ends with, given at most
/// `fuel` further rule invocations, together with the final tape.
pub open spec fn run_from(
    states: Map<usize, Seq<Rule>>,
    accept: Option<usize>,
    reject: Option<usize>,
    current: usize,
    tape: TapeView,
    fuel: nat,
) -> (Result<Outcome, RunError>, TapeView)
    decreases fuel,
{
    if fuel == 0 {
        (Err(RunError::StepLimitExceeded), tape)
    } else if !states.contains_key(current) {
        (Err(RunError::UndefinedState(current)), tape)
    } else {
        match rule_for(states[current], tape.read()) {
            None => (Err(RunError::UnhandledSymbol { state: current, symbol: tape.read() }), tape),
            Some(rule) => {
                let next_tape = apply(rule, tape);
                if accept == Some(rule.next) {
                    (Ok(Outcome::Accepted), next_tape)
                } else if reject == Some(rule.next) {
                    (Ok(Outcome::Rejected), next_tape)
                } else {
                    run_from(states, accept, reject, rule.next, next_tape, (fuel - 1) as nat)
                }
            },
        }
    }
}

/// `symbol` is the blank or a character of `alphabet`.
pub open spec fn in_alphabet(symbol: Option<char>, alphabet: Seq<char>) -> bool {
    match symbol {
        None => true,
        Some(c) => alphabet.contains(c),
    }
}

/// Whatever `rule` writes is the blank or a character of `alphabet`.
pub open spec fn writes_within(rule: Rule, alphabet: Seq<char>) -> bool {
    match rule.write {
        None => true,
        Some(s) => in_alphabet(s, alphabet),
    }
}

impl MachineView {
    /// `next` is a registered state or a terminal id.
    pub open spec fn leads_somewhere(self, next: usize) -> bool {
        self.states.contains_key(next) || self.accept == Some(next) || self.reject == Some(next)
    }

    /// `rule` exists, goes to a registered state or a terminal id, and writes
    /// only symbols of `alphabet`.
    pub open spec fn sound_rule(self, rule: Option<Rule>, alphabet: Seq<char>) -> bool {
        match rule {
            Some(r) => self.leads_somewhere(r.next) && writes_within(r, alphabet),
            None => false,
        }
    }

    /// State `id` has a sound rule for `symbol`.
    pub open spec fn handles(self, id: usize, symbol: Option<char>, alphabet: Seq<char>) -> bool {
        self.sound_rule(rule_for(self.states[id], symbol), alphabet)
    }

    /// State 0 is registered, and every registered state has a sound rule for
    /// the blank and for each character of `alphabet`.
    pub open spec fn is_total(self, alphabet: Seq<char>) -> bool {
        &&& self.states.contains_key(0)
        &&& forall|id: usize, symbol: Option<char>|
            self.states.contains_key(id) && in_alphabet(symbol, alphabet) ==> #[trigger] self.handles(
                id,
                symbol,
                alphabet,
            )
    }

    /// The result of running this configuration from state 0 with a budget of
    /// `fuel` rule invocations.
    pub open spec fn run(self, fuel: nat) -> (Result<Outcome, RunError>, TapeView) {
        run_from(self.states, self.accept, self.reject, 0, self.tape, fuel)
    }
}

/// Every cell of `t` holds the blank or a character of `alphabet`.
pub open spec fn tape_within(t: TapeView, alphabet: Seq<char>) -> bool {
    forall|i: int| 0 <= i < t.cells.len() ==> in_alphabet(#[trigger] t.cells[i], alphabet)
}

/// A rule that writes only symbols of `alphabet` keeps a tape within it.
pub proof fn lemma_apply_within(rule: Rule, t: TapeView, alphabet: Seq<char>)
    requires
        t.wf(),
        tape_within(t, alphabet),
        writes_within(rule, alphabet),
    ensures
        apply(rule, t).wf(),
        tape_within(apply(rule, t), alphabet),
{
    let w = match rule.write {
        Some(s) => t.write(s),
        None => t,
    };
    assert(tape_within(w, alphabet));
    if rule.shift == Move::Left && w.head == 0 {
        let u = w.move_left();
        assert forall|i: int| 0 <= i < u.cells.len() implies in_alphabet(
            #[trigger] u.cells[i],
            alphabet,
        ) by {
            if i > 0 {
                assert(u.cells[i] == w.cells[i - 1]);
            }
        }
    }
}

/// From a registered state of a total machine, on a tape within its
/// alphabet, a run ends accepted, rejected, or out of budget.
proof fn lemma_run_from_total(
    m: MachineView,
    alphabet: Seq<char>,
    current: usize,
    t: TapeView,
    fuel: nat,
)
    requires
        m.is_total(alphabet),
        m.states.contains_key(current),
        t.wf(),
        tape_within(t, alphabet),
    ensures
        run_from(m.states, m.accept, m.reject, current, t, fuel).0 is Ok || run_from(
            m.states,
            m.accept,
            m.reject,
            current,
            t,
            fuel,
        ).0 == Err::<Outcome, RunError>(RunError::StepLimitExceeded),
    decreases fuel,
{
    if fuel > 0 {
        let symbol = t.read();
        assert(in_alphabet(symbol, alphabet));
        assert(m.handles(current, symbol, alphabet));
        let rule = rule_for(m.states[current], symbol)->Some_0;
        lemma_apply_within(rule, t, alphabet);
        if m.accept != Some(rule.next) && m.reject != Some(rule.next) {
            lemma_run_from_total(m, alphabet, rule.next, apply(rule, t), (fuel - 1) as nat);
        }
    }
}

/// A machine that is total over `alphabet`, started on a tape within it,
/// never stops on an undefined state or an unhandled symbol: its run ends
/// accepted, rejected, or with the step budget spent.
pub proof fn lemma_total_run_never_fails(m: MachineView, alphabet: Seq<char>, fuel: nat)
    requires
        m.is_total(alphabet),
        m.tape.wf(),
        tape_within(m.tape, alphabet),
    ensures
        m.run(fuel).0 is Ok || m.run(fuel).0 == Err::<Outcome, RunError>(
            RunError::StepLimitExceeded,
        ),
{
    lemma_run_from_total(m, alphabet, 0, m.tape, fuel);
}

/// Two runs of the same configuration with the same budget end the same way
/// and leave the same tape.
pub proof fn lemma_run_deterministic(a: MachineView, b: MachineView, fuel: nat)
    requires
        a == b,
    ensures
        a.run(fuel) == b.run(fuel),
{
}

/// A Turing machine under configuration: a transition rule per state id, the
/// accept and reject ids, and the tape it runs on. State 0 is the initial
/// state. Registering a second rule under an id replaces the first. An accept
/// or reject id that was never set matches no state.
pub struct Machine {
    states: HashMap<usize, State>,
    ids: Vec<usize>,
    halt_accept: Option<usize>,
    halt_reject: Option<usize>,
    tape: Tape,
}

impl View for Machine {
    type V = MachineView;

    closed spec fn view(&self) -> MachineView {
        MachineView {
            states: self.states@.map_values(|s: State| s@),
            accept: self.halt_accept,
            reject: self.halt_reject,
            tape: self.tape@,
        }
    }
}

fn is_id(id: Option<usize>, s: usize) -> (r: bool)
    ensures
        r == (id == Some(s)),
{
    match id {
        Some(i) => i == s,
        None => false,
    }
}

fn contains_char(v: &Vec<char>, c: char) -> (r: bool)
    ensures
        r == v@.contains(c),
{
    let mut i: usize = 0;
    while i < v.len()
        invariant
            i <= v@.len(),
            forall|j: int| 0 <= j < i ==> v@[j] != c,
        decreases v@.len() - i,
    {
        if v[i] == c {
            return true;
        }
        i = i + 1;
    }
    false
}

impl Machine {
    /// The registered ids are listed in `ids`, and the tape is well formed.
    pub closed spec fn wf(&self) -> bool {
        &&& self.tape@.wf()
        &&& forall|i: int| 0 <= i < self.ids@.len() ==> self.states@.contains_key(#[trigger] self.ids@[i])
        &&& forall|k: usize| self.states@.contains_key(k) ==> #[trigger] self.ids@.contains(k)
    }

    /// A machine with no states, no terminal ids, and a tape of one blank.
    pub fn new() -> (m: Self)
        ensures
            m.wf(),
            m@.states == Map::<usize, Seq<Rule>>::empty(),
            m@.accept is None,
            m@.reject is None,
            m@.tape == (TapeView { cells: seq![None], head: 0 }),
    {
        let m = Machine {
            states: HashMap::new(),
            ids: Vec::new(),
            halt_accept: None,
            halt_reject: None,
            tape: Tape::new(),
        };
        assert(m@.states =~= Map::<usize, Seq<Rule>>::empty());
        m
    }

    /// Registers `state` under `index`, replacing any earlier registration.
    pub fn add_state(self, index: usize, state: State) -> (m: Self)
        requires
            self.wf(),
        ensures
            m.wf(),
            m@ == (MachineView { states: self@.states.insert(index, state@), ..self@ }),
    {
        let mut m = self;
        let ghost ids0 = m.ids@;
        let ghost states0 = m.states@;
        if !m.states.contains_key(&index) {
            m.ids.push(index);
        }
        m.states.insert(index, state);
        assert(m@.states =~= self@.states.insert(index, state@));
        proof {
            assert(m.ids@.contains(index)) by {
                if !states0.contains_key(index) {
                    assert(m.ids@[ids0.len() as int] == index);
                } else {
                    assert(ids0.contains(index));
                    let j = choose|j: int| 0 <= j < ids0.len() && ids0[j] == index;
                    assert(m.ids@[j] == index);
                }
            }
            assert forall|i: int| 0 <= i < m.ids@.len() implies m.states@.contains_key(
                #[trigger] m.ids@[i],
            ) by {
                if i < ids0.len() {
                    assert(m.ids@[i] == ids0[i]);
                }
            }
            assert forall|k: usize| m.states@.contains_key(k) implies #[trigger] m.ids@.contains(
                k,
            ) by {
                if k != index {
                    assert(ids0.contains(k));
                    let j = choose|j: int| 0 <= j < ids0.len() && ids0[j] == k;
                    assert(m.ids@[j] == k);
                }
            }
        }
        m
    }

    /// Makes `index` the accept state.
    pub fn add_accept_state(self, index: usize) -> (m: Self)
        requires
            self.wf(),
        ensures
            m.wf(),
            m@ == (MachineView { accept: Some(index), ..self@ }),
    {
        let mut m = self;
        m.halt_accept = Some(index);
        m
    }

    /// Makes `index` the reject state.
    pub fn add_reject_state(self, index: usize) -> (m: Self)
        requires
            self.wf(),
        ensures
            m.wf(),
            m@ == (MachineView { reject: Some(index), ..self@ }),
    {
        let mut m = self;
        m.halt_reject = Some(index);
        m
    }

    /// Replaces the tape by one holding the characters of `tape_string`.
    pub fn add_tape(self, tape_string: &str) -> (m: Self)
        requires
            self.wf(),
        ensures
            m.wf(),
            m@ == (MachineView { tape: loaded(tape_string@), ..self@ }),
    {
        let mut m = self;
        m.tape = Tape::from_text(tape_string);
        m
    }

    /// Replaces the tape by one holding `symbols`.
    pub fn add_symbols(self, symbols: Vec<Option<char>>) -> (m: Self)
        requires
            self.wf(),
        ensures
            m.wf(),
            m@ == (MachineView { tape: from_symbols(symbols@), ..self@ }),
    {
        let mut m = self;
        m.tape = Tape::from_symbols(symbols);
        m
    }

    fn sound_rule(&self, rule: Option<Rule>, alphabet: &Vec<char>) -> (r: bool)
        ensures
            r == self@.sound_rule(rule, alphabet@),
    {
        match rule {
            None => false,
            Some(rule) => {
                let leads = self.states.contains_key(&rule.next) || is_id(self.halt_accept, rule.next)
                    || is_id(self.halt_reject, rule.next);
                let writes = match rule.write {
                    None => true,
                    Some(None) => true,
                    Some(Some(c)) => contains_char(alphabet, c),
                };
                leads && writes
            },
        }
    }

    /// Whether state 0 is registered and every registered state has a rule
    /// for the blank and for each character of `alphabet`, each going to a
    /// registered state or a terminal id and writing only such symbols.
    pub fn is_total(&self, alphabet: &Vec<char>) -> (r: bool)
        requires
            self.wf(),
        ensures
            r == self@.is_total(alphabet@),
    {
        if !self.states.contains_key(&0) {
            return false;
        }
        let mut i: usize = 0;
        while i < self.ids.len()
            invariant
                self.wf(),
                i <= self.ids@.len(),
                forall|j: int, symbol: Option<char>|
                    0 <= j < i && in_alphabet(symbol, alphabet@) ==> #[trigger] self@.handles(
                        self.ids@[j],
                        symbol,
                        alphabet@,
                    ),
            decreases self.ids@.len() - i,
        {
            let id = self.ids[i];
            let state = match self.states.get(&id) {
                Some(state) => state,
                None => {
                    return false;
                },
            };
            assert(self@.states[id] == state@);
            if !self.sound_rule(state.lookup(None), alphabet) {
                assert(!self@.handles(id, None, alphabet@));
                return false;
            }
            let mut k: usize = 0;
            while k < alphabet.len()
                invariant
                    self.wf(),
                    i < self.ids@.len(),
                    id == self.ids@[i as int],
                    self@.states[id] == state@,
                    k <= alphabet@.len(),
                    self@.handles(id, None, alphabet@),
                    forall|q: int| 0 <= q < k ==> #[trigger] self@.handles(id, Some(alphabet@[q]), alphabet@),
                decreases alphabet@.len() - k,
            {
                let c = alphabet[k];
                if !self.sound_rule(state.lookup(Some(c)), alphabet) {
                    assert(in_alphabet(Some(c), alphabet@));
                    assert(!self@.handles(id, Some(c), alphabet@));
                    return false;
                }
                k = k + 1;
            }
            assert forall|symbol: Option<char>| in_alphabet(symbol, alphabet@) implies #[trigger] self@.handles(
                id,
                symbol,
                alphabet@,
            ) by {
                if let Some(c) = symbol {
                    let q = choose|q: int| 0 <= q < alphabet@.len() && alphabet@[q] == c;
                    assert(self@.handles(id, Some(alphabet@[q]), alphabet@));
                }
            }
            i = i + 1;
        }
        assert forall|id: usize, symbol: Option<char>|
            self@.states.contains_key(id) && in_alphabet(symbol, alphabet@) implies #[trigger] self@.handles(
            id,
            symbol,
            alphabet@,
        ) by {
            assert(self.ids@.contains(id));
            let j = choose|j: int| 0 <= j < self.ids@.len() && self.ids@[j] == id;
            assert(self@.handles(self.ids@[j], symbol, alphabet@));
        }
        true
    }

    /// Runs the machine from state 0 for at most `max_steps` rule invocations
    /// and returns how the run ended together with the final tape.
    pub fn run(self, max_steps: usize) -> (r: (Result<Outcome, RunError>, Tape))
        requires
            self.wf(),
        ensures
            r.1@.wf(),
            (r.0, r.1@) == self@.run(max_steps as nat),
    {
        let ghost m = self@;
        let Machine { states, ids, halt_accept, halt_reject, mut tape } = self;
        let mut current: usize = 0;
        let mut fuel: usize = max_steps;
        loop
            invariant
                m == self@,
                tape@.wf(),
                m.states == states@.map_values(|s: State| s@),
                m.accept == halt_accept,
                m.reject == halt_reject,
                run_from(m.states, m.accept, m.reject, current, tape@, fuel as nat) == m.run(
                    max_steps as nat,
                ),
            decreases fuel,
        {
            if fuel == 0 {
                return (Err(RunError::StepLimitExceeded), tape);
            }
            match states.get(&current) {
                None => {
                    return (Err(RunError::UndefinedState(current)), tape);
                },
                Some(state) => {
                    let symbol = tape.read();
                    match state.step(symbol, &mut tape) {
                        None => {
                            return (Err(RunError::UnhandledSymbol { state: current, symbol }), tape);
                        },
                        Some(next) => {
                            if is_id(halt_accept, next) {
                                return (Ok(Outcome::Accepted), tape);
                            }
                            if is_id(halt_reject, next) {
                                return (Ok(Outcome::Rejected), tape);
                            }
                            current = next;
                            fuel = fuel - 1;
                        },
                    }
                },
            }
        }
    }
}

} // verus!
