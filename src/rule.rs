use vstd::prelude::*;

use crate::tape::{Tape, TapeView};

verus! {

/// Where the cursor goes after a rule fires.
#[derive(Clone, Copy, Debug, PartialEq, Eq, Structural)]
pub enum Move {
    Left,
    Right,
    Stay,
}

/// One line of a state's transition table: on reading `read`, store `write`
/// under the cursor (when it is `Some`), move the cursor by `shift`, and go to
/// state `next`.
#[derive(Clone, Copy, Debug)]
pub struct Rule {
    pub read: Option<char>,
    pub write: Option<Option<char>>,
    pub shift: Move,
    pub next: usize,
}

/// The first rule of `rules` that reads `symbol`, if any.
pub open spec fn rule_for(rules: Seq<Rule>, symbol: Option<char>) -> Option<Rule>
    decreases rules.len(),
{
    if rules.len() == 0 {
        None
    } else if rules[0].read == symbol {
        Some(rules[0])
    } else {
        rule_for(rules.drop_first(), symbol)
    }
}

/// The tape after `rule` fired on it.
pub open spec fn apply(rule: Rule, t: TapeView) -> TapeView {
    let written = match rule.write {
        Some(s) => t.write(s),
        None => t,
    };
    match rule.shift {
        Move::Left => written.move_left(),
        Move::Right => written.move_right(),
        Move::Stay => written,
    }
}

/// The transition rule of one state, as a table keyed by the symbol read.
/// Where two entries read the same symbol, the earlier one applies.
pub struct State {
    rules: Vec<Rule>,
}

impl View for State {
    type V = Seq<Rule>;

    closed spec fn view(&self) -> Seq<Rule> {
        self.rules@
    }
}

fn same_symbol(a: Option<char>, b: Option<char>) -> (r: bool)
    ensures
        r == (a == b),
{
    match (a, b) {
        (None, None) => true,
        (Some(x), Some(y)) => x == y,
        _ => false,
    }
}

impl State {
    /// A state whose transition table is `rules`.
    pub fn new(rules: Vec<Rule>) -> (s: Self)
        ensures
            s@ == rules@,
    {
        State { rules }
    }

    /// The rule that handles `symbol`, if the table has one.
    pub fn lookup(&self, symbol: Option<char>) -> (r: Option<Rule>)
        ensures
            r == rule_for(self@, symbol),
    {
        let mut i: usize = 0;
        assert(self.rules@.skip(0) =~= self.rules@);
        while i < self.rules.len()
            invariant
                i <= self.rules@.len(),
                rule_for(self.rules@, symbol) == rule_for(self.rules@.skip(i as int), symbol),
            decreases self.rules@.len() - i,
        {
            let rule = self.rules[i];
            assert(self.rules@.skip(i as int)[0] == rule);
            assert(self.rules@.skip(i as int).drop_first() =~= self.rules@.skip(i + 1));
            if same_symbol(rule.read, symbol) {
                return Some(rule);
            }
            i = i + 1;
        }
        None
    }

    /// Fires the rule that handles `symbol` on `tape` and returns the next
    /// state; `None`, with the tape untouched, where no rule handles it.
    pub fn step(&self, symbol: Option<char>, tape: &mut Tape) -> (r: Option<usize>)
        requires
            old(tape)@.wf(),
        ensures
            final(tape)@.wf(),
            match rule_for(self@, symbol) {
                Some(rule) => r == Some(rule.next) && final(tape)@ == apply(rule, old(tape)@),
                None => r is None && final(tape)@ == old(tape)@,
            },
    {
        match self.lookup(symbol) {
            None => None,
            Some(rule) => {
                match rule.write {
                    Some(s) => tape.write(s),
                    None => {},
                }
                match rule.shift {
                    Move::Left => tape.move_left(),
                    Move::Right => tape.move_right(),
                    Move::Stay => {},
                }
                Some(rule.next)
            },
        }
    }
}

} // verus!
