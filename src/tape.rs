use vstd::prelude::*;

verus! {

/// The abstract content of a tape: the materialized cells, in order, and the
/// cursor position within them. `None` is the blank symbol.
pub struct TapeView {
    pub cells: Seq<Option<char>>,
    pub head: int,
}

impl TapeView {
    /// The cursor always designates a materialized cell.
    pub open spec fn wf(self) -> bool {
        0 <= self.head < self.cells.len()
    }

    pub open spec fn read(self) -> Option<char> {
        self.cells[self.head]
    }

    pub open spec fn write(self, symbol: Option<char>) -> TapeView {
        TapeView { cells: self.cells.update(self.head, symbol), head: self.head }
    }

    /// One cell to the right; past the right end a blank cell is added.
    pub open spec fn move_right(self) -> TapeView {
        if self.head + 1 < self.cells.len() {
            TapeView { cells: self.cells, head: self.head + 1 }
        } else {
            TapeView { cells: self.cells.push(None), head: self.head + 1 }
        }
    }

    /// One cell to the left; past the left end a blank cell is added in front.
    pub open spec fn move_left(self) -> TapeView {
        if self.head > 0 {
            TapeView { cells: self.cells, head: self.head - 1 }
        } else {
            TapeView { cells: seq![None].add(self.cells), head: 0 }
        }
    }

    /// The tape after `n` moves to the right.
    pub open spec fn move_right_n(self, n: nat) -> TapeView
        decreases n,
    {
        if n == 0 {
            self
        } else {
            self.move_right_n((n - 1) as nat).move_right()
        }
    }

    /// The tape after `n` moves to the left.
    pub open spec fn move_left_n(self, n: nat) -> TapeView
        decreases n,
    {
        if n == 0 {
            self
        } else {
            self.move_left_n((n - 1) as nat).move_left()
        }
    }
}

/// The tape holding the characters of `s` in order, then one blank, with the
/// cursor on the first cell.
pub open spec fn loaded(s: Seq<char>) -> TapeView {
    TapeView { cells: s.map_values(|c: char| Some(c)).push(None), head: 0 }
}

/// The tape holding `symbols` with the cursor on the first cell; an empty
/// sequence gives a single blank cell.
pub open spec fn from_symbols(symbols: Seq<Option<char>>) -> TapeView {
    if symbols.len() == 0 {
        TapeView { cells: seq![None], head: 0 }
    } else {
        TapeView { cells: symbols, head: 0 }
    }
}

/// `n` blank cells.
pub open spec fn blanks(n: nat) -> Seq<Option<char>> {
    Seq::new(n, |i: int| None)
}

/// Moving left `n` times never fails: the cursor walks down to the left end,
/// and each move past it adds a blank cell in front, under the cursor.
pub proof fn lemma_move_left_n(t: TapeView, n: nat)
    requires
        t.wf(),
    ensures
        t.move_left_n(n).wf(),
        n <= t.head ==> t.move_left_n(n) == (TapeView { cells: t.cells, head: t.head - n }),
        n > t.head ==> t.move_left_n(n) == (TapeView {
            cells: blanks((n - t.head) as nat).add(t.cells),
            head: 0,
        }),
        n > t.head ==> t.move_left_n(n).read() is None,
    decreases n,
{
    if n > 0 {
        lemma_move_left_n(t, (n - 1) as nat);
        if n > t.head {
            if n - 1 > t.head {
                assert(seq![None].add(blanks((n - 1 - t.head) as nat).add(t.cells)) =~= blanks(
                    (n - t.head) as nat,
                ).add(t.cells));
            } else {
                assert(seq![None].add(t.cells) =~= blanks((n - t.head) as nat).add(t.cells));
            }
        }
    }
}

/// Moving right `n` times never fails: each move past the right end adds a
/// blank cell there, under the cursor.
pub proof fn lemma_move_right_n(t: TapeView, n: nat)
    requires
        t.wf(),
    ensures
        t.move_right_n(n).wf(),
        t.move_right_n(n).head == t.head + n,
        t.head + n < t.cells.len() ==> t.move_right_n(n).cells == t.cells,
        t.head + n >= t.cells.len() ==> t.move_right_n(n).cells == t.cells.add(
            blanks((t.head + n + 1 - t.cells.len()) as nat),
        ),
        t.head + n >= t.cells.len() ==> t.move_right_n(n).read() is None,
    decreases n,
{
    if n > 0 {
        lemma_move_right_n(t, (n - 1) as nat);
        if t.head + n >= t.cells.len() {
            if t.head + n - 1 >= t.cells.len() {
                assert(t.cells.add(blanks((t.head + n - t.cells.len()) as nat)).push(None) =~= t.cells.add(
                    blanks((t.head + n + 1 - t.cells.len()) as nat),
                ));
            } else {
                assert(t.cells.push(None) =~= t.cells.add(blanks(1)));
            }
        }
    }
}

/// Reading a tape loaded from `s` cell by cell from its start gives the
/// characters of `s` in order, then blanks.
pub proof fn lemma_loaded_reads(s: Seq<char>, k: nat)
    ensures
        k < s.len() ==> loaded(s).move_right_n(k).read() == Some(s[k as int]),
        k >= s.len() ==> loaded(s).move_right_n(k).read() is None,
{
    let t = loaded(s);
    lemma_move_right_n(t, k);
    if k < t.cells.len() {
        assert(t.move_right_n(k).read() == t.cells[k as int]);
    }
}

/// A tape unbounded in both directions. Cells that were never written read as
/// blank (`None`); moving past either end materializes a blank cell there.
pub struct Tape {
    index: usize,
    tape: Vec<Option<char>>,
}

impl View for Tape {
    type V = TapeView;

    closed spec fn view(&self) -> TapeView {
        TapeView { cells: self.tape@, head: self.index as int }
    }
}

impl Tape {
    /// A tape of one blank cell.
    pub fn new() -> (t: Self)
        ensures
            t@ == (TapeView { cells: seq![None], head: 0 }),
            t@.wf(),
    {
        let t = Tape { index: 0, tape: vec![None] };
        assert(t.tape@ =~= seq![None]);
        t
    }

    /// A tape holding the characters of `s`, one per cell, left to right,
    /// followed by one blank, with the cursor on the first character.
    pub fn from_text(s: &str) -> (t: Self)
        ensures
            t@ == loaded(s@),
    {
        let mut t = Tape::new();
        assert(s@.take(0).map_values(|c: char| Some(c)).push(None) =~= seq![None]);
        for c in it: s.chars()
            invariant
                it.seq() == s@,
                0 <= it.index() <= s@.len(),
                t@ == (TapeView {
                    cells: s@.take(it.index()).map_values(|c: char| Some(c)).push(None),
                    head: it.index(),
                }),
        {
            t.write(Some(c));
            t.move_right();
            assert(t@.cells =~= s@.take(it.index() + 1).map_values(|c: char| Some(c)).push(None));
        }
        assert(s@.take(s@.len() as int) =~= s@);
        t.index = 0;
        t
    }

    /// A tape holding `symbols` with the cursor on the first one. An empty
    /// sequence gives a tape of one blank cell.
    pub fn from_symbols(symbols: Vec<Option<char>>) -> (t: Self)
        ensures
            t@ == from_symbols(symbols@),
    {
        if symbols.len() == 0 {
            Tape::new()
        } else {
            Tape { index: 0, tape: symbols }
        }
    }

    /// Stores `value` in the cell under the cursor.
    pub fn write(&mut self, value: Option<char>)
        requires
            old(self)@.wf(),
        ensures
            final(self)@.wf(),
            final(self)@ == old(self)@.write(value),
    {
        let i = self.index;
        self.tape.set(i, value);
    }

    /// The symbol under the cursor.
    pub fn read(&self) -> (r: Option<char>)
        requires
            self@.wf(),
        ensures
            r == self@.read(),
    {
        self.tape[self.index]
    }

    /// Moves the cursor one cell to the left.
    pub fn move_left(&mut self)
        requires
            old(self)@.wf(),
        ensures
            final(self)@.wf(),
            final(self)@ == old(self)@.move_left(),
    {
        if self.index == 0 {
            self.tape.insert(0, None);
            assert(self.tape@ =~= seq![None].add(old(self).tape@));
        } else {
            self.index = self.index - 1;
        }
    }

    /// Moves the cursor one cell to the right.
    pub fn move_right(&mut self)
        requires
            old(self)@.wf(),
        ensures
            final(self)@.wf(),
            final(self)@ == old(self)@.move_right(),
    {
        let len = self.tape.len();
        if self.index + 1 == len {
            self.tape.push(None);
        }
        self.index = self.index + 1;
    }

    /// The materialized cells, leftmost first.
    pub fn cells(&self) -> (r: Vec<Option<char>>)
        ensures
            r@ == self@.cells,
    {
        self.tape.clone()
    }

    /// The cursor's index into `cells()`.
    pub fn position(&self) -> (r: usize)
        ensures
            r == self@.head,
    {
        self.index
    }
}

} // verus!
