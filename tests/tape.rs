use turing_machine::tape::Tape;

#[test]
fn new_tape_reads_blank() {
    let t = Tape::new();
    assert_eq!(t.read(), None);
    assert_eq!(t.cells(), vec![None]);
    assert_eq!(t.position(), 0);
}

#[test]
fn write_then_read() {
    let mut t = Tape::new();
    t.write(Some('x'));
    assert_eq!(t.read(), Some('x'));
    t.write(None);
    assert_eq!(t.read(), None);
    assert_eq!(t.cells(), vec![None]);
}

#[test]
fn write_replaces_the_cell() {
    let mut t = Tape::from_text("abc");
    t.move_right();
    t.write(Some('z'));
    assert_eq!(t.cells(), vec![Some('a'), Some('z'), Some('c'), None]);
    assert_eq!(t.position(), 1);
}

#[test]
fn moving_right_past_the_end_reads_blank() {
    let mut t = Tape::from_text("ab");
    for _ in 0..10 {
        t.move_right();
    }
    assert_eq!(t.read(), None);
    assert_eq!(t.position(), 10);
    assert_eq!(t.cells().len(), 11);
}

#[test]
fn moving_left_past_the_start_reads_blank() {
    let mut t = Tape::from_text("ab");
    for _ in 0..5 {
        t.move_left();
        assert_eq!(t.read(), None);
        assert_eq!(t.position(), 0);
    }
    assert_eq!(
        t.cells(),
        vec![None, None, None, None, None, Some('a'), Some('b'), None]
    );
}

#[test]
fn moving_back_and_forth_keeps_contents() {
    let mut t = Tape::from_text("q");
    t.move_left();
    t.write(Some('p'));
    t.move_right();
    assert_eq!(t.read(), Some('q'));
    t.move_left();
    assert_eq!(t.read(), Some('p'));
    assert_eq!(t.cells(), vec![Some('p'), Some('q'), None]);
}

#[test]
fn text_load_round_trip() {
    let s = "héllo, wörld";
    let mut t = Tape::from_text(s);
    for c in s.chars() {
        assert_eq!(t.read(), Some(c));
        t.move_right();
    }
    for _ in 0..3 {
        assert_eq!(t.read(), None);
        t.move_right();
    }
}

#[test]
fn text_load_leaves_cursor_on_first_char() {
    let t = Tape::from_text("0101");
    assert_eq!(t.position(), 0);
    assert_eq!(t.read(), Some('0'));
    assert_eq!(
        t.cells(),
        vec![Some('0'), Some('1'), Some('0'), Some('1'), None]
    );
}

#[test]
fn empty_text_gives_one_blank() {
    let t = Tape::from_text("");
    assert_eq!(t.cells(), vec![None]);
    assert_eq!(t.read(), None);
}

#[test]
fn symbols_load() {
    let t = Tape::from_symbols(vec![None, Some('a'), None]);
    assert_eq!(t.cells(), vec![None, Some('a'), None]);
    assert_eq!(t.position(), 0);
    assert_eq!(t.read(), None);
    let e = Tape::from_symbols(Vec::new());
    assert_eq!(e.cells(), vec![None]);
}
