//! The byte stream: raw PTY output through the parser onto the screen.

use vstd::prelude::*;

use crate::ansi::{StateMutator, Term};
use crate::cursor::CursorState;
use crate::params::CsiParams;
use crate::screen::Screen;
use crate::text::push_bytes;

verus! {

/// A parsed action, as a mathematical value.
#[verifier::ext_equal]
pub enum Action {
    Print(char),
    Execute(u8),
    Csi { params: Seq<Seq<u16>>, intermediates: Seq<u8>, action: char },
    Esc(u8),
}

/// A parsed action as recorded from the parser.
pub enum Recorded {
    Print(char),
    Execute(u8),
    Csi { params: CsiParams, intermediates: Vec<u8>, action: char },
    Esc(u8),
}

impl View for Recorded {
    type V = Action;

    open spec fn view(&self) -> Action {
        match self {
            Recorded::Print(c) => Action::Print(*c),
            Recorded::Execute(byte) => Action::Execute(*byte),
            Recorded::Csi { params, intermediates, action } => Action::Csi {
                params: params@,
                intermediates: intermediates@,
                action: *action,
            },
            Recorded::Esc(byte) => Action::Esc(*byte),
        }
    }
}

/// Actions in the order in which the parser issued them.
pub struct Recorder {
    pub actions: Vec<Recorded>,
}

impl View for Recorder {
    type V = Seq<Action>;

    open spec fn view(&self) -> Seq<Action> {
        self.actions@.map_values(|r: Recorded| r@)
    }
}

impl Recorder {
    pub fn new() -> (rec: Self)
        ensures
            rec@ == Seq::<Action>::empty(),
    {
        let rec = Recorder { actions: Vec::new() };
        assert(rec@ =~= Seq::<Action>::empty());
        rec
    }

    fn note(&mut self, what: Recorded)
        ensures
            final(self)@ == old(self)@.push(what@),
    {
        self.actions.push(what);
        assert(self@ =~= old(self)@.push(what@));
    }
}

/// `vte::Params`: the numeric parameters of a sequence.
#[verifier::external_type_specification]
#[verifier::external_body]
pub struct ExVteParams(vte::Params);

/// `vte::Parser`: the escape-sequence state machine.
#[verifier::external_type_specification]
#[verifier::external_body]
pub struct ExVteParser<const N: usize>(vte::Parser<N>);

/// The parameter groups that a `vte::Params` holds, each with its subparameters.
pub uninterp spec fn param_groups(params: vte::Params) -> Seq<Seq<u16>>;

/// The bytes that a parser has been given since it was made.
pub uninterp spec fn bytes_seen(parser: vte::Parser) -> Seq<u8>;

/// The actions that a parser which has seen `before` issues for `byte`, as far
/// as a `Recorder` keeps them.
pub uninterp spec fn actions_for(before: Seq<u8>, byte: u8) -> Seq<Action>;

/// `vte::Params::iter` hands out the groups in order, each as a slice; this
/// copies them.
#[verifier::external_body]
fn copy_groups(params: &vte::Params) -> (copy: CsiParams)
    ensures
        copy@ == param_groups(*params),
{
    CsiParams { groups: params.iter().map(|group| group.to_vec()).collect() }
}

/// `vte::Parser::new`: a parser that has seen nothing.
#[verifier::external_body]
fn new_parser() -> (parser: vte::Parser)
    ensures
        bytes_seen(parser) == Seq::<u8>::empty(),
{
    vte::Parser::new()
}

/// `vte::Parser::advance` takes one byte and calls the performer for each
/// action that it completes. What it calls depends on the bytes seen so far
/// and on this one alone.
#[verifier::external_body]
fn advance(parser: &mut vte::Parser, recorder: &mut Recorder, byte: u8)
    ensures
        bytes_seen(*final(parser)) == bytes_seen(*old(parser)).push(byte),
        final(recorder)@ == old(recorder)@ + actions_for(bytes_seen(*old(parser)), byte),
{
    parser.advance(recorder, byte);
}

impl vte::Perform for Recorder {
    fn print(&mut self, c: char)
        ensures
            final(self)@ == old(self)@.push(Action::Print(c)),
    {
        self.note(Recorded::Print(c));
    }

    fn execute(&mut self, byte: u8)
        ensures
            final(self)@ == old(self)@.push(Action::Execute(byte)),
    {
        self.note(Recorded::Execute(byte));
    }

    fn csi_dispatch(
        &mut self,
        params: &vte::Params,
        intermediates: &[u8],
        _ignore: bool,
        action: char,
    )
        ensures
            final(self)@ == old(self)@.push(
                (Action::Csi {
                    params: param_groups(*params),
                    intermediates: intermediates@,
                    action,
                }),
            ),
    {
        let copy = copy_groups(params);
        let mut bytes: Vec<u8> = Vec::new();
        push_bytes(&mut bytes, intermediates);
        assert(bytes@ =~= intermediates@);
        self.note(Recorded::Csi { params: copy, intermediates: bytes, action });
    }

    fn esc_dispatch(&mut self, _intermediates: &[u8], _ignore: bool, byte: u8)
        ensures
            final(self)@ == old(self)@.push(Action::Esc(byte)),
    {
        self.note(Recorded::Esc(byte));
    }
}

/// The actions that a parser which has seen `before` issues for all of `bytes`.
pub open spec fn actions_of(before: Seq<u8>, bytes: Seq<u8>) -> Seq<Action>
    decreases bytes.len(),
{
    if bytes.len() == 0 {
        Seq::empty()
    } else {
        actions_of(before, bytes.drop_last()) + actions_for(
            before + bytes.drop_last(),
            bytes.last(),
        )
    }
}

/// The actions completed by `bytes`.
fn parse(parser: &mut vte::Parser, bytes: &[u8]) -> (rec: Recorder)
    ensures
        rec@ == actions_of(bytes_seen(*old(parser)), bytes@),
        bytes_seen(*final(parser)) == bytes_seen(*old(parser)) + bytes@,
{
    let mut rec = Recorder::new();
    let ghost before = bytes_seen(*parser);
    let mut i: usize = 0;
    assert(before + bytes@.take(0) =~= before);
    while i < bytes.len()
        invariant
            i <= bytes.len(),
            rec@ == actions_of(before, bytes@.take(i as int)),
            bytes_seen(*parser) == before + bytes@.take(i as int),
        decreases bytes.len() - i,
    {
        advance(parser, &mut rec, bytes[i]);
        i += 1;
        assert(bytes@.take(i as int).drop_last() =~= bytes@.take(i - 1));
        assert(before + bytes@.take(i as int) =~= (before + bytes@.take(i - 1)).push(
            bytes@[i - 1],
        ));
    }
    assert(bytes@.take(bytes@.len() as int) =~= bytes@);
    rec
}

impl Term {
    /// Is this action one the screen can take?
    pub open spec fn can_take(self, action: Action) -> bool {
        match action {
            Action::Print(c) => self.can_print(),
            Action::Execute(byte) => self.can_execute(byte),
            Action::Csi { params, intermediates, action } => self.can_csi(
                params,
                intermediates,
                action,
            ),
            Action::Esc(byte) => self.can_esc(byte),
        }
    }

    /// What an action does.
    pub open spec fn take(self, action: Action) -> Term {
        match action {
            Action::Print(c) => self.print(c),
            Action::Execute(byte) => self.execute(byte),
            Action::Csi { params, intermediates, action } => self.csi(
                params,
                intermediates,
                action,
            ),
            Action::Esc(byte) => self.esc(byte),
        }
    }

    /// The state after `actions` in order, stopping in front of the first one
    /// that the screen cannot take.
    pub open spec fn run(self, actions: Seq<Action>) -> Term
        decreases actions.len(),
    {
        if actions.len() == 0 || !self.can_take(actions[0]) {
            self
        } else {
            self.take(actions[0]).run(actions.drop_first())
        }
    }

    /// Can all of `actions` be taken, one after the other?
    pub open spec fn runs(self, actions: Seq<Action>) -> bool
        decreases actions.len(),
    {
        actions.len() == 0 || (self.can_take(actions[0]) && self.take(actions[0]).runs(
            actions.drop_first(),
        ))
    }

    /// Positions so far below the machine's limits that arithmetic on them
    /// cannot overflow.
    pub open spec fn bounded(self) -> bool {
        &&& self.screen.wf()
        &&& self.screen.cols <= isize::MAX / 2
        &&& self.screen.rows <= isize::MAX / 2
        &&& self.cursor.row <= isize::MAX / 2
        &&& self.cursor.col <= isize::MAX / 2
        &&& self.cursor.saved matches Some(s) ==> s.row <= isize::MAX / 2 && s.col <= isize::MAX
            / 2
    }
}

/// A mode change keeps the screen's size and puts no position out of bounds.
proof fn lemma_modes_bounded(t: Term, params: Seq<Seq<u16>>, i: int, set: bool)
    requires
        t.bounded(),
    ensures
        t.screen.rows > 0 ==> t.can_modes_from(params, i, set),
        t.can_modes_from(params, i, set) ==> t.modes_from(params, i, set).bounded(),
    decreases params.len() - i,
{
    if 0 <= i < params.len() {
        let n = crate::params::param_or(params, i, 0);
        if t.can_mode(n, set) {
            assert(t.mode(n, set).bounded());
            lemma_modes_bounded(t.mode(n, set), params, i + 1, set);
        }
    }
}

/// Within bounds and with cells on the screen, only a printable character can
/// be refused: when the cursor stands below the last row.
pub proof fn lemma_only_print_refused(t: Term, action: Action)
    requires
        t.bounded(),
        0 < t.screen.cols,
        0 < t.screen.rows,
    ensures
        t.can_take(action) <==> (action is Print ==> t.cursor.row < t.screen.rows),
{
    match action {
        Action::Csi { params, intermediates, action } => {
            lemma_modes_bounded(t, params, 0, action == 'h');
        },
        _ => {},
    }
}

/// Does this mode switch between the two screens?
pub open spec fn switches_screen(n: u16) -> bool {
    n == 47 || n == 1047 || n == 1049
}

/// On a screen without rows, modes can be set or reset as long as none of them
/// leads to the other screen.
proof fn lemma_modes_without_rows(t: Term, params: Seq<Seq<u16>>, i: int, set: bool)
    requires
        t.screen.rows == 0,
        0 <= i,
    ensures
        t.can_modes_from(params, i, set) <==> set == t.screen.alt || (forall|j: int|
            i <= j < params.len() ==> !switches_screen(
                #[trigger] crate::params::param_or(params, j, 0),
            )),
    decreases params.len() - i,
{
    if i < params.len() {
        let n = crate::params::param_or(params, i, 0);
        if t.can_mode(n, set) {
            lemma_modes_without_rows(t.mode(n, set), params, i + 1, set);
        }
    }
}

/// A cursor moved to within bounds leaves everything else as it was.
proof fn lemma_cursor_bounded(t: Term, cur: CursorState)
    requires
        t.bounded(),
        cur.row <= isize::MAX / 2,
        cur.col <= isize::MAX / 2,
        cur.saved == t.cursor.saved || cur.saved == t.cursor.with_save().saved,
    ensures
        t.with_cursor(cur).bounded(),
{
}

/// A changed viewport of the same size leaves everything else as it was.
proof fn lemma_cells_bounded(t: Term, scr: Screen)
    requires
        t.bounded(),
        scr.cells.len() == t.screen.cells.len(),
        scr == (Screen { cells: scr.cells, ..t.screen }),
    ensures
        t.with_screen(scr).bounded(),
{
}

proof fn lemma_csi_bounded(
    t: Term,
    params: Seq<Seq<u16>>,
    intermediates: Seq<u8>,
    action: char,
)
    requires
        t.bounded(),
        t.can_csi(params, intermediates, action),
    ensures
        t.csi(params, intermediates, action).bounded(),
{
    let n = crate::params::count_param(params, 1);
    assert(isize::MAX / 2 >= 0x3fff_ffff);
    if action == 'A' || action == 'B' || action == 'C' || action == 'D' || action == 'm' || action
        == 'H' || action == 'f' || action == 'G' || action == '`' || action == 'd' || action == 's'
        || action == 'u' {
        lemma_cursor_bounded(t, t.csi(params, intermediates, action).cursor);
    } else if action == 'J' || action == 'K' || action == 'P' || action == '@' || action == 'X'
        || action == 'L' || action == 'M' {
        lemma_cells_bounded(t, t.csi(params, intermediates, action).screen);
    } else if action == 'h' || action == 'l' {
        lemma_modes_bounded(t, params, 0, action == 'h');
    } else if action == 'r' {
        lemma_cursor_bounded(t, t.cursor.at(0, 0));
    }
}

proof fn lemma_print_bounded(t: Term, c: char)
    requires
        t.bounded(),
        t.can_print(),
    ensures
        t.print(c).bounded(),
{
    let (scr, cur) = t.screen.wrap(t.cursor);
    assert(t.with_both((scr, cur)).bounded());
    assert(cur.col < scr.cols);
    crate::screen::lemma_position(scr, cur.col as int, cur.row as int);
}

proof fn lemma_execute_bounded(t: Term, byte: u8)
    requires
        t.bounded(),
        t.can_execute(byte),
    ensures
        t.execute(byte).bounded(),
{
}

proof fn lemma_esc_bounded(t: Term, byte: u8)
    requires
        t.bounded(),
        t.can_esc(byte),
    ensures
        t.esc(byte).bounded(),
{
}

/// Every action that is taken keeps the screen well-formed and all positions
/// within bounds.
pub proof fn lemma_take_bounded(t: Term, what: Action)
    requires
        t.bounded(),
        t.can_take(what),
    ensures
        t.take(what).bounded(),
{
    match what {
        Action::Print(c) => lemma_print_bounded(t, c),
        Action::Execute(byte) => lemma_execute_bounded(t, byte),
        Action::Csi { params, intermediates, action } => lemma_csi_bounded(
            t,
            params,
            intermediates,
            action,
        ),
        Action::Esc(byte) => lemma_esc_bounded(t, byte),
    }
}

impl<'a> StateMutator<'a> {
    /// Can these modes be set or reset?
    fn can_set_modes(&self, params: &CsiParams, set: bool) -> (yes: bool)
        requires
            self.term().bounded(),
        ensures
            yes == self.term().can_modes_from(params@, 0, set),
    {
        proof {
            lemma_modes_bounded(self.term(), params@, 0, set);
        }
        if self.grid.rows() > 0 {
            return true;
        }
        proof {
            lemma_modes_without_rows(self.term(), params@, 0, set);
        }
        if set == self.grid.is_alt() {
            return true;
        }
        let mut i: usize = 0;
        while i < params.len()
            invariant
                i <= params@.len(),
                forall|j: int|
                    0 <= j < i ==> !switches_screen(
                        #[trigger] crate::params::param_or(params@, j, 0),
                    ),
                set != self.term().screen.alt,
                self.term().can_modes_from(params@, 0, set) <==> set == self.term().screen.alt || (
                forall|j: int|
                    0 <= j < params@.len() ==> !switches_screen(
                        #[trigger] crate::params::param_or(params@, j, 0),
                    )),
            decreases params@.len() - i,
        {
            let n = params.first_or(i, 0);
            if n == 47 || n == 1047 || n == 1049 {
                return false;
            }
            i += 1;
        }
        true
    }

    /// Is this action one the screen can take?
    pub fn can_take(&self, what: &Recorded) -> (yes: bool)
        requires
            self.term().bounded(),
        ensures
            yes == self.term().can_take(what@),
    {
        assert(isize::MAX / 2 >= 0x3fff_ffff);
        let cols = self.grid.cols();
        let rows = self.grid.rows();
        match what {
            Recorded::Print(_) => cols > 0 && self.cursor.row < rows,
            Recorded::Execute(byte) => *byte != 0x0a || self.grid.can_feed(self.cursor),
            Recorded::Csi { params, intermediates, action } => match *action {
                'A' | 'B' | 'C' | 'D' | 'J' => cols > 0 && rows > 0,
                'K' | 'P' | '@' | 'X' => rows > 0,
                'L' | 'M' => self.grid.can_edit_lines(self.cursor),
                'r' => intermediates.len() > 0 || rows > 0,
                'h' | 'l' => {
                    if intermediates.len() > 0 && intermediates[0] == 0x3f {
                        self.can_set_modes(params, *action == 'h')
                    } else {
                        true
                    }
                },
                _ => true,
            },
            Recorded::Esc(byte) => match *byte {
                0x44 | 0x45 => self.grid.can_feed(self.cursor),
                0x4d => self.grid.can_reverse(self.cursor),
                _ => true,
            },
        }
    }

    /// Perform one recorded action.
    pub fn perform(&mut self, what: &Recorded)
        requires
            old(self).term().screen.wf(),
            old(self).term().can_take(what@),
        ensures
            final(self).term() == old(self).term().take(what@),
            final(self).term().screen.wf(),
            *final(final(self).grid) == *final(old(self).grid),
            *final(final(self).cursor) == *final(old(self).cursor),
            *final(final(self).responses) == *final(old(self).responses),
    {
        match what {
            Recorded::Print(c) => self.print(*c),
            Recorded::Execute(byte) => self.execute(*byte),
            Recorded::Csi { params, intermediates, action } => self.csi_dispatch(
                params,
                intermediates.as_slice(),
                false,
                *action,
            ),
            Recorded::Esc(byte) => self.esc_dispatch(Vec::new().as_slice(), false, *byte),
        }
    }

    /// Perform recorded actions in order. Returns false, with the state as it
    /// then was, in front of one that the screen cannot take: a printable
    /// character for which the cursor is below the last row, or one that needs
    /// cells on a screen that has none.
    pub fn perform_all(&mut self, rec: &Recorder) -> (all: bool)
        requires
            old(self).term().bounded(),
        ensures
            all == old(self).term().runs(rec@),
            final(self).term() == old(self).term().run(rec@),
            final(self).term().bounded(),
            *final(final(self).grid) == *final(old(self).grid),
            *final(final(self).cursor) == *final(old(self).cursor),
            *final(final(self).responses) == *final(old(self).responses),
    {
        let ghost start = self.term();
        let mut i: usize = 0;
        assert(rec@.skip(0) =~= rec@);
        while i < rec.actions.len()
            invariant
                i <= rec.actions.len(),
                start == old(self).term(),
                self.term().bounded(),
                self.term().run(rec@.skip(i as int)) == start.run(rec@),
                self.term().runs(rec@.skip(i as int)) == start.runs(rec@),
                *final(self.grid) == *final(old(self).grid),
                *final(self.cursor) == *final(old(self).cursor),
                *final(self.responses) == *final(old(self).responses),
            decreases rec.actions.len() - i,
        {
            let what = &rec.actions[i];
            proof {
                assert(rec@.skip(i as int)[0] == what@);
                assert(rec@.skip(i as int).drop_first() =~= rec@.skip(i + 1));
            }
            if !self.can_take(what) {
                return false;
            }
            proof {
                lemma_take_bounded(self.term(), what@);
            }
            self.perform(what);
            i += 1;
        }
        true
    }
}

/// A parser with the bytes it has been given.
pub struct ByteStream {
    parser: vte::Parser,
}

impl View for ByteStream {
    type V = Seq<u8>;

    closed spec fn view(&self) -> Seq<u8> {
        bytes_seen(self.parser)
    }
}

impl ByteStream {
    pub fn new() -> (stream: Self)
        ensures
            stream@ == Seq::<u8>::empty(),
    {
        ByteStream { parser: new_parser() }
    }

    /// The actions completed by the next `bytes`.
    pub fn parse(&mut self, bytes: &[u8]) -> (rec: Recorder)
        ensures
            rec@ == actions_of(old(self)@, bytes@),
            final(self)@ == old(self)@ + bytes@,
    {
        parse(&mut self.parser, bytes)
    }

    /// Run the next `bytes` of output through the parser onto the screen. The
    /// parser keeps unfinished sequences and characters for the next call.
    /// Returns false, with the state as it then was, in front of an action that
    /// the screen cannot take.
    pub fn feed(&mut self, mutator: &mut StateMutator<'_>, bytes: &[u8]) -> (all: bool)
        requires
            old(mutator).term().bounded(),
        ensures
            all == old(mutator).term().runs(actions_of(old(self)@, bytes@)),
            final(mutator).term() == old(mutator).term().run(actions_of(old(self)@, bytes@)),
            final(mutator).term().bounded(),
            final(self)@ == old(self)@ + bytes@,
            *final(final(mutator).grid) == *final(old(mutator).grid),
            *final(final(mutator).cursor) == *final(old(mutator).cursor),
            *final(final(mutator).responses) == *final(old(mutator).responses),
    {
        let rec = self.parse(bytes);
        mutator.perform_all(&rec)
    }
}

} // verus!
