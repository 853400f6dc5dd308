//! What is written to the terminal, piece by piece, and the text that it makes.

use vstd::prelude::*;
use vstd::string::StringExecFns;

use crate::escape::Escape;

verus! {

/// One piece of what is written.
pub enum Output {
    /// An escape sequence of the backend.
    Escape(Escape),
    /// The grapheme of a cell, printed where the cursor stands.
    Symbol(Seq<char>),
    /// A ready-made command of the terminal's own.
    Command(Seq<char>),
}

impl Output {
    /// The text of the piece.
    pub open spec fn text(self) -> Seq<char> {
        match self {
            Output::Escape(escape) => escape.text(),
            Output::Symbol(symbol) => symbol,
            Output::Command(command) => command,
        }
    }
}

/// The text of the pieces, one after the other.
pub open spec fn text_of(pieces: Seq<Output>) -> Seq<char>
    decreases pieces.len(),
{
    if pieces.len() == 0 {
        seq![]
    } else {
        text_of(pieces.drop_last()) + pieces.last().text()
    }
}

/// The text of two runs of pieces is the text of the first, then that of the second.
pub proof fn text_of_concat(first: Seq<Output>, second: Seq<Output>)
    ensures
        text_of(first + second) == text_of(first) + text_of(second),
    decreases second.len(),
{
    if second.len() == 0 {
        assert(first + second == first);
        assert(text_of(first) + Seq::<char>::empty() == text_of(first));
    } else {
        text_of_concat(first, second.drop_last());
        assert((first + second).drop_last() == first + second.drop_last());
        assert(text_of(first) + text_of(second.drop_last()) + second.last().text() == text_of(first) + (
        text_of(second.drop_last()) + second.last().text()));
    }
}

/// No piece has no text; a symbol and a ready-made command are their own text, and an
/// escape sequence alone has its text.
pub proof fn text_of_one(text: Seq<char>, escape: Escape)
    ensures
        text_of(Seq::empty()) == Seq::<char>::empty(),
        text_of(seq![Output::Symbol(text)]) == text,
        text_of(seq![Output::Command(text)]) == text,
        text_of(seq![Output::Escape(escape)]) == escape.text(),
{
    reveal_with_fuel(text_of, 2);
    let nothing = Seq::<Output>::empty();
    assert(seq![Output::Symbol(text)].drop_last() == nothing);
    assert(seq![Output::Command(text)].drop_last() == nothing);
    assert(seq![Output::Escape(escape)].drop_last() == nothing);
    assert(Seq::<char>::empty() + text == text);
    assert(Seq::<char>::empty() + escape.text() == escape.text());
}

/// Output that follows a run of output makes the run longer.
pub(crate) proof fn concat_run(start: Seq<Output>, run: Seq<Output>, next: Seq<Output>) -> (longer:
    Seq<Output>)
    ensures
        longer == run + next,
        run.len() == 0 ==> longer == next,
        start + run + next == start + longer,
{
    assert(start + run + next == start + (run + next));
    if run.len() == 0 {
        assert(run + next == next);
    }
    run + next
}

/// Output that follows nothing stands alone.
pub(crate) proof fn empty_run(run: Seq<Output>)
    ensures
        Seq::<Output>::empty() + run == run,
{
    assert(Seq::<Output>::empty() + run == run);
}

/// Text under construction, with the pieces that it was put together from.
pub struct Transcript {
    text: String,
    pieces: Ghost<Seq<Output>>,
}

impl View for Transcript {
    type V = Seq<Output>;

    closed spec fn view(&self) -> Seq<Output> {
        self.pieces@
    }
}

impl Transcript {
    /// The text is the text of the pieces.
    pub closed spec fn well_formed(self) -> bool {
        self.text@ == text_of(self.pieces@)
    }

    /// A transcript of nothing.
    pub fn new() -> (transcript: Transcript)
        ensures
            transcript.well_formed(),
            transcript@ == Seq::<Output>::empty(),
    {
        Transcript { text: String::new(), pieces: Ghost(Seq::empty()) }
    }

    /// Adds the text of a piece, and the piece.
    fn add(&mut self, text: &str, piece: Ghost<Output>)
        requires
            old(self).well_formed(),
            text@ == piece@.text(),
        ensures
            final(self).well_formed(),
            final(self)@ == old(self)@.push(piece@),
    {
        let ghost before = self.pieces@;
        self.text.append(text);
        self.pieces = Ghost(before.push(piece@));
        assert(before.push(piece@).drop_last() == before);
    }

    /// Adds an escape sequence.
    pub fn escape(&mut self, escape: Escape)
        requires
            old(self).well_formed(),
            escape.in_range(),
        ensures
            final(self).well_formed(),
            final(self)@ == old(self)@.push(Output::Escape(escape)),
    {
        let text = escape.render();
        self.add(text.as_str(), Ghost(Output::Escape(escape)));
    }

    /// Adds the grapheme of a cell.
    pub fn symbol(&mut self, symbol: &String)
        requires
            old(self).well_formed(),
        ensures
            final(self).well_formed(),
            final(self)@ == old(self)@.push(Output::Symbol(symbol@)),
    {
        self.add(symbol.as_str(), Ghost(Output::Symbol(symbol@)));
    }

    /// Adds a ready-made command.
    pub fn command(&mut self, command: &String)
        requires
            old(self).well_formed(),
        ensures
            final(self).well_formed(),
            final(self)@ == old(self)@.push(Output::Command(command@)),
    {
        self.add(command.as_str(), Ghost(Output::Command(command@)));
    }

    /// The text.
    pub fn into_text(self) -> (text: String)
        requires
            self.well_formed(),
        ensures
            text@ == text_of(self@),
    {
        self.text
    }
}

} // verus!
