use vstd::prelude::*;

verus! {

broadcast use vstd::std_specs::vec::group_vec_axioms, vstd::seq::group_seq_axioms;

/// The name of a grammar production, used to label failure context frames.
#[derive(Clone, Copy, PartialEq, Eq, Structural, Debug)]
pub enum Label {
    ContinueStatement,
    BreakStatement,
    ReturnStatement,
    IfStatement,
    WhileStatement,
    LetStatement,
    ExprStatement,
    BlockStatement,
    Expression,
}

/// The terminal cause of a parse failure.
#[derive(Clone, PartialEq, Eq, Debug)]
pub enum ErrorCause {
    /// A specific token was expected and not found.
    ExpectedLiteral(Vec<char>),
    /// Input ended where more was required.
    UnexpectedEndOfInput,
    /// A block was opened and its closing brace never came.
    UnterminatedBlock,
    /// Every alternative of the statement dispatcher failed without any of
    /// them consuming input.
    AllAlternativesFailed,
}

/// One labeled context frame: the production that was running and the
/// position where it started.
#[derive(Clone, Copy, PartialEq, Eq, Debug)]
pub struct Frame {
    pub label: Label,
    pub start: usize,
}

/// A structured parse failure: context frames ordered innermost first, a
/// terminal cause, and the position of the mismatch itself.
#[derive(Clone, PartialEq, Eq, Debug)]
pub struct ParseFailure {
    pub frames: Vec<Frame>,
    pub cause: ErrorCause,
    pub at: usize,
}

/// The mathematical shape of an `ErrorCause`.
pub enum SpecCause {
    ExpectedLiteral(Seq<char>),
    UnexpectedEndOfInput,
    UnterminatedBlock,
    AllAlternativesFailed,
}

/// The mathematical shape of a `Frame`.
pub struct SpecFrame {
    pub label: Label,
    pub start: int,
}

/// The mathematical shape of a `ParseFailure`.
pub struct SpecFailure {
    pub frames: Seq<SpecFrame>,
    pub cause: SpecCause,
    pub at: int,
}

impl View for ErrorCause {
    type V = SpecCause;

    open spec fn view(&self) -> SpecCause {
        match self {
            ErrorCause::ExpectedLiteral(v) => SpecCause::ExpectedLiteral(v@),
            ErrorCause::UnexpectedEndOfInput => SpecCause::UnexpectedEndOfInput,
            ErrorCause::UnterminatedBlock => SpecCause::UnterminatedBlock,
            ErrorCause::AllAlternativesFailed => SpecCause::AllAlternativesFailed,
        }
    }
}

impl View for Frame {
    type V = SpecFrame;

    open spec fn view(&self) -> SpecFrame {
        SpecFrame { label: self.label, start: self.start as int }
    }
}

impl View for ParseFailure {
    type V = SpecFailure;

    open spec fn view(&self) -> SpecFailure {
        SpecFailure {
            frames: self.frames@.map_values(|f: Frame| f@),
            cause: self.cause@,
            at: self.at as int,
        }
    }
}

impl SpecFailure {
    /// The failure with one more context frame pushed outward.
    pub open spec fn with_frame(self, label: Label, start: int) -> SpecFailure {
        SpecFailure {
            frames: self.frames.push(SpecFrame { label, start }),
            cause: self.cause,
            at: self.at,
        }
    }

    /// A bare failure: a specific token was expected at `at`.
    pub open spec fn expected(lit: Seq<char>, at: int) -> SpecFailure {
        SpecFailure { frames: Seq::empty(), cause: SpecCause::ExpectedLiteral(lit), at }
    }

    /// The innermost (most specific) context frame.
    pub open spec fn innermost(self) -> SpecFrame {
        self.frames[0]
    }
}

impl ParseFailure {
    /// Context layer: running a production under a label decorates its
    /// failures with that label and the production's starting position.
    pub fn with_frame(self, label: Label, start: usize) -> (r: ParseFailure)
        ensures
            r@ == self@.with_frame(label, start as int),
    {
        let mut frames = self.frames;
        frames.push(Frame { label, start });
        proof {
            assert(frames@.map_values(|f: Frame| f@) =~= self@.frames.push(
                SpecFrame { label, start: start as int },
            ));
        }
        ParseFailure { frames, cause: self.cause, at: self.at }
    }

    /// A bare expected-token failure at `at`.
    pub fn expected(lit: Vec<char>, at: usize) -> (r: ParseFailure)
        ensures
            r@ == SpecFailure::expected(lit@, at as int),
    {
        let r = ParseFailure { frames: Vec::new(), cause: ErrorCause::ExpectedLiteral(lit), at };
        proof {
            assert(r@.frames =~= Seq::<SpecFrame>::empty());
        }
        r
    }

    /// A bare end-of-input failure at `at`.
    pub fn end_of_input(at: usize) -> (r: ParseFailure)
        ensures
            r@ == (SpecFailure {
                frames: Seq::empty(),
                cause: SpecCause::UnexpectedEndOfInput,
                at: at as int,
            }),
    {
        let r = ParseFailure { frames: Vec::new(), cause: ErrorCause::UnexpectedEndOfInput, at };
        proof {
            assert(r@.frames =~= Seq::<SpecFrame>::empty());
        }
        r
    }

    /// A bare unterminated-block failure at `at`.
    pub fn unterminated(at: usize) -> (r: ParseFailure)
        ensures
            r@ == (SpecFailure {
                frames: Seq::empty(),
                cause: SpecCause::UnterminatedBlock,
                at: at as int,
            }),
    {
        let r = ParseFailure { frames: Vec::new(), cause: ErrorCause::UnterminatedBlock, at };
        proof {
            assert(r@.frames =~= Seq::<SpecFrame>::empty());
        }
        r
    }

    /// The dispatcher's failure when no alternative consumed any input.
    pub fn no_alternative(at: usize) -> (r: ParseFailure)
        ensures
            r@ == (SpecFailure {
                frames: Seq::empty(),
                cause: SpecCause::AllAlternativesFailed,
                at: at as int,
            }),
    {
        let r = ParseFailure { frames: Vec::new(), cause: ErrorCause::AllAlternativesFailed, at };
        proof {
            assert(r@.frames =~= Seq::<SpecFrame>::empty());
        }
        r
    }
}

/// Longest-match tie-break: of two failures, the one whose mismatch lies
/// further into the input; on a tie, the first.
pub open spec fn spec_better(a: SpecFailure, b: SpecFailure) -> SpecFailure {
    if b.at > a.at {
        b
    } else {
        a
    }
}

/// Longest-match tie-break over concrete failures.
pub fn better(a: ParseFailure, b: ParseFailure) -> (r: ParseFailure)
    ensures
        r@ == spec_better(a@, b@),
{
    if b.at > a.at {
        b
    } else {
        a
    }
}

} // verus!
