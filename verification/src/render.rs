use vstd::prelude::*;

use crate::diag::{Label, ErrorCause, ParseFailure, SpecCause, SpecFailure, SpecFrame};

verus! {

broadcast use vstd::std_specs::vec::group_vec_axioms, vstd::seq::group_seq_axioms;

// --- the rendering, stated mathematically ---

/// The decimal digit for a value below ten.
pub open spec fn digit_char(d: nat) -> char {
    if d == 0 {
        '0'
    } else if d == 1 {
        '1'
    } else if d == 2 {
        '2'
    } else if d == 3 {
        '3'
    } else if d == 4 {
        '4'
    } else if d == 5 {
        '5'
    } else if d == 6 {
        '6'
    } else if d == 7 {
        '7'
    } else if d == 8 {
        '8'
    } else {
        '9'
    }
}

/// The decimal rendering of `n`, most significant digit first.
pub open spec fn spec_digits(n: nat) -> Seq<char>
    decreases n,
{
    if n < 10 {
        seq![digit_char(n)]
    } else {
        spec_digits(n / 10).push(digit_char(n % 10))
    }
}

/// The name under which a production appears in diagnostics.
pub open spec fn label_text(l: Label) -> Seq<char> {
    match l {
        Label::ContinueStatement => seq![
            'c', 'o', 'n', 't', 'i', 'n', 'u', 'e', '_', 's', 't', 'a', 't', 'e', 'm', 'e', 'n',
            't',
        ],
        Label::BreakStatement => seq![
            'b', 'r', 'e', 'a', 'k', '_', 's', 't', 'a', 't', 'e', 'm', 'e', 'n', 't',
        ],
        Label::ReturnStatement => seq![
            'r', 'e', 't', 'u', 'r', 'n', '_', 's', 't', 'a', 't', 'e', 'm', 'e', 'n', 't',
        ],
        Label::IfStatement => seq!['i', 'f', '_', 's', 't', 'a', 't', 'e', 'm', 'e', 'n', 't'],
        Label::WhileStatement => seq![
            'w', 'h', 'i', 'l', 'e', '_', 's', 't', 'a', 't', 'e', 'm', 'e', 'n', 't',
        ],
        Label::LetStatement => seq!['l', 'e', 't', '_', 's', 't', 'a', 't', 'e', 'm', 'e', 'n', 't'],
        Label::ExprStatement => seq![
            'e', 'x', 'p', 'r', '_', 's', 't', 'a', 't', 'e', 'm', 'e', 'n', 't',
        ],
        Label::BlockStatement => seq![
            'b', 'l', 'o', 'c', 'k', '_', 's', 't', 'a', 't', 'e', 'm', 'e', 'n', 't',
        ],
        Label::Expression => seq!['e', 'x', 'p', 'r', 'e', 's', 's', 'i', 'o', 'n'],
    }
}

/// The words for each terminal cause; an expected token is spelled out.
pub open spec fn spec_cause_text(c: SpecCause) -> Seq<char> {
    match c {
        SpecCause::ExpectedLiteral(tok) => seq!['e', 'x', 'p', 'e', 'c', 't', 'e', 'd', ' '] + tok,
        SpecCause::UnexpectedEndOfInput => seq![
            'u', 'n', 'e', 'x', 'p', 'e', 'c', 't', 'e', 'd', ' ', 'e', 'n', 'd', ' ', 'o', 'f',
            ' ', 'i', 'n', 'p', 'u', 't',
        ],
        SpecCause::UnterminatedBlock => seq![
            'u', 'n', 't', 'e', 'r', 'm', 'i', 'n', 'a', 't', 'e', 'd', ' ', 'b', 'l', 'o', 'c',
            'k',
        ],
        SpecCause::AllAlternativesFailed => seq![
            'n', 'o', ' ', 's', 't', 'a', 't', 'e', 'm', 'e', 'n', 't', ' ', 'f', 'o', 'r', 'm',
            ' ', 'm', 'a', 't', 'c', 'h', 'e', 'd',
        ],
    }
}

/// The breadcrumb trail of the frames, outermost label first, each followed
/// by a colon and a space.
pub open spec fn spec_frames_text(frames: Seq<SpecFrame>) -> Seq<char>
    decreases frames.len(),
{
    if frames.len() == 0 {
        Seq::empty()
    } else {
        label_text(frames.last().label) + seq![':', ' '] + spec_frames_text(frames.drop_last())
    }
}

/// The rendering of a whole failure: the labels outermost first, the cause,
/// and the offset of the mismatch.
pub open spec fn spec_rendered(f: SpecFailure) -> Seq<char> {
    spec_frames_text(f.frames) + spec_cause_text(f.cause) + seq![
        ' ', 'a', 't', ' ', 'o', 'f', 'f', 's', 'e', 't', ' ',
    ] + spec_digits(if f.at < 0 { 0 } else { f.at as nat })
}

// --- the executable rendering ---

/// Appends the decimal rendering of `n`.
fn push_digits(out: &mut Vec<char>, n: usize)
    ensures
        final(out)@ == old(out)@ + spec_digits(n as nat),
    decreases n,
{
    if n >= 10 {
        push_digits(out, n / 10);
    }
    let d = n % 10;
    let c: char = if d == 0 {
        '0'
    } else if d == 1 {
        '1'
    } else if d == 2 {
        '2'
    } else if d == 3 {
        '3'
    } else if d == 4 {
        '4'
    } else if d == 5 {
        '5'
    } else if d == 6 {
        '6'
    } else if d == 7 {
        '7'
    } else if d == 8 {
        '8'
    } else {
        '9'
    };
    out.push(c);
    proof {
        assert(out@ =~= old(out)@ + spec_digits(n as nat));
    }
}

/// Appends the name of a production label.
fn push_label(out: &mut Vec<char>, l: Label)
    ensures
        final(out)@ == old(out)@ + label_text(l),
{
    let name: Vec<char> = match l {
        Label::ContinueStatement => vec![
            'c', 'o', 'n', 't', 'i', 'n', 'u', 'e', '_', 's', 't', 'a', 't', 'e', 'm', 'e', 'n',
            't',
        ],
        Label::BreakStatement => vec![
            'b', 'r', 'e', 'a', 'k', '_', 's', 't', 'a', 't', 'e', 'm', 'e', 'n', 't',
        ],
        Label::ReturnStatement => vec![
            'r', 'e', 't', 'u', 'r', 'n', '_', 's', 't', 'a', 't', 'e', 'm', 'e', 'n', 't',
        ],
        Label::IfStatement => vec!['i', 'f', '_', 's', 't', 'a', 't', 'e', 'm', 'e', 'n', 't'],
        Label::WhileStatement => vec![
            'w', 'h', 'i', 'l', 'e', '_', 's', 't', 'a', 't', 'e', 'm', 'e', 'n', 't',
        ],
        Label::LetStatement => vec!['l', 'e', 't', '_', 's', 't', 'a', 't', 'e', 'm', 'e', 'n', 't'],
        Label::ExprStatement => vec![
            'e', 'x', 'p', 'r', '_', 's', 't', 'a', 't', 'e', 'm', 'e', 'n', 't',
        ],
        Label::BlockStatement => vec![
            'b', 'l', 'o', 'c', 'k', '_', 's', 't', 'a', 't', 'e', 'm', 'e', 'n', 't',
        ],
        Label::Expression => vec!['e', 'x', 'p', 'r', 'e', 's', 's', 'i', 'o', 'n'],
    };
    let mut i: usize = 0;
    while i < name.len()
        invariant
            0 <= i <= name@.len(),
            name@ == label_text(l),
            out@ == old(out)@ + name@.subrange(0, i as int),
        decreases name@.len() - i,
    {
        out.push(name[i]);
        i = i + 1;
        proof {
            assert(out@ =~= old(out)@ + name@.subrange(0, i as int));
        }
    }
    proof {
        assert(name@.subrange(0, name@.len() as int) =~= name@);
    }
}

/// Appends every character of `cs`.
fn push_all(out: &mut Vec<char>, cs: &Vec<char>)
    ensures
        final(out)@ == old(out)@ + cs@,
{
    let mut i: usize = 0;
    while i < cs.len()
        invariant
            0 <= i <= cs@.len(),
            out@ == old(out)@ + cs@.subrange(0, i as int),
        decreases cs@.len() - i,
    {
        out.push(cs[i]);
        i = i + 1;
        proof {
            assert(out@ =~= old(out)@ + cs@.subrange(0, i as int));
        }
    }
    proof {
        assert(cs@.subrange(0, cs@.len() as int) =~= cs@);
    }
}

impl ParseFailure {
    /// Renders the failure as its diagnostic line: the production labels from
    /// the outermost to the innermost, the cause, and the offset.
    pub fn rendered(&self) -> (out: Vec<char>)
        ensures
            out@ == spec_rendered(self@),
    {
        let ghost frames = self@.frames;
        let mut out: Vec<char> = Vec::new();
        let mut i: usize = self.frames.len();
        proof {
            assert(frames.subrange(0, frames.len() as int) =~= frames);
        }
        while i > 0
            invariant
                0 <= i <= self.frames@.len(),
                frames == self@.frames,
                frames.len() == self.frames@.len(),
                spec_frames_text(frames) == out@ + spec_frames_text(frames.subrange(0, i as int)),
            decreases i,
        {
            let f = self.frames[i - 1];
            push_label(&mut out, f.label);
            out.push(':');
            out.push(' ');
            i = i - 1;
            proof {
                let sub = frames.subrange(0, i + 1);
                assert(sub.last() == frames[i as int]);
                assert(sub.drop_last() =~= frames.subrange(0, i as int));
            }
        }
        proof {
            assert(frames.subrange(0, 0) =~= Seq::<SpecFrame>::empty());
            assert(out@ =~= spec_frames_text(frames));
        }
        match &self.cause {
            ErrorCause::ExpectedLiteral(tok) => {
                let head: Vec<char> = vec!['e', 'x', 'p', 'e', 'c', 't', 'e', 'd', ' '];
                push_all(&mut out, &head);
                push_all(&mut out, tok);
                proof {
                    assert(head@ =~= seq!['e', 'x', 'p', 'e', 'c', 't', 'e', 'd', ' ']);
                    assert(out@ =~= spec_frames_text(frames) + spec_cause_text(self@.cause));
                }
            },
            ErrorCause::UnexpectedEndOfInput => {
                let words: Vec<char> = vec![
                    'u', 'n', 'e', 'x', 'p', 'e', 'c', 't', 'e', 'd', ' ', 'e', 'n', 'd', ' ', 'o',
                    'f', ' ', 'i', 'n', 'p', 'u', 't',
                ];
                push_all(&mut out, &words);
                proof {
                    assert(out@ =~= spec_frames_text(frames) + spec_cause_text(self@.cause));
                }
            },
            ErrorCause::UnterminatedBlock => {
                let words: Vec<char> = vec![
                    'u', 'n', 't', 'e', 'r', 'm', 'i', 'n', 'a', 't', 'e', 'd', ' ', 'b', 'l', 'o',
                    'c', 'k',
                ];
                push_all(&mut out, &words);
                proof {
                    assert(out@ =~= spec_frames_text(frames) + spec_cause_text(self@.cause));
                }
            },
            ErrorCause::AllAlternativesFailed => {
                let words: Vec<char> = vec![
                    'n', 'o', ' ', 's', 't', 'a', 't', 'e', 'm', 'e', 'n', 't', ' ', 'f', 'o', 'r',
                    'm', ' ', 'm', 'a', 't', 'c', 'h', 'e', 'd',
                ];
                push_all(&mut out, &words);
                proof {
                    assert(out@ =~= spec_frames_text(frames) + spec_cause_text(self@.cause));
                }
            },
        }
        let tail: Vec<char> = vec![' ', 'a', 't', ' ', 'o', 'f', 'f', 's', 'e', 't', ' '];
        push_all(&mut out, &tail);
        push_digits(&mut out, self.at);
        proof {
            assert(tail@ =~= seq![' ', 'a', 't', ' ', 'o', 'f', 'f', 's', 'e', 't', ' ']);
            assert(out@ =~= spec_rendered(self@));
        }
        out
    }
}

} // verus!
