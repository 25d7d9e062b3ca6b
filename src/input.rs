use vstd::prelude::*;
use crate::options::{Options, OptionsView};
use crate::text::{chars_of, split_words, words};

verus! {

/// One completed interaction.
#[derive(Debug)]
pub enum Input<C> {
    String(String),
    Exit,
    Command(C),
}

impl<A> Input<A> {
    /// Applies `fun` to a command; free text and exit pass through.
    pub fn map<F, B>(self, fun: F) -> (r: Input<B>)
        where
            F: FnOnce(A) -> B,
        requires
            self is Command ==> call_requires(fun, (self->Command_0,)),
        ensures
            match (self, r) {
                (Input::String(s), Input::String(t)) => s == t,
                (Input::Exit, Input::Exit) => true,
                (Input::Command(a), Input::Command(b)) => call_ensures(fun, (a,), b),
                _ => false,
            },
    {
        match self {
            Input::String(s) => Input::String(s),
            Input::Exit => Input::Exit,
            Input::Command(a) => Input::Command(fun(a)),
        }
    }

    /// Replaces a command by what `fun` makes of it; free text and exit pass
    /// through.
    pub fn flat_map<F, B>(self, fun: F) -> (r: Input<B>)
        where
            F: FnOnce(A) -> Input<B>,
        requires
            self is Command ==> call_requires(fun, (self->Command_0,)),
        ensures
            match self {
                Input::String(s) => r == Input::<B>::String(s),
                Input::Exit => r == Input::<B>::Exit,
                Input::Command(a) => call_ensures(fun, (a,), r),
            },
    {
        match self {
            Input::String(s) => Input::String(s),
            Input::Exit => Input::Exit,
            Input::Command(a) => fun(a),
        }
    }
}

/// What a submitted, non-blank line turned out to be.
#[derive(Debug)]
pub enum Line {
    /// Free text, returned as it is.
    Text(String),
    /// A command: its whitespace-separated words, prefix removed.
    Command(Vec<String>),
    /// The prefix with nothing after it: nothing to do but show a fresh
    /// prompt.
    EmptyCommand,
}

/// A `Line` as plain text.
pub ghost enum LineView {
    Text(Seq<char>),
    Command(Seq<Seq<char>>),
    EmptyCommand,
}

impl View for Line {
    type V = LineView;

    open spec fn view(&self) -> LineView {
        match self {
            Line::Text(s) => LineView::Text(s@),
            Line::Command(ws) => LineView::Command(ws.deep_view()),
            Line::EmptyCommand => LineView::EmptyCommand,
        }
    }
}

/// The prefix that marks a command line.
pub open spec fn command_prefix(o: OptionsView) -> Seq<char> {
    match o.command_prompt {
        Some(p) => p,
        None => seq![':'],
    }
}

/// The program name put before a command's words for the parser.
pub open spec fn display_name(o: OptionsView) -> Seq<char> {
    match o.command_prompt {
        Some(p) => p,
        None => seq![' '],
    }
}

/// The part of `line` meant for the parser, if `line` is a command line.
pub open spec fn command_body(o: OptionsView, line: Seq<char>) -> Option<Seq<char>> {
    let p = command_prefix(o);
    if o.disable_free_expression {
        Some(line)
    } else if p.len() <= line.len() && line.subrange(0, p.len() as int) == p {
        Some(line.subrange(p.len() as int, line.len() as int))
    } else {
        None
    }
}

/// How a trimmed line is classified.
pub open spec fn classified(o: OptionsView, line: Seq<char>) -> LineView {
    match command_body(o, line) {
        None => LineView::Text(line),
        Some(b) => if b.len() == 0 {
            LineView::EmptyCommand
        } else {
            LineView::Command(words(b))
        },
    }
}

/// The arguments handed to the parser for a command's words.
pub open spec fn parser_args(o: OptionsView, ws: Seq<Seq<char>>) -> Seq<Seq<char>> {
    seq![display_name(o)] + ws
}

/// Whether `p` is a prefix of `s`.
fn starts_with(s: &Vec<char>, p: &Vec<char>) -> (r: bool)
    ensures
        r == (p@.len() <= s@.len() && s@.subrange(0, p@.len() as int) == p@),
{
    if p.len() > s.len() {
        return false;
    }
    let mut i: usize = 0;
    while i < p.len()
        invariant
            p@.len() <= s@.len(),
            i <= p@.len(),
            s@.subrange(0, i as int) == p@.subrange(0, i as int),
        decreases p.len() - i,
    {
        if s[i] != p[i] {
            assert(s@.subrange(0, p@.len() as int)[i as int] != p@[i as int]);
            return false;
        }
        i = i + 1;
        assert(s@.subrange(0, i as int) =~= p@.subrange(0, i as int));
    }
    assert(p@.subrange(0, i as int) =~= p@);
    true
}

/// The characters of `s` from index `from` on.
fn chars_from(s: &Vec<char>, from: usize) -> (r: Vec<char>)
    requires
        from <= s@.len(),
    ensures
        r@ == s@.subrange(from as int, s@.len() as int),
{
    let mut r: Vec<char> = Vec::new();
    let mut i: usize = from;
    while i < s.len()
        invariant
            from <= i <= s@.len(),
            r@ == s@.subrange(from as int, i as int),
        decreases s.len() - i,
    {
        r.push(s[i]);
        i = i + 1;
        assert(r@ =~= s@.subrange(from as int, i as int));
    }
    r
}

/// Classifies a trimmed line as free text or a command.
pub fn classify(options: &Options, line: &Vec<char>) -> (r: Line)
    ensures
        r@ == classified(options@, line@),
{
    let body = if options.free_expression_disabled() {
        Some(chars_from(line, 0))
    } else {
        let prefix = match options.command_prefix() {
            Some(p) => chars_of(p.as_str()),
            None => {
                let p = chars_of(":");
                proof {
                    reveal_strlit(":");
                    assert(p@ =~= seq![':']);
                }
                p
            },
        };
        if starts_with(line, &prefix) {
            Some(chars_from(line, prefix.len()))
        } else {
            None
        }
    };
    assert(line@.subrange(0, line@.len() as int) =~= line@);
    match body {
        None => Line::Text(crate::text::string_of(line)),
        Some(b) => {
            if b.len() == 0 {
                Line::EmptyCommand
            } else {
                Line::Command(split_words(&b))
            }
        },
    }
}

/// The parser's arguments for a command's words: the configured program
/// name, then the words.
pub fn parser_invocation(options: &Options, ws: Vec<String>) -> (r: Vec<String>)
    ensures
        r.deep_view() == parser_args(options@, ws.deep_view()),
{
    let name = match options.command_prefix() {
        Some(p) => p.clone(),
        None => {
            let mut s = String::new();
            s.append(" ");
            proof {
                reveal_strlit(" ");
                assert(s@ =~= seq![' ']);
            }
            s
        },
    };
    let mut r: Vec<String> = Vec::new();
    r.push(name);
    let mut i: usize = 0;
    while i < ws.len()
        invariant
            i <= ws@.len(),
            r.deep_view() =~= parser_args(options@, ws.deep_view().subrange(0, i as int)),
        decreases ws.len() - i,
    {
        let ghost before = r.deep_view();
        r.push(ws[i].clone());
        assert(r.deep_view() =~= before.push(ws[i as int]@));
        i = i + 1;
        assert(parser_args(options@, ws.deep_view().subrange(0, i as int)) =~= before.push(
            ws[i - 1]@,
        ));
    }
    assert(ws.deep_view().subrange(0, i as int) =~= ws.deep_view());
    r
}

} // verus!
