//! What running a child process comes to. Shared by the `git` and `gh` runners.

use vstd::prelude::*;

use crate::text::seqs::{replace, replaced, views};
use crate::text::strings::{
    chars_of, is_space, is_white_space, lines, push_chars, split_lines, string_of, texts, trim, trimmed,
};

verus! {

/// Why a bounded run produced no exit status.
#[derive(Debug, PartialEq, Eq)]
pub enum RunError {
    /// The program couldn't be started (e.g. not installed).
    Spawn { message: String, not_found: bool },
    /// Reading its output or writing its input failed.
    Io { message: String },
    TimedOut,
}

#[verifier::ext_equal]
pub ghost enum RunErrorView {
    Spawn { message: Seq<char>, not_found: bool },
    Io { message: Seq<char> },
    TimedOut,
}

impl View for RunError {
    type V = RunErrorView;

    open spec fn view(&self) -> RunErrorView {
        match self {
            RunError::Spawn { message, not_found } => RunErrorView::Spawn {
                message: message@,
                not_found: *not_found,
            },
            RunError::Io { message } => RunErrorView::Io { message: message@ },
            RunError::TimedOut => RunErrorView::TimedOut,
        }
    }
}

/// What a process that ended left behind. `code` is missing when a signal killed it.
#[derive(Debug, PartialEq, Eq)]
pub struct ExitOutput {
    pub code: Option<i32>,
    pub stdout: Vec<u8>,
    pub stderr: Vec<u8>,
}

/// Whether an argument needs quotes in the command log.
pub open spec fn needs_quotes(arg: Seq<char>) -> bool {
    arg.len() == 0 || exists|i: int|
        0 <= i < arg.len() && (is_space(#[trigger] arg[i]) || arg[i] == '\'')
}

/// An argument as the command log shows it.
pub open spec fn shown_arg(arg: Seq<char>) -> Seq<char> {
    if needs_quotes(arg) {
        seq!['\''] + replace(arg, '\'', "'\\''"@) + seq!['\'']
    } else {
        arg
    }
}

/// A command line for the command log.
pub open spec fn shown_command(program: Seq<char>, args: Seq<Seq<char>>) -> Seq<char>
    decreases args.len(),
{
    if args.len() == 0 {
        program
    } else {
        shown_command(program, args.drop_last()) + seq![' '] + shown_arg(args.last())
    }
}

/// Whether an argument needs quotes.
fn must_quote(arg: &[char]) -> (r: bool)
    ensures
        r == needs_quotes(arg@),
{
    if arg.len() == 0 {
        return true;
    }
    let mut i: usize = 0;
    while i < arg.len()
        invariant
            i <= arg@.len(),
            forall|j: int| 0 <= j < i ==> !is_space(#[trigger] arg@[j]) && arg@[j] != '\'',
        decreases arg@.len() - i,
    {
        if is_white_space(arg[i]) || arg[i] == '\'' {
            assert(is_space(arg@[i as int]) || arg@[i as int] == '\'');
            return true;
        }
        i = i + 1;
    }
    false
}

/// A command line for the command log, quoting arguments that need it.
pub fn display_command(program: &str, args: &Vec<String>) -> (r: String)
    ensures
        r@ == shown_command(program@, texts(args@)),
{
    let mut out = program.to_owned();
    let ghost all = texts(args@);
    let mut i: usize = 0;
    assert(all.take(0) =~= Seq::<Seq<char>>::empty());
    while i < args.len()
        invariant
            i <= args@.len(),
            all == texts(args@),
            out@ == shown_command(program@, all.take(i as int)),
        decreases args@.len() - i,
    {
        let ghost next = all.take(i + 1);
        let ghost before = out@;
        assert(next.drop_last() =~= all.take(i as int));
        assert(next.last() == args@[i as int]@);
        let arg = chars_of(args[i].as_str());
        out.push(' ');
        if must_quote(arg.as_slice()) {
            let quoted = chars_of("'\\''");
            let inner = replaced(arg.as_slice(), '\'', quoted.as_slice());
            out.push('\'');
            push_chars(&mut out, inner.as_slice());
            out.push('\'');
        } else {
            push_chars(&mut out, arg.as_slice());
        }
        assert(out@ =~= before + seq![' '] + shown_arg(arg@));
        i = i + 1;
    }
    assert(all.take(all.len() as int) =~= all);
    out
}

/// The first line that isn't blank, trimmed.
pub open spec fn first_line_in(ls: Seq<Seq<char>>) -> Option<Seq<char>>
    decreases ls.len(),
{
    if ls.len() == 0 {
        None
    } else if trim(ls[0]).len() > 0 {
        Some(trim(ls[0]))
    } else {
        first_line_in(ls.drop_first())
    }
}

/// The first line of a text that isn't blank, trimmed.
pub open spec fn first_line_of(text: Seq<char>) -> Option<Seq<char>> {
    first_line_in(lines(text))
}

/// The first line that isn't blank, trimmed.
pub fn first_line(text: &str) -> (r: Option<String>)
    ensures
        match r {
            Some(line) => first_line_of(text@) == Some(line@),
            None => first_line_of(text@) is None,
        },
{
    let chars = chars_of(text);
    let all = split_lines(chars.as_slice());
    let ghost ls = views(all@);
    let mut i: usize = 0;
    assert(ls.skip(0) =~= ls);
    while i < all.len()
        invariant
            i <= all@.len(),
            ls == views(all@),
            ls == lines(text@),
            first_line_in(ls.skip(i as int)) == first_line_in(ls),
        decreases all@.len() - i,
    {
        assert(ls.skip(i as int)[0] == all@[i as int]@);
        assert(ls.skip(i as int).drop_first() =~= ls.skip(i + 1));
        let line = trimmed(all[i]);
        if line.len() > 0 {
            return Some(string_of(line));
        }
        i = i + 1;
    }
    None
}

} // verus!
