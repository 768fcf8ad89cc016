//! Reading the path of `focus(enable = "PATH")` as Rust tokens.

use vstd::prelude::*;

verus! {

/// Whether reading `source` as Rust tokens may give `printed`: the printed text of the
/// tokens, or `None` when `source` does not lex.
///
/// This relates a source to each outcome that reading it may give; it does not say that
/// only one outcome is possible.
pub uninterp spec fn lexes_as(source: Seq<char>, printed: Option<Seq<char>>) -> bool;

/// Whether `c` opens a delimited group: `(`, `[` or `{`.
pub open spec fn is_open_delimiter(c: char) -> bool {
    c == '(' || c == '[' || c == '{'
}

/// Whether `c` closes a delimited group: `)`, `]` or `}`.
pub open spec fn is_close_delimiter(c: char) -> bool {
    c == ')' || c == ']' || c == '}'
}

/// Whether `close` closes the group that `open` opens.
pub open spec fn delimiters_match(open: char, close: char) -> bool {
    ||| open == '(' && close == ')'
    ||| open == '[' && close == ']'
    ||| open == '{' && close == '}'
}

/// The groups left open after reading `s` from the left, innermost last; `None` once a
/// closing delimiter does not close the innermost open group.
pub open spec fn open_groups(s: Seq<char>) -> Option<Seq<char>>
    decreases s.len(),
{
    if s.len() == 0 {
        Some(Seq::<char>::empty())
    } else {
        match open_groups(s.drop_last()) {
            None => None,
            Some(stack) => {
                let c = s.last();
                if is_open_delimiter(c) {
                    Some(stack.push(c))
                } else if is_close_delimiter(c) {
                    if stack.len() > 0 && delimiters_match(stack.last(), c) {
                        Some(stack.drop_last())
                    } else {
                        None
                    }
                } else {
                    Some(stack)
                }
            },
        }
    }
}

/// Whether the delimiters `()`, `[]` and `{}` of `s` are balanced and properly nested.
pub open spec fn delimiters_balanced(s: Seq<char>) -> bool {
    open_groups(s) == Some(Seq::<char>::empty())
}

/// Whether `source` has unbalanced delimiters that no literal or comment can hold: it has
/// no `"`, `'` or `/`, so each of its delimiters is one, and they are not balanced.
/// Such a source never lexes.
pub open spec fn unbalanced_delimiters(source: Seq<char>) -> bool {
    &&& !source.contains('"')
    &&& !source.contains('\'')
    &&& !source.contains('/')
    &&& !delimiters_balanced(source)
}

/// Whether reading `source` as Rust tokens may give `printed` (see [`lexes_as`]), where a
/// source with [`unbalanced_delimiters`] gives `None`.
pub open spec fn reads_as(source: Seq<char>, printed: Option<Seq<char>>) -> bool {
    &&& lexes_as(source, printed)
    &&& unbalanced_delimiters(source) ==> printed is None
}

/// Calls `syn::parse_str::<proc_macro2::TokenStream>` on `source` and prints the tokens
/// it reads; `None` when `source` does not lex.
///
/// Trusted: the outcome is one that reading `source` may give (`lexes_as`), and a source
/// with [`unbalanced_delimiters`] does not lex. proc_macro2 documents that lexing fails on
/// unbalanced delimiters; its own lexer, which checks every source first in both of its
/// modes, keeps a stack of open groups and fails on a closing delimiter that does not
/// close the innermost open group (or finds none open) and at the end with a group still
/// open; syn's `parse_str` returns that failure as its error. Which outcome
/// comes otherwise is not stated: proc_macro2 lexes and prints with the compiler's own
/// machinery inside a procedural macro and with its own elsewhere, so neither the printed
/// text nor whether lexing succeeds is a function of `source` alone.
#[verifier::external_body]
pub(crate) fn lex_tokens(source: &str) -> (tokens: Option<String>)
    ensures
        lexes_as(
            source@,
            match tokens {
                Some(t) => Some(t@),
                None => None,
            },
        ),
        unbalanced_delimiters(source@) ==> tokens is None,
{
    match syn::parse_str::<proc_macro2::TokenStream>(source) {
        Ok(tokens) => Some(tokens.to_string()),
        Err(_) => None,
    }
}

} // verus!
