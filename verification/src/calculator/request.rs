//! What a line of input asks for.
use crate::text::{find, find_char, lemma_find, normalize, normalized, subtext, text_of};
use vstd::prelude::*;

verus! {

/// What a line asks for, the line being without white space and in lower
/// case.
pub enum Request {
    /// Nothing: the line is empty.
    Nothing,
    /// An assignment without the `=` that ends the variable's name.
    Malformed,
    /// The command named.
    Command(Vec<char>),
    /// The value of the text; behind `#name=`, to be bound to the name.
    Evaluate(Option<Vec<char>>, Vec<char>),
}

/// The mathematical form of a [`Request`].
pub enum Asked {
    Nothing,
    Malformed,
    Command(Seq<char>),
    Evaluate(Option<Seq<char>>, Seq<char>),
}

impl View for Request {
    type V = Asked;

    open spec fn view(&self) -> Asked {
        match self {
            Request::Nothing => Asked::Nothing,
            Request::Malformed => Asked::Malformed,
            Request::Command(name) => Asked::Command(name@),
            Request::Evaluate(target, body) => Asked::Evaluate(
                match target {
                    Some(name) => Some(name@),
                    None => None,
                },
                body@,
            ),
        }
    }
}

/// What `line` asks for. A line that starts with `#` assigns: the name runs
/// up to the first `=`, and the text behind the `=` is evaluated. A line that
/// starts with `/` is a command. Any other line is evaluated as it is.
pub open spec fn asked(line: Seq<char>) -> Asked {
    if line.len() == 0 {
        Asked::Nothing
    } else if line[0] == '#' {
        let eq = find(line, 0, '=');
        if eq >= line.len() {
            Asked::Malformed
        } else {
            Asked::Evaluate(Some(line.subrange(1, eq)), line.subrange(eq + 1, line.len() as int))
        }
    } else if line[0] == '/' {
        Asked::Command(line.subrange(1, line.len() as int))
    } else {
        Asked::Evaluate(None, line)
    }
}

/// What the input asks for, once it is stripped of white space and put in
/// lower case.
pub fn read_request(input: &str) -> (r: Request)
    ensures
        r@ == asked(normalized(input@)),
{
    let line = normalize(input);
    if line.len() == 0 {
        Request::Nothing
    } else if line[0] == '#' {
        let eq = find_char(&line, 0, '=');
        proof {
            assert(find(line@, 0, '=') == find(line@, 1, '='));
            lemma_find(line@, 1, '=');
        }
        if eq >= line.len() {
            Request::Malformed
        } else {
            Request::Evaluate(Some(subtext(&line, 1, eq)), subtext(&line, eq + 1, line.len()))
        }
    } else if line[0] == '/' {
        Request::Command(subtext(&line, 1, line.len()))
    } else {
        assert(line@.subrange(0, line@.len() as int) == line@);
        Request::Evaluate(None, line)
    }
}

/// The name of the variable that the input assigns to, if it is an
/// assignment.
pub open spec fn target(input: Seq<char>) -> Option<Seq<char>> {
    match asked(normalized(input)) {
        Asked::Evaluate(Some(name), _) => Some(name),
        _ => None,
    }
}

/// The name of the variable that the input assigns to, if it is an
/// assignment.
pub fn assignment_target(input: &str) -> (r: Option<String>)
    ensures
        r is Some <==> target(input@) is Some,
        r is Some ==> r->0@ == target(input@)->0,
{
    match read_request(input) {
        Request::Evaluate(Some(name), _) => Some(text_of(&name)),
        _ => None,
    }
}

} // verus!
