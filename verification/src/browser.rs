//! The command that launches a browser for an area.

use vstd::prelude::*;

verus! {

/// What `str::replace` makes of `text` when every match of `pattern` is
/// replaced by `with`.
pub uninterp spec fn replaced(text: Seq<char>, pattern: Seq<char>, with: Seq<char>) -> Seq<char>;

/// The pieces that `str::split_whitespace` finds in `text`, in their order.
pub uninterp spec fn words_of(text: Seq<char>) -> Seq<Seq<char>>;

/// Calls `str::replace`. The contract only gives the string it returns its
/// name, `replaced`.
#[verifier::external_body]
fn replace(text: &str, pattern: &str, with: &str) -> (result: String)
    ensures
        result@ == replaced(text@, pattern@, with@),
{
    text.replace(pattern, with)
}

/// Calls `str::split_whitespace` and collects the pieces. The contract only
/// gives them their name, `words_of`.
#[verifier::external_body]
fn split_whitespace(text: &str) -> (words: Vec<String>)
    ensures
        words.deep_view() == words_of(text@),
{
    text.split_whitespace().map(String::from).collect()
}

/// What stands for the area's name in a command template.
pub open spec fn placeholder() -> Seq<char> {
    "{area}"@
}

/// A command as the contracts see it.
pub struct CommandView {
    pub program: Seq<char>,
    pub arguments: Seq<Seq<char>>,
}

/// The command that a line stands for, where `words` are the pieces that it
/// was cut into: the first is the program, the others are its arguments. An
/// empty line, or one without a word, gives no command.
pub open spec fn command_from_words(line: Seq<char>, words: Seq<Seq<char>>) -> Option<CommandView> {
    if line.len() == 0 || words.len() == 0 {
        None
    } else {
        Some(CommandView { program: words[0], arguments: words.skip(1) })
    }
}

/// The command that `template` gives for `area`: the area's name is put in
/// for the placeholder, and what results is cut at white space into the
/// program and its arguments.
pub open spec fn command_of(template: Seq<char>, area: Seq<char>) -> Option<CommandView> {
    let line = replaced(template, placeholder(), area);
    command_from_words(line, words_of(line))
}

/// A program with its arguments.
#[derive(Debug, PartialEq, Eq)]
pub struct Command {
    pub program: String,
    pub arguments: Vec<String>,
}

impl View for Command {
    type V = CommandView;

    open spec fn view(&self) -> CommandView {
        CommandView { program: self.program@, arguments: self.arguments.deep_view() }
    }
}

/// The command that `line` stands for, where `words` are the pieces that it
/// was cut into.
pub fn command_from(line: &str, words: Vec<String>) -> (command: Option<Command>)
    ensures
        match command {
            Some(command) => command_from_words(line@, words.deep_view()) == Some(command@),
            None => command_from_words(line@, words.deep_view()) is None,
        },
{
    if line.is_empty() || words.len() == 0 {
        return None;
    }
    let ghost all = words.deep_view();
    let program = words[0].clone();
    let mut arguments: Vec<String> = Vec::new();
    let mut i: usize = 1;
    while i < words.len()
        invariant
            1 <= i <= words.len(),
            all == words.deep_view(),
            arguments.deep_view() == all.skip(1).take(i - 1),
        decreases words.len() - i,
    {
        let ghost shorter = arguments.deep_view();
        arguments.push(words[i].clone());
        proof {
            assert(arguments.deep_view() =~= shorter.push(all[i as int]));
            assert(all.skip(1).take(i as int) =~= shorter.push(all[i as int]));
        }
        i += 1;
    }
    assert(all.skip(1).take(i - 1) =~= all.skip(1));
    assert(program@ == all[0]);
    Some(Command { program, arguments })
}

/// The command that launches a browser for `area`, as `template` has it.
pub fn command_line(template: &str, area: &str) -> (command: Option<Command>)
    ensures
        match command {
            Some(command) => command_of(template@, area@) == Some(command@),
            None => command_of(template@, area@) is None,
        },
{
    let line = replace(template, "{area}", area);
    let words = split_whitespace(line.as_str());
    command_from(line.as_str(), words)
}

} // verus!
