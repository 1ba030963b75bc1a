//! The textual commands that clients send to the daemon.

use crate::text::{
    chars_of, has_prefix, is_whitespace, range_is, split_words, starts_with, strip_end,
    strip_start, texts_of, trim_bounds, trimmed, words_of,
};
use vstd::prelude::*;
use vstd::string::*;

verus! {

/// The form in which `print` reports the status.
#[derive(Clone, Copy, Debug, PartialEq, Eq, Structural)]
pub enum PrintFormat {
    Json,
    Human,
}

/// One command of the protocol.
#[derive(Debug)]
pub enum Command {
    /// `use <name>`: activate the strategy of that name.
    Use(String),
    /// `print`, `print json` or `print human`: report the status.
    Print(PrintFormat),
    /// `tool <args...>`: hand the arguments to the hardware tool.
    Tool(Vec<String>),
    /// `reset`: activate the default strategy again.
    Reset,
    /// `pause`: return the fan to the hardware's own control.
    Pause,
    /// `resume`: take control of the fan again.
    Resume,
    /// `reload`: read the stored configuration again.
    Reload,
    /// Anything else.
    Unknown,
}

/// The mathematical value of a `Command`.
pub ghost enum CommandView {
    Use(Seq<char>),
    Print(PrintFormat),
    Tool(Seq<Seq<char>>),
    Reset,
    Pause,
    Resume,
    Reload,
    Unknown,
}

impl View for Command {
    type V = CommandView;

    open spec fn view(&self) -> CommandView {
        match self {
            Command::Use(name) => CommandView::Use(name@),
            Command::Print(format) => CommandView::Print(*format),
            Command::Tool(args) => CommandView::Tool(texts_of(args@)),
            Command::Reset => CommandView::Reset,
            Command::Pause => CommandView::Pause,
            Command::Resume => CommandView::Resume,
            Command::Reload => CommandView::Reload,
            Command::Unknown => CommandView::Unknown,
        }
    }
}

/// What follows the first `n` characters of `s`.
pub open spec fn after(s: Seq<char>, n: nat) -> Seq<char> {
    s.subrange(n as int, s.len() as int)
}

/// The command that a received text stands for.
///
/// The text is trimmed first. `use` and `tool` take what follows the word and
/// one space: `use` the rest, trimmed, as a strategy's name, `tool` the rest
/// split into words. `print` stands alone, which asks for JSON, or is
/// followed by `json` or `human`. `reset`, `pause`, `resume` and `reload`
/// stand alone. Every other text is `Unknown`.
pub open spec fn command_of(text: Seq<char>) -> CommandView {
    let t = trimmed(text);
    if has_prefix(t, "use "@) {
        CommandView::Use(trimmed(after(t, "use "@.len())))
    } else if t == "print"@ {
        CommandView::Print(PrintFormat::Json)
    } else if has_prefix(t, "print "@) {
        let format = trimmed(after(t, "print "@.len()));
        if format == "json"@ {
            CommandView::Print(PrintFormat::Json)
        } else if format == "human"@ {
            CommandView::Print(PrintFormat::Human)
        } else {
            CommandView::Unknown
        }
    } else if has_prefix(t, "tool "@) {
        CommandView::Tool(words_of(after(t, "tool "@.len())))
    } else if t == "reset"@ {
        CommandView::Reset
    } else if t == "pause"@ {
        CommandView::Pause
    } else if t == "resume"@ {
        CommandView::Resume
    } else if t == "reload"@ {
        CommandView::Reload
    } else {
        CommandView::Unknown
    }
}

/// A text that neither begins nor ends with whitespace is its own trimmed
/// form.
pub proof fn lemma_trimmed_of_solid(s: Seq<char>)
    requires
        s.len() == 0 || (!is_whitespace(s[0]) && !is_whitespace(s.last())),
    ensures
        trimmed(s) == s,
{
    assert(strip_start(s) == s);
    assert(strip_end(s) == s);
}

/// Each command is understood in the form in which a client writes it: the
/// bare words stand for their commands, and `use` followed by one space and
/// a name that neither begins nor ends with whitespace asks for that name.
pub proof fn lemma_written_commands_are_understood(name: Seq<char>)
    requires
        name.len() > 0,
        !is_whitespace(name[0]),
        !is_whitespace(name.last()),
    ensures
        command_of("use "@ + name) == CommandView::Use(name),
        command_of("print"@) == CommandView::Print(PrintFormat::Json),
        command_of("print json"@) == CommandView::Print(PrintFormat::Json),
        command_of("print human"@) == CommandView::Print(PrintFormat::Human),
        command_of("reset"@) == CommandView::Reset,
        command_of("pause"@) == CommandView::Pause,
        command_of("resume"@) == CommandView::Resume,
        command_of("reload"@) == CommandView::Reload,
{
    reveal_strlit("use ");
    reveal_strlit("print");
    reveal_strlit("print ");
    reveal_strlit("tool ");
    reveal_strlit("json");
    reveal_strlit("human");
    reveal_strlit("print json");
    reveal_strlit("print human");
    reveal_strlit("reset");
    reveal_strlit("pause");
    reveal_strlit("resume");
    reveal_strlit("reload");
    let word = "use "@;
    let whole = word + name;
    assert(whole[0] == 'u');
    assert(whole.last() == name.last());
    lemma_trimmed_of_solid(whole);
    lemma_trimmed_of_solid(name);
    assert(whole.subrange(0, word.len() as int) =~= word);
    assert(after(whole, word.len()) =~= name);

    lemma_trimmed_of_solid("print"@);
    lemma_starts_otherwise("print"@, word, 0);

    let json = "print json"@;
    lemma_trimmed_of_solid(json);
    lemma_starts_otherwise(json, word, 0);
    assert(json.subrange(0, "print "@.len() as int) =~= "print "@);
    assert(after(json, "print "@.len()) =~= "json"@);
    lemma_trimmed_of_solid("json"@);

    let human = "print human"@;
    lemma_trimmed_of_solid(human);
    lemma_starts_otherwise(human, word, 0);
    assert(human.subrange(0, "print "@.len() as int) =~= "print "@);
    assert(after(human, "print "@.len()) =~= "human"@);
    lemma_trimmed_of_solid("human"@);
    assert("human"@[0] != "json"@[0]);

    lemma_trimmed_of_solid("reset"@);
    lemma_starts_otherwise("reset"@, word, 0);
    lemma_starts_otherwise("reset"@, "print "@, 0);
    lemma_starts_otherwise("reset"@, "tool "@, 0);
    assert("reset"@[0] != "print"@[0]);

    lemma_trimmed_of_solid("pause"@);
    lemma_starts_otherwise("pause"@, word, 0);
    lemma_starts_otherwise("pause"@, "print "@, 1);
    lemma_starts_otherwise("pause"@, "tool "@, 0);
    assert("pause"@[1] != "print"@[1]);
    assert("pause"@[0] != "reset"@[0]);

    lemma_trimmed_of_solid("resume"@);
    lemma_starts_otherwise("resume"@, word, 0);
    lemma_starts_otherwise("resume"@, "print "@, 0);
    lemma_starts_otherwise("resume"@, "tool "@, 0);
    assert("resume"@.len() != "print"@.len());
    assert("resume"@.len() != "reset"@.len());
    assert("resume"@.len() != "pause"@.len());

    lemma_trimmed_of_solid("reload"@);
    lemma_starts_otherwise("reload"@, word, 0);
    lemma_starts_otherwise("reload"@, "print "@, 0);
    lemma_starts_otherwise("reload"@, "tool "@, 0);
    assert("reload"@.len() != "print"@.len());
    assert("reload"@.len() != "reset"@.len());
    assert("reload"@.len() != "pause"@.len());
    assert("reload"@[2] != "resume"@[2]);
}

proof fn lemma_starts_otherwise(s: Seq<char>, prefix: Seq<char>, k: int)
    requires
        0 <= k < prefix.len(),
        k < s.len() ==> s[k] != prefix[k],
    ensures
        !has_prefix(s, prefix),
{
    if has_prefix(s, prefix) {
        assert(s.subrange(0, prefix.len() as int)[k] == prefix[k]);
    }
}

/// Parses one received command.
pub fn parse_command(input: &str) -> (command: Command)
    ensures
        command@ == command_of(input@),
{
    let chars = chars_of(input);
    let (a, b) = trim_bounds(&chars, 0, chars.len());
    let ghost t = chars@.subrange(a as int, b as int);
    proof {
        assert(chars@.subrange(0, chars@.len() as int) =~= chars@);
    }
    let use_word = chars_of("use ");
    let print_word = chars_of("print");
    let print_prefix = chars_of("print ");
    let tool_word = chars_of("tool ");
    if starts_with(&chars, a, b, &use_word) {
        let rest: usize = a + use_word.len();
        proof {
            assert(after(t, use_word@.len()) =~= chars@.subrange(rest as int, b as int));
        }
        let (c, d) = trim_bounds(&chars, rest, b);
        Command::Use(String::from_str(input.substring_char(c, d)))
    } else if range_is(&chars, a, b, &print_word) {
        Command::Print(PrintFormat::Json)
    } else if starts_with(&chars, a, b, &print_prefix) {
        let rest: usize = a + print_prefix.len();
        proof {
            assert(after(t, print_prefix@.len()) =~= chars@.subrange(rest as int, b as int));
        }
        let (c, d) = trim_bounds(&chars, rest, b);
        if range_is(&chars, c, d, &chars_of("json")) {
            Command::Print(PrintFormat::Json)
        } else if range_is(&chars, c, d, &chars_of("human")) {
            Command::Print(PrintFormat::Human)
        } else {
            Command::Unknown
        }
    } else if starts_with(&chars, a, b, &tool_word) {
        let rest: usize = a + tool_word.len();
        proof {
            assert(after(t, tool_word@.len()) =~= chars@.subrange(rest as int, b as int));
        }
        Command::Tool(split_words(input, &chars, rest, b))
    } else if range_is(&chars, a, b, &chars_of("reset")) {
        Command::Reset
    } else if range_is(&chars, a, b, &chars_of("pause")) {
        Command::Pause
    } else if range_is(&chars, a, b, &chars_of("resume")) {
        Command::Resume
    } else if range_is(&chars, a, b, &chars_of("reload")) {
        Command::Reload
    } else {
        Command::Unknown
    }
}

} // verus!
