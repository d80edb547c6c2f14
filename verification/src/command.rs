//! The command grammar: one line of text in, one command out.
//!
//! A line is cut into words at ASCII whitespace; the first word selects the
//! shape and the remaining words fill it.  A line that fits no shape is no
//! command.

use vstd::prelude::*;
use crate::words::{words, Spacing, join_words, position, lemma_position, split_words, is_text, join_from, find_word};

verus! {

/// A command that a client may send.
#[derive(Debug, PartialEq, Eq)]
pub enum Command {
    /// `reg -u <name> -p <secret>`
    Register { name: String, password: String },
    /// `login -u <name> -p <secret>`
    Login { name: String, password: String },
    /// `text -u <name> <content...>`
    Text { name: String, content: String },
    /// `textMultiple -u <name>... -t <content...>`
    TextMultiple { names: Vec<String>, content: String },
    /// `startchat <chatName>`
    StartChat { name: String },
    /// `joinchat <chatName>`
    JoinChat { name: String },
    /// `message <content...>`
    MessageChat { content: String },
    /// `quitchat <chatName>`
    QuitChat { name: String },
    /// `file -u <name> <path...>`
    File { name: String, file_path: String },
    /// `quit`
    Quit,
}

/// What a `Command` says, with its texts as character sequences.
pub ghost enum CommandView {
    Register { name: Seq<char>, password: Seq<char> },
    Login { name: Seq<char>, password: Seq<char> },
    Text { name: Seq<char>, content: Seq<char> },
    TextMultiple { names: Seq<Seq<char>>, content: Seq<char> },
    StartChat { name: Seq<char> },
    JoinChat { name: Seq<char> },
    MessageChat { content: Seq<char> },
    QuitChat { name: Seq<char> },
    File { name: Seq<char>, file_path: Seq<char> },
    Quit,
}

impl View for Command {
    type V = CommandView;

    open spec fn view(&self) -> CommandView {
        match *self {
            Command::Register { name, password } => CommandView::Register {
                name: name@,
                password: password@,
            },
            Command::Login { name, password } => CommandView::Login {
                name: name@,
                password: password@,
            },
            Command::Text { name, content } => CommandView::Text { name: name@, content: content@ },
            Command::TextMultiple { names, content } => CommandView::TextMultiple {
                names: names.deep_view(),
                content: content@,
            },
            Command::StartChat { name } => CommandView::StartChat { name: name@ },
            Command::JoinChat { name } => CommandView::JoinChat { name: name@ },
            Command::MessageChat { content } => CommandView::MessageChat { content: content@ },
            Command::QuitChat { name } => CommandView::QuitChat { name: name@ },
            Command::File { name, file_path } => CommandView::File {
                name: name@,
                file_path: file_path@,
            },
            Command::Quit => CommandView::Quit,
        }
    }
}

/// The view of a command that may be absent.
pub open spec fn parsed(c: Option<Command>) -> Option<CommandView> {
    match c {
        Some(c) => Some(c@),
        None => None,
    }
}

/// The words of a command line.
pub open spec fn args_of(line: Seq<char>) -> Seq<Seq<char>> {
    words(line, Spacing::Ascii)
}

/// `reg -u <name> -p <secret>`; words after the secret are ignored.
pub open spec fn reg_of(args: Seq<Seq<char>>) -> Option<CommandView> {
    if args.len() > 4 && args[0] == "reg"@ && args[1] == "-u"@ && args[3] == "-p"@ {
        Some(CommandView::Register { name: args[2], password: args[4] })
    } else {
        None
    }
}

/// `quit`; words after it are ignored.
pub open spec fn quit_of(args: Seq<Seq<char>>) -> Option<CommandView> {
    if args.len() > 0 && args[0] == "quit"@ {
        Some(CommandView::Quit)
    } else {
        None
    }
}

/// `login -u <name> -p <secret>`; words after the secret are ignored.
pub open spec fn login_of(args: Seq<Seq<char>>) -> Option<CommandView> {
    if args.len() > 4 && args[0] == "login"@ && args[1] == "-u"@ && args[3] == "-p"@ {
        Some(CommandView::Login { name: args[2], password: args[4] })
    } else {
        None
    }
}

/// `text -u <name> <content...>`; the content is every word after the name.
pub open spec fn text_of_args(args: Seq<Seq<char>>) -> Option<CommandView> {
    if args.len() > 3 && args[0] == "text"@ && args[1] == "-u"@ {
        Some(CommandView::Text { name: args[2], content: join_words(args.skip(3)) })
    } else {
        None
    }
}

/// `textMultiple -u <name>... -t <content...>`; the recipients are the words
/// between `-u` and the first `-t`, the content every word after that `-t`.
pub open spec fn text_multiple_of(args: Seq<Seq<char>>) -> Option<CommandView> {
    let t = position(args, "-t"@);
    if args.len() > 3 && args[0] == "textMultiple"@ && args[1] == "-u"@ && t < args.len() {
        Some(
            CommandView::TextMultiple {
                names: args.subrange(2, t),
                content: join_words(args.skip(t + 1)),
            },
        )
    } else {
        None
    }
}

/// `startchat <chatName>`; words after the name are ignored.
pub open spec fn start_chat_of(args: Seq<Seq<char>>) -> Option<CommandView> {
    if args.len() > 1 && args[0] == "startchat"@ {
        Some(CommandView::StartChat { name: args[1] })
    } else {
        None
    }
}

/// `joinchat <chatName>`; words after the name are ignored.
pub open spec fn join_chat_of(args: Seq<Seq<char>>) -> Option<CommandView> {
    if args.len() > 1 && args[0] == "joinchat"@ {
        Some(CommandView::JoinChat { name: args[1] })
    } else {
        None
    }
}

/// `message <content...>`; the content is every word after the keyword.
pub open spec fn message_chat_of(args: Seq<Seq<char>>) -> Option<CommandView> {
    if args.len() > 1 && args[0] == "message"@ {
        Some(CommandView::MessageChat { content: join_words(args.skip(1)) })
    } else {
        None
    }
}

/// `quitchat <chatName>`; words after the name are ignored.
pub open spec fn quit_chat_of(args: Seq<Seq<char>>) -> Option<CommandView> {
    if args.len() > 1 && args[0] == "quitchat"@ {
        Some(CommandView::QuitChat { name: args[1] })
    } else {
        None
    }
}

/// `file -u <name> <path...>`; the path is every word after the name.
pub open spec fn file_of(args: Seq<Seq<char>>) -> Option<CommandView> {
    if args.len() > 3 && args[0] == "file"@ && args[1] == "-u"@ {
        Some(CommandView::File { name: args[2], file_path: join_words(args.skip(3)) })
    } else {
        None
    }
}

/// The first shape that fits, tried in a fixed order.
pub open spec fn command_of(args: Seq<Seq<char>>) -> Option<CommandView> {
    if reg_of(args) is Some {
        reg_of(args)
    } else if login_of(args) is Some {
        login_of(args)
    } else if text_of_args(args) is Some {
        text_of_args(args)
    } else if text_multiple_of(args) is Some {
        text_multiple_of(args)
    } else if start_chat_of(args) is Some {
        start_chat_of(args)
    } else if join_chat_of(args) is Some {
        join_chat_of(args)
    } else if message_chat_of(args) is Some {
        message_chat_of(args)
    } else if quit_chat_of(args) is Some {
        quit_chat_of(args)
    } else if file_of(args) is Some {
        file_of(args)
    } else {
        quit_of(args)
    }
}

/// Reads a registration request.
pub fn parse_reg(line: &str) -> (cmd: Option<Command>)
    ensures
        parsed(cmd) == reg_of(args_of(line@)),
{
    let args = split_words(line, Spacing::Ascii);
    if args.len() > 4 && is_text(args[0].as_str(), "reg") && is_text(args[1].as_str(), "-u")
        && is_text(args[3].as_str(), "-p") {
        return Some(Command::Register { name: args[2].clone(), password: args[4].clone() });
    }
    None
}

/// Reads a request to end the session.
pub fn parse_quit(line: &str) -> (cmd: Option<Command>)
    ensures
        parsed(cmd) == quit_of(args_of(line@)),
{
    let args = split_words(line, Spacing::Ascii);
    if args.len() > 0 && is_text(args[0].as_str(), "quit") {
        return Some(Command::Quit);
    }
    None
}

/// Reads a login request.
pub fn parse_login(line: &str) -> (cmd: Option<Command>)
    ensures
        parsed(cmd) == login_of(args_of(line@)),
{
    let args = split_words(line, Spacing::Ascii);
    if args.len() > 4 && is_text(args[0].as_str(), "login") && is_text(args[1].as_str(), "-u")
        && is_text(args[3].as_str(), "-p") {
        return Some(Command::Login { name: args[2].clone(), password: args[4].clone() });
    }
    None
}

/// Reads a direct message.
pub fn parse_text(line: &str) -> (cmd: Option<Command>)
    ensures
        parsed(cmd) == text_of_args(args_of(line@)),
{
    let args = split_words(line, Spacing::Ascii);
    if args.len() > 3 && is_text(args[0].as_str(), "text") && is_text(args[1].as_str(), "-u") {
        let content = join_from(&args, 3);
        return Some(Command::Text { name: args[2].clone(), content });
    }
    None
}

/// The owned copy of `list[from..to]`.
pub fn copy_words(list: &Vec<String>, from: usize, to: usize) -> (out: Vec<String>)
    requires
        from <= to <= list.len(),
    ensures
        out.deep_view() == list.deep_view().subrange(from as int, to as int),
{
    let mut out: Vec<String> = Vec::new();
    let mut i: usize = from;
    while i < to
        invariant
            from <= i <= to <= list.len(),
            out.deep_view() == list.deep_view().subrange(from as int, i as int),
        decreases to - i,
    {
        let ghost before = out.deep_view();
        out.push(list[i].clone());
        assert(out.deep_view() == before.push(list@[i as int]@));
        i += 1;
    }
    out
}

/// Reads a message to several recipients.
pub fn parse_text_multiple(line: &str) -> (cmd: Option<Command>)
    ensures
        parsed(cmd) == text_multiple_of(args_of(line@)),
{
    let args = split_words(line, Spacing::Ascii);
    if args.len() > 3 && is_text(args[0].as_str(), "textMultiple") && is_text(
        args[1].as_str(),
        "-u",
    ) {
        let t_index = find_word(&args, "-t");
        if t_index < args.len() {
            proof {
                lemma_position(args.deep_view(), "-t"@);
                reveal_strlit("-t");
                reveal_strlit("-u");
                reveal_strlit("textMultiple");
                assert("textMultiple"@.len() != "-t"@.len());
                assert("-u"@[1] != "-t"@[1]);
            }
            let names = copy_words(&args, 2, t_index);
            let content = join_from(&args, t_index + 1);
            return Some(Command::TextMultiple { names, content });
        }
    }
    None
}

/// Reads a request to open a chat room.
pub fn parse_start_chat(line: &str) -> (cmd: Option<Command>)
    ensures
        parsed(cmd) == start_chat_of(args_of(line@)),
{
    let args = split_words(line, Spacing::Ascii);
    if args.len() > 1 && is_text(args[0].as_str(), "startchat") {
        return Some(Command::StartChat { name: args[1].clone() });
    }
    None
}

/// Reads a request to join a chat room.
pub fn parse_join_chat(line: &str) -> (cmd: Option<Command>)
    ensures
        parsed(cmd) == join_chat_of(args_of(line@)),
{
    let args = split_words(line, Spacing::Ascii);
    if args.len() > 1 && is_text(args[0].as_str(), "joinchat") {
        return Some(Command::JoinChat { name: args[1].clone() });
    }
    None
}

/// Reads a message to the sender's current chat room.
pub fn parse_message_chat(line: &str) -> (cmd: Option<Command>)
    ensures
        parsed(cmd) == message_chat_of(args_of(line@)),
{
    let args = split_words(line, Spacing::Ascii);
    if args.len() > 1 && is_text(args[0].as_str(), "message") {
        let content = join_from(&args, 1);
        return Some(Command::MessageChat { content });
    }
    None
}

/// Reads a request to leave a chat room.
pub fn parse_quit_chat(line: &str) -> (cmd: Option<Command>)
    ensures
        parsed(cmd) == quit_chat_of(args_of(line@)),
{
    let args = split_words(line, Spacing::Ascii);
    if args.len() > 1 && is_text(args[0].as_str(), "quitchat") {
        return Some(Command::QuitChat { name: args[1].clone() });
    }
    None
}

/// Reads the announcement of a file transfer.
pub fn parse_file_command(line: &str) -> (cmd: Option<Command>)
    ensures
        parsed(cmd) == file_of(args_of(line@)),
{
    let args = split_words(line, Spacing::Ascii);
    if args.len() > 3 && is_text(args[0].as_str(), "file") && is_text(args[1].as_str(), "-u") {
        let file_path = join_from(&args, 3);
        return Some(Command::File { name: args[2].clone(), file_path });
    }
    None
}

/// Reads one command line.
pub fn parse_command(cmd: &str) -> (out: Option<Command>)
    ensures
        parsed(out) == command_of(args_of(cmd@)),
{
    let reg = parse_reg(cmd);
    if reg.is_some() {
        return reg;
    }
    let login = parse_login(cmd);
    if login.is_some() {
        return login;
    }
    let text = parse_text(cmd);
    if text.is_some() {
        return text;
    }
    let text_multiple = parse_text_multiple(cmd);
    if text_multiple.is_some() {
        return text_multiple;
    }
    let start_chat = parse_start_chat(cmd);
    if start_chat.is_some() {
        return start_chat;
    }
    let join_chat = parse_join_chat(cmd);
    if join_chat.is_some() {
        return join_chat;
    }
    let message_chat = parse_message_chat(cmd);
    if message_chat.is_some() {
        return message_chat;
    }
    let quit_chat = parse_quit_chat(cmd);
    if quit_chat.is_some() {
        return quit_chat;
    }
    let file = parse_file_command(cmd);
    if file.is_some() {
        return file;
    }
    parse_quit(cmd)
}

/// The ten keywords differ from each other, so a line fits at most one
/// shape, and the order in which the shapes are tried does not matter: a
/// shape that fits is the command.
pub proof fn law_shapes_exclude_each_other(args: Seq<Seq<char>>)
    ensures
        reg_of(args) is Some ==> command_of(args) == reg_of(args),
        login_of(args) is Some ==> command_of(args) == login_of(args),
        text_of_args(args) is Some ==> command_of(args) == text_of_args(args),
        text_multiple_of(args) is Some ==> command_of(args) == text_multiple_of(args),
        start_chat_of(args) is Some ==> command_of(args) == start_chat_of(args),
        join_chat_of(args) is Some ==> command_of(args) == join_chat_of(args),
        message_chat_of(args) is Some ==> command_of(args) == message_chat_of(args),
        quit_chat_of(args) is Some ==> command_of(args) == quit_chat_of(args),
        file_of(args) is Some ==> command_of(args) == file_of(args),
        quit_of(args) is Some ==> command_of(args) == quit_of(args),
{
    reveal_strlit("reg");
    reveal_strlit("login");
    reveal_strlit("text");
    reveal_strlit("textMultiple");
    reveal_strlit("startchat");
    reveal_strlit("joinchat");
    reveal_strlit("message");
    reveal_strlit("quitchat");
    reveal_strlit("file");
    reveal_strlit("quit");
    if args.len() > 0 {
        let key = args[0];
        assert("text"@[0] != "file"@[0]);
        assert("text"@[0] != "quit"@[0]);
        assert("file"@[0] != "quit"@[0]);
        assert("joinchat"@[0] != "quitchat"@[0]);
        if key.len() == 4 {
            assert(key == "text"@ ==> key[0] == 't');
            assert(key == "file"@ ==> key[0] == 'f');
            assert(key == "quit"@ ==> key[0] == 'q');
        }
        if key.len() == 8 {
            assert(key == "joinchat"@ ==> key[0] == 'j');
            assert(key == "quitchat"@ ==> key[0] == 'q');
        }
    }
}

/// A line without words is no command.
pub proof fn law_empty_line_is_no_command(line: Seq<char>)
    requires
        args_of(line).len() == 0,
    ensures
        command_of(args_of(line)) is None,
{
}

} // verus!
