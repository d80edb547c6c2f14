use chat_relay::command::{
    parse_command, parse_file_command, parse_join_chat, parse_login, parse_message_chat,
    parse_quit, parse_quit_chat, parse_reg, parse_start_chat, parse_text, parse_text_multiple,
    Command,
};

fn s(text: &str) -> String {
    text.to_string()
}

#[test]
fn reg_reads_name_and_secret() {
    assert_eq!(
        parse_reg("reg -u alice -p pw1"),
        Some(Command::Register { name: s("alice"), password: s("pw1") })
    );
}

#[test]
fn reg_ignores_words_after_the_secret() {
    assert_eq!(
        parse_reg("reg -u alice -p pw1 and more"),
        Some(Command::Register { name: s("alice"), password: s("pw1") })
    );
}

#[test]
fn reg_needs_five_words() {
    assert_eq!(parse_reg("reg -u alice -p"), None);
    assert_eq!(parse_reg("reg"), None);
    assert_eq!(parse_reg(""), None);
}

#[test]
fn reg_needs_its_markers() {
    assert_eq!(parse_reg("reg -x alice -p pw1"), None);
    assert_eq!(parse_reg("reg -u alice -q pw1"), None);
    assert_eq!(parse_reg("login -u alice -p pw1"), None);
}

#[test]
fn login_reads_name_and_secret() {
    assert_eq!(
        parse_login("login -u bob -p pw2"),
        Some(Command::Login { name: s("bob"), password: s("pw2") })
    );
    assert_eq!(parse_login("login -u bob -p"), None);
    assert_eq!(parse_login("reg -u bob -p pw2"), None);
}

#[test]
fn text_joins_the_content_with_single_spaces() {
    assert_eq!(
        parse_text("text -u bob hello   there\tfriend"),
        Some(Command::Text { name: s("bob"), content: s("hello there friend") })
    );
}

#[test]
fn text_needs_content() {
    assert_eq!(parse_text("text -u bob"), None);
    assert_eq!(parse_text("text bob hello there"), None);
}

#[test]
fn text_multiple_reads_recipients_up_to_the_marker() {
    assert_eq!(
        parse_text_multiple("textMultiple -u bob carol -t hello to two"),
        Some(Command::TextMultiple {
            names: vec![s("bob"), s("carol")],
            content: s("hello to two"),
        })
    );
}

#[test]
fn text_multiple_without_marker_is_no_command() {
    assert_eq!(parse_text_multiple("textMultiple -u bob carol hello"), None);
}

#[test]
fn text_multiple_may_have_no_recipient_and_no_content() {
    assert_eq!(
        parse_text_multiple("textMultiple -u -t hello"),
        Some(Command::TextMultiple { names: vec![], content: s("hello") })
    );
    assert_eq!(
        parse_text_multiple("textMultiple -u bob -t"),
        Some(Command::TextMultiple { names: vec![s("bob")], content: s("") })
    );
}

#[test]
fn text_multiple_stops_at_the_first_marker() {
    assert_eq!(
        parse_text_multiple("textMultiple -u bob -t a -t b"),
        Some(Command::TextMultiple { names: vec![s("bob")], content: s("a -t b") })
    );
}

#[test]
fn chat_commands_read_the_chat_name() {
    assert_eq!(parse_start_chat("startchat team"), Some(Command::StartChat { name: s("team") }));
    assert_eq!(parse_join_chat("joinchat team"), Some(Command::JoinChat { name: s("team") }));
    assert_eq!(parse_quit_chat("quitchat team"), Some(Command::QuitChat { name: s("team") }));
    assert_eq!(parse_start_chat("startchat"), None);
    assert_eq!(parse_join_chat("joinchat"), None);
    assert_eq!(parse_quit_chat("quitchat"), None);
    assert_eq!(parse_start_chat("startchat team extra"), Some(Command::StartChat { name: s("team") }));
}

#[test]
fn message_takes_every_word_after_the_keyword() {
    assert_eq!(
        parse_message_chat("message hi  team"),
        Some(Command::MessageChat { content: s("hi team") })
    );
    assert_eq!(parse_message_chat("message"), None);
}

#[test]
fn file_reads_recipient_and_path() {
    assert_eq!(
        parse_file_command("file -u bob a.txt"),
        Some(Command::File { name: s("bob"), file_path: s("a.txt") })
    );
    assert_eq!(
        parse_file_command("file -u bob my file.txt"),
        Some(Command::File { name: s("bob"), file_path: s("my file.txt") })
    );
    assert_eq!(parse_file_command("file -u bob"), None);
}

#[test]
fn quit_is_a_single_keyword() {
    assert_eq!(parse_quit("quit"), Some(Command::Quit));
    assert_eq!(parse_quit("  quit now"), Some(Command::Quit));
    assert_eq!(parse_quit("quitchat team"), None);
    assert_eq!(parse_quit(""), None);
}

#[test]
fn parse_command_picks_the_shape_by_keyword() {
    assert_eq!(
        parse_command("reg -u alice -p pw1"),
        Some(Command::Register { name: s("alice"), password: s("pw1") })
    );
    assert_eq!(
        parse_command("login -u alice -p pw1"),
        Some(Command::Login { name: s("alice"), password: s("pw1") })
    );
    assert_eq!(
        parse_command("text -u bob hello"),
        Some(Command::Text { name: s("bob"), content: s("hello") })
    );
    assert_eq!(
        parse_command("textMultiple -u bob carol -t hi"),
        Some(Command::TextMultiple { names: vec![s("bob"), s("carol")], content: s("hi") })
    );
    assert_eq!(parse_command("startchat team"), Some(Command::StartChat { name: s("team") }));
    assert_eq!(parse_command("joinchat team"), Some(Command::JoinChat { name: s("team") }));
    assert_eq!(
        parse_command("message hi team"),
        Some(Command::MessageChat { content: s("hi team") })
    );
    assert_eq!(parse_command("quitchat team"), Some(Command::QuitChat { name: s("team") }));
    assert_eq!(
        parse_command("file -u bob a.txt"),
        Some(Command::File { name: s("bob"), file_path: s("a.txt") })
    );
    assert_eq!(parse_command("quit"), Some(Command::Quit));
}

#[test]
fn parse_command_knows_no_other_line() {
    assert_eq!(parse_command(""), None);
    assert_eq!(parse_command("   "), None);
    assert_eq!(parse_command("hello world"), None);
    assert_eq!(parse_command("REG -u alice -p pw1"), None);
    assert_eq!(parse_command("reg -u alice"), None);
    assert_eq!(parse_command("EOF: a.txt"), None);
}

#[test]
fn only_ascii_whitespace_separates_words() {
    assert_eq!(
        parse_command("startchat\u{a0}team"),
        None
    );
    assert_eq!(
        parse_command("startchat te\u{a0}am"),
        Some(Command::StartChat { name: s("te\u{a0}am") })
    );
    assert_eq!(
        parse_command("\t startchat \r\n team \x0c"),
        Some(Command::StartChat { name: s("team") })
    );
}
