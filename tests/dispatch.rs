use pittie::bot::{fetch_reply, reply_for, route, Action, Event, Pittie2, Reply};
use pittie::command::{parse_command, Command};
use pittie::config::Config;
use pittie::image::{ImageEntry, ImageStore};

fn bot_with(names: &[&str]) -> Pittie2 {
    let entries = names
        .iter()
        .map(|n| ImageEntry::new(n.to_string(), n.as_bytes().to_vec()))
        .collect();
    Pittie2::new(Config::new("token".to_string(), "%".to_string(), vec![]), ImageStore::load(entries))
}

fn message(content: &str) -> Event {
    Event::Message { from_self: false, channel: 42, content: content.to_string() }
}

#[test]
fn pittie_with_one_image_sends_it() {
    let bot = bot_with(&["x.png"]);
    match bot.handle(&message("%pittie")) {
        Action::Send { channel, reply: Reply::Attachment(e) } => {
            assert_eq!(channel, 42);
            assert_eq!(e.name, "x.png");
            assert_eq!(e.bytes, b"x.png".to_vec());
        }
        _ => panic!("expected one image to be sent"),
    }
}

#[test]
fn pittie_with_empty_pool_sends_fallback_text() {
    let bot = bot_with(&[]);
    match bot.handle(&message("%pittie")) {
        Action::Send { channel, reply: Reply::Text(t) } => {
            assert_eq!(channel, 42);
            assert_eq!(t, "No images provided ):");
        }
        _ => panic!("expected the fallback text to be sent"),
    }
}

#[test]
fn pittie_with_arguments_still_sends() {
    let bot = bot_with(&["x.png"]);
    assert!(matches!(
        bot.handle(&message("%pittie some words")),
        Action::Send { channel: 42, reply: Reply::Attachment(_) }
    ));
}

#[test]
fn text_without_prefix_is_ignored() {
    let bot = bot_with(&["x.png"]);
    assert!(matches!(bot.handle(&message("pittie")), Action::Ignore));
    assert!(matches!(bot.handle(&message("hello %pittie")), Action::Ignore));
    assert!(matches!(bot.handle(&message("")), Action::Ignore));
    assert!(matches!(bot.handle(&message("!pittie")), Action::Ignore));
}

#[test]
fn own_messages_are_ignored() {
    let bot = bot_with(&["x.png"]);
    let event = Event::Message { from_self: true, channel: 42, content: "%pittie".to_string() };
    assert!(matches!(bot.handle(&event), Action::Ignore));
}

#[test]
fn unknown_command_is_reported() {
    let bot = bot_with(&["x.png"]);
    match bot.handle(&message("%hello there")) {
        Action::Unknown(name) => assert_eq!(name, "hello"),
        _ => panic!("expected an unknown command"),
    }
    match bot.handle(&message("%pitties")) {
        Action::Unknown(name) => assert_eq!(name, "pitties"),
        _ => panic!("expected an unknown command"),
    }
}

#[test]
fn bare_prefix_is_an_empty_unknown_command() {
    let bot = bot_with(&["x.png"]);
    match bot.handle(&message("%")) {
        Action::Unknown(name) => assert_eq!(name, ""),
        _ => panic!("expected an unknown command"),
    }
    match bot.handle(&message("% pittie")) {
        Action::Unknown(name) => assert_eq!(name, ""),
        _ => panic!("expected an unknown command"),
    }
}

#[test]
fn reserved_command_sends_nothing() {
    let bot = bot_with(&["x.png"]);
    assert!(matches!(bot.handle(&message("%addpittie")), Action::Reserved));
    assert!(matches!(bot.handle(&message("%addpittie file.png")), Action::Reserved));
}

#[test]
fn ready_event_greets_and_others_are_ignored() {
    let bot = bot_with(&[]);
    match bot.handle(&Event::Ready { user_tag: "Pittie#0001".to_string() }) {
        Action::Greet(tag) => assert_eq!(tag, "Pittie#0001"),
        _ => panic!("expected a greeting"),
    }
    assert!(matches!(bot.handle(&Event::Other), Action::Ignore));
}

#[test]
fn longer_prefix_and_unicode() {
    let bot = Pittie2::new(
        Config::new("t".to_string(), "ñ!".to_string(), vec![7]),
        ImageStore::load(vec![ImageEntry::new("é.jpg".to_string(), vec![9])]),
    );
    assert_eq!(bot.prefix(), "ñ!");
    match bot.handle(&message("ñ!pittie")) {
        Action::Send { reply: Reply::Attachment(e), .. } => assert_eq!(e.name, "é.jpg"),
        _ => panic!("expected an image"),
    }
    match bot.handle(&message("ñ!ü")) {
        Action::Unknown(name) => assert_eq!(name, "ü"),
        _ => panic!("expected an unknown command"),
    }
}

#[test]
fn parse_command_cases() {
    assert!(matches!(parse_command("%pittie", "%"), Some(Command::Pittie)));
    assert!(matches!(parse_command("%addpittie", "%"), Some(Command::AddPittie)));
    assert!(matches!(parse_command("pittie", "%"), None));
    assert!(matches!(parse_command("", "%"), None));
    match parse_command("%%pittie", "%") {
        Some(Command::Unknown(n)) => assert_eq!(n, "%pittie"),
        _ => panic!("expected an unknown command"),
    }
}

#[test]
fn route_and_replies() {
    let store = ImageStore::load(vec![ImageEntry::new("y.jpeg".to_string(), vec![5, 6])]);
    match route(Command::Pittie, 9, &store) {
        Action::Send { channel: 9, reply: Reply::Attachment(e) } => assert_eq!(e.bytes, vec![5, 6]),
        _ => panic!("expected an image"),
    }
    assert!(matches!(route(Command::AddPittie, 9, &store), Action::Reserved));
    match reply_for(None) {
        Reply::Text(t) => assert_eq!(t, "No images provided ):"),
        _ => panic!("expected text"),
    }
    match reply_for(Some(ImageEntry::new("z.png".to_string(), vec![1]))) {
        Reply::Attachment(e) => assert_eq!(e.name, "z.png"),
        _ => panic!("expected an image"),
    }
    assert!(matches!(fetch_reply(&ImageStore::new()), Reply::Text(_)));
}

#[test]
fn default_config_values() {
    let c = Config::default_config();
    assert_eq!(c.token, "Insert your token here");
    assert_eq!(c.prefix, "%");
    assert!(c.admins.is_empty());
}
