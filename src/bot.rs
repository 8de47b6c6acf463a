use vstd::prelude::*;

use crate::command::{command_name, names_command, parse_command, Command};
use crate::config::Config;
use crate::image::{ImageEntry, ImageStore};
use crate::text::{has_prefix, lemma_token_end_at};

verus! {

/// The text sent in place of an image when the pool is empty.
pub open spec fn no_images_text() -> Seq<char> {
    "No images provided ):"@
}

/// What the bot sends back to a channel: an image, or a line of text.
pub enum Reply {
    Attachment(ImageEntry),
    Text(String),
}

/// `reply` is what the image command may send from a pool: one of its
/// images, or the fallback text when it has none.
pub open spec fn reply_fits(reply: Reply, pool: Seq<(Seq<char>, Seq<u8>)>) -> bool {
    if pool.len() == 0 {
        reply matches Reply::Text(t) && t@ == no_images_text()
    } else {
        reply matches Reply::Attachment(e) && pool.contains(e@)
    }
}

/// The reply for the image that was drawn: that image, or the fallback text
/// when none was.
pub fn reply_for(pick: Option<ImageEntry>) -> (r: Reply)
    ensures
        match pick {
            Some(e) => r matches Reply::Attachment(a) && a@ == e@,
            None => r matches Reply::Text(t) && t@ == no_images_text(),
        },
{
    match pick {
        Some(e) => Reply::Attachment(e),
        None => Reply::Text(String::from_str("No images provided ):")),
    }
}

/// Draws an image from the pool and makes the reply that carries it.
pub fn fetch_reply(images: &ImageStore) -> (r: Reply)
    ensures
        reply_fits(r, images@),
{
    let pick = images.pick_random();
    reply_for(pick)
}

/// An inbound event from the chat platform.
pub enum Event {
    /// The connection is up; the bot is logged in under `user_tag`.
    Ready { user_tag: String },
    /// A message was posted in `channel`; `from_self` when the bot wrote it.
    Message { from_self: bool, channel: u64, content: String },
    /// Any other event.
    Other,
}

/// What the bot does for one event.
pub enum Action {
    /// Nothing.
    Ignore,
    /// Report that the bot is logged in under the given tag.
    Greet(String),
    /// Send `reply` to `channel`.
    Send { channel: u64, reply: Reply },
    /// The reserved command was given; nothing is sent.
    Reserved,
    /// An unknown command name was given; it is reported, nothing is sent.
    Unknown(String),
}

/// `action` is what the command `command`, given in `channel`, calls for
/// against the image pool `pool`.
pub open spec fn routes_to(
    command: Command,
    channel: u64,
    pool: Seq<(Seq<char>, Seq<u8>)>,
    action: Action,
) -> bool {
    match command {
        Command::Pittie => action matches Action::Send { channel: c, reply } && c == channel
            && reply_fits(reply, pool),
        Command::AddPittie => action is Reserved,
        Command::Unknown(name) => action matches Action::Unknown(t) && t@ == name@,
    }
}

/// The bot: its settings and its image pool.
pub struct Pittie2 {
    pub config: Config,
    pub images: ImageStore,
}

/// `action` is what the bot with prefix `prefix` and pool `pool` does for
/// `event`: messages of its own, and those that carry no command, are
/// ignored.
pub open spec fn handles(
    prefix: Seq<char>,
    pool: Seq<(Seq<char>, Seq<u8>)>,
    event: Event,
    action: Action,
) -> bool {
    match event {
        Event::Ready { user_tag } => action matches Action::Greet(t) && t@ == user_tag@,
        Event::Other => action is Ignore,
        Event::Message { from_self, channel, content } => {
            if from_self || command_name(content@, prefix) is None {
                action is Ignore
            } else {
                let name = command_name(content@, prefix)->Some_0;
                if name == "pittie"@ {
                    action matches Action::Send { channel: c, reply } && c == channel
                        && reply_fits(reply, pool)
                } else if name == "addpittie"@ {
                    action is Reserved
                } else {
                    action matches Action::Unknown(t) && t@ == name
                }
            }
        },
    }
}

/// What a command given in `channel` calls for: the image command draws an
/// image and sends it (or the fallback text) back to `channel`; the others
/// send nothing.
pub fn route(command: Command, channel: u64, images: &ImageStore) -> (r: Action)
    ensures
        routes_to(command, channel, images@, r),
{
    match command {
        Command::Pittie => Action::Send { channel, reply: fetch_reply(images) },
        Command::AddPittie => Action::Reserved,
        Command::Unknown(name) => Action::Unknown(name),
    }
}

impl Pittie2 {
    /// The bot with these settings and this image pool.
    pub fn new(config: Config, images: ImageStore) -> (r: Pittie2)
        ensures
            r.config == config,
            r.images == images,
    {
        Pittie2 { config, images }
    }

    /// The command prefix.
    pub fn prefix(&self) -> (r: &String)
        ensures
            r@ == self.config.prefix@,
    {
        &self.config.prefix
    }

    /// A random image of the pool, or `None` when it is empty.
    pub fn get_rand_entry(&self) -> (r: Option<ImageEntry>)
        ensures
            r is None <==> self.images@.len() == 0,
            r matches Some(e) ==> self.images@.contains(e@),
    {
        self.images.pick_random()
    }

    /// What the bot does for one inbound event.
    pub fn handle(&self, event: &Event) -> (r: Action)
        ensures
            handles(self.config.prefix@, self.images@, *event, r),
    {
        match event {
            Event::Ready { user_tag } => Action::Greet(user_tag.clone()),
            Event::Other => Action::Ignore,
            Event::Message { from_self, channel, content } => {
                if *from_self {
                    return Action::Ignore;
                }
                match parse_command(content.as_str(), self.prefix().as_str()) {
                    None => Action::Ignore,
                    Some(command) => route(command, *channel, &self.images),
                }
            },
        }
    }
}

/// A message whose text does not start with the prefix runs no command: the
/// bot ignores it.
pub proof fn lemma_no_prefix_ignored(
    prefix: Seq<char>,
    pool: Seq<(Seq<char>, Seq<u8>)>,
    event: Event,
    action: Action,
)
    requires
        event matches Event::Message { content, .. } && !has_prefix(content@, prefix),
        handles(prefix, pool, event, action),
    ensures
        action is Ignore,
{
}

/// The name `name` (without spaces) right after the prefix, followed by the
/// end of the text or by a space and further words, is the command name.
pub proof fn lemma_command_name_of(prefix: Seq<char>, name: Seq<char>, rest: Seq<char>)
    requires
        forall|j: int| 0 <= j < name.len() ==> name[j] != ' ',
        rest.len() == 0 || rest[0] == ' ',
    ensures
        command_name(prefix + name + rest, prefix) == Some(name),
{
    let text = prefix + name + rest;
    assert(text.subrange(0, prefix.len() as int) =~= prefix);
    let k = (prefix.len() + name.len()) as int;
    assert forall|j: int| prefix.len() <= j < k implies text[j] != ' ' by {
        assert(text[j] == name[j - prefix.len()]);
    }
    if rest.len() > 0 {
        assert(text[k] == rest[0]);
    }
    lemma_token_end_at(text, prefix.len() as int, k);
    assert(text.subrange(prefix.len() as int, k) =~= name);
}

/// A message from someone else made of the prefix and `pittie`, possibly
/// followed by a space and further words, sends exactly one reply to its
/// channel: an image of the pool, or the fallback text when it is empty.
pub proof fn lemma_pittie_sends_once(
    prefix: Seq<char>,
    pool: Seq<(Seq<char>, Seq<u8>)>,
    rest: Seq<char>,
    event: Event,
    action: Action,
)
    requires
        rest.len() == 0 || rest[0] == ' ',
        event matches Event::Message { from_self, content, .. } && !from_self && content@ == prefix
            + "pittie"@ + rest,
        handles(prefix, pool, event, action),
    ensures
        event matches Event::Message { channel, .. } && action matches Action::Send {
            channel: c,
            reply,
        } && c == channel && reply_fits(reply, pool),
{
    reveal_strlit("pittie");
    lemma_command_name_of(prefix, "pittie"@, rest);
}

/// A message from someone else made of the prefix and a token that names no
/// command, possibly followed by a space and further words, sends nothing and
/// reports that token as an unknown command.
pub proof fn lemma_unknown_reported(
    prefix: Seq<char>,
    pool: Seq<(Seq<char>, Seq<u8>)>,
    token: Seq<char>,
    rest: Seq<char>,
    event: Event,
    action: Action,
)
    requires
        forall|j: int| 0 <= j < token.len() ==> token[j] != ' ',
        token != "pittie"@,
        token != "addpittie"@,
        rest.len() == 0 || rest[0] == ' ',
        event matches Event::Message { from_self, content, .. } && !from_self && content@ == prefix
            + token + rest,
        handles(prefix, pool, event, action),
    ensures
        action matches Action::Unknown(t) && t@ == token,
{
    lemma_command_name_of(prefix, token, rest);
}

} // verus!
