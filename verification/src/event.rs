//! What passes between the terminal, the chat connection and the screen.

use crate::config::ConfigData;
use crate::event::ev::In;
use crate::store::{Cache, Entry, DEFAULT_LIMIT};
use vstd::prelude::*;
use vstd::string::*;

pub mod ev;

verus! {

/// A chat message in a channel.
#[derive(Clone, Debug, PartialEq, PartialOrd)]
pub struct Message {
    pub channel: String,
    pub username: String,
    pub msg: String,
}

/// What the logic reads of a key press: the key, and of a character key the
/// character.
#[derive(Clone, Copy, Debug, PartialEq, Eq, Structural)]
pub enum KeyCode {
    Char(char),
    Esc,
    Enter,
    Other,
}

/// What the logic reads of an event of the terminal.
#[derive(Clone, Copy, Debug, PartialEq, Eq, Structural)]
pub enum TermEvent {
    Key(KeyCode),
    Resize,
    Other,
}

/// What the logic reads of what the chat connection received.
#[derive(Clone, Debug, PartialEq)]
pub enum ChatEvent {
    /// Somebody said something in a channel.
    Privmsg { channel: String, sender: String, text: String },
    /// The server asks the client to connect anew.
    Reconnect,
    /// The server asks whether the client is there.
    Ping,
    Other,
}

/// What the driver of the chat connection does about what it received.
#[derive(Clone, Debug, PartialEq)]
pub enum ChatAction {
    /// Pass the event on to the screen.
    Forward(In),
    /// Connect anew and join the channels again.
    Reconnect,
    /// Answer the ping.
    Pong,
    Nothing,
}

/// What stands behind the screen: the settings and the cache.
pub struct EventHandler {
    cfg: ConfigData,
    req: Cache,
}

impl EventHandler {
    /// The settings.
    pub closed spec fn settings(&self) -> ConfigData {
        self.cfg
    }

    /// The cache table.
    pub closed spec fn table(&self) -> Cache {
        self.req
    }

    /// A handler with an empty cache of the usual size.
    pub fn new(cfg: ConfigData, disk_cache_dir: String) -> (handler: EventHandler)
        ensures
            handler.settings() == cfg,
            handler.table().entries() == Seq::<Entry>::empty(),
            handler.table().limit() == DEFAULT_LIMIT,
            handler.table().dir() == disk_cache_dir@,
    {
        EventHandler { cfg, req: Cache::new(disk_cache_dir) }
    }

    pub fn cfg(&self) -> (cfg: &ConfigData)
        ensures
            *cfg == self.settings(),
    {
        &self.cfg
    }

    /// The cache, for the lookups of the handler.
    pub fn req(&mut self) -> (cache: &mut Cache)
        ensures
            *cache == old(self).table(),
            final(self).table() == *final(cache),
            final(self).settings() == old(self).settings(),
    {
        &mut self.req
    }

    /// What the screen is told of an event of the terminal: a key press as
    /// it is, a change of size as a request to draw, nothing of the rest.
    pub fn crossterm_event(event: TermEvent) -> (told: Option<In>)
        ensures
            told == match event {
                TermEvent::Key(key) => Some(In::Key(key)),
                TermEvent::Resize => Some(In::Redraw),
                TermEvent::Other => None,
            },
    {
        match event {
            TermEvent::Key(key) => Some(In::Key(key)),
            TermEvent::Resize => Some(In::Redraw),
            TermEvent::Other => None,
        }
    }

    /// What is done about what the chat connection received: a message goes
    /// to the screen, a request to reconnect and a ping are answered, the
    /// rest is passed over.
    pub fn tmi_event(event: ChatEvent) -> (action: ChatAction)
        ensures
            match event {
                ChatEvent::Privmsg { channel, sender, text } => action matches ChatAction::Forward(
                    In::Message(message),
                ) && message.channel@ == channel@ && message.username@ == sender@ && message.msg@
                    == text@,
                ChatEvent::Reconnect => action == ChatAction::Reconnect,
                ChatEvent::Ping => action == ChatAction::Pong,
                ChatEvent::Other => action == ChatAction::Nothing,
            },
    {
        match event {
            ChatEvent::Privmsg { channel, sender, text } => ChatAction::Forward(
                In::Message(Message { channel, username: sender, msg: text }),
            ),
            ChatEvent::Reconnect => ChatAction::Reconnect,
            ChatEvent::Ping => ChatAction::Pong,
            ChatEvent::Other => ChatAction::Nothing,
        }
    }
}

} // verus!
