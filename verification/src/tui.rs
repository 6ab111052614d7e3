//! What the screen shows and how it answers to keys and messages: the chat
//! of each channel, the tabs, the focus of the text area.

use crate::config::ConfigData;
use crate::event::ev::{In, Send};
use crate::event::{KeyCode, Message};
use crate::store::{found, holds, slot};
use crate::text::{join, joined, mentions, occurs_in, texts_view};
use std::collections::VecDeque;
use vstd::prelude::*;
use vstd::string::*;
use vstd::utf8::*;

verus! {

/// The number of lines that a chat keeps.
pub const CHAT_LINES: usize = 100;

/// The background of a line.
#[derive(Clone, Copy, Debug, PartialEq, Eq, Structural)]
pub enum Background {
    /// The line mentions the user.
    Red,
    Black,
    Reset,
}

/// One line of a chat: who said what, and on what background.
#[derive(Clone, Debug, PartialEq)]
pub struct ChatLine {
    pub username: String,
    pub msg: String,
    pub background: Background,
}

/// What a `ChatLine` stands for.
pub struct ChatLineView {
    pub username: Seq<char>,
    pub msg: Seq<char>,
    pub background: Background,
}

/// What a `Chat` stands for: its lines, the newest first, and whether the
/// next plain line is darkened.
pub struct ChatView {
    pub lines: Seq<ChatLineView>,
    pub bg_darken: bool,
}

/// The chat of one channel.
pub struct Chat {
    lines: VecDeque<ChatLine>,
    bg_darken: bool,
}

impl View for ChatLine {
    type V = ChatLineView;

    open spec fn view(&self) -> ChatLineView {
        ChatLineView { username: self.username@, msg: self.msg@, background: self.background }
    }
}

impl View for Chat {
    type V = ChatView;

    closed spec fn view(&self) -> ChatView {
        ChatView {
            lines: Seq::new(self.lines@.len(), |i: int| self.lines@[i]@),
            bg_darken: self.bg_darken,
        }
    }
}

/// A chat laid out for the screen.
#[derive(Clone, Debug, PartialEq)]
pub struct Listing {
    pub title: String,
    /// The lines, the newest first.
    pub lines: Vec<ChatLine>,
}

/// The lines that a vector holds, each by its view.
pub open spec fn lines_view(lines: Seq<ChatLine>) -> Seq<ChatLineView> {
    Seq::new(lines.len(), |i: int| lines[i]@)
}

/// A chat without lines.
pub open spec fn empty_chat() -> ChatView {
    ChatView { lines: Seq::empty(), bg_darken: false }
}

/// The chat after a message was pushed. The new line stands in front; a chat
/// that is full loses its oldest line. A line whose text holds the bytes of
/// `mention` is red; the others are black and plain in turn.
pub open spec fn pushed(
    chat: ChatView,
    mention: Seq<char>,
    username: Seq<char>,
    msg: Seq<char>,
) -> ChatView {
    let background = if occurs_in(encode_utf8(mention), encode_utf8(msg)) {
        Background::Red
    } else if chat.bg_darken {
        Background::Black
    } else {
        Background::Reset
    };
    let kept = if chat.lines.len() >= CHAT_LINES {
        chat.lines.drop_last()
    } else {
        chat.lines
    };
    ChatView {
        lines: seq![ChatLineView { username, msg, background }] + kept,
        bg_darken: !chat.bg_darken,
    }
}

/// A chat never grows past its limit: a push adds a line to a chat with
/// room, and keeps the number of lines of a full one.
pub proof fn lemma_pushed_is_bounded(
    chat: ChatView,
    mention: Seq<char>,
    username: Seq<char>,
    msg: Seq<char>,
)
    requires
        chat.lines.len() <= CHAT_LINES,
    ensures
        pushed(chat, mention, username, msg).lines.len() == if chat.lines.len() < CHAT_LINES {
            chat.lines.len() + 1
        } else {
            chat.lines.len()
        },
        pushed(chat, mention, username, msg).lines.len() <= CHAT_LINES,
{
}

impl Chat {
    pub fn new() -> (chat: Chat)
        ensures
            chat@ == empty_chat(),
    {
        let chat = Chat { lines: VecDeque::with_capacity(CHAT_LINES), bg_darken: false };
        assert(chat@.lines =~= Seq::<ChatLineView>::empty());
        chat
    }

    /// Puts the message in front of the chat.
    pub fn push_message(&mut self, mention: &str, message: Message)
        ensures
            final(self)@ == pushed(old(self)@, mention@, message.username@, message.msg@),
    {
        let ghost before = self@;
        let found_mention = mentions(message.msg.as_str(), mention);
        let background = if found_mention {
            Background::Red
        } else if self.bg_darken {
            Background::Black
        } else {
            Background::Reset
        };
        let line = ChatLine { username: message.username, msg: message.msg, background };
        self.bg_darken = !self.bg_darken;
        if self.lines.len() >= CHAT_LINES {
            self.lines.pop_back();
        }
        self.lines.push_front(line);
        assert(self@.lines =~= pushed(before, mention@, message.username@, message.msg@).lines);
    }

    /// The chat as the screen lists it: under the title, the lines from the
    /// newest to the oldest, which are drawn from the bottom up.
    pub fn list(&self, title: String) -> (listing: Listing)
        ensures
            listing.title@ == title@,
            lines_view(listing.lines@) == self@.lines,
    {
        let mut lines: Vec<ChatLine> = Vec::new();
        let mut at: usize = 0;
        while at < self.lines.len()
            invariant
                at <= self.lines@.len(),
                lines_view(lines@) == self@.lines.take(at as int),
            decreases self.lines@.len() - at,
        {
            let line = &self.lines[at];
            let ghost before = lines_view(lines@);
            let copy = ChatLine {
                username: line.username.clone(),
                msg: line.msg.clone(),
                background: line.background,
            };
            assert(copy@ == self@.lines[at as int]);
            lines.push(copy);
            assert(lines_view(lines@) =~= before.push(copy@));
            assert(self@.lines.take(at + 1) =~= self@.lines.take(at as int).push(
                self@.lines[at as int],
            ));
            at = at + 1;
        }
        assert(self@.lines.take(at as int) =~= self@.lines);
        Listing { title, lines }
    }

    /// The number of lines.
    pub fn len(&self) -> (n: usize)
        ensures
            n == self@.lines.len(),
    {
        self.lines.len()
    }

    /// The line at a place, the newest at place zero.
    pub fn line(&self, at: usize) -> (line: Option<&ChatLine>)
        ensures
            match line {
                Some(l) => at < self@.lines.len() && l@ == self@.lines[at as int],
                None => at >= self@.lines.len(),
            },
    {
        if at < self.lines.len() {
            Some(&self.lines[at])
        } else {
            None
        }
    }
}

/// `indexmap::IndexMap`, carried as it is: nothing inside it is read here.
#[verifier::external_type_specification]
#[verifier::external_body]
#[verifier::reject_recursive_types(K)]
#[verifier::reject_recursive_types(V)]
#[verifier::reject_recursive_types(S)]
pub struct ExIndexMap<K, V, S>(indexmap::IndexMap<K, V, S>);

/// One tab: the name of a channel and its chat.
pub type Tab = (Seq<char>, ChatView);

/// The tabs that the map holds, in the order in which their names were
/// first inserted.
pub uninterp spec fn tab_entries(tabs: indexmap::IndexMap<String, Chat>) -> Seq<Tab>;

/// The tabs after a chat was inserted under a name: a name that has a tab
/// keeps its place and gets the chat; a new name gets a tab behind all
/// others.
pub open spec fn inserted(tabs: Seq<Tab>, name: Seq<char>, chat: ChatView) -> Seq<Tab> {
    if holds(tabs, name) {
        tabs.update(slot(tabs, name), (name, chat))
    } else {
        tabs.push((name, chat))
    }
}

/// The tabs with the chat under a name replaced, where the name has a tab.
pub open spec fn replaced(tabs: Seq<Tab>, name: Seq<char>, chat: ChatView) -> Seq<Tab> {
    if holds(tabs, name) {
        tabs.update(slot(tabs, name), (name, chat))
    } else {
        tabs
    }
}

/// Calls `IndexMap::new`. Trusted: the new map holds nothing.
#[verifier::external_body]
fn tabs_new() -> (tabs: indexmap::IndexMap<String, Chat>)
    ensures
        tab_entries(tabs) == Seq::<Tab>::empty(),
{
    indexmap::IndexMap::new()
}

/// Calls `IndexMap::insert` and drops the chat it returns. Trusted: a name
/// that is in the map keeps its place and gets the new chat; a new name is
/// put behind all others.
#[verifier::external_body]
fn tabs_insert(tabs: &mut indexmap::IndexMap<String, Chat>, name: String, chat: Chat)
    ensures
        tab_entries(*final(tabs)) == inserted(tab_entries(*old(tabs)), name@, chat@),
{
    tabs.insert(name, chat);
}

/// Calls `IndexMap::get`. Trusted: it hands out the chat under the name.
#[verifier::external_body]
fn tabs_get<'a>(tabs: &'a indexmap::IndexMap<String, Chat>, name: &str) -> (chat: Option<&'a Chat>)
    ensures
        match chat {
            Some(c) => found(tab_entries(*tabs), name@) == Some(c@),
            None => found(tab_entries(*tabs), name@) is None,
        },
{
    tabs.get(name)
}

/// Calls `IndexMap::get_mut`. Trusted: it hands out the chat under the name
/// for change; what the chat becomes is what the map then holds in its
/// place, and nothing else in the map changes.
#[verifier::external_body]
fn tabs_get_mut<'a>(tabs: &'a mut indexmap::IndexMap<String, Chat>, name: &str) -> (chat: Option<
    &'a mut Chat,
>)
    ensures
        match chat {
            Some(c) => found(tab_entries(*old(tabs)), name@) == Some(c@) && tab_entries(
                *final(tabs),
            ) == replaced(tab_entries(*old(tabs)), name@, final(c)@),
            None => found(tab_entries(*old(tabs)), name@) is None && tab_entries(*final(tabs))
                == tab_entries(*old(tabs)),
        },
{
    tabs.get_mut(name)
}

/// Calls `IndexMap::get_index` and hands out the name. Trusted: it gives the
/// name at the place, and nothing for a place past the end.
#[verifier::external_body]
fn tabs_name_at<'a>(tabs: &'a indexmap::IndexMap<String, Chat>, at: usize) -> (name: Option<
    &'a str,
>)
    ensures
        match name {
            Some(n) => at < tab_entries(*tabs).len() && n@ == tab_entries(*tabs)[at as int].0,
            None => at >= tab_entries(*tabs).len(),
        },
{
    tabs.get_index(at).map(|(name, _)| name.as_str())
}

/// What the driver does with a key after the state has seen it.
#[derive(Clone, Copy, Debug, PartialEq, Eq, Structural)]
pub enum KeyAction {
    Nothing,
    /// Hand the key to the text area.
    Input,
    /// Call `submit` with the lines of the text area and send what it
    /// returns.
    Submit,
}

/// What the driver does after an event.
#[derive(Clone, Copy, Debug, PartialEq, Eq, Structural)]
pub enum Frame {
    /// Leave.
    Quit,
    /// Draw the screen.
    Draw,
    /// Nothing.
    Idle,
}

/// What a `State` stands for.
pub struct StateView {
    pub tabs: Seq<Tab>,
    pub textarea_focused: bool,
    pub active_tab: Option<Seq<char>>,
    pub quit: bool,
    pub request_redraw: bool,
    pub username: Seq<char>,
}

/// The state of the screen.
pub struct State {
    tabs: indexmap::IndexMap<String, Chat>,
    textarea_focused: bool,
    active_tab: Option<String>,
    quit: bool,
    request_redraw: bool,
    username: String,
}

/// The tabs for a list of channels: one empty chat for every name, in the
/// order in which the names first occur.
pub open spec fn tabs_of(channels: Seq<Seq<char>>) -> Seq<Tab>
    decreases channels.len(),
{
    if channels.len() == 0 {
        Seq::empty()
    } else {
        inserted(tabs_of(channels.drop_last()), channels.last(), empty_chat())
    }
}

/// The state with which the screen starts: a tab for every channel, the
/// first channel active (the channel without a name, if there is none).
pub open spec fn initial(
    start_focused: bool,
    username: Seq<char>,
    channels: Seq<Seq<char>>,
) -> StateView {
    StateView {
        tabs: tabs_of(channels),
        textarea_focused: start_focused,
        active_tab: Some(
            if channels.len() > 0 {
                channels[0]
            } else {
                Seq::empty()
            },
        ),
        quit: false,
        request_redraw: false,
        username,
    }
}

/// The state after a key, and what the driver does with the key.
///
/// Outside the text area `q` and escape quit and `i` enters the text area;
/// inside it escape leaves it, enter submits the text if a tab is active,
/// and every other key is input. Every key asks for the screen to be drawn.
pub open spec fn after_key(state: StateView, key: KeyCode) -> (StateView, KeyAction) {
    let focused = state.textarea_focused;
    let redrawn = StateView { request_redraw: true, ..state };
    match key {
        KeyCode::Char(c) if c == 'q' && !focused => (
            StateView { quit: true, ..redrawn },
            KeyAction::Nothing,
        ),
        KeyCode::Char(c) if c == 'i' && !focused => (
            StateView { textarea_focused: true, ..redrawn },
            KeyAction::Nothing,
        ),
        KeyCode::Esc => if focused {
            (StateView { textarea_focused: false, ..redrawn }, KeyAction::Nothing)
        } else {
            (StateView { quit: true, ..redrawn }, KeyAction::Nothing)
        },
        KeyCode::Enter => if focused && state.active_tab is Some {
            (redrawn, KeyAction::Submit)
        } else {
            (redrawn, KeyAction::Nothing)
        },
        _ => if focused {
            (redrawn, KeyAction::Input)
        } else {
            (redrawn, KeyAction::Nothing)
        },
    }
}

/// The state after a message arrived: the message is pushed onto the chat of
/// its channel, if that has a tab, and the screen is to be drawn if that tab
/// is the active one. A message for a channel without a tab changes nothing.
pub open spec fn after_message(
    state: StateView,
    channel: Seq<char>,
    username: Seq<char>,
    msg: Seq<char>,
) -> StateView {
    if holds(state.tabs, channel) {
        StateView {
            tabs: replaced(
                state.tabs,
                channel,
                pushed(found(state.tabs, channel)->0, state.username, username, msg),
            ),
            request_redraw: state.request_redraw || state.active_tab == Some(channel),
            ..state
        }
    } else {
        state
    }
}

/// The state after the text of the text area was submitted, and the text
/// that goes out: the lines joined by spaces, as a message of the user to
/// the active channel, which is also pushed onto the chat of that channel if
/// it has a tab. Without an active tab nothing goes out.
pub open spec fn after_submit(state: StateView, lines: Seq<Seq<char>>) -> (
    StateView,
    Option<Seq<char>>,
) {
    match state.active_tab {
        Some(channel) => {
            let text = joined(lines, seq![' ']);
            let tabs = if holds(state.tabs, channel) {
                replaced(
                    state.tabs,
                    channel,
                    pushed(found(state.tabs, channel)->0, state.username, state.username, text),
                )
            } else {
                state.tabs
            };
            (StateView { tabs, ..state }, Some(text))
        },
        None => (state, None),
    }
}

/// An optional outgoing event is the message of `username` to `channel`
/// with this text, or nothing where there is no text.
pub open spec fn sends(
    out: Option<Send>,
    channel: Option<Seq<char>>,
    username: Seq<char>,
    text: Option<Seq<char>>,
) -> bool {
    match out {
        Some(Send::Message(message)) => text == Some(message.msg@) && channel == Some(
            message.channel@,
        ) && message.username@ == username,
        None => text is None,
    }
}

impl View for State {
    type V = StateView;

    closed spec fn view(&self) -> StateView {
        StateView {
            tabs: tab_entries(self.tabs),
            textarea_focused: self.textarea_focused,
            active_tab: match self.active_tab {
                Some(name) => Some(name@),
                None => None,
            },
            quit: self.quit,
            request_redraw: self.request_redraw,
            username: self.username@,
        }
    }
}

impl State {
    /// The state with which the screen starts.
    pub fn new(start_focused: bool, cfg: &ConfigData) -> (state: State)
        ensures
            state@ == initial(start_focused, cfg.username@, texts_view(cfg.channels@)),
    {
        let ghost channels = texts_view(cfg.channels@);
        let mut tabs = tabs_new();
        let mut i: usize = 0;
        while i < cfg.channels.len()
            invariant
                i <= cfg.channels.len(),
                channels == texts_view(cfg.channels@),
                tab_entries(tabs) == tabs_of(channels.take(i as int)),
            decreases cfg.channels.len() - i,
        {
            tabs_insert(&mut tabs, cfg.channels[i].clone(), Chat::new());
            proof {
                let upto = channels.take(i + 1);
                assert(upto.drop_last() =~= channels.take(i as int));
            }
            i = i + 1;
        }
        assert(channels.take(i as int) =~= channels);
        let first = if cfg.channels.len() > 0 {
            cfg.channels[0].clone()
        } else {
            String::new()
        };
        State {
            tabs,
            textarea_focused: start_focused,
            active_tab: Some(first),
            quit: false,
            request_redraw: false,
            username: cfg.username.clone(),
        }
    }

    /// Takes a key.
    pub fn key_event(&mut self, key: KeyCode) -> (action: KeyAction)
        ensures
            (final(self)@, action) == after_key(old(self)@, key),
    {
        self.request_redraw = true;
        let focused = self.textarea_focused;
        match key {
            KeyCode::Char(c) => {
                if focused {
                    KeyAction::Input
                } else if c == 'q' {
                    self.quit = true;
                    KeyAction::Nothing
                } else if c == 'i' {
                    self.textarea_focused = true;
                    KeyAction::Nothing
                } else {
                    KeyAction::Nothing
                }
            },
            KeyCode::Esc => {
                if focused {
                    self.textarea_focused = false;
                } else {
                    self.quit = true;
                }
                KeyAction::Nothing
            },
            KeyCode::Enter => {
                if focused && self.active_tab.is_some() {
                    KeyAction::Submit
                } else {
                    KeyAction::Nothing
                }
            },
            KeyCode::Other => {
                if focused {
                    KeyAction::Input
                } else {
                    KeyAction::Nothing
                }
            },
        }
    }

    /// Takes a chat message that arrived.
    pub fn message_event(&mut self, message: Message)
        ensures
            final(self)@ == after_message(
                old(self)@,
                message.channel@,
                message.username@,
                message.msg@,
            ),
    {
        let active = match &self.active_tab {
            Some(name) => *name == message.channel,
            None => false,
        };
        match tabs_get_mut(&mut self.tabs, message.channel.as_str()) {
            Some(chat) => {
                chat.push_message(self.username.as_str(), message);
                if active {
                    self.request_redraw = true;
                }
            },
            None => {},
        }
    }

    /// Takes the lines of the text area as a message of the user to the
    /// active channel, and hands out the message to send.
    pub fn submit(&mut self, lines: &Vec<String>) -> (out: Option<Send>)
        ensures
            final(self)@ == after_submit(old(self)@, texts_view(lines@)).0,
            sends(
                out,
                old(self)@.active_tab,
                old(self)@.username,
                after_submit(old(self)@, texts_view(lines@)).1,
            ),
    {
        proof {
            reveal_strlit(" ");
            assert(" "@ =~= seq![' ']);
        }
        match &self.active_tab {
            Some(channel) => {
                let text = join(lines, " ");
                let shown = Message {
                    channel: channel.clone(),
                    username: self.username.clone(),
                    msg: text.clone(),
                };
                let sent = Message {
                    channel: channel.clone(),
                    username: self.username.clone(),
                    msg: text,
                };
                match tabs_get_mut(&mut self.tabs, channel.as_str()) {
                    Some(chat) => {
                        chat.push_message(self.username.as_str(), shown);
                    },
                    None => {},
                }
                Some(Send::Message(sent))
            },
            None => None,
        }
    }

    /// Takes an incoming event of any kind.
    pub fn handle(&mut self, event: In) -> (action: KeyAction)
        ensures
            match event {
                In::Key(key) => (final(self)@, action) == after_key(old(self)@, key),
                In::Message(message) => action == KeyAction::Nothing && final(self)@
                    == after_message(
                    old(self)@,
                    message.channel@,
                    message.username@,
                    message.msg@,
                ),
                In::Redraw => action == KeyAction::Nothing && final(self)@ == (StateView {
                    request_redraw: true,
                    ..old(self)@
                }),
            },
    {
        match event {
            In::Key(key) => self.key_event(key),
            In::Message(message) => {
                self.message_event(message);
                KeyAction::Nothing
            },
            In::Redraw => {
                self.request_redraw = true;
                KeyAction::Nothing
            },
        }
    }

    /// Says what the driver does after an event: leave, if the state says
    /// quit; else draw, if a drawing was asked for, which is then done with;
    /// else nothing.
    pub fn frame(&mut self) -> (next: Frame)
        ensures
            next == if old(self)@.quit {
                Frame::Quit
            } else if old(self)@.request_redraw {
                Frame::Draw
            } else {
                Frame::Idle
            },
            final(self)@ == if old(self)@.quit {
                old(self)@
            } else {
                StateView { request_redraw: false, ..old(self)@ }
            },
    {
        if self.quit {
            Frame::Quit
        } else if self.request_redraw {
            self.request_redraw = false;
            Frame::Draw
        } else {
            Frame::Idle
        }
    }

    /// The name of the tab at a place, in the order of the tabs.
    pub fn tab_name(&self, at: usize) -> (name: Option<&str>)
        ensures
            match name {
                Some(n) => at < self@.tabs.len() && n@ == self@.tabs[at as int].0,
                None => at >= self@.tabs.len(),
            },
    {
        tabs_name_at(&self.tabs, at)
    }

    /// The chat of a channel.
    pub fn tab(&self, name: &str) -> (chat: Option<&Chat>)
        ensures
            match chat {
                Some(c) => found(self@.tabs, name@) == Some(c@),
                None => found(self@.tabs, name@) is None,
            },
    {
        tabs_get(&self.tabs, name)
    }

    pub fn active_tab(&self) -> (name: Option<&str>)
        ensures
            match name {
                Some(n) => self@.active_tab == Some(n@),
                None => self@.active_tab is None,
            },
    {
        match &self.active_tab {
            Some(name) => Some(name.as_str()),
            None => None,
        }
    }

    pub fn textarea_focused(&self) -> (focused: bool)
        ensures
            focused == self@.textarea_focused,
    {
        self.textarea_focused
    }

    pub fn quit(&self) -> (quit: bool)
        ensures
            quit == self@.quit,
    {
        self.quit
    }

    pub fn request_redraw(&self) -> (asked: bool)
        ensures
            asked == self@.request_redraw,
    {
        self.request_redraw
    }
}

} // verus!
