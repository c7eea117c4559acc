//! The UI thread's state: composer, history, gesture timer and viewport, and
//! what each key does to them.
use vstd::prelude::*;
use crate::buffer::{
    CursorBuffer,
    total_of,
    line_start_of,
    location_of,
    join_lines,
    split_text,
    insert_text,
    backspace_state,
    delete_text,
    up_target,
    down_target,
};
use crate::history::{HistoryNavigator, up_index, down_index};
use crate::gesture::{GestureTimer, enter_inserts_newline};
use crate::viewport::Viewport;
use crate::message::{blank, payload_of, is_blank, outbound_payload};

verus! {

/// The keys the composer reacts to.
#[derive(Debug, Clone, Copy, PartialEq, Eq)]
pub enum Key {
    Tab,
    Enter,
    Esc,
    Up,
    Down,
    Left,
    Right,
    Backspace,
    Delete,
    Home,
    End,
    Char(char),
    Other,
}

pub struct App {
    pub buffer: CursorBuffer,
    pub history: HistoryNavigator,
    pub gesture: GestureTimer,
    pub viewport: Viewport,
    pub nick: Vec<char>,
    pub exit: bool,
}

/// What a submission does: a message that is not blank goes into the history
/// and out as a payload; the composer is emptied either way.
pub open spec fn submit_post(
    pre: &App,
    post: &App,
    r: Option<Vec<char>>,
) -> bool {
    let m = join_lines(pre.buffer.text());
    &&& post.buffer.text() == seq![Seq::<char>::empty()]
    &&& post.buffer.cursor_pos() == 0
    &&& post.nick == pre.nick
    &&& post.exit == pre.exit
    &&& post.viewport == pre.viewport
    &&& if blank(m) {
        &&& r is None
        &&& post.history == pre.history
    } else {
        &&& r is Some
        &&& post.history.entries() == pre.history.entries().push(m)
        &&& post.history.index() == post.history.entries().len()
        &&& r->Some_0@ == payload_of(pre.nick@, m)
    }
}

/// Everything but the composer is as it was.
pub open spec fn only_buffer_changed(pre: &App, post: &App) -> bool {
    &&& post.history == pre.history
    &&& post.gesture == pre.gesture
    &&& post.viewport == pre.viewport
    &&& post.nick == pre.nick
    &&& post.exit == pre.exit
}

/// The composer after an edit that needs room for one more position: the
/// edit when there is room, nothing when the buffer is at its largest.
pub open spec fn grown(pre: &App, post: &App, text: Seq<Seq<char>>) -> bool {
    if total_of(pre.buffer.text()) + 1 < usize::MAX {
        post.buffer.text() == text && post.buffer.cursor_pos() == pre.buffer.cursor_pos() + 1
    } else {
        post.buffer == pre.buffer
    }
}

impl App {
    pub open spec fn wf(&self) -> bool {
        self.buffer.wf() && self.history.wf()
    }

    /// A fresh session for `nick`: empty composer, empty history, idle timer,
    /// viewport following the tail.
    pub fn new(nick: Vec<char>) -> (r: Self)
        ensures
            r.wf(),
            r.buffer.text() == seq![Seq::<char>::empty()],
            r.buffer.cursor_pos() == 0,
            r.history.entries() == Seq::<Seq<char>>::empty(),
            r.gesture.armed_at() is None,
            r.viewport.offset() == 0,
            r.viewport.following(),
            r.nick == nick,
            !r.exit,
    {
        App {
            buffer: CursorBuffer::new(),
            history: HistoryNavigator::new(),
            gesture: GestureTimer::new(),
            viewport: Viewport::new(),
            nick,
            exit: false,
        }
    }

    pub fn get_total_chars(&self) -> (r: usize)
        requires
            self.wf(),
        ensures
            r == total_of(self.buffer.text()),
    {
        self.buffer.total_chars()
    }

    pub fn get_line_start(&self, line_idx: usize) -> (r: usize)
        requires
            self.wf(),
            line_idx <= self.buffer.text().len(),
        ensures
            r == line_start_of(self.buffer.text(), line_idx as int),
    {
        self.buffer.line_start(line_idx)
    }

    pub fn get_line_end(&self, line_idx: usize) -> (r: usize)
        requires
            self.wf(),
            line_idx < self.buffer.text().len(),
        ensures
            r == line_start_of(self.buffer.text(), line_idx as int)
                + self.buffer.text()[line_idx as int].len(),
    {
        self.buffer.line_end(line_idx)
    }

    /// Line and column of the cursor.
    pub fn get_cursor_line_char_index(&self) -> (r: (usize, usize))
        requires
            self.wf(),
        ensures
            r.0 as int == location_of(self.buffer.text(), self.buffer.cursor_pos()).0,
            r.1 as int == location_of(self.buffer.text(), self.buffer.cursor_pos()).1,
    {
        self.buffer.locate(self.buffer.cursor())
    }

    /// Submits the composer's text: joined by newlines, recorded and encoded
    /// unless blank; the composer is emptied either way. Returns the payload
    /// to send, or `None` for a blank message.
    pub fn send_message(&mut self) -> (r: Option<Vec<char>>)
        requires
            old(self).wf(),
        ensures
            final(self).wf(),
            final(self).gesture == old(self).gesture,
            submit_post(old(self), final(self), r),
    {
        let message = self.buffer.joined();
        let r = if is_blank(&message) {
            None
        } else {
            let payload = outbound_payload(&self.nick, &message);
            self.history.record(message);
            Some(payload)
        };
        self.buffer = CursorBuffer::new();
        r
    }

    /// Applies one key pressed at `now_ms` (milliseconds on a monotonic
    /// clock). Returns what an Enter submitted, if it submitted.
    pub fn handle_key(&mut self, key: Key, now_ms: u64) -> (r: Option<Vec<char>>)
        requires
            old(self).wf(),
        ensures
            final(self).wf(),
            key != Key::Enter ==> r is None,
            match key {
                Key::Tab => {
                    &&& final(self).gesture.armed_at() == Some(now_ms)
                    &&& final(self).buffer == old(self).buffer
                    &&& final(self).history == old(self).history
                    &&& final(self).viewport == old(self).viewport
                    &&& final(self).nick == old(self).nick
                    &&& final(self).exit == old(self).exit
                },
                Key::Enter => {
                    &&& final(self).gesture.armed_at() is None
                    &&& if enter_inserts_newline(old(self).gesture.armed_at(), now_ms) {
                        &&& r is None
                        &&& final(self).history == old(self).history
                        &&& final(self).viewport == old(self).viewport
                        &&& final(self).nick == old(self).nick
                        &&& final(self).exit == old(self).exit
                        &&& grown(
                            old(self),
                            final(self),
                            split_text(old(self).buffer.text(), old(self).buffer.cursor_pos()),
                        )
                    } else {
                        submit_post(old(self), final(self), r)
                    }
                },
                Key::Esc => {
                    &&& final(self).exit
                    &&& final(self).buffer == old(self).buffer
                    &&& final(self).history == old(self).history
                    &&& final(self).gesture == old(self).gesture
                    &&& final(self).viewport == old(self).viewport
                    &&& final(self).nick == old(self).nick
                },
                Key::Up => {
                    &&& final(self).gesture == old(self).gesture
                    &&& final(self).viewport == old(self).viewport
                    &&& final(self).nick == old(self).nick
                    &&& final(self).exit == old(self).exit
                    &&& if old(self).buffer.text().len() == 1 {
                        &&& final(self).history.entries() == old(self).history.entries()
                        &&& (old(self).history.entries().len() > 0 ==> {
                            &&& final(self).history.index() == up_index(
                                old(self).history.index(),
                                old(self).history.entries().len() as int,
                            )
                            &&& final(self).buffer.text() == seq![
                                final(self).history.entries()[final(self).history.index()],
                            ]
                            &&& final(self).buffer.cursor_pos()
                                == final(self).history.entries()[final(self).history.index()].len()
                        })
                        &&& (old(self).history.entries().len() == 0 ==> final(self).buffer
                            == old(self).buffer)
                    } else {
                        &&& only_buffer_changed(old(self), final(self))
                        &&& final(self).buffer.text() == old(self).buffer.text()
                        &&& final(self).buffer.cursor_pos() == up_target(
                            old(self).buffer.text(),
                            old(self).buffer.cursor_pos(),
                        )
                    }
                },
                Key::Down => {
                    &&& final(self).gesture == old(self).gesture
                    &&& final(self).viewport == old(self).viewport
                    &&& final(self).nick == old(self).nick
                    &&& final(self).exit == old(self).exit
                    &&& if old(self).buffer.text().len() == 1 {
                        &&& final(self).history.entries() == old(self).history.entries()
                        &&& (old(self).history.entries().len() > 0 ==> {
                            &&& final(self).history.index() == down_index(
                                old(self).history.index(),
                                old(self).history.entries().len() as int,
                            )
                            &&& final(self).buffer.text() == seq![
                                final(self).history.entries()[final(self).history.index()],
                            ]
                            &&& final(self).buffer.cursor_pos()
                                == final(self).history.entries()[final(self).history.index()].len()
                        })
                        &&& (old(self).history.entries().len() == 0 ==> final(self).buffer
                            == old(self).buffer)
                    } else {
                        &&& only_buffer_changed(old(self), final(self))
                        &&& final(self).buffer.text() == old(self).buffer.text()
                        &&& final(self).buffer.cursor_pos() == down_target(
                            old(self).buffer.text(),
                            old(self).buffer.cursor_pos(),
                        )
                    }
                },
                Key::Left => {
                    &&& only_buffer_changed(old(self), final(self))
                    &&& final(self).buffer.text() == old(self).buffer.text()
                    &&& final(self).buffer.cursor_pos() == (if old(self).buffer.cursor_pos() > 0 {
                        old(self).buffer.cursor_pos() - 1
                    } else {
                        0
                    })
                },
                Key::Right => {
                    &&& only_buffer_changed(old(self), final(self))
                    &&& final(self).buffer.text() == old(self).buffer.text()
                    &&& final(self).buffer.cursor_pos() == (if old(self).buffer.cursor_pos()
                        < total_of(old(self).buffer.text()) {
                        old(self).buffer.cursor_pos() + 1
                    } else {
                        old(self).buffer.cursor_pos()
                    })
                },
                Key::Backspace => {
                    &&& only_buffer_changed(old(self), final(self))
                    &&& (final(self).buffer.text(), final(self).buffer.cursor_pos())
                        == backspace_state(old(self).buffer.text(), old(self).buffer.cursor_pos())
                },
                Key::Delete => {
                    &&& only_buffer_changed(old(self), final(self))
                    &&& final(self).buffer.text() == delete_text(
                        old(self).buffer.text(),
                        old(self).buffer.cursor_pos(),
                    )
                    &&& final(self).buffer.cursor_pos() == old(self).buffer.cursor_pos()
                },
                Key::Home => {
                    &&& only_buffer_changed(old(self), final(self))
                    &&& final(self).buffer.text() == old(self).buffer.text()
                    &&& final(self).buffer.cursor_pos() == line_start_of(
                        old(self).buffer.text(),
                        location_of(old(self).buffer.text(), old(self).buffer.cursor_pos()).0,
                    )
                },
                Key::End => {
                    &&& only_buffer_changed(old(self), final(self))
                    &&& final(self).buffer.text() == old(self).buffer.text()
                    &&& final(self).buffer.cursor_pos() == line_start_of(
                        old(self).buffer.text(),
                        location_of(old(self).buffer.text(), old(self).buffer.cursor_pos()).0,
                    ) + old(self).buffer.text()[location_of(
                        old(self).buffer.text(),
                        old(self).buffer.cursor_pos(),
                    ).0].len()
                },
                Key::Char(c) => {
                    &&& only_buffer_changed(old(self), final(self))
                    &&& grown(
                        old(self),
                        final(self),
                        insert_text(old(self).buffer.text(), old(self).buffer.cursor_pos(), c),
                    )
                },
                Key::Other => *final(self) == *old(self),
            },
    {
        match key {
            Key::Tab => {
                self.gesture.on_tab(now_ms);
                None
            },
            Key::Enter => {
                if self.gesture.on_enter(now_ms) {
                    if self.buffer.total_chars() < usize::MAX - 1 {
                        self.buffer.split_line();
                    }
                    None
                } else {
                    self.send_message()
                }
            },
            Key::Esc => {
                self.exit = true;
                None
            },
            Key::Up => {
                if self.buffer.lines().len() == 1 {
                    self.history.browse_up(&mut self.buffer);
                } else {
                    self.buffer.move_up();
                }
                None
            },
            Key::Down => {
                if self.buffer.lines().len() == 1 {
                    self.history.browse_down(&mut self.buffer);
                } else {
                    self.buffer.move_down();
                }
                None
            },
            Key::Left => {
                self.buffer.move_left();
                None
            },
            Key::Right => {
                self.buffer.move_right();
                None
            },
            Key::Backspace => {
                self.buffer.backspace();
                None
            },
            Key::Delete => {
                self.buffer.delete_forward();
                None
            },
            Key::Home => {
                self.buffer.move_home();
                None
            },
            Key::End => {
                self.buffer.move_end();
                None
            },
            Key::Char(c) => {
                if self.buffer.total_chars() < usize::MAX - 1 {
                    self.buffer.insert_char(c);
                }
                None
            },
            Key::Other => None,
        }
    }

    /// A message arrived: the next draw follows the tail of the log.
    pub fn message_arrived(&mut self)
        ensures
            final(self).viewport.following(),
            final(self).viewport.offset() == old(self).viewport.offset(),
            final(self).buffer == old(self).buffer,
            final(self).history == old(self).history,
            final(self).gesture == old(self).gesture,
            final(self).exit == old(self).exit,
    {
        self.viewport.follow();
    }
}

} // verus!
