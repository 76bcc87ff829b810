//! Lines of `mouse_input.csv` and `mouse_move.csv`; a move to the position
//! of the previous logged move is not logged again.
use vstd::prelude::*;
use super::model::{
    ClientPoint, MouseInputEvent, MouseMoveEvent, ResolvedMouseEvent, button_text,
    input_kind_text,
};
use crate::text::{dec_int, push_char, push_dec_i64, push_str};

verus! {

/// File name of the button and wheel log.
pub const MOUSE_INPUT_FILE: &'static str = "mouse_input.csv";
/// File name of the move log.
pub const MOUSE_MOVE_FILE: &'static str = "mouse_move.csv";
/// Header line of the button and wheel log.
pub const MOUSE_INPUT_HEADER: &'static str = "timestamp,x,y,button,event,delta";
/// Header line of the move log.
pub const MOUSE_MOVE_HEADER: &'static str = "timestamp,x,y";

/// `timestamp,x,y,button,event,delta`.
pub open spec fn spec_input_row(timestamp: Seq<char>, e: MouseInputEvent) -> Seq<char> {
    timestamp + ","@ + dec_int(e.position.x as int) + ","@ + dec_int(e.position.y as int) + ","@
        + button_text(e.button) + ","@ + input_kind_text(e.kind) + ","@ + dec_int(e.delta as int)
}

/// `timestamp,x,y`.
pub open spec fn spec_move_row(timestamp: Seq<char>, e: MouseMoveEvent) -> Seq<char> {
    timestamp + ","@ + dec_int(e.position.x as int) + ","@ + dec_int(e.position.y as int)
}

/// The log line of a button or wheel event (without line break).
pub fn mouse_input_row(timestamp: &str, event: &MouseInputEvent) -> (r: String)
    ensures
        r@ == spec_input_row(timestamp@, *event),
{
    let mut s = String::new();
    push_str(&mut s, timestamp);
    push_char(&mut s, ',');
    push_dec_i64(&mut s, event.position.x as i64);
    push_char(&mut s, ',');
    push_dec_i64(&mut s, event.position.y as i64);
    push_char(&mut s, ',');
    push_str(&mut s, event.button.as_csv_value());
    push_char(&mut s, ',');
    push_str(&mut s, event.kind.as_csv_value());
    push_char(&mut s, ',');
    push_dec_i64(&mut s, event.delta as i64);
    proof {
        reveal_strlit(",");
        assert(s@ =~= spec_input_row(timestamp@, *event));
    }
    s
}

/// The log line of a move (without line break).
pub fn mouse_move_row(timestamp: &str, event: &MouseMoveEvent) -> (r: String)
    ensures
        r@ == spec_move_row(timestamp@, *event),
{
    let mut s = String::new();
    push_str(&mut s, timestamp);
    push_char(&mut s, ',');
    push_dec_i64(&mut s, event.position.x as i64);
    push_char(&mut s, ',');
    push_dec_i64(&mut s, event.position.y as i64);
    proof {
        reveal_strlit(",");
        assert(s@ =~= spec_move_row(timestamp@, *event));
    }
    s
}

/// Whether a resolved event is logged after a move to `last`: every button
/// or wheel event, and a move to a position other than the last logged one.
pub open spec fn logs_line(last: Option<ClientPoint>, event: ResolvedMouseEvent) -> bool {
    match event {
        ResolvedMouseEvent::Input(_) => true,
        ResolvedMouseEvent::Move(e) => last != Some(e.position),
    }
}

/// The last logged move position after `event`.
pub open spec fn last_move_after(last: Option<ClientPoint>, event: ResolvedMouseEvent) -> Option<
    ClientPoint,
> {
    match event {
        ResolvedMouseEvent::Input(_) => last,
        ResolvedMouseEvent::Move(e) => Some(e.position),
    }
}

/// Which log a line goes to.
#[derive(Debug, Clone)]
pub enum MouseCsvLine {
    Input(String),
    Move(String),
}

/// Remembers the last logged move position.
#[derive(Debug, Clone, Copy)]
pub struct MouseCsvRows {
    last_move_position: Option<ClientPoint>,
}

impl MouseCsvRows {
    /// Nothing logged yet.
    pub fn new() -> (r: Self)
        ensures
            r.last_move() == None::<ClientPoint>,
    {
        MouseCsvRows { last_move_position: None }
    }

    pub closed spec fn last_move(&self) -> Option<ClientPoint> {
        self.last_move_position
    }

    /// The line to log for a resolved event: every button or wheel event,
    /// and a move only when its position differs from the last logged move.
    pub fn line_for(&mut self, timestamp: &str, event: &ResolvedMouseEvent) -> (r: Option<MouseCsvLine>)
        ensures
            r.is_some() == logs_line(old(self).last_move(), *event),
            final(self).last_move() == last_move_after(old(self).last_move(), *event),
            match *event {
                ResolvedMouseEvent::Input(e) => {
                    &&& r matches Some(MouseCsvLine::Input(line)) && line@ == spec_input_row(timestamp@, e)
                    &&& final(self).last_move() == old(self).last_move()
                },
                ResolvedMouseEvent::Move(e) => if old(self).last_move() == Some(e.position) {
                    &&& r.is_none()
                    &&& final(self).last_move() == old(self).last_move()
                } else {
                    &&& r matches Some(MouseCsvLine::Move(line)) && line@ == spec_move_row(timestamp@, e)
                    &&& final(self).last_move() == Some(e.position)
                },
            },
    {
        match event {
            ResolvedMouseEvent::Input(e) => Some(MouseCsvLine::Input(mouse_input_row(timestamp, e))),
            ResolvedMouseEvent::Move(e) => {
                let same = match self.last_move_position {
                    Some(p) => p == e.position,
                    None => false,
                };
                if same {
                    return None;
                }
                let line = mouse_move_row(timestamp, e);
                self.last_move_position = Some(e.position);
                Some(MouseCsvLine::Move(line))
            },
        }
    }
}

/// A run of moves to one position logs one line: after a move to `p`, a
/// further move to `p` is not logged, and button or wheel events in between
/// do not change that; a move elsewhere is logged.
pub proof fn law_repeated_move_is_logged_once(
    last: Option<ClientPoint>,
    p: MouseMoveEvent,
    input: MouseInputEvent,
    q: MouseMoveEvent,
)
    requires
        q.position != p.position,
    ensures
        !logs_line(
            last_move_after(last, ResolvedMouseEvent::Move(p)),
            ResolvedMouseEvent::Move(p),
        ),
        !logs_line(
            last_move_after(
                last_move_after(last, ResolvedMouseEvent::Move(p)),
                ResolvedMouseEvent::Input(input),
            ),
            ResolvedMouseEvent::Move(p),
        ),
        logs_line(
            last_move_after(last, ResolvedMouseEvent::Move(p)),
            ResolvedMouseEvent::Move(q),
        ),
{
}

} // verus!
