//! The relay between a running agent and the user interface: progress
//! reports are forwarded with a small animation of dots.
use vstd::prelude::*;
use crate::tasks::{State, StateView};

verus! {

/// The relay's state.
pub struct ClientLoop {
    points: usize,
    current_msg: String,
    running: bool,
}

/// The mathematical content of a [`ClientLoop`].
pub struct ClientLoopView {
    /// How many dots the next progress line shows.
    pub points: nat,
    /// The last progress text received.
    pub current_msg: Seq<char>,
    /// Whether the relay keeps waiting for reports.
    pub running: bool,
}

impl View for ClientLoop {
    type V = ClientLoopView;

    closed spec fn view(&self) -> ClientLoopView {
        ClientLoopView {
            points: self.points as nat,
            current_msg: self.current_msg@,
            running: self.running,
        }
    }
}

/// `n` dots.
pub open spec fn dots(n: nat) -> Seq<char> {
    Seq::new(n, |i: int| '.')
}

/// A progress line: the text, `points` dots, then ten spaces that blank
/// what a longer previous line left on the terminal.
pub open spec fn loading_text(msg: Seq<char>, points: nat) -> Seq<char> {
    msg + dots(points) + "          "@
}

/// The report sent on to the interface for what came from the agent
/// (`None` when nothing came).
pub open spec fn spec_relay(c: ClientLoopView, msg: Option<StateView>) -> StateView {
    match msg {
        Some(StateView::Update(m)) => StateView::Update(loading_text(m, c.points)),
        Some(StateView::Done(m)) => StateView::Done(m),
        None => StateView::Update(loading_text(c.current_msg, c.points)),
    }
}

/// The mathematical content of an optional report.
pub open spec fn view_report(msg: Option<State>) -> Option<StateView> {
    match msg {
        Some(s) => Some(s@),
        None => None,
    }
}

impl ClientLoop {
    /// A relay that has received nothing yet: it shows `Thinking`.
    pub fn new() -> (r: ClientLoop)
        ensures
            r@.points == 0,
            r@.current_msg == "Thinking"@,
            r@.running,
    {
        ClientLoop { points: 0, current_msg: String::from_str("Thinking"), running: true }
    }

    /// Whether the relay keeps waiting for reports.
    pub fn is_running(&self) -> (b: bool)
        ensures
            b == self@.running,
    {
        self.running
    }

    /// The report to send to the interface for what came from the agent; a
    /// progress text becomes the one shown while nothing new comes.
    pub fn relay(&mut self, msg: Option<State>) -> (out: State)
        ensures
            out@ == spec_relay(old(self)@, view_report(msg)),
            final(self)@.points == old(self)@.points,
            final(self)@.running == old(self)@.running,
            final(self)@.current_msg == (match view_report(msg) {
                Some(StateView::Update(m)) => m,
                _ => old(self)@.current_msg,
            }),
    {
        match msg {
            Some(State::Update(m)) => {
                let line = self.loading_line(m.as_str());
                self.current_msg = m;
                State::Update(line)
            },
            Some(State::Done(m)) => State::Done(m),
            None => {
                let current = self.current_msg.clone();
                let line = self.loading_line(current.as_str());
                State::Update(line)
            },
        }
    }

    fn loading_line(&self, msg: &str) -> (r: String)
        ensures
            r@ == loading_text(msg@, self@.points),
    {
        let mut r = String::from_str(msg);
        let mut i: usize = 0;
        while i < self.points
            invariant
                i <= self.points,
                r@ == msg@ + dots(i as nat),
            decreases self.points - i,
        {
            r.push('.');
            i = i + 1;
            assert(r@ =~= msg@ + dots(i as nat));
        }
        r.append("          ");
        r
    }

    /// Records that a report was handed to the interface: the relay stops
    /// once a final report was delivered; the dots advance either way.
    pub fn sent(&mut self, was_done: bool, delivered: bool)
        ensures
            final(self)@.points == (old(self)@.points + 1) % 4,
            final(self)@.points < 4,
            final(self)@.running == (old(self)@.running && !(was_done && delivered)),
            final(self)@.current_msg == old(self)@.current_msg,
    {
        if was_done && delivered {
            self.running = false;
        }
        self.points = (self.points % 4 + 1) % 4;
    }
}

} // verus!
