//! Telling a tap on the touchpad from a drag.
//!
//! A touch that moves further than the fuzz along either axis is a drag. A
//! touch that ends without having become one is a tap: it stages release
//! events, which are handed out once the debounce time has passed.

use crate::keys::KeyEvent;
use vstd::prelude::*;

verus! {

/// The coordinate that stands for "not seen yet".
pub const COORDINATE_EMPTY: i32 = -1;

/// What is known of the touch in progress and of the last tap.
#[derive(Debug)]
pub struct Touchpad {
    dragging: bool,
    position: [i32; 2],
    buffer: Vec<KeyEvent>,
    last_release: Option<u128>,
    fuzz: u64,
}

/// A [`Touchpad`] as contracts see it.
pub struct TouchpadView {
    /// Whether the touch in progress has become a drag.
    pub dragging: bool,
    /// Where the touch began, one coordinate for each axis.
    pub origin: Seq<i32>,
    /// The events staged by the last tap and not handed out yet.
    pub pending: Seq<KeyEvent>,
    /// When the last tap ended, until its events are handed out.
    pub last_release: Option<u128>,
    /// How far a touch may move along an axis and still be a tap.
    pub fuzz: u64,
}

/// Both coordinates unset.
pub open spec fn no_origin() -> Seq<i32> {
    seq![COORDINATE_EMPTY, COORDINATE_EMPTY]
}

/// Whether a touch that began at `origin` has left the fuzz at `at`.
pub open spec fn beyond_fuzz(origin: i32, at: i32, fuzz: u64) -> bool {
    if origin >= at {
        origin - at > fuzz
    } else {
        at - origin > fuzz
    }
}

impl TouchpadView {
    /// Well formed: two axes, and events pending only while the time of the
    /// tap that staged them is known.
    pub open spec fn wf(self) -> bool {
        &&& self.origin.len() == 2
        &&& self.pending.len() > 0 ==> self.last_release is Some
    }

    /// A touchpad that nothing has touched yet.
    pub open spec fn idle(fuzz: u64) -> TouchpadView {
        TouchpadView {
            dragging: false,
            origin: no_origin(),
            pending: Seq::empty(),
            last_release: None,
            fuzz,
        }
    }

    /// After a touch begins: not dragging, no origin, nothing pending.
    pub open spec fn pressed(self) -> TouchpadView {
        TouchpadView {
            dragging: false,
            origin: no_origin(),
            pending: Seq::empty(),
            last_release: None,
            fuzz: self.fuzz,
        }
    }

    /// After a touch ends at `now`. A drag only stops being one; a tap stages
    /// `staged` in place of what was pending.
    pub open spec fn released(self, now: u128, staged: Seq<KeyEvent>) -> TouchpadView {
        if self.dragging {
            TouchpadView { dragging: false, ..self }
        } else {
            TouchpadView { last_release: Some(now), pending: staged, ..self }
        }
    }

    /// After the touch is reported at `at` on `axis`.
    pub open spec fn moved(self, axis: int, at: i32) -> TouchpadView {
        if self.dragging {
            self
        } else if self.origin[axis] == COORDINATE_EMPTY {
            TouchpadView { origin: self.origin.update(axis, at), ..self }
        } else if beyond_fuzz(self.origin[axis], at, self.fuzz) {
            TouchpadView { dragging: true, origin: no_origin(), ..self }
        } else {
            self
        }
    }

    /// Whether the pending events are due at `now`: the last tap ended more
    /// than `debounce` ago.
    pub open spec fn due(self, now: u128, debounce: u128) -> bool {
        self.last_release matches Some(last) && last <= now && now - last > debounce
    }

    /// After the pending events were asked for at `now`.
    pub open spec fn polled(self, now: u128, debounce: u128) -> TouchpadView {
        if self.due(now, debounce) {
            TouchpadView { pending: Seq::empty(), last_release: None, ..self }
        } else {
            self
        }
    }

    /// What asking for the pending events at `now` hands out.
    pub open spec fn handed_out(self, now: u128, debounce: u128) -> Seq<KeyEvent> {
        if self.due(now, debounce) {
            self.pending
        } else {
            Seq::empty()
        }
    }

    /// How long from `now` until the pending events become due; `None` while
    /// nothing is pending.
    pub open spec fn wait(self, now: u128, debounce: u128) -> Option<int> {
        match self.last_release {
            Some(last) => if self.pending.len() > 0 {
                if last + debounce + 1 > now {
                    Some(last + debounce + 1 - now)
                } else {
                    Some(0int)
                }
            } else {
                None
            },
            None => None,
        }
    }
}

impl View for Touchpad {
    type V = TouchpadView;

    closed spec fn view(&self) -> TouchpadView {
        TouchpadView {
            dragging: self.dragging,
            origin: self.position@,
            pending: self.buffer@,
            last_release: self.last_release,
            fuzz: self.fuzz,
        }
    }
}

impl Touchpad {
    /// A touchpad that nothing has touched yet.
    pub fn new(fuzz: u64) -> (touchpad: Touchpad)
        ensures
            touchpad@ == TouchpadView::idle(fuzz),
            touchpad@.wf(),
    {
        let touchpad = Touchpad {
            dragging: false,
            position: [COORDINATE_EMPTY, COORDINATE_EMPTY],
            buffer: Vec::new(),
            last_release: None,
            fuzz,
        };
        assert(touchpad.position@ =~= no_origin());
        touchpad
    }

    /// Whether the touch in progress has become a drag.
    pub fn is_dragging(&self) -> (dragging: bool)
        ensures
            dragging == self@.dragging,
    {
        self.dragging
    }

    /// Where the touch began on `axis`; `COORDINATE_EMPTY` if not seen yet.
    pub fn origin(&self, axis: usize) -> (coordinate: i32)
        requires
            axis < 2,
        ensures
            self@.origin.len() == 2,
            coordinate == self@.origin[axis as int],
    {
        self.position[axis]
    }

    /// The events staged by the last tap and not handed out yet.
    pub fn pending(&self) -> (events: &Vec<KeyEvent>)
        ensures
            events@ == self@.pending,
    {
        &self.buffer
    }

    /// When the last tap ended, until its events are handed out.
    pub fn last_release(&self) -> (time: Option<u128>)
        ensures
            time == self@.last_release,
    {
        self.last_release
    }

    /// How far a touch may move along an axis and still be a tap.
    pub fn fuzz(&self) -> (fuzz: u64)
        ensures
            fuzz == self@.fuzz,
    {
        self.fuzz
    }

    /// A touch begins.
    pub fn press(&mut self)
        ensures
            final(self)@ == old(self)@.pressed(),
            final(self)@.wf(),
    {
        self.dragging = false;
        self.last_release = None;
        self.position = [COORDINATE_EMPTY, COORDINATE_EMPTY];
        self.buffer = Vec::new();
        assert(self.position@ =~= no_origin());
    }

    /// A touch ends at `now`. If it was a tap, `staged` takes the place of the
    /// pending events; if it was a drag, `staged` is dropped.
    pub fn release(&mut self, now: u128, staged: Vec<KeyEvent>)
        ensures
            final(self)@ == old(self)@.released(now, staged@),
            old(self)@.wf() ==> final(self)@.wf(),
    {
        if self.dragging {
            self.dragging = false;
        } else {
            self.last_release = Some(now);
            self.buffer = staged;
        }
    }

    /// The touch is reported at `at` on `axis` (0 is x, 1 is y).
    pub fn motion(&mut self, axis: usize, at: i32)
        requires
            axis < 2,
        ensures
            final(self)@ == old(self)@.moved(axis as int, at),
            old(self)@.wf() ==> final(self)@.wf(),
    {
        if self.dragging {
            return ;
        }
        let origin = self.position[axis];
        if origin == COORDINATE_EMPTY {
            self.position[axis] = at;
            return ;
        }
        let distance: i64 = origin as i64 - at as i64;
        let far = if distance < 0 {
            -distance > 0 && (-distance) as u64 > self.fuzz
        } else {
            distance as u64 > self.fuzz
        };
        if far {
            self.dragging = true;
            self.position = [COORDINATE_EMPTY, COORDINATE_EMPTY];
            assert(self.position@ =~= no_origin());
        }
    }

    /// Hands out the pending events if they are due at `now`, and forgets the
    /// tap; hands out nothing otherwise.
    pub fn poll(&mut self, now: u128, debounce: u128) -> (events: Vec<KeyEvent>)
        ensures
            final(self)@ == old(self)@.polled(now, debounce),
            events@ == old(self)@.handed_out(now, debounce),
            old(self)@.wf() ==> final(self)@.wf(),
    {
        let mut events: Vec<KeyEvent> = Vec::new();
        let due = match self.last_release {
            Some(last) => last <= now && now - last > debounce,
            None => false,
        };
        if due {
            std::mem::swap(&mut self.buffer, &mut events);
            self.last_release = None;
        }
        events
    }

    /// How long from `now` until the pending events become due, as far as a
    /// `u128` reaches; `None` while nothing is pending.
    pub fn until_due(&self, now: u128, debounce: u128) -> (wait: Option<u128>)
        ensures
            match self@.wait(now, debounce) {
                Some(time) => wait == Some(
                    if time <= u128::MAX {
                        time as u128
                    } else {
                        u128::MAX
                    },
                ),
                None => wait is None,
            },
    {
        match self.last_release {
            Some(last) => {
                if self.buffer.len() == 0 {
                    None
                } else if last <= now {
                    let elapsed = now - last;
                    if elapsed > debounce {
                        Some(0)
                    } else if debounce - elapsed == u128::MAX {
                        Some(u128::MAX)
                    } else {
                        Some(debounce - elapsed + 1)
                    }
                } else {
                    let ahead = last - now;
                    if ahead >= u128::MAX - debounce {
                        Some(u128::MAX)
                    } else {
                        Some(ahead + debounce + 1)
                    }
                }
            },
            None => None,
        }
    }
}

} // verus!
