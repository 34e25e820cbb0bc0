//! The closed vocabulary of runtime events.
use vstd::prelude::*;

verus! {

/// What happened to a key or a button.
#[derive(Debug, Clone, Copy, PartialEq, Eq, Hash, Structural)]
pub enum Action {
    Release,
    Press,
    Repeat,
}

/// A keyboard key, by its platform key code.
#[derive(Debug, Clone, Copy, PartialEq, Eq, Hash, Structural)]
pub struct Key(pub i32);

/// A mouse button.
#[derive(Debug, Clone, Copy, PartialEq, Eq, Hash, Structural)]
pub enum MouseButton {
    Left,
    Right,
    Middle,
    Button4,
    Button5,
    Button6,
    Button7,
    Button8,
}

impl Key {
    pub fn press(self) -> (r: Event)
        ensures
            r == Event::Key(self, Action::Press),
    {
        Event::Key(self, Action::Press)
    }

    pub fn release(self) -> (r: Event)
        ensures
            r == Event::Key(self, Action::Release),
    {
        Event::Key(self, Action::Release)
    }

    pub fn repeat(self) -> (r: Event)
        ensures
            r == Event::Key(self, Action::Repeat),
    {
        Event::Key(self, Action::Repeat)
    }
}

impl MouseButton {
    pub fn press(self) -> (r: Event)
        ensures
            r == Event::MouseButton(self, Action::Press),
    {
        Event::MouseButton(self, Action::Press)
    }

    pub fn release(self) -> (r: Event)
        ensures
            r == Event::MouseButton(self, Action::Release),
    {
        Event::MouseButton(self, Action::Release)
    }

    pub fn repeat(self) -> (r: Event)
        ensures
            r == Event::MouseButton(self, Action::Repeat),
    {
        Event::MouseButton(self, Action::Repeat)
    }
}

/// A runtime event. The two `Any*` variants are grouped events: they are
/// only meaningful when registering callbacks and are never dispatched.
#[derive(Debug, Clone)]
pub enum Event {
    Key(Key, Action),
    MouseMove(u64, u64),
    MouseButton(MouseButton, Action),
    MouseScroll(u64, u64),
    MouseEnter(bool),
    Resize(u32, u32),
    Focus(bool),
    Close,
    Refresh,
    Maximize(bool),
    Iconify(bool),
    ContentScale(u32, u32),
    FileDrop(Vec<String>),
    WindowPos(i32, i32),
    WindowSize(i32, i32),
    AnyKey(Vec<Key>, Action),
    AnyMouseButton(Vec<MouseButton>, Action),
}

/// Two lists of paths hold the same text, entry by entry.
pub open spec fn same_paths(p: Seq<String>, q: Seq<String>) -> bool {
    &&& p.len() == q.len()
    &&& forall|i: int| 0 <= i < p.len() ==> #[trigger] p[i]@ == q[i]@
}

/// Equality of events: payloads that are lists compare by their contents.
pub open spec fn same_event(a: Event, b: Event) -> bool {
    match a {
        Event::FileDrop(p) => match b {
            Event::FileDrop(q) => same_paths(p@, q@),
            _ => false,
        },
        Event::AnyKey(k, x) => match b {
            Event::AnyKey(l, y) => k@ == l@ && x == y,
            _ => false,
        },
        Event::AnyMouseButton(k, x) => match b {
            Event::AnyMouseButton(l, y) => k@ == l@ && x == y,
            _ => false,
        },
        _ => a == b,
    }
}

impl Event {
    /// Grouped events exist only at registration time.
    pub open spec fn is_grouped(self) -> bool {
        self is AnyKey || self is AnyMouseButton
    }

    pub fn grouped(&self) -> (r: bool)
        ensures
            r == self.is_grouped(),
    {
        match self {
            Event::AnyKey(..) | Event::AnyMouseButton(..) => true,
            _ => false,
        }
    }

    /// The concrete events that a registration against `self` stands for:
    /// one per listed key or button for a grouped event, else `self` alone.
    pub open spec fn expansion(self) -> Seq<Event> {
        match self {
            Event::AnyKey(keys, a) => keys@.map_values(|k: Key| Event::Key(k, a)),
            Event::AnyMouseButton(bs, a) => bs@.map_values(|b: MouseButton| Event::MouseButton(b, a)),
            _ => seq![self],
        }
    }

    /// A copy of the event that compares equal to it.
    pub fn duplicate(&self) -> (r: Event)
        ensures
            same_event(r, *self),
    {
        match self {
            Event::FileDrop(p) => {
                let mut q: Vec<String> = Vec::new();
                let mut i: usize = 0;
                while i < p.len()
                    invariant
                        i <= p.len(),
                        q@.len() == i,
                        forall|j: int| 0 <= j < i ==> #[trigger] q@[j]@ == p@[j]@,
                    decreases p.len() - i,
                {
                    q.push(p[i].clone());
                    i += 1;
                }
                Event::FileDrop(q)
            },
            Event::AnyKey(k, a) => Event::AnyKey(k.clone(), *a),
            Event::AnyMouseButton(b, a) => Event::AnyMouseButton(b.clone(), *a),
            Event::Key(k, a) => Event::Key(*k, *a),
            Event::MouseMove(x, y) => Event::MouseMove(*x, *y),
            Event::MouseButton(b, a) => Event::MouseButton(*b, *a),
            Event::MouseScroll(x, y) => Event::MouseScroll(*x, *y),
            Event::MouseEnter(e) => Event::MouseEnter(*e),
            Event::Resize(w, h) => Event::Resize(*w, *h),
            Event::Focus(f) => Event::Focus(*f),
            Event::Close => Event::Close,
            Event::Refresh => Event::Refresh,
            Event::Maximize(m) => Event::Maximize(*m),
            Event::Iconify(i) => Event::Iconify(*i),
            Event::ContentScale(x, y) => Event::ContentScale(*x, *y),
            Event::WindowPos(x, y) => Event::WindowPos(*x, *y),
            Event::WindowSize(w, h) => Event::WindowSize(*w, *h),
        }
    }

    /// Compares two events as `same_event` does.
    pub fn same(&self, other: &Event) -> (r: bool)
        ensures
            r == same_event(*self, *other),
    {
        match self {
            Event::FileDrop(p) => {
                let q = match other {
                    Event::FileDrop(q) => q,
                    _ => return false,
                };
                if p.len() != q.len() {
                    return false;
                }
                let mut i: usize = 0;
                while i < p.len()
                    invariant
                        i <= p.len(),
                        p@.len() == q@.len(),
                        same_event(*self, *other) == same_paths(p@, q@),
                        forall|j: int| 0 <= j < i ==> #[trigger] p@[j]@ == q@[j]@,
                    decreases p.len() - i,
                {
                    if !(p[i] == q[i]) {
                        assert(p@[i as int]@ != q@[i as int]@);
                        return false;
                    }
                    i += 1;
                }
                return true;
            },
            Event::AnyKey(k, x) => {
                return match other {
                    Event::AnyKey(l, y) => *x == *y && keys_equal(k, l),
                    _ => false,
                };
            },
            Event::AnyMouseButton(k, x) => {
                return match other {
                    Event::AnyMouseButton(l, y) => *x == *y && buttons_equal(k, l),
                    _ => false,
                };
            },
            _ => {},
        }
        match (self, other) {
            (_, Event::FileDrop(_)) | (_, Event::AnyKey(..)) | (_, Event::AnyMouseButton(..)) => false,
            (Event::Key(k, a), Event::Key(l, b)) => *k == *l && *a == *b,
            (Event::MouseMove(x, y), Event::MouseMove(u, v)) => *x == *u && *y == *v,
            (Event::MouseButton(k, a), Event::MouseButton(l, b)) => *k == *l && *a == *b,
            (Event::MouseScroll(x, y), Event::MouseScroll(u, v)) => *x == *u && *y == *v,
            (Event::MouseEnter(a), Event::MouseEnter(b)) => *a == *b,
            (Event::Resize(x, y), Event::Resize(u, v)) => *x == *u && *y == *v,
            (Event::Focus(a), Event::Focus(b)) => *a == *b,
            (Event::Close, Event::Close) => true,
            (Event::Refresh, Event::Refresh) => true,
            (Event::Maximize(a), Event::Maximize(b)) => *a == *b,
            (Event::Iconify(a), Event::Iconify(b)) => *a == *b,
            (Event::ContentScale(x, y), Event::ContentScale(u, v)) => *x == *u && *y == *v,
            (Event::WindowPos(x, y), Event::WindowPos(u, v)) => *x == *u && *y == *v,
            (Event::WindowSize(x, y), Event::WindowSize(u, v)) => *x == *u && *y == *v,
            _ => false,
        }
    }
}

fn keys_equal(k: &Vec<Key>, l: &Vec<Key>) -> (r: bool)
    ensures
        r == (k@ == l@),
{
    if k.len() != l.len() {
        return false;
    }
    let mut i: usize = 0;
    while i < k.len()
        invariant
            i <= k.len(),
            k@.len() == l@.len(),
            forall|j: int| 0 <= j < i ==> k@[j] == l@[j],
        decreases k.len() - i,
    {
        if k[i] != l[i] {
            return false;
        }
        i += 1;
    }
    assert(k@ =~= l@);
    true
}

fn buttons_equal(k: &Vec<MouseButton>, l: &Vec<MouseButton>) -> (r: bool)
    ensures
        r == (k@ == l@),
{
    if k.len() != l.len() {
        return false;
    }
    let mut i: usize = 0;
    while i < k.len()
        invariant
            i <= k.len(),
            k@.len() == l@.len(),
            forall|j: int| 0 <= j < i ==> k@[j] == l@[j],
        decreases k.len() - i,
    {
        if k[i] != l[i] {
            return false;
        }
        i += 1;
    }
    assert(k@ =~= l@);
    true
}

impl PartialEq for Event {
    fn eq(&self, other: &Event) -> (r: bool) {
        self.same(other)
    }
}

impl vstd::std_specs::cmp::PartialEqSpecImpl for Event {
    open spec fn obeys_eq_spec() -> bool {
        true
    }

    open spec fn eq_spec(&self, other: &Event) -> bool {
        same_event(*self, *other)
    }
}

} // verus!
