//! Callback registration and per-frame event order. Callbacks themselves
//! live with the host; here each is a number, and the router decides which
//! numbers run for which event, in which order.
use vstd::prelude::*;
use crate::input::{Action, Event, Key, MouseButton, same_event};

verus! {

/// The callbacks registered for events equal to `e`, in registration order.
pub open spec fn matching(entries: Seq<(Event, usize)>, e: Event) -> Seq<usize>
    decreases entries.len(),
{
    if entries.len() == 0 {
        Seq::empty()
    } else if same_event(entries.last().0, e) {
        matching(entries.drop_last(), e).push(entries.last().1)
    } else {
        matching(entries.drop_last(), e)
    }
}

/// The entries a registration of `callback` against `e` adds.
pub open spec fn registration(e: Event, callback: usize) -> Seq<(Event, usize)> {
    e.expansion().map_values(|x: Event| (x, callback))
}

/// The dispatch of a frame: for each event in order, each of its callbacks
/// in registration order, as (event position, callback) pairs.
pub open spec fn plan(entries: Seq<(Event, usize)>, events: Seq<Event>) -> Seq<(usize, usize)>
    decreases events.len(),
{
    if events.len() == 0 {
        Seq::empty()
    } else {
        let i = (events.len() - 1) as usize;
        plan(entries, events.drop_last()) + matching(entries, events.last()).map_values(|c: usize| (i, c))
    }
}

pub proof fn lemma_matching_append(a: Seq<(Event, usize)>, b: Seq<(Event, usize)>, e: Event)
    ensures
        matching(a + b, e) == matching(a, e) + matching(b, e),
    decreases b.len(),
{
    if b.len() == 0 {
        assert(a + b =~= a);
        assert(matching(a, e) + matching(b, e) =~= matching(a, e));
    } else {
        assert((a + b).drop_last() =~= a + b.drop_last());
        lemma_matching_append(a, b.drop_last(), e);
        if same_event(b.last().0, e) {
            assert(matching(a, e) + matching(b.drop_last(), e).push(b.last().1) =~= (matching(a, e) + matching(
                b.drop_last(),
                e,
            )).push(b.last().1));
        }
    }
}

/// How often key `k` appears in `keys`.
pub open spec fn key_count(keys: Seq<Key>, k: Key) -> nat
    decreases keys.len(),
{
    if keys.len() == 0 {
        0
    } else {
        key_count(keys.drop_last(), k) + if keys.last() == k { 1nat } else { 0nat }
    }
}

proof fn lemma_key_count_unique(keys: Seq<Key>, k: Key)
    requires
        keys.no_duplicates(),
    ensures
        key_count(keys, k) == if keys.contains(k) { 1nat } else { 0nat },
    decreases keys.len(),
{
    if keys.len() > 0 {
        let rest = keys.drop_last();
        lemma_key_count_unique(rest, k);
        if keys.last() == k {
            assert(!rest.contains(k)) by {
                if rest.contains(k) {
                    let i = choose|i: int| 0 <= i < rest.len() && rest[i] == k;
                    assert(keys[i] == keys[keys.len() - 1]);
                }
            }
            assert(keys.contains(k)) by {
                assert(keys[keys.len() - 1] == k);
            }
        } else {
            assert(rest.contains(k) <==> keys.contains(k)) by {
                if keys.contains(k) {
                    let i = choose|i: int| 0 <= i < keys.len() && keys[i] == k;
                    assert(rest[i] == k);
                }
                if rest.contains(k) {
                    let i = choose|i: int| 0 <= i < rest.len() && rest[i] == k;
                    assert(keys[i] == k);
                }
            }
        }
    }
}

/// How often button `m` appears in `buttons`.
pub open spec fn button_count(buttons: Seq<MouseButton>, m: MouseButton) -> nat
    decreases buttons.len(),
{
    if buttons.len() == 0 {
        0
    } else {
        button_count(buttons.drop_last(), m) + if buttons.last() == m { 1nat } else { 0nat }
    }
}

proof fn lemma_key_matching(keys: Seq<Key>, a: Action, c: usize, k: Key, b: Action)
    ensures
        matching(keys.map_values(|x: Key| (Event::Key(x, a), c)), Event::Key(k, b)) == Seq::new(
            if a == b { key_count(keys, k) } else { 0 },
            |i: int| c,
        ),
    decreases keys.len(),
{
    let entries = keys.map_values(|x: Key| (Event::Key(x, a), c));
    let e = Event::Key(k, b);
    if keys.len() == 0 {
        assert(matching(entries, e) =~= Seq::new(0, |i: int| c));
    } else {
        let rest = keys.drop_last();
        assert(entries.drop_last() =~= rest.map_values(|x: Key| (Event::Key(x, a), c)));
        lemma_key_matching(rest, a, c, k, b);
        assert(matching(entries, e) =~= Seq::new(if a == b { key_count(keys, k) } else { 0 }, |i: int| c));
    }
}

proof fn lemma_button_matching(buttons: Seq<MouseButton>, a: Action, c: usize, m: MouseButton, b: Action)
    ensures
        matching(buttons.map_values(|x: MouseButton| (Event::MouseButton(x, a), c)), Event::MouseButton(m, b))
            == Seq::new(if a == b { button_count(buttons, m) } else { 0 }, |i: int| c),
    decreases buttons.len(),
{
    let entries = buttons.map_values(|x: MouseButton| (Event::MouseButton(x, a), c));
    let e = Event::MouseButton(m, b);
    if buttons.len() == 0 {
        assert(matching(entries, e) =~= Seq::new(0, |i: int| c));
    } else {
        let rest = buttons.drop_last();
        assert(entries.drop_last() =~= rest.map_values(|x: MouseButton| (Event::MouseButton(x, a), c)));
        lemma_button_matching(rest, a, c, m, b);
        assert(matching(entries, e) =~= Seq::new(if a == b { button_count(buttons, m) } else { 0 }, |i: int| c));
    }
}

proof fn lemma_button_count_unique(buttons: Seq<MouseButton>, m: MouseButton)
    requires
        buttons.no_duplicates(),
    ensures
        button_count(buttons, m) == if buttons.contains(m) { 1nat } else { 0nat },
    decreases buttons.len(),
{
    if buttons.len() > 0 {
        let rest = buttons.drop_last();
        lemma_button_count_unique(rest, m);
        if buttons.last() == m {
            assert(!rest.contains(m)) by {
                if rest.contains(m) {
                    let i = choose|i: int| 0 <= i < rest.len() && rest[i] == m;
                    assert(buttons[i] == buttons[buttons.len() - 1]);
                }
            }
            assert(buttons.contains(m)) by {
                assert(buttons[buttons.len() - 1] == m);
            }
        } else {
            assert(rest.contains(m) <==> buttons.contains(m)) by {
                if buttons.contains(m) {
                    let i = choose|i: int| 0 <= i < buttons.len() && buttons[i] == m;
                    assert(rest[i] == m);
                }
                if rest.contains(m) {
                    let i = choose|i: int| 0 <= i < rest.len() && rest[i] == m;
                    assert(buttons[i] == m);
                }
            }
        }
    }
}

/// Registering a callback against "any of these keys" (each listed once)
/// with an action appends it, once, to the callbacks of each listed key with
/// that action, and leaves the callbacks of every other event as they were.
pub proof fn grouped_keys_registration(entries: Seq<(Event, usize)>, keys: Vec<Key>, a: Action, c: usize, k: Key, b: Action)
    requires
        keys@.no_duplicates(),
    ensures
        matching(entries + registration(Event::AnyKey(keys, a), c), Event::Key(k, b)) == if a == b && keys@.contains(k) {
            matching(entries, Event::Key(k, b)).push(c)
        } else {
            matching(entries, Event::Key(k, b))
        },
{
    let added = keys@.map_values(|x: Key| (Event::Key(x, a), c));
    assert(registration(Event::AnyKey(keys, a), c) =~= added);
    lemma_matching_append(entries, added, Event::Key(k, b));
    lemma_key_matching(keys@, a, c, k, b);
    lemma_key_count_unique(keys@, k);
    let m = matching(entries, Event::Key(k, b));
    if a == b && keys@.contains(k) {
        assert(m + Seq::new(1, |i: int| c) =~= m.push(c));
    } else {
        assert(m + Seq::new(0, |i: int| c) =~= m);
    }
}

/// The same for "any of these mouse buttons".
pub proof fn grouped_buttons_registration(
    entries: Seq<(Event, usize)>,
    buttons: Vec<MouseButton>,
    a: Action,
    c: usize,
    m: MouseButton,
    b: Action,
)
    requires
        buttons@.no_duplicates(),
    ensures
        matching(entries + registration(Event::AnyMouseButton(buttons, a), c), Event::MouseButton(m, b)) == if a == b
            && buttons@.contains(m) {
            matching(entries, Event::MouseButton(m, b)).push(c)
        } else {
            matching(entries, Event::MouseButton(m, b))
        },
{
    let added = buttons@.map_values(|x: MouseButton| (Event::MouseButton(x, a), c));
    assert(registration(Event::AnyMouseButton(buttons, a), c) =~= added);
    lemma_matching_append(entries, added, Event::MouseButton(m, b));
    lemma_button_matching(buttons@, a, c, m, b);
    lemma_button_count_unique(buttons@, m);
    let s = matching(entries, Event::MouseButton(m, b));
    if a == b && buttons@.contains(m) {
        assert(s + Seq::new(1, |i: int| c) =~= s.push(c));
    } else {
        assert(s + Seq::new(0, |i: int| c) =~= s);
    }
}

/// A registration never stores a grouped event.
pub proof fn registration_is_concrete(e: Event, c: usize)
    ensures
        forall|i: int| 0 <= i < registration(e, c).len() ==> !(#[trigger] registration(e, c)[i]).0.is_grouped(),
{
}

proof fn lemma_plan_positions(entries: Seq<(Event, usize)>, events: Seq<Event>)
    requires
        events.len() <= usize::MAX,
    ensures
        forall|p: int| 0 <= p < plan(entries, events).len() ==> (#[trigger] plan(entries, events)[p]).0 < events.len(),
        forall|p: int, q: int| 0 <= p < q < plan(entries, events).len() ==> (#[trigger] plan(entries, events)[p]).0
            <= (#[trigger] plan(entries, events)[q]).0,
    decreases events.len(),
{
    if events.len() > 0 {
        let rest = events.drop_last();
        lemma_plan_positions(entries, rest);
        let head = plan(entries, rest);
        let i = (events.len() - 1) as usize;
        let tail = matching(entries, events.last()).map_values(|c: usize| (i, c));
        let all = plan(entries, events);
        assert(all == head + tail);
        assert forall|p: int| 0 <= p < all.len() implies (#[trigger] all[p]).0 < events.len() by {
            if p < head.len() {
                assert(all[p] == head[p]);
            } else {
                assert(all[p] == tail[p - head.len()]);
            }
        }
        assert forall|p: int, q: int| 0 <= p < q < all.len() implies (#[trigger] all[p]).0 <= (#[trigger] all[q]).0 by {
            if q < head.len() {
                assert(all[p] == head[p] && all[q] == head[q]);
            } else if p < head.len() {
                assert(all[p] == head[p] && all[q] == tail[q - head.len()]);
            } else {
                assert(all[p] == tail[p - head.len()] && all[q] == tail[q - head.len()]);
            }
        }
    }
}

/// Within a frame whose events are the triggered ones followed by the
/// platform's, the frame's list starts with the triggered events in the
/// order they were triggered, and callbacks run event by event in list
/// order: every dispatched pair names an event of the frame, and the event
/// positions never go back.
pub proof fn dispatch_follows_event_order(entries: Seq<(Event, usize)>, triggered: Seq<Event>, platform: Seq<Event>)
    requires
        triggered.len() + platform.len() <= usize::MAX,
    ensures
        ({
            let events = triggered + platform;
            let p = plan(entries, events);
            &&& events.take(triggered.len() as int) == triggered
            &&& forall|i: int| 0 <= i < p.len() ==> (#[trigger] p[i]).0 < events.len()
            &&& forall|i: int, j: int| 0 <= i < j < p.len() ==> (#[trigger] p[i]).0 <= (#[trigger] p[j]).0
        }),
{
    let events = triggered + platform;
    assert(events.take(triggered.len() as int) =~= triggered);
    lemma_plan_positions(entries, events);
}

/// Registered callbacks, by concrete event, in registration order.
pub struct CallbackTable {
    entries: Vec<(Event, usize)>,
}

impl CallbackTable {
    pub closed spec fn view(&self) -> Seq<(Event, usize)> {
        self.entries@
    }

    pub fn new() -> (r: CallbackTable)
        ensures
            r@ == Seq::<(Event, usize)>::empty(),
    {
        CallbackTable { entries: Vec::new() }
    }

    /// Registers `callback` for `event`; a grouped event registers it once
    /// for each listed key or button, with the group's action.
    pub fn register(&mut self, event: Event, callback: usize)
        ensures
            final(self)@ == old(self)@ + registration(event, callback),
    {
        let ghost expanded = registration(event, callback);
        match event {
            Event::AnyKey(keys, action) => {
                let ghost start = self.entries@;
                let mut i: usize = 0;
                while i < keys.len()
                    invariant
                        i <= keys@.len(),
                        expanded == keys@.map_values(|k: Key| Event::Key(k, action)).map_values(
                            |x: Event| (x, callback),
                        ),
                        self.entries@ == start + expanded.take(i as int),
                    decreases keys@.len() - i,
                {
                    self.entries.push((Event::Key(keys[i], action), callback));
                    i += 1;
                    assert(self.entries@ =~= start + expanded.take(i as int));
                }
                assert(expanded.take(i as int) =~= expanded);
            },
            Event::AnyMouseButton(buttons, action) => {
                let ghost start = self.entries@;
                let mut i: usize = 0;
                while i < buttons.len()
                    invariant
                        i <= buttons@.len(),
                        expanded == buttons@.map_values(|b: MouseButton| Event::MouseButton(b, action)).map_values(
                            |x: Event| (x, callback),
                        ),
                        self.entries@ == start + expanded.take(i as int),
                    decreases buttons@.len() - i,
                {
                    self.entries.push((Event::MouseButton(buttons[i], action), callback));
                    i += 1;
                    assert(self.entries@ =~= start + expanded.take(i as int));
                }
                assert(expanded.take(i as int) =~= expanded);
            },
            other => {
                let ghost start = self.entries@;
                self.entries.push((other, callback));
                assert(self.entries@ =~= start + expanded);
            },
        }
    }

    /// The callbacks registered for events equal to `event`, in
    /// registration order.
    pub fn callbacks_for(&self, event: &Event) -> (r: Vec<usize>)
        ensures
            r@ == matching(self@, *event),
    {
        let mut out: Vec<usize> = Vec::new();
        let mut i: usize = 0;
        while i < self.entries.len()
            invariant
                i <= self@.len(),
                out@ == matching(self@.take(i as int), *event),
            decreases self@.len() - i,
        {
            proof {
                assert(self@.take(i + 1).drop_last() =~= self@.take(i as int));
            }
            if self.entries[i].0.same(event) {
                out.push(self.entries[i].1);
            }
            i += 1;
        }
        assert(self@.take(i as int) =~= self@);
        out
    }

    /// The frame's dispatch: for each event in order, its callbacks in
    /// registration order.
    pub fn dispatch_plan(&self, events: &Vec<Event>) -> (r: Vec<(usize, usize)>)
        ensures
            r@ == plan(self@, events@),
    {
        let mut out: Vec<(usize, usize)> = Vec::new();
        let mut i: usize = 0;
        while i < events.len()
            invariant
                i <= events@.len(),
                out@ == plan(self@, events@.take(i as int)),
            decreases events@.len() - i,
        {
            let cbs = self.callbacks_for(&events[i]);
            let ghost before = out@;
            let mut j: usize = 0;
            while j < cbs.len()
                invariant
                    j <= cbs@.len(),
                    out@ == before + cbs@.take(j as int).map_values(|c: usize| (i, c)),
                decreases cbs@.len() - j,
            {
                out.push((i, cbs[j]));
                j += 1;
                assert(out@ =~= before + cbs@.take(j as int).map_values(|c: usize| (i, c)));
            }
            proof {
                assert(cbs@.take(j as int) =~= cbs@);
                let t = events@.take(i + 1);
                assert(t.drop_last() =~= events@.take(i as int));
                assert(t.last() == events@[i as int]);
            }
            i += 1;
        }
        assert(events@.take(i as int) =~= events@);
        out
    }
}

/// The events of the current frame and those the application triggered
/// for the next one.
pub struct EventQueue {
    triggered: Vec<Event>,
    current: Vec<Event>,
}

impl EventQueue {
    pub closed spec fn triggered(&self) -> Seq<Event> {
        self.triggered@
    }

    pub closed spec fn current(&self) -> Seq<Event> {
        self.current@
    }

    pub fn new() -> (r: EventQueue)
        ensures
            r.triggered() == Seq::<Event>::empty(),
            r.current() == Seq::<Event>::empty(),
    {
        EventQueue { triggered: Vec::new(), current: Vec::new() }
    }

    /// Queues an event for the start of the next frame.
    pub fn trigger(&mut self, event: Event)
        ensures
            final(self).triggered() == old(self).triggered().push(event),
            final(self).current() == old(self).current(),
    {
        self.triggered.push(event);
    }

    /// Starts a frame: the triggered events, in the order they were
    /// triggered, then the platform's, in theirs, become the frame's events.
    pub fn begin_frame(&mut self, platform: Vec<Event>)
        ensures
            final(self).current() == old(self).current() + old(self).triggered() + platform@,
            final(self).triggered() == Seq::<Event>::empty(),
    {
        let mut fresh = platform;
        self.current.append(&mut self.triggered);
        self.current.append(&mut fresh);
    }

    /// The events of the current frame.
    pub fn events(&self) -> (r: &Vec<Event>)
        ensures
            r@ == self.current(),
    {
        &self.current
    }

    /// Ends a frame: both lists are emptied.
    pub fn end_frame(&mut self)
        ensures
            final(self).triggered() == Seq::<Event>::empty(),
            final(self).current() == Seq::<Event>::empty(),
    {
        self.current.clear();
        self.triggered.clear();
    }
}

} // verus!
