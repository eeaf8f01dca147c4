//! A clock and a call side by side: what was read off the clock and when the
//! call was made, in the order in which it happened.

use std::time::{Duration, Instant};
use vstd::prelude::*;

verus! {

/// Something that happened.
pub enum Event<T> {
    /// The clock was read, and showed this.
    Read(Instant),
    /// The call was made, and returned this.
    Called(T),
    /// The clock was asked for the time since an earlier event, a reading that had
    /// shown `start`, and answered with `span`.
    Elapsed { since: nat, start: Instant, span: Duration },
}

/// A reading of the clock.
pub struct Reading {
    start: Instant,
    place: Ghost<nat>,
}

impl Reading {
    /// What the clock showed.
    pub closed spec fn start(&self) -> Instant {
        self.start
    }

    /// Which event the reading is.
    pub closed spec fn place(&self) -> nat {
        self.place@
    }
}

/// A call and the clock that it is timed with. They can be had only through here,
/// so that everything that is done with them is an event, and nothing else is.
pub struct Journal<T, F> {
    f: F,
    events: Ghost<Seq<Event<T>>>,
}

impl<T, F: Fn() -> T> Journal<T, F> {
    /// What has happened, in order.
    pub closed spec fn events(&self) -> Seq<Event<T>> {
        self.events@
    }

    /// The call.
    pub closed spec fn f(&self) -> F {
        self.f
    }

    /// Nothing has happened yet.
    pub fn new(f: F) -> (r: Self)
        ensures
            r.f() == f,
            r.events() == Seq::<Event<T>>::empty(),
    {
        Journal { f, events: Ghost(Seq::empty()) }
    }

    /// Reads the clock.
    pub fn read(&mut self) -> (r: Reading)
        ensures
            final(self).f() == old(self).f(),
            final(self).events() == old(self).events().push(Event::Read(r.start())),
            r.place() == old(self).events().len(),
            super::read_off(r.start()),
    {
        let start = super::now();
        let r = Reading { start, place: Ghost(self.events@.len()) };
        self.events = Ghost(self.events@.push(Event::Read(start)));
        r
    }

    /// Makes the call.
    pub fn call(&mut self) -> (r: T)
        requires
            call_requires(old(self).f(), ()),
        ensures
            final(self).f() == old(self).f(),
            final(self).events() == old(self).events().push(Event::Called(r)),
            call_ensures(old(self).f(), (), r),
    {
        let r = (self.f)();
        self.events = Ghost(self.events@.push(Event::Called(r)));
        r
    }

    /// Asks the clock for the time since a reading.
    pub fn since(&mut self, reading: &Reading) -> (r: Duration)
        ensures
            final(self).f() == old(self).f(),
            final(self).events() == old(self).events().push(
                Event::Elapsed { since: reading.place(), start: reading.start(), span: r },
            ),
            super::passed(reading.start(), r),
    {
        let r = super::elapsed(&reading.start);
        self.events = Ghost(
            self.events@.push(
                Event::Elapsed { since: reading.place@, start: reading.start, span: r },
            ),
        );
        r
    }
}

/// Nothing is kept but the call and what happened: two journals that agree in these
/// are the same. So what a reading shows cannot come from an earlier one.
pub proof fn law_nothing_else_is_kept<T, F: Fn() -> T>(a: Journal<T, F>, b: Journal<T, F>)
    requires
        a.f() == b.f(),
        a.events() == b.events(),
    ensures
        a == b,
{
}

/// Reading the clock, making the call and asking for the time since a reading are
/// one event each, of its kind and with what came out, behind all the others. A
/// reading knows which event it is and what it showed, and a time is the one since
/// just that.
pub proof fn law_everything_is_an_event<T, F: Fn() -> T>(
    reader: &mut Journal<T, F>,
    reading: Reading,
    caller: &mut Journal<T, F>,
    output: T,
    asker: &mut Journal<T, F>,
    span: Duration,
    f: F,
    fresh: Journal<T, F>,
)
    requires
        call_ensures(Journal::<T, F>::new, (f,), fresh),
        call_ensures(Journal::<T, F>::read, (reader,), reading),
        call_ensures(Journal::<T, F>::call, (caller,), output),
        call_ensures(Journal::<T, F>::since, (asker, &reading), span),
    ensures
        fresh.f() == f && fresh.events().len() == 0,
        final(reader).f() == old(reader).f(),
        final(reader).events() == old(reader).events() + seq![Event::Read(reading.start())],
        reading.place() == old(reader).events().len(),
        super::read_off(reading.start()),
        final(caller).f() == old(caller).f(),
        final(caller).events() == old(caller).events() + seq![Event::Called(output)],
        call_ensures(old(caller).f(), (), output),
        final(asker).f() == old(asker).f(),
        final(asker).events() == old(asker).events() + seq![
            Event::Elapsed { since: reading.place(), start: reading.start(), span },
        ],
        super::passed(reading.start(), span),
{
    assert(final(reader).events() =~= old(reader).events() + seq![Event::Read(reading.start())]);
    assert(final(caller).events() =~= old(caller).events() + seq![Event::Called(output)]);
    assert(final(asker).events() =~= old(asker).events() + seq![
        Event::Elapsed { since: reading.place(), start: reading.start(), span },
    ]);
}

} // verus!
