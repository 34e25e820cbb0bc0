//! The application contract: hooks the loop calls, each with the runtime.
use vstd::prelude::*;
use crate::input::Event;
use crate::paper::Paper;

verus! {

/// An application driven by the runtime loop. `update` is required; the
/// other hooks default to doing nothing. Every hook keeps the runtime
/// well-formed.
pub trait PaperApp {
    fn new(cmd: &mut Paper) -> Self where Self: Sized;

    fn setup(&mut self, cmd: &mut Paper)
        requires
            old(cmd).wf(),
        ensures
            final(cmd).wf(),
    {
    }

    fn update(&mut self, cmd: &mut Paper)
        requires
            old(cmd).wf(),
        ensures
            final(cmd).wf(),
    ;

    fn fixed_update(&mut self, cmd: &mut Paper)
        requires
            old(cmd).wf(),
        ensures
            final(cmd).wf(),
    {
    }

    fn cleanup(&mut self, cmd: &mut Paper)
        requires
            old(cmd).wf(),
        ensures
            final(cmd).wf(),
    {
    }

    fn event_handler(&mut self, cmd: &mut Paper, events: &Vec<Event>)
        requires
            old(cmd).wf(),
        ensures
            final(cmd).wf(),
    {
    }
}

/// An application that does nothing.
pub struct EmptyApp;

impl PaperApp for EmptyApp {
    fn new(cmd: &mut Paper) -> (r: EmptyApp) {
        EmptyApp
    }

    fn update(&mut self, cmd: &mut Paper) {
    }
}

} // verus!
