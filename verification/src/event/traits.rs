//! The processor trait, and a processor made of a closure.
use vstd::prelude::*;
use crate::event::event::Event;
use crate::text::text_of;

verus! {

/// A processing step: turns an event into an event, or fails with a
/// description.
pub trait ProcessorTrait {
    /// What processing `input` may give: the processor's own account of
    /// itself.
    spec fn processes(&self, input: Event, output: Result<Event, String>) -> bool;

    /// The processor name, as a spec value.
    spec fn spec_name(&self) -> Seq<char>;

    /// Processes one event.
    fn process(&self, event: Event) -> (r: Result<Event, String>)
        ensures
            self.processes(event, r),
    ;

    /// The processor name.
    fn name(&self) -> (r: &str)
        ensures
            r@ == self.spec_name(),
    ;
}

/// A processor that runs a closure.
pub struct FunctionProcessor<F: Fn(Event) -> Result<Event, String>> {
    name: String,
    func: F,
}

impl<F: Fn(Event) -> Result<Event, String>> FunctionProcessor<F> {
    #[verifier::type_invariant]
    spec fn callable(self) -> bool {
        forall|e: Event| call_requires(self.func, (e,))
    }

    /// The closure.
    pub closed spec fn function(&self) -> F {
        self.func
    }

    /// The name, as a spec value.
    pub closed spec fn name_view(&self) -> Seq<char> {
        self.name@
    }

    /// A processor named `name` that runs `func`.
    pub fn new(name: &str, func: F) -> (p: Self)
        requires
            forall|e: Event| call_requires(func, (e,)),
        ensures
            p.name_view() == name@,
            p.function() == func,
    {
        FunctionProcessor { name: text_of(name), func }
    }
}

impl<F: Fn(Event) -> Result<Event, String>> ProcessorTrait for FunctionProcessor<F> {
    open spec fn processes(&self, input: Event, output: Result<Event, String>) -> bool {
        call_ensures(self.function(), (input,), output)
    }

    open spec fn spec_name(&self) -> Seq<char> {
        self.name_view()
    }

    fn process(&self, event: Event) -> (r: Result<Event, String>) {
        proof {
            use_type_invariant(self);
        }
        (self.func)(event)
    }

    fn name(&self) -> (r: &str) {
        self.name.as_str()
    }
}

}
