//! Ready-made processors: pass through, add, remove or rename a field, and
//! keep only the events that a condition accepts.
use vstd::prelude::*;
use crate::event::event::Event;
use crate::event::traits::ProcessorTrait;
use crate::json::{JsonValue, JsonView};
use crate::text::{push_text, text_of};

verus! {

/// Whether `e` keeps the identifier, time stamp and metadata of `input`.
pub open spec fn same_frame(input: Event, e: Event) -> bool {
    &&& e.spec_id() == input.spec_id()
    &&& e.spec_timestamp() == input.spec_timestamp()
    &&& e.spec_metadata() == input.spec_metadata()
}

/// The payload fields after `from` is renamed `to`: unchanged when there is
/// no field `from`.
pub open spec fn renamed_fields(f: Map<Seq<char>, JsonView>, from: Seq<char>, to: Seq<char>) -> Map<Seq<char>, JsonView> {
    if f.dom().contains(from) {
        f.remove(from).insert(to, f[from])
    } else {
        f
    }
}

/// A processor that passes events through unchanged.
pub struct SimpleProcessor {
    name: String,
    description: String,
}

impl SimpleProcessor {
    /// The description, as a spec value.
    pub closed spec fn description_view(&self) -> Seq<char> {
        self.description@
    }

    /// The name, as a spec value.
    pub closed spec fn name_view(&self) -> Seq<char> {
        self.name@
    }

    /// A processor with a name and a description.
    pub fn new(name: &str, description: &str) -> (p: Self)
        ensures
            p.name_view() == name@,
            p.description_view() == description@,
    {
        SimpleProcessor { name: text_of(name), description: text_of(description) }
    }

    /// The description.
    pub fn description(&self) -> (r: &str)
        ensures
            r@ == self.description_view(),
    {
        self.description.as_str()
    }
}

impl ProcessorTrait for SimpleProcessor {
    open spec fn processes(&self, input: Event, output: Result<Event, String>) -> bool {
        output == Ok::<Event, String>(input)
    }

    open spec fn spec_name(&self) -> Seq<char> {
        self.name_view()
    }

    fn process(&self, event: Event) -> (r: Result<Event, String>) {
        Ok(event)
    }

    fn name(&self) -> (r: &str) {
        self.name.as_str()
    }
}

/// A processor that stores one value under one field.
pub struct AddFieldProcessor {
    name: String,
    field: String,
    value: JsonValue,
}

impl AddFieldProcessor {
    /// The name, as a spec value.
    pub closed spec fn name_view(&self) -> Seq<char> {
        self.name@
    }

    /// The field, as a spec value.
    pub closed spec fn field_view(&self) -> Seq<char> {
        self.field@
    }

    /// The value that is stored.
    pub closed spec fn spec_value(&self) -> JsonValue {
        self.value
    }

    /// A processor named `add_field_` and the field.
    pub fn new(field: &str, value: JsonValue) -> (p: Self)
        ensures
            p.name_view() == "add_field_"@ + field@,
            p.field_view() == field@,
            p.spec_value() == value,
    {
        let mut name = text_of("add_field_");
        push_text(&mut name, field);
        AddFieldProcessor { name, field: text_of(field), value }
    }

    /// The field.
    pub fn field(&self) -> (r: &str)
        ensures
            r@ == self.field_view(),
    {
        self.field.as_str()
    }

    /// The value.
    pub fn value(&self) -> (r: &JsonValue)
        ensures
            *r == self.spec_value(),
    {
        &self.value
    }
}

impl ProcessorTrait for AddFieldProcessor {
    open spec fn processes(&self, input: Event, output: Result<Event, String>) -> bool {
        output matches Ok(e) && e.fields() == input.fields().insert(self.field_view(), self.spec_value()@)
            && same_frame(input, e)
    }

    open spec fn spec_name(&self) -> Seq<char> {
        self.name_view()
    }

    fn process(&self, event: Event) -> (r: Result<Event, String>) {
        let mut e = event;
        e.set(self.field.as_str(), self.value.clone());
        Ok(e)
    }

    fn name(&self) -> (r: &str) {
        self.name.as_str()
    }
}

/// Adding a field stores the processor's value under its field whatever
/// the event held there, overwriting an earlier value; every other field
/// stays as it was, and so do the identifier, time stamp and metadata.
pub proof fn law_add_field_overwrites(p: AddFieldProcessor, input: Event, output: Result<Event, String>)
    requires
        p.processes(input, output),
    ensures
        output is Ok,
        output->Ok_0.fields().dom().contains(p.field_view()),
        output->Ok_0.fields()[p.field_view()] == p.spec_value()@,
        forall|k: Seq<char>| k != p.field_view() ==> (#[trigger] output->Ok_0.fields().dom().contains(k) <==> input.fields().dom().contains(k)),
        forall|k: Seq<char>| k != p.field_view() && input.fields().dom().contains(k) ==> #[trigger] output->Ok_0.fields()[k] == input.fields()[k],
        output->Ok_0.spec_id() == input.spec_id(),
        output->Ok_0.spec_timestamp() == input.spec_timestamp(),
        output->Ok_0.spec_metadata() == input.spec_metadata(),
{
}

/// A processor that removes one field.
pub struct RemoveFieldProcessor {
    name: String,
    field: String,
}

impl RemoveFieldProcessor {
    /// The name, as a spec value.
    pub closed spec fn name_view(&self) -> Seq<char> {
        self.name@
    }

    /// The field, as a spec value.
    pub closed spec fn field_view(&self) -> Seq<char> {
        self.field@
    }

    /// A processor named `remove_field_` and the field.
    pub fn new(field: &str) -> (p: Self)
        ensures
            p.name_view() == "remove_field_"@ + field@,
            p.field_view() == field@,
    {
        let mut name = text_of("remove_field_");
        push_text(&mut name, field);
        RemoveFieldProcessor { name, field: text_of(field) }
    }

    /// The field.
    pub fn field(&self) -> (r: &str)
        ensures
            r@ == self.field_view(),
    {
        self.field.as_str()
    }
}

impl ProcessorTrait for RemoveFieldProcessor {
    open spec fn processes(&self, input: Event, output: Result<Event, String>) -> bool {
        output matches Ok(e) && e.fields() == input.fields().remove(self.field_view()) && same_frame(input, e)
    }

    open spec fn spec_name(&self) -> Seq<char> {
        self.name_view()
    }

    fn process(&self, event: Event) -> (r: Result<Event, String>) {
        let mut e = event;
        let _ = e.remove(self.field.as_str());
        Ok(e)
    }

    fn name(&self) -> (r: &str) {
        self.name.as_str()
    }
}

/// A processor that renames one field.
pub struct RenameFieldProcessor {
    name: String,
    from: String,
    to: String,
}

impl RenameFieldProcessor {
    /// The name, as a spec value.
    pub closed spec fn name_view(&self) -> Seq<char> {
        self.name@
    }

    /// The old field name, as a spec value.
    pub closed spec fn from_view(&self) -> Seq<char> {
        self.from@
    }

    /// The new field name, as a spec value.
    pub closed spec fn to_view(&self) -> Seq<char> {
        self.to@
    }

    /// A processor named `rename_`, the old name, `_to_` and the new name.
    pub fn new(from: &str, to: &str) -> (p: Self)
        ensures
            p.name_view() == "rename_"@ + from@ + "_to_"@ + to@,
            p.from_view() == from@,
            p.to_view() == to@,
    {
        let mut name = text_of("rename_");
        push_text(&mut name, from);
        push_text(&mut name, "_to_");
        push_text(&mut name, to);
        RenameFieldProcessor { name, from: text_of(from), to: text_of(to) }
    }

    /// The old field name.
    pub fn from(&self) -> (r: &str)
        ensures
            r@ == self.from_view(),
    {
        self.from.as_str()
    }

    /// The new field name.
    pub fn to(&self) -> (r: &str)
        ensures
            r@ == self.to_view(),
    {
        self.to.as_str()
    }
}

impl ProcessorTrait for RenameFieldProcessor {
    open spec fn processes(&self, input: Event, output: Result<Event, String>) -> bool {
        output matches Ok(e) && e.fields() == renamed_fields(input.fields(), self.from_view(), self.to_view())
            && same_frame(input, e)
    }

    open spec fn spec_name(&self) -> Seq<char> {
        self.name_view()
    }

    fn process(&self, event: Event) -> (r: Result<Event, String>) {
        let mut e = event;
        let ghost f0 = e.fields();
        match e.remove(self.from.as_str()) {
            Some(value) => {
                proof {
                    assert(f0.dom().contains(self.from@));
                }
                e.set(self.to.as_str(), value);
            },
            None => {
                proof {
                    assert(!f0.dom().contains(self.from@));
                    assert(f0.remove(self.from@) =~= f0);
                }
            },
        }
        Ok(e)
    }

    fn name(&self) -> (r: &str) {
        self.name.as_str()
    }
}

/// Removing a field leaves the event without it; every other field stays
/// as it was, and so do the identifier, time stamp and metadata.
pub proof fn law_remove_field_drops_only_it(p: RemoveFieldProcessor, input: Event, output: Result<Event, String>)
    requires
        p.processes(input, output),
    ensures
        output is Ok,
        !output->Ok_0.fields().dom().contains(p.field_view()),
        forall|k: Seq<char>| k != p.field_view() ==> (#[trigger] output->Ok_0.fields().dom().contains(k) <==> input.fields().dom().contains(k)),
        forall|k: Seq<char>| k != p.field_view() && input.fields().dom().contains(k) ==> #[trigger] output->Ok_0.fields()[k] == input.fields()[k],
        output->Ok_0.spec_id() == input.spec_id(),
        output->Ok_0.spec_timestamp() == input.spec_timestamp(),
        output->Ok_0.spec_metadata() == input.spec_metadata(),
{
}

/// Renaming moves the value of the old field to the new one, which it
/// replaces, and the old field is gone unless the names are the same; with
/// no old field the fields stay as they are. Every other field is kept.
pub proof fn law_rename_field_moves_value(p: RenameFieldProcessor, input: Event, output: Result<Event, String>)
    requires
        p.processes(input, output),
    ensures
        output is Ok,
        input.fields().dom().contains(p.from_view()) ==> output->Ok_0.fields().dom().contains(p.to_view())
            && output->Ok_0.fields()[p.to_view()] == input.fields()[p.from_view()],
        input.fields().dom().contains(p.from_view()) && p.from_view() != p.to_view() ==> !output->Ok_0.fields().dom().contains(p.from_view()),
        !input.fields().dom().contains(p.from_view()) ==> output->Ok_0.fields() == input.fields(),
        forall|k: Seq<char>| k != p.from_view() && k != p.to_view() ==> (#[trigger] output->Ok_0.fields().dom().contains(k) <==> input.fields().dom().contains(k)),
        forall|k: Seq<char>| k != p.from_view() && k != p.to_view() && input.fields().dom().contains(k) ==> #[trigger] output->Ok_0.fields()[k] == input.fields()[k],
        output->Ok_0.spec_id() == input.spec_id(),
{
}

/// A processor that passes the events that `condition` accepts and fails on
/// the others.
pub struct FilterProcessor<F: Fn(&Event) -> bool> {
    name: String,
    condition: F,
}

impl<F: Fn(&Event) -> bool> FilterProcessor<F> {
    #[verifier::type_invariant]
    spec fn callable(self) -> bool {
        forall|e: &Event| call_requires(self.condition, (e,))
    }

    /// The name, as a spec value.
    pub closed spec fn name_view(&self) -> Seq<char> {
        self.name@
    }

    /// The condition.
    pub closed spec fn spec_condition(&self) -> F {
        self.condition
    }

    /// A processor named `name` with `condition`.
    pub fn new(name: &str, condition: F) -> (p: Self)
        requires
            forall|e: &Event| call_requires(condition, (e,)),
        ensures
            p.name_view() == name@,
            p.spec_condition() == condition,
    {
        FilterProcessor { name: text_of(name), condition }
    }
}

impl<F: Fn(&Event) -> bool> ProcessorTrait for FilterProcessor<F> {
    open spec fn processes(&self, input: Event, output: Result<Event, String>) -> bool {
        ||| call_ensures(self.spec_condition(), (&input,), true) && output == Ok::<Event, String>(input)
        ||| call_ensures(self.spec_condition(), (&input,), false)
            && (output matches Err(m) && m@ == "Event filtered by "@ + self.name_view())
    }

    open spec fn spec_name(&self) -> Seq<char> {
        self.name_view()
    }

    fn process(&self, event: Event) -> (r: Result<Event, String>) {
        proof {
            use_type_invariant(self);
        }
        if (self.condition)(&event) {
            Ok(event)
        } else {
            let mut m = text_of("Event filtered by ");
            push_text(&mut m, self.name.as_str());
            Err(m)
        }
    }

    fn name(&self) -> (r: &str) {
        self.name.as_str()
    }
}

}
