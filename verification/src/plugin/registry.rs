//! The registry of plugin constructors, by kind and name.
use vstd::prelude::*;
use crate::plugin::error::{PluginError, PluginResult};
use crate::plugin::table::NameTable;
use crate::plugin::traits::{
    Filter, FilterConstructor, FilterFn, Input, InputConstructor, InputFn, Output,
    OutputConstructor, OutputFn,
};
use crate::plugin::types::PluginType;
use crate::text::{text_of, texts_of};

verus! {

/// Plugin constructors, registered by name for each plugin kind.
pub struct PluginRegistry {
    inputs: NameTable<Box<dyn InputConstructor>>,
    filters: NameTable<Box<dyn FilterConstructor>>,
    outputs: NameTable<Box<dyn OutputConstructor>>,
}

/// The kind of plugin registered under `name`: input before filter before
/// output.
pub open spec fn kind_of(inputs: Seq<Seq<char>>, filters: Seq<Seq<char>>, outputs: Seq<Seq<char>>, name: Seq<char>) -> Option<PluginType> {
    if inputs.contains(name) {
        Some(PluginType::Input)
    } else if filters.contains(name) {
        Some(PluginType::Filter)
    } else if outputs.contains(name) {
        Some(PluginType::Output)
    } else {
        None
    }
}

impl PluginRegistry {
    /// The names of the registered inputs, in the order they came.
    pub closed spec fn input_names_view(&self) -> Seq<Seq<char>> {
        self.inputs.names()
    }

    /// The names of the registered filters, in the order they came.
    pub closed spec fn filter_names_view(&self) -> Seq<Seq<char>> {
        self.filters.names()
    }

    /// The names of the registered outputs, in the order they came.
    pub closed spec fn output_names_view(&self) -> Seq<Seq<char>> {
        self.outputs.names()
    }

    /// Whether any plugin is registered under `name`.
    pub open spec fn registers(&self, name: Seq<char>) -> bool {
        self.input_names_view().contains(name) || self.filter_names_view().contains(name)
            || self.output_names_view().contains(name)
    }

    /// An empty registry.
    pub fn new() -> (r: Self)
        ensures
            r.input_names_view() == Seq::<Seq<char>>::empty(),
            r.filter_names_view() == Seq::<Seq<char>>::empty(),
            r.output_names_view() == Seq::<Seq<char>>::empty(),
    {
        PluginRegistry { inputs: NameTable::new(), filters: NameTable::new(), outputs: NameTable::new() }
    }

    /// Whether the input constructor registered under `name` may give `r`.
    pub closed spec fn input_gives(&self, name: Seq<char>, r: PluginResult<Box<dyn Input>>) -> bool {
        exists|i: int|
            0 <= i < self.inputs.names().len() && self.inputs.names()[i] == name
                && #[trigger] self.inputs.items()[i].constructs(r)
    }

    /// Registers a input constructor under `name`, in place of any registered
    /// under that name before.
    pub fn register_input<F: Fn() -> PluginResult<Box<dyn Input>> + 'static>(&mut self, name: &str, constructor: F)
        requires
            call_requires(constructor, ()),
        ensures
            final(self).input_names_view().to_set() == old(self).input_names_view().to_set().insert(name@),
            old(self).input_names_view().contains(name@) ==> final(self).input_names_view() == old(self).input_names_view(),
            !old(self).input_names_view().contains(name@) ==> final(self).input_names_view() == old(self).input_names_view().push(name@),
            forall|r: PluginResult<Box<dyn Input>>| #[trigger] final(self).input_gives(name@, r) == call_ensures(constructor, (), r),
            forall|n: Seq<char>, r: PluginResult<Box<dyn Input>>| n != name@ ==> (#[trigger] final(self).input_gives(n, r) == old(self).input_gives(n, r)),
            final(self).filter_names_view() == old(self).filter_names_view(),
            final(self).output_names_view() == old(self).output_names_view(),
            forall|n: Seq<char>, r: PluginResult<Box<dyn Filter>>| #[trigger] final(self).filter_gives(n, r) == old(self).filter_gives(n, r),
            forall|n: Seq<char>, r: PluginResult<Box<dyn Output>>| #[trigger] final(self).output_gives(n, r) == old(self).output_gives(n, r),
    {
        let fo = InputFn::new(constructor);
        let ghost gfo = fo;
        self.inputs.check_distinct();
        let ghost before = self.inputs;
        self.inputs.insert(text_of(name), Box::new(fo));
        proof {
            lemma_insert_names(before.names(), self.inputs.names(), name@);
            assert(self.inputs.names().contains(name@));
            let k0 = choose|k: int| 0 <= k < self.inputs.names().len() && self.inputs.names()[k] == name@;
            assert forall|r: PluginResult<Box<dyn Input>>| #[trigger] self.input_gives(name@, r) == call_ensures(constructor, (), r) by {
                assert(self.inputs.items()[k0].constructs(r) == gfo.constructs(r));
                if self.input_gives(name@, r) {
                    let k = choose|k: int| 0 <= k < self.inputs.names().len() && self.inputs.names()[k] == name@ && #[trigger] self.inputs.items()[k].constructs(r);
                    assert(self.inputs.items()[k].constructs(r) == gfo.constructs(r));
                }
                if call_ensures(constructor, (), r) {
                    assert(self.inputs.items()[k0].constructs(r));
                }
            }
            assert forall|n: Seq<char>, r: PluginResult<Box<dyn Input>>| n != name@ implies (#[trigger] self.input_gives(n, r) == old(self).input_gives(n, r)) by {
                if self.input_gives(n, r) {
                    let k = choose|k: int| 0 <= k < self.inputs.names().len() && self.inputs.names()[k] == n && #[trigger] self.inputs.items()[k].constructs(r);
                    assert(before.items()[k].constructs(r));
                }
                if old(self).input_gives(n, r) {
                    let k = choose|k: int| 0 <= k < before.names().len() && before.names()[k] == n && #[trigger] before.items()[k].constructs(r);
                    assert(self.inputs.names()[k] == n);
                    assert(self.inputs.items()[k].constructs(r));
                }
            }
        }
    }

    /// A new input plugin from the constructor registered under `name`.
    pub fn create_input(&self, name: &str) -> (r: PluginResult<Box<dyn Input>>)
        ensures
            !self.input_names_view().contains(name@) ==> (r matches Err(PluginError::NotFound(s)) && s@ == name@),
            self.input_names_view().contains(name@) ==> self.input_gives(name@, r),
    {
        match self.inputs.position(name) {
            Some(i) => {
                self.inputs.check_distinct();
                let r = self.inputs.item(i).construct();
                proof {
                    assert(self.inputs.items()[i as int].constructs(r));
                }
                r
            },
            None => Err(PluginError::not_found(name)),
        }
    }

    /// Whether a input plugin is registered under `name`.
    pub fn has_input(&self, name: &str) -> (b: bool)
        ensures
            b == self.input_names_view().contains(name@),
    {
        self.inputs.contains(name)
    }

    /// The names of the registered input plugins.
    pub fn input_names(&self) -> (r: Vec<String>)
        ensures
            texts_of(r@) == self.input_names_view(),
    {
        self.inputs.name_list()
    }

    /// Removes the input plugin registered under `name`; whether there was one.
    pub fn unregister_input(&mut self, name: &str) -> (b: bool)
        ensures
            b == old(self).input_names_view().contains(name@),
            !final(self).input_names_view().contains(name@),
            final(self).input_names_view().to_set() == old(self).input_names_view().to_set().remove(name@),
            forall|n: Seq<char>, r: PluginResult<Box<dyn Input>>| n != name@ ==> (#[trigger] final(self).input_gives(n, r) == old(self).input_gives(n, r)),
            final(self).filter_names_view() == old(self).filter_names_view(),
            final(self).output_names_view() == old(self).output_names_view(),
            forall|n: Seq<char>, r: PluginResult<Box<dyn Filter>>| #[trigger] final(self).filter_gives(n, r) == old(self).filter_gives(n, r),
            forall|n: Seq<char>, r: PluginResult<Box<dyn Output>>| #[trigger] final(self).output_gives(n, r) == old(self).output_gives(n, r),
    {
        self.inputs.check_distinct();
        let ghost before = self.inputs;
        let b = self.inputs.remove(name);
        proof {
            if b {
                let k = choose|k: int|
                    0 <= k < before.names().len() && before.names()[k] == name@
                        && self.inputs.names() == before.names().remove(k)
                        && #[trigger] self.inputs.items() == before.items().remove(k);
                assert forall|n: Seq<char>, r: PluginResult<Box<dyn Input>>| n != name@ implies (#[trigger] self.input_gives(n, r) == old(self).input_gives(n, r)) by {
                    if self.input_gives(n, r) {
                        let j = choose|j: int| 0 <= j < self.inputs.names().len() && self.inputs.names()[j] == n && #[trigger] self.inputs.items()[j].constructs(r);
                        let j2 = if j < k { j } else { j + 1 };
                        assert(before.names()[j2] == n);
                        assert(before.items()[j2].constructs(r));
                    }
                    if old(self).input_gives(n, r) {
                        let j = choose|j: int| 0 <= j < before.names().len() && before.names()[j] == n && #[trigger] before.items()[j].constructs(r);
                        assert(j != k);
                        let j2 = if j < k { j } else { j - 1 };
                        assert(self.inputs.names()[j2] == n);
                        assert(self.inputs.items()[j2].constructs(r));
                    }
                }
            }
        }
        b
    }

    /// The number of registered input plugins.
    pub fn input_count(&self) -> (n: usize)
        ensures
            n == self.input_names_view().len(),
    {
        self.inputs.len()
    }

    /// Whether the filter constructor registered under `name` may give `r`.
    pub closed spec fn filter_gives(&self, name: Seq<char>, r: PluginResult<Box<dyn Filter>>) -> bool {
        exists|i: int|
            0 <= i < self.filters.names().len() && self.filters.names()[i] == name
                && #[trigger] self.filters.items()[i].constructs(r)
    }

    /// Registers a filter constructor under `name`, in place of any registered
    /// under that name before.
    pub fn register_filter<F: Fn() -> PluginResult<Box<dyn Filter>> + 'static>(&mut self, name: &str, constructor: F)
        requires
            call_requires(constructor, ()),
        ensures
            final(self).filter_names_view().to_set() == old(self).filter_names_view().to_set().insert(name@),
            old(self).filter_names_view().contains(name@) ==> final(self).filter_names_view() == old(self).filter_names_view(),
            !old(self).filter_names_view().contains(name@) ==> final(self).filter_names_view() == old(self).filter_names_view().push(name@),
            forall|r: PluginResult<Box<dyn Filter>>| #[trigger] final(self).filter_gives(name@, r) == call_ensures(constructor, (), r),
            forall|n: Seq<char>, r: PluginResult<Box<dyn Filter>>| n != name@ ==> (#[trigger] final(self).filter_gives(n, r) == old(self).filter_gives(n, r)),
            final(self).input_names_view() == old(self).input_names_view(),
            final(self).output_names_view() == old(self).output_names_view(),
            forall|n: Seq<char>, r: PluginResult<Box<dyn Input>>| #[trigger] final(self).input_gives(n, r) == old(self).input_gives(n, r),
            forall|n: Seq<char>, r: PluginResult<Box<dyn Output>>| #[trigger] final(self).output_gives(n, r) == old(self).output_gives(n, r),
    {
        let fo = FilterFn::new(constructor);
        let ghost gfo = fo;
        self.filters.check_distinct();
        let ghost before = self.filters;
        self.filters.insert(text_of(name), Box::new(fo));
        proof {
            lemma_insert_names(before.names(), self.filters.names(), name@);
            assert(self.filters.names().contains(name@));
            let k0 = choose|k: int| 0 <= k < self.filters.names().len() && self.filters.names()[k] == name@;
            assert forall|r: PluginResult<Box<dyn Filter>>| #[trigger] self.filter_gives(name@, r) == call_ensures(constructor, (), r) by {
                assert(self.filters.items()[k0].constructs(r) == gfo.constructs(r));
                if self.filter_gives(name@, r) {
                    let k = choose|k: int| 0 <= k < self.filters.names().len() && self.filters.names()[k] == name@ && #[trigger] self.filters.items()[k].constructs(r);
                    assert(self.filters.items()[k].constructs(r) == gfo.constructs(r));
                }
                if call_ensures(constructor, (), r) {
                    assert(self.filters.items()[k0].constructs(r));
                }
            }
            assert forall|n: Seq<char>, r: PluginResult<Box<dyn Filter>>| n != name@ implies (#[trigger] self.filter_gives(n, r) == old(self).filter_gives(n, r)) by {
                if self.filter_gives(n, r) {
                    let k = choose|k: int| 0 <= k < self.filters.names().len() && self.filters.names()[k] == n && #[trigger] self.filters.items()[k].constructs(r);
                    assert(before.items()[k].constructs(r));
                }
                if old(self).filter_gives(n, r) {
                    let k = choose|k: int| 0 <= k < before.names().len() && before.names()[k] == n && #[trigger] before.items()[k].constructs(r);
                    assert(self.filters.names()[k] == n);
                    assert(self.filters.items()[k].constructs(r));
                }
            }
        }
    }

    /// A new filter plugin from the constructor registered under `name`.
    pub fn create_filter(&self, name: &str) -> (r: PluginResult<Box<dyn Filter>>)
        ensures
            !self.filter_names_view().contains(name@) ==> (r matches Err(PluginError::NotFound(s)) && s@ == name@),
            self.filter_names_view().contains(name@) ==> self.filter_gives(name@, r),
    {
        match self.filters.position(name) {
            Some(i) => {
                self.filters.check_distinct();
                let r = self.filters.item(i).construct();
                proof {
                    assert(self.filters.items()[i as int].constructs(r));
                }
                r
            },
            None => Err(PluginError::not_found(name)),
        }
    }

    /// Whether a filter plugin is registered under `name`.
    pub fn has_filter(&self, name: &str) -> (b: bool)
        ensures
            b == self.filter_names_view().contains(name@),
    {
        self.filters.contains(name)
    }

    /// The names of the registered filter plugins.
    pub fn filter_names(&self) -> (r: Vec<String>)
        ensures
            texts_of(r@) == self.filter_names_view(),
    {
        self.filters.name_list()
    }

    /// Removes the filter plugin registered under `name`; whether there was one.
    pub fn unregister_filter(&mut self, name: &str) -> (b: bool)
        ensures
            b == old(self).filter_names_view().contains(name@),
            !final(self).filter_names_view().contains(name@),
            final(self).filter_names_view().to_set() == old(self).filter_names_view().to_set().remove(name@),
            forall|n: Seq<char>, r: PluginResult<Box<dyn Filter>>| n != name@ ==> (#[trigger] final(self).filter_gives(n, r) == old(self).filter_gives(n, r)),
            final(self).input_names_view() == old(self).input_names_view(),
            final(self).output_names_view() == old(self).output_names_view(),
            forall|n: Seq<char>, r: PluginResult<Box<dyn Input>>| #[trigger] final(self).input_gives(n, r) == old(self).input_gives(n, r),
            forall|n: Seq<char>, r: PluginResult<Box<dyn Output>>| #[trigger] final(self).output_gives(n, r) == old(self).output_gives(n, r),
    {
        self.filters.check_distinct();
        let ghost before = self.filters;
        let b = self.filters.remove(name);
        proof {
            if b {
                let k = choose|k: int|
                    0 <= k < before.names().len() && before.names()[k] == name@
                        && self.filters.names() == before.names().remove(k)
                        && #[trigger] self.filters.items() == before.items().remove(k);
                assert forall|n: Seq<char>, r: PluginResult<Box<dyn Filter>>| n != name@ implies (#[trigger] self.filter_gives(n, r) == old(self).filter_gives(n, r)) by {
                    if self.filter_gives(n, r) {
                        let j = choose|j: int| 0 <= j < self.filters.names().len() && self.filters.names()[j] == n && #[trigger] self.filters.items()[j].constructs(r);
                        let j2 = if j < k { j } else { j + 1 };
                        assert(before.names()[j2] == n);
                        assert(before.items()[j2].constructs(r));
                    }
                    if old(self).filter_gives(n, r) {
                        let j = choose|j: int| 0 <= j < before.names().len() && before.names()[j] == n && #[trigger] before.items()[j].constructs(r);
                        assert(j != k);
                        let j2 = if j < k { j } else { j - 1 };
                        assert(self.filters.names()[j2] == n);
                        assert(self.filters.items()[j2].constructs(r));
                    }
                }
            }
        }
        b
    }

    /// The number of registered filter plugins.
    pub fn filter_count(&self) -> (n: usize)
        ensures
            n == self.filter_names_view().len(),
    {
        self.filters.len()
    }

    /// Whether the output constructor registered under `name` may give `r`.
    pub closed spec fn output_gives(&self, name: Seq<char>, r: PluginResult<Box<dyn Output>>) -> bool {
        exists|i: int|
            0 <= i < self.outputs.names().len() && self.outputs.names()[i] == name
                && #[trigger] self.outputs.items()[i].constructs(r)
    }

    /// Registers a output constructor under `name`, in place of any registered
    /// under that name before.
    pub fn register_output<F: Fn() -> PluginResult<Box<dyn Output>> + 'static>(&mut self, name: &str, constructor: F)
        requires
            call_requires(constructor, ()),
        ensures
            final(self).output_names_view().to_set() == old(self).output_names_view().to_set().insert(name@),
            old(self).output_names_view().contains(name@) ==> final(self).output_names_view() == old(self).output_names_view(),
            !old(self).output_names_view().contains(name@) ==> final(self).output_names_view() == old(self).output_names_view().push(name@),
            forall|r: PluginResult<Box<dyn Output>>| #[trigger] final(self).output_gives(name@, r) == call_ensures(constructor, (), r),
            forall|n: Seq<char>, r: PluginResult<Box<dyn Output>>| n != name@ ==> (#[trigger] final(self).output_gives(n, r) == old(self).output_gives(n, r)),
            final(self).input_names_view() == old(self).input_names_view(),
            final(self).filter_names_view() == old(self).filter_names_view(),
            forall|n: Seq<char>, r: PluginResult<Box<dyn Input>>| #[trigger] final(self).input_gives(n, r) == old(self).input_gives(n, r),
            forall|n: Seq<char>, r: PluginResult<Box<dyn Filter>>| #[trigger] final(self).filter_gives(n, r) == old(self).filter_gives(n, r),
    {
        let fo = OutputFn::new(constructor);
        let ghost gfo = fo;
        self.outputs.check_distinct();
        let ghost before = self.outputs;
        self.outputs.insert(text_of(name), Box::new(fo));
        proof {
            lemma_insert_names(before.names(), self.outputs.names(), name@);
            assert(self.outputs.names().contains(name@));
            let k0 = choose|k: int| 0 <= k < self.outputs.names().len() && self.outputs.names()[k] == name@;
            assert forall|r: PluginResult<Box<dyn Output>>| #[trigger] self.output_gives(name@, r) == call_ensures(constructor, (), r) by {
                assert(self.outputs.items()[k0].constructs(r) == gfo.constructs(r));
                if self.output_gives(name@, r) {
                    let k = choose|k: int| 0 <= k < self.outputs.names().len() && self.outputs.names()[k] == name@ && #[trigger] self.outputs.items()[k].constructs(r);
                    assert(self.outputs.items()[k].constructs(r) == gfo.constructs(r));
                }
                if call_ensures(constructor, (), r) {
                    assert(self.outputs.items()[k0].constructs(r));
                }
            }
            assert forall|n: Seq<char>, r: PluginResult<Box<dyn Output>>| n != name@ implies (#[trigger] self.output_gives(n, r) == old(self).output_gives(n, r)) by {
                if self.output_gives(n, r) {
                    let k = choose|k: int| 0 <= k < self.outputs.names().len() && self.outputs.names()[k] == n && #[trigger] self.outputs.items()[k].constructs(r);
                    assert(before.items()[k].constructs(r));
                }
                if old(self).output_gives(n, r) {
                    let k = choose|k: int| 0 <= k < before.names().len() && before.names()[k] == n && #[trigger] before.items()[k].constructs(r);
                    assert(self.outputs.names()[k] == n);
                    assert(self.outputs.items()[k].constructs(r));
                }
            }
        }
    }

    /// A new output plugin from the constructor registered under `name`.
    pub fn create_output(&self, name: &str) -> (r: PluginResult<Box<dyn Output>>)
        ensures
            !self.output_names_view().contains(name@) ==> (r matches Err(PluginError::NotFound(s)) && s@ == name@),
            self.output_names_view().contains(name@) ==> self.output_gives(name@, r),
    {
        match self.outputs.position(name) {
            Some(i) => {
                self.outputs.check_distinct();
                let r = self.outputs.item(i).construct();
                proof {
                    assert(self.outputs.items()[i as int].constructs(r));
                }
                r
            },
            None => Err(PluginError::not_found(name)),
        }
    }

    /// Whether a output plugin is registered under `name`.
    pub fn has_output(&self, name: &str) -> (b: bool)
        ensures
            b == self.output_names_view().contains(name@),
    {
        self.outputs.contains(name)
    }

    /// The names of the registered output plugins.
    pub fn output_names(&self) -> (r: Vec<String>)
        ensures
            texts_of(r@) == self.output_names_view(),
    {
        self.outputs.name_list()
    }

    /// Removes the output plugin registered under `name`; whether there was one.
    pub fn unregister_output(&mut self, name: &str) -> (b: bool)
        ensures
            b == old(self).output_names_view().contains(name@),
            !final(self).output_names_view().contains(name@),
            final(self).output_names_view().to_set() == old(self).output_names_view().to_set().remove(name@),
            forall|n: Seq<char>, r: PluginResult<Box<dyn Output>>| n != name@ ==> (#[trigger] final(self).output_gives(n, r) == old(self).output_gives(n, r)),
            final(self).input_names_view() == old(self).input_names_view(),
            final(self).filter_names_view() == old(self).filter_names_view(),
            forall|n: Seq<char>, r: PluginResult<Box<dyn Input>>| #[trigger] final(self).input_gives(n, r) == old(self).input_gives(n, r),
            forall|n: Seq<char>, r: PluginResult<Box<dyn Filter>>| #[trigger] final(self).filter_gives(n, r) == old(self).filter_gives(n, r),
    {
        self.outputs.check_distinct();
        let ghost before = self.outputs;
        let b = self.outputs.remove(name);
        proof {
            if b {
                let k = choose|k: int|
                    0 <= k < before.names().len() && before.names()[k] == name@
                        && self.outputs.names() == before.names().remove(k)
                        && #[trigger] self.outputs.items() == before.items().remove(k);
                assert forall|n: Seq<char>, r: PluginResult<Box<dyn Output>>| n != name@ implies (#[trigger] self.output_gives(n, r) == old(self).output_gives(n, r)) by {
                    if self.output_gives(n, r) {
                        let j = choose|j: int| 0 <= j < self.outputs.names().len() && self.outputs.names()[j] == n && #[trigger] self.outputs.items()[j].constructs(r);
                        let j2 = if j < k { j } else { j + 1 };
                        assert(before.names()[j2] == n);
                        assert(before.items()[j2].constructs(r));
                    }
                    if old(self).output_gives(n, r) {
                        let j = choose|j: int| 0 <= j < before.names().len() && before.names()[j] == n && #[trigger] before.items()[j].constructs(r);
                        assert(j != k);
                        let j2 = if j < k { j } else { j - 1 };
                        assert(self.outputs.names()[j2] == n);
                        assert(self.outputs.items()[j2].constructs(r));
                    }
                }
            }
        }
        b
    }

    /// The number of registered output plugins.
    pub fn output_count(&self) -> (n: usize)
        ensures
            n == self.output_names_view().len(),
    {
        self.outputs.len()
    }

    /// Whether a plugin of any kind is registered under `name`.
    pub fn has_plugin(&self, name: &str) -> (b: bool)
        ensures
            b == self.registers(name@),
    {
        self.has_input(name) || self.has_filter(name) || self.has_output(name)
    }

    /// The names of every registered plugin: inputs, then filters, then
    /// outputs.
    pub fn all_plugin_names(&self) -> (r: Vec<String>)
        ensures
            texts_of(r@) == self.input_names_view() + self.filter_names_view() + self.output_names_view(),
    {
        let mut names = self.input_names();
        let mut f = self.filter_names();
        let mut o = self.output_names();
        let ghost a = names@;
        let ghost b = f@;
        let ghost c = o@;
        names.append(&mut f);
        names.append(&mut o);
        proof {
            assert(names@ == a + b + c);
            assert(texts_of(a + b + c) =~= texts_of(a) + texts_of(b) + texts_of(c));
        }
        names
    }

    /// The kind of plugin registered under `name`.
    pub fn plugin_type(&self, name: &str) -> (r: Option<PluginType>)
        ensures
            r == kind_of(self.input_names_view(), self.filter_names_view(), self.output_names_view(), name@),
            r is Some <==> self.registers(name@),
    {
        if self.has_input(name) {
            Some(PluginType::Input)
        } else if self.has_filter(name) {
            Some(PluginType::Filter)
        } else if self.has_output(name) {
            Some(PluginType::Output)
        } else {
            None
        }
    }

    /// Removes every plugin registered under `name`; whether there was one.
    pub fn unregister_plugin(&mut self, name: &str) -> (b: bool)
        ensures
            b == old(self).registers(name@),
            !final(self).registers(name@),
            final(self).input_names_view().to_set() == old(self).input_names_view().to_set().remove(name@),
            final(self).filter_names_view().to_set() == old(self).filter_names_view().to_set().remove(name@),
            final(self).output_names_view().to_set() == old(self).output_names_view().to_set().remove(name@),
    {
        let a = self.unregister_input(name);
        let b = self.unregister_filter(name);
        let c = self.unregister_output(name);
        a || b || c
    }

    /// Removes every registered plugin.
    pub fn clear(&mut self)
        ensures
            final(self).input_names_view() == Seq::<Seq<char>>::empty(),
            final(self).filter_names_view() == Seq::<Seq<char>>::empty(),
            final(self).output_names_view() == Seq::<Seq<char>>::empty(),
    {
        self.inputs.clear();
        self.filters.clear();
        self.outputs.clear();
    }

    /// The number of registered plugins of every kind.
    pub fn total_count(&self) -> (n: usize)
        requires
            self.input_names_view().len() + self.filter_names_view().len() + self.output_names_view().len() <= usize::MAX,
        ensures
            n == self.input_names_view().len() + self.filter_names_view().len() + self.output_names_view().len(),
    {
        self.input_count() + self.filter_count() + self.output_count()
    }

    /// Whether no plugin is registered.
    pub fn is_empty(&self) -> (b: bool)
        ensures
            b == (self.input_names_view().len() + self.filter_names_view().len() + self.output_names_view().len() == 0),
    {
        self.input_count() == 0 && self.filter_count() == 0 && self.output_count() == 0
    }
}

impl Default for PluginRegistry {
    fn default() -> (r: Self)
        ensures
            r.input_names_view() == Seq::<Seq<char>>::empty(),
            r.filter_names_view() == Seq::<Seq<char>>::empty(),
            r.output_names_view() == Seq::<Seq<char>>::empty(),
    {
        PluginRegistry::new()
    }
}

/// Inserting a name into a sequence, as `NameTable::insert` does, inserts it
/// into the set of names.
proof fn lemma_insert_names(before: Seq<Seq<char>>, after: Seq<Seq<char>>, name: Seq<char>)
    requires
        before.contains(name) ==> after == before,
        !before.contains(name) ==> after == before.push(name),
    ensures
        after.to_set() == before.to_set().insert(name),
{
    if before.contains(name) {
        assert(before.to_set().insert(name) =~= before.to_set());
    } else {
        before.lemma_push_to_set_commute(name);
    }
}

}
