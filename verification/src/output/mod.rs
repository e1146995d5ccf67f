//! Output plugins: formats and standard output.

pub mod format;
pub mod stdout;

pub use format::{create_formatter, FormatError, Formatter, JsonFormatter, OutputFormat, PlainFormatter, PrettyFormatter, StandardFormatter};
pub use stdout::StdoutOutput;

use vstd::prelude::*;
use crate::plugin::error::{PluginError, PluginResult};
use crate::plugin::factory::PluginFactory;
use crate::plugin::traits::Output;

verus! {

/// Registers the built-in output, `stdout`, with `factory`; creating it
/// succeeds.
pub fn register_plugins(factory: &mut PluginFactory)
    ensures
        old(factory).spec_registry().output_names_view().contains("stdout"@) ==> final(factory).spec_registry().output_names_view() == old(factory).spec_registry().output_names_view(),
        !old(factory).spec_registry().output_names_view().contains("stdout"@) ==> final(factory).spec_registry().output_names_view() == old(factory).spec_registry().output_names_view().push("stdout"@),
        final(factory).spec_registry().input_names_view() == old(factory).spec_registry().input_names_view(),
        final(factory).spec_registry().filter_names_view() == old(factory).spec_registry().filter_names_view(),
        forall|r: PluginResult<Box<dyn Output>>| #[trigger] final(factory).spec_registry().output_gives("stdout"@, r)
            ==> r is Ok && (forall|e: PluginError| !r->Ok_0.initialize_fails_with(e)) && r->Ok_0.known_name() == Some("stdout"@),
{
    factory.register_output("stdout", || -> (r: PluginResult<Box<dyn Output>>)
        ensures
            r is Ok && (forall|e: PluginError| !r->Ok_0.initialize_fails_with(e)) && r->Ok_0.known_name() == Some("stdout"@),
    {
        let r: PluginResult<Box<dyn Output>> = Ok(Box::new(stdout::StdoutOutput::default()));
        r
    });
}

/// A factory with the built-in output registered.
pub fn default_factory() -> (f: PluginFactory)
    ensures
        f.spec_registry().output_names_view() == seq!["stdout"@],
        f.spec_registry().input_names_view() == Seq::<Seq<char>>::empty(),
        f.spec_registry().filter_names_view() == Seq::<Seq<char>>::empty(),
        forall|r: PluginResult<Box<dyn Output>>| #[trigger] f.spec_registry().output_gives("stdout"@, r)
            ==> r is Ok && (forall|e: PluginError| !r->Ok_0.initialize_fails_with(e)) && r->Ok_0.known_name() == Some("stdout"@),
{
    let mut factory = PluginFactory::new();
    register_plugins(&mut factory);
    proof {
        assert(factory.spec_registry().output_names_view() =~= seq!["stdout"@]);
    }
    factory
}

}
