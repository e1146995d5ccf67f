//! Input plugins: the codecs that turn text into events, a random number
//! source and standard input.

pub mod codec;
pub mod random;
pub mod stdin;

pub use codec::{create_decoder, CodecKind, Decoder, DecoderError, JsonDecoder, LineDecoder, PlainDecoder};
pub use random::RandomInput;
pub use stdin::{LineEvent, LineSource, StdinInput};

use vstd::prelude::*;
use crate::plugin::error::{PluginError, PluginResult};
use crate::plugin::factory::PluginFactory;
use crate::plugin::traits::Input;

verus! {

/// `names` with `n` added at the end, unless it is already there.
pub open spec fn with_name(names: Seq<Seq<char>>, n: Seq<char>) -> Seq<Seq<char>> {
    if names.contains(n) { names } else { names.push(n) }
}

/// Registers the built-in inputs, `stdin` and `random`, with `factory`;
/// creating either succeeds.
pub fn register_plugins(factory: &mut PluginFactory)
    ensures
        final(factory).spec_registry().input_names_view() == with_name(with_name(old(factory).spec_registry().input_names_view(), "stdin"@), "random"@),
        final(factory).spec_registry().filter_names_view() == old(factory).spec_registry().filter_names_view(),
        final(factory).spec_registry().output_names_view() == old(factory).spec_registry().output_names_view(),
        forall|r: PluginResult<Box<dyn Input>>| #[trigger] final(factory).spec_registry().input_gives("stdin"@, r)
            ==> r is Ok && (forall|e: PluginError| !r->Ok_0.initialize_fails_with(e)) && r->Ok_0.known_name() == Some("stdin"@),
        forall|r: PluginResult<Box<dyn Input>>| #[trigger] final(factory).spec_registry().input_gives("random"@, r)
            ==> r is Ok && (forall|e: PluginError| !r->Ok_0.initialize_fails_with(e)) && r->Ok_0.known_name() == Some("random"@),
{
    factory.register_input("stdin", || -> (r: PluginResult<Box<dyn Input>>)
        ensures
            r is Ok && (forall|e: PluginError| !r->Ok_0.initialize_fails_with(e)) && r->Ok_0.known_name() == Some("stdin"@),
    {
        let i = stdin::StdinInput::default();
        let r: PluginResult<Box<dyn Input>> = Ok(Box::new(i));
        r
    });
    proof {
        reveal_strlit("stdin");
        reveal_strlit("random");
        assert("stdin"@.len() != "random"@.len());
    }
    factory.register_input("random", || -> (r: PluginResult<Box<dyn Input>>)
        ensures
            r is Ok && (forall|e: PluginError| !r->Ok_0.initialize_fails_with(e)) && r->Ok_0.known_name() == Some("random"@),
    {
        let r: PluginResult<Box<dyn Input>> = Ok(Box::new(random::RandomInput::default()));
        r
    });
}

/// A factory with the built-in inputs registered.
pub fn default_factory() -> (f: PluginFactory)
    ensures
        f.spec_registry().input_names_view() == seq!["stdin"@, "random"@],
        f.spec_registry().filter_names_view() == Seq::<Seq<char>>::empty(),
        f.spec_registry().output_names_view() == Seq::<Seq<char>>::empty(),
        forall|r: PluginResult<Box<dyn Input>>| #[trigger] f.spec_registry().input_gives("stdin"@, r)
            ==> r is Ok && (forall|e: PluginError| !r->Ok_0.initialize_fails_with(e)) && r->Ok_0.known_name() == Some("stdin"@),
        forall|r: PluginResult<Box<dyn Input>>| #[trigger] f.spec_registry().input_gives("random"@, r)
            ==> r is Ok && (forall|e: PluginError| !r->Ok_0.initialize_fails_with(e)) && r->Ok_0.known_name() == Some("random"@),
{
    let mut factory = PluginFactory::new();
    register_plugins(&mut factory);
    proof {
        reveal_strlit("stdin");
        reveal_strlit("random");
        assert("stdin"@.len() != "random"@.len());
        let e = Seq::<Seq<char>>::empty();
        assert(!e.contains("stdin"@));
        assert(with_name(e, "stdin"@) == seq!["stdin"@]);
        assert(!seq!["stdin"@].contains("random"@)) by {
            if seq!["stdin"@].contains("random"@) {
                assert(seq!["stdin"@][0] == "random"@);
            }
        }
        assert(factory.spec_registry().input_names_view() =~= seq!["stdin"@, "random"@]);
    }
    factory
}

}
