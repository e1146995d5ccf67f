//! Codecs: turn a line of text into an event.
use vstd::prelude::*;
use crate::event::event::Event;
use crate::json::{json_parse, parse_text, JsonValue, JsonView, ObjectMap};
use crate::text::{ascii_lower, lower_eq, push_text, text_of};

verus! {

/// Decoder errors.
#[derive(Debug)]
pub enum DecoderError {
    /// The text is not JSON; serde_json's description.
    JsonError(String),
    /// The input is malformed.
    InvalidFormat(String),
    /// No codec has this name.
    UnsupportedCodec(String),
}

/// The text of a decoder error, as it is displayed.
pub open spec fn decoder_error_text(e: DecoderError) -> Seq<char> {
    match e {
        DecoderError::JsonError(s) => "JSON decode error: "@ + s@,
        DecoderError::InvalidFormat(s) => "Invalid input format: "@ + s@,
        DecoderError::UnsupportedCodec(s) => "Unsupported codec type: "@ + s@,
    }
}

impl DecoderError {
    /// The text of this error, as it is displayed.
    pub fn message(&self) -> (r: String)
        ensures
            r@ == decoder_error_text(*self),
    {
        let (prefix, s) = match self {
            DecoderError::JsonError(s) => ("JSON decode error: ", s),
            DecoderError::InvalidFormat(s) => ("Invalid input format: ", s),
            DecoderError::UnsupportedCodec(s) => ("Unsupported codec type: ", s),
        };
        let mut r = text_of(prefix);
        push_text(&mut r, s.as_str());
        r
    }
}

/// The fields of the event that the plain codec makes of `data`.
pub open spec fn plain_fields(data: Seq<char>) -> Map<Seq<char>, JsonView> {
    Map::<Seq<char>, JsonView>::empty().insert("message"@, JsonView::Str(data))
}

/// The fields of the event that the line codec makes of `data`.
pub open spec fn line_fields(data: Seq<char>) -> Map<Seq<char>, JsonView> {
    plain_fields(data).insert("line"@, JsonView::Str(data))
}

/// Whether `r` is a fresh event whose payload is `payload`.
pub open spec fn fresh_event_of(r: Result<Event, DecoderError>, payload: JsonView) -> bool {
    r matches Ok(e) && e.spec_data()@ == payload && e.spec_metadata()@ == Map::<Seq<char>, JsonView>::empty()
}

/// Whether `r` is a fresh event whose payload is an object with `fields`.
pub open spec fn fresh_object_event(r: Result<Event, DecoderError>, fields: Map<Seq<char>, JsonView>) -> bool {
    r matches Ok(e) && e.spec_data() is Object && e.fields() == fields
        && e.spec_metadata()@ == Map::<Seq<char>, JsonView>::empty()
}

/// Turns a line of text into an event.
pub trait Decoder {
    /// What decoding `data` may give: the decoder's own account of itself.
    spec fn decodes(&self, data: Seq<char>, r: Result<Event, DecoderError>) -> bool;

    /// The codec name, as a spec value.
    spec fn spec_name(&self) -> Seq<char>;

    /// Decodes one line.
    fn decode(&self, data: &str) -> (r: Result<Event, DecoderError>)
        ensures
            self.decodes(data@, r),
    ;

    /// The codec name.
    fn name(&self) -> (r: &str)
        ensures
            r@ == self.spec_name(),
    ;
}

/// Reads each line as a JSON value, which becomes the payload.
#[derive(Debug, Clone, Copy)]
pub struct JsonDecoder;

/// Puts each line, as text, under `message`.
#[derive(Debug, Clone, Copy)]
pub struct PlainDecoder;

/// Puts each line, as text, under `message` and under `line`.
#[derive(Debug, Clone, Copy)]
pub struct LineDecoder;

/// What the JSON codec makes of `data`.
pub open spec fn json_decodes(data: Seq<char>, r: Result<Event, DecoderError>) -> bool {
    match json_parse(data) {
        Ok(v) => fresh_event_of(r, v),
        Err(m) => r matches Err(DecoderError::JsonError(s)) && s@ == m,
    }
}

impl JsonDecoder {
    /// The JSON codec.
    pub fn new() -> (d: Self) {
        JsonDecoder
    }
}

impl Default for JsonDecoder {
    fn default() -> (d: Self) {
        JsonDecoder
    }
}

impl Decoder for JsonDecoder {
    open spec fn decodes(&self, data: Seq<char>, r: Result<Event, DecoderError>) -> bool {
        json_decodes(data, r)
    }

    open spec fn spec_name(&self) -> Seq<char> {
        "json"@
    }

    fn decode(&self, data: &str) -> (r: Result<Event, DecoderError>) {
        match parse_text(data) {
            Ok(v) => Ok(Event::new(v)),
            Err(m) => Err(DecoderError::JsonError(m)),
        }
    }

    fn name(&self) -> (r: &str) {
        "json"
    }
}

/// A payload object holding `data` as text under `message`, and under `line`
/// too when `with_line` holds.
fn text_payload(data: &str, with_line: bool) -> (v: JsonValue)
    ensures
        v is Object,
        !with_line ==> v->Object_0@ == plain_fields(data@),
        with_line ==> v->Object_0@ == line_fields(data@),
{
    let mut m = ObjectMap::new();
    let _ = m.insert(text_of("message"), JsonValue::from_text(data));
    if with_line {
        let _ = m.insert(text_of("line"), JsonValue::from_text(data));
    }
    JsonValue::Object(m)
}

impl PlainDecoder {
    /// The plain codec.
    pub fn new() -> (d: Self) {
        PlainDecoder
    }
}

impl Default for PlainDecoder {
    fn default() -> (d: Self) {
        PlainDecoder
    }
}

impl Decoder for PlainDecoder {
    open spec fn decodes(&self, data: Seq<char>, r: Result<Event, DecoderError>) -> bool {
        fresh_object_event(r, plain_fields(data))
    }

    open spec fn spec_name(&self) -> Seq<char> {
        "plain"@
    }

    fn decode(&self, data: &str) -> (r: Result<Event, DecoderError>) {
        Ok(Event::new(text_payload(data, false)))
    }

    fn name(&self) -> (r: &str) {
        "plain"
    }
}

impl LineDecoder {
    /// The line codec.
    pub fn new() -> (d: Self) {
        LineDecoder
    }
}

impl Default for LineDecoder {
    fn default() -> (d: Self) {
        LineDecoder
    }
}

impl Decoder for LineDecoder {
    open spec fn decodes(&self, data: Seq<char>, r: Result<Event, DecoderError>) -> bool {
        fresh_object_event(r, line_fields(data))
    }

    open spec fn spec_name(&self) -> Seq<char> {
        "line"@
    }

    fn decode(&self, data: &str) -> (r: Result<Event, DecoderError>) {
        Ok(Event::new(text_payload(data, true)))
    }

    fn name(&self) -> (r: &str) {
        "line"
    }
}

/// The built-in codecs.
#[derive(Debug, Clone, Copy, PartialEq, Eq, Structural)]
pub enum CodecKind {
    /// The JSON codec.
    Json,
    /// The plain codec.
    Plain,
    /// The line codec.
    Line,
}

/// The codec named `name`, in any letter case.
pub open spec fn codec_named(name: Seq<char>) -> Option<CodecKind> {
    if ascii_lower(name) == "json"@ {
        Some(CodecKind::Json)
    } else if ascii_lower(name) == "plain"@ {
        Some(CodecKind::Plain)
    } else if ascii_lower(name) == "line"@ {
        Some(CodecKind::Line)
    } else {
        None
    }
}

/// The name of a codec.
pub open spec fn codec_name(k: CodecKind) -> Seq<char> {
    match k {
        CodecKind::Json => "json"@,
        CodecKind::Plain => "plain"@,
        CodecKind::Line => "line"@,
    }
}

/// The name of a codec reads back as that codec.
pub proof fn law_codec_name_round_trip(k: CodecKind)
    ensures
        codec_named(codec_name(k)) == Some(k),
{
    reveal_strlit("json");
    reveal_strlit("plain");
    reveal_strlit("line");
    crate::text::lemma_lower_fixed("json"@);
    crate::text::lemma_lower_fixed("plain"@);
    crate::text::lemma_lower_fixed("line"@);
    assert("line"@[0] != "json"@[0]);
}

/// What codec `k` makes of `data`.
pub open spec fn kind_decodes(k: CodecKind, data: Seq<char>, r: Result<Event, DecoderError>) -> bool {
    match k {
        CodecKind::Json => json_decodes(data, r),
        CodecKind::Plain => fresh_object_event(r, plain_fields(data)),
        CodecKind::Line => fresh_object_event(r, line_fields(data)),
    }
}

impl CodecKind {
    /// The codec named `name`, in any letter case; an error naming it when
    /// there is none.
    pub fn from_name(name: &str) -> (r: Result<CodecKind, DecoderError>)
        ensures
            codec_named(name@) matches Some(k) ==> r == Ok::<CodecKind, DecoderError>(k),
            codec_named(name@) is None ==> (r matches Err(DecoderError::UnsupportedCodec(s)) && s@ == name@),
    {
        if lower_eq(name, "json") {
            Ok(CodecKind::Json)
        } else if lower_eq(name, "plain") {
            Ok(CodecKind::Plain)
        } else if lower_eq(name, "line") {
            Ok(CodecKind::Line)
        } else {
            Err(DecoderError::UnsupportedCodec(text_of(name)))
        }
    }

    /// The codec name.
    pub fn name(&self) -> (r: &'static str)
        ensures
            r@ == codec_name(*self),
    {
        match self {
            CodecKind::Json => "json",
            CodecKind::Plain => "plain",
            CodecKind::Line => "line",
        }
    }

    /// Decodes one line with this codec.
    pub fn decode(&self, data: &str) -> (r: Result<Event, DecoderError>)
        ensures
            kind_decodes(*self, data@, r),
    {
        match self {
            CodecKind::Json => JsonDecoder.decode(data),
            CodecKind::Plain => PlainDecoder.decode(data),
            CodecKind::Line => LineDecoder.decode(data),
        }
    }
}

/// The decoder named `codec_type`, in any letter case.
pub fn create_decoder(codec_type: &str) -> (r: Result<Box<dyn Decoder>, DecoderError>)
    ensures
        codec_named(codec_type@) is Some <==> r is Ok,
        codec_named(codec_type@) is None ==> (r matches Err(DecoderError::UnsupportedCodec(s)) && s@ == codec_type@),
        codec_named(codec_type@) is Some ==> r->Ok_0.spec_name() == codec_name(codec_named(codec_type@)->Some_0)
            && forall|data: Seq<char>, x: Result<Event, DecoderError>| #[trigger] r->Ok_0.decodes(data, x)
                == kind_decodes(codec_named(codec_type@)->Some_0, data, x),
{
    match CodecKind::from_name(codec_type) {
        Ok(CodecKind::Json) => {
            let r: Result<Box<dyn Decoder>, DecoderError> = Ok(Box::new(JsonDecoder::new()));
            r
        },
        Ok(CodecKind::Plain) => {
            let r: Result<Box<dyn Decoder>, DecoderError> = Ok(Box::new(PlainDecoder::new()));
            r
        },
        Ok(CodecKind::Line) => {
            let r: Result<Box<dyn Decoder>, DecoderError> = Ok(Box::new(LineDecoder::new()));
            r
        },
        Err(e) => Err(e),
    }
}

}
