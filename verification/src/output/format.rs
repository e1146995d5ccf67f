//! Output formats: JSON, plain `key=value` text and a coloured multi-line
//! layout.
use vstd::prelude::*;
use crate::event::event::Event;
use crate::json::{compact_text, json_compact, json_pretty, lemma_lookup_found, lookup, number_text, number_view, pretty_text, JsonNumber, JsonValue, JsonView, ObjectMap};
use crate::text::{ascii_lower, decimal, digit_char, join, join_texts, lower_eq, no_control, no_escape, push_text, text_eq, text_of, texts_of};

verus! {

/// The output formats.
#[derive(Debug, Clone, Copy, PartialEq, Eq, Structural)]
pub enum OutputFormat {
    /// One JSON text per event.
    Json,
    /// A coloured multi-line layout.
    Pretty,
    /// Space-separated values.
    Plain,
}

/// The name of a format.
pub open spec fn format_name(f: OutputFormat) -> Seq<char> {
    match f {
        OutputFormat::Json => "json"@,
        OutputFormat::Pretty => "pretty"@,
        OutputFormat::Plain => "plain"@,
    }
}

/// The format named `s`, in any letter case.
pub open spec fn format_named(s: Seq<char>) -> Option<OutputFormat> {
    if ascii_lower(s) == "json"@ {
        Some(OutputFormat::Json)
    } else if ascii_lower(s) == "pretty"@ {
        Some(OutputFormat::Pretty)
    } else if ascii_lower(s) == "plain"@ {
        Some(OutputFormat::Plain)
    } else {
        None
    }
}

impl OutputFormat {
    /// The format named `s`, in any letter case.
    pub fn from_str(s: &str) -> (r: Option<OutputFormat>)
        ensures
            r == format_named(s@),
    {
        if lower_eq(s, "json") {
            Some(OutputFormat::Json)
        } else if lower_eq(s, "pretty") {
            Some(OutputFormat::Pretty)
        } else if lower_eq(s, "plain") {
            Some(OutputFormat::Plain)
        } else {
            None
        }
    }

    /// The name of this format.
    pub fn as_str(&self) -> (r: &'static str)
        ensures
            r@ == format_name(*self),
    {
        match self {
            OutputFormat::Json => "json",
            OutputFormat::Pretty => "pretty",
            OutputFormat::Plain => "plain",
        }
    }
}

/// The name of a format reads back as that format.
pub proof fn law_format_name_round_trip(f: OutputFormat)
    ensures
        format_named(format_name(f)) == Some(f),
{
    reveal_strlit("json");
    reveal_strlit("pretty");
    reveal_strlit("plain");
    crate::text::lemma_lower_fixed("json"@);
    crate::text::lemma_lower_fixed("pretty"@);
    crate::text::lemma_lower_fixed("plain"@);
}

/// Formatting errors.
#[derive(Debug)]
pub enum FormatError {
    /// The value could not be written as JSON.
    JsonError(String),
    /// The format is not known.
    InvalidFormat(String),
    /// Writing failed.
    IoError(String),
}

/// The text of a formatting error, as it is displayed.
pub open spec fn format_error_text(e: FormatError) -> Seq<char> {
    match e {
        FormatError::JsonError(s) => "JSON serialization error: "@ + s@,
        FormatError::InvalidFormat(s) => "Invalid format: "@ + s@,
        FormatError::IoError(s) => "IO error: "@ + s@,
    }
}

impl FormatError {
    /// The text of this error, as it is displayed.
    pub fn message(&self) -> (r: String)
        ensures
            r@ == format_error_text(*self),
    {
        let (prefix, s) = match self {
            FormatError::JsonError(s) => ("JSON serialization error: ", s),
            FormatError::InvalidFormat(s) => ("Invalid format: ", s),
            FormatError::IoError(s) => ("IO error: ", s),
        };
        let mut r = text_of(prefix);
        push_text(&mut r, s.as_str());
        r
    }
}

/// Whether `s` is `e` with its payload stamped at some time: unchanged when
/// it holds `@timestamp`, else that field added.
pub open spec fn stamped(e: Event, s: Event) -> bool {
    if e.fields().dom().contains("@timestamp"@) {
        s.spec_data()@ == e.spec_data()@
    } else {
        s.spec_data() is Object && exists|t: Seq<char>|
            #[trigger] e.fields().insert("@timestamp"@, JsonView::Str(t)) == s.fields()
    }
}

/// Turns events into text.
pub trait Formatter {
    /// What formatting a payload `data` may give: the formatter's own account
    /// of itself.
    spec fn formats(&self, data: JsonValue, r: Result<String, FormatError>) -> bool;

    /// Formats one event, by its payload.
    fn format(&self, event: &Event) -> (r: Result<String, FormatError>)
        ensures
            self.formats(event.spec_data(), r),
    ;

    /// Formats a copy of the event stamped with the current time.
    fn format_with_timestamp(&self, event: &Event) -> (r: Result<String, FormatError>)
        ensures
            exists|s: Event| stamped(*event, s) && #[trigger] self.formats(s.spec_data(), r),
    {
        let mut copy = event.clone();
        copy.ensure_timestamp();
        let r = self.format(&copy);
        proof {
            if !event.fields().dom().contains("@timestamp"@) {
                let at = choose|at: crate::clock::Timestamp| copy.fields() == event.fields().insert(
                    "@timestamp"@,
                    JsonView::Str(crate::event::event::stamp_text(at)),
                );
                assert(event.fields().insert("@timestamp"@, JsonView::Str(crate::event::event::stamp_text(at))) == copy.fields());
            }
            assert(stamped(*event, copy));
        }
        r
    }

    /// Formats events in order, one line each; the first failure stops it.
    fn format_batch(&self, events: &[Event]) -> (r: Result<String, FormatError>)
        ensures
            r matches Ok(t) ==> exists|outs: Seq<String>| outs.len() == events@.len()
                && (forall|i: int| 0 <= i < events@.len() ==> #[trigger] self.formats(events@[i].spec_data(), Ok::<String, FormatError>(outs[i])))
                && t@ == join_texts(texts_of(outs), "\n"@),
            r matches Err(e) ==> exists|i: int| 0 <= i < events@.len() && #[trigger] self.formats(events@[i].spec_data(), Err::<String, FormatError>(e)),
    {
        let mut results: Vec<String> = Vec::new();
        let mut i: usize = 0;
        while i < events.len()
            invariant
                0 <= i <= events@.len(),
                results@.len() == i,
                forall|j: int| 0 <= j < i ==> #[trigger] self.formats(events@[j].spec_data(), Ok::<String, FormatError>(results@[j])),
            decreases events@.len() - i,
        {
            match self.format(&events[i]) {
                Ok(t) => results.push(t),
                Err(e) => {
                    return Err(e);
                },
            }
            i = i + 1;
        }
        Ok(join(&results, "\n"))
    }

    /// Formats stamped copies of events in order, one line each; the first
    /// failure stops it.
    fn format_batch_with_timestamp(&self, events: &[Event]) -> (r: Result<String, FormatError>)
        ensures
            r matches Ok(t) ==> exists|outs: Seq<String>, stamps: Seq<Event>|
                #![trigger texts_of(outs), stamps.len()]
                outs.len() == events@.len() && stamps.len() == events@.len()
                && (forall|i: int| 0 <= i < events@.len() ==> stamped(events@[i], #[trigger] stamps[i])
                    && self.formats(stamps[i].spec_data(), Ok::<String, FormatError>(outs[i])))
                && t@ == join_texts(texts_of(outs), "\n"@),
            r matches Err(e) ==> exists|i: int, s: Event| #![trigger stamped(events@[i], s)] 0 <= i < events@.len() && stamped(events@[i], s) && self.formats(s.spec_data(), Err::<String, FormatError>(e)),
    {
        let mut results: Vec<String> = Vec::new();
        let ghost mut stamps: Seq<Event> = Seq::empty();
        let mut i: usize = 0;
        while i < events.len()
            invariant
                0 <= i <= events@.len(),
                results@.len() == i,
                stamps.len() == i,
                forall|j: int| 0 <= j < i ==> stamped(events@[j], #[trigger] stamps[j])
                    && self.formats(stamps[j].spec_data(), Ok::<String, FormatError>(results@[j])),
            decreases events@.len() - i,
        {
            let r = self.format_with_timestamp(&events[i]);
            match r {
                Ok(t) => {
                    proof {
                        let s = choose|s: Event| stamped(events@[i as int], s) && #[trigger] self.formats(s.spec_data(), Ok::<String, FormatError>(t));
                        stamps = stamps.push(s);
                    }
                    results.push(t);
                },
                Err(e) => {
                    proof {
                        let s = choose|s: Event| stamped(events@[i as int], s) && #[trigger] self.formats(s.spec_data(), Err::<String, FormatError>(e));
                        assert(stamped(events@[i as int], s));
                    }
                    return Err(e);
                },
            }
            i = i + 1;
        }
        let out = join(&results, "\n");
        proof {
            assert(out@ == join_texts(texts_of(results@), "\n"@));
            assert(stamps.len() == events@.len());
        }
        Ok(out)
    }
}

/// Formats the payload as JSON text: compact, or pretty when `pretty`.
pub struct JsonFormatter {
    pretty: bool,
}

impl JsonFormatter {
    /// Whether the text is pretty.
    pub closed spec fn is_pretty(&self) -> bool {
        self.pretty
    }

    /// A JSON formatter.
    pub fn new(pretty: bool) -> (f: Self)
        ensures
            f.is_pretty() == pretty,
    {
        JsonFormatter { pretty }
    }
}

impl Formatter for JsonFormatter {
    open spec fn formats(&self, data: JsonValue, r: Result<String, FormatError>) -> bool {
        r matches Ok(t) && t@ == (if self.is_pretty() { json_pretty(data@) } else { json_compact(data@) })
    }

    /// The compact form is one line: it holds no control character.
    fn format(&self, event: &Event) -> (r: Result<String, FormatError>)
        ensures
            !self.is_pretty() ==> (r matches Ok(t) && no_control(t@)),
    {
        if self.pretty {
            Ok(pretty_text(event.data()))
        } else {
            Ok(compact_text(event.data()))
        }
    }
}

/// The text of `true` or `false`.
pub open spec fn bool_text(b: bool) -> Seq<char> {
    if b { "true"@ } else { "false"@ }
}

/// The text of a value in plain output: text as it is, numbers, booleans and
/// `null` as written, arrays and objects as compact JSON.
pub open spec fn value_text(v: JsonValue) -> Seq<char> {
    match v {
        JsonValue::String(s) => s@,
        JsonValue::Number(n) => number_text(number_view(n)),
        JsonValue::Bool(b) => bool_text(b),
        JsonValue::Null => "null"@,
        _ => json_compact(v@),
    }
}

/// The `key=value` parts for the text, number and boolean fields of
/// `entries`, in order; other fields are skipped.
pub open spec fn pair_parts(entries: Seq<(String, JsonValue)>) -> Seq<Seq<char>>
    decreases entries.len(),
{
    if entries.len() == 0 {
        Seq::empty()
    } else {
        let rest = pair_parts(entries.drop_last());
        let (k, v) = entries.last();
        match v {
            JsonValue::String(_) | JsonValue::Number(_) | JsonValue::Bool(_) => rest.push(k@ + "="@ + value_text(v)),
            _ => rest,
        }
    }
}

/// The text of field `field` of `data` in plain output: `-` when absent.
pub open spec fn field_part(data: JsonValue, field: Seq<char>) -> Seq<char> {
    match data.spec_field(field) {
        Some(v) => value_text(v),
        None => "-"@,
    }
}

/// The parts of plain output, in order: the `timestamp` text field when
/// asked for, then the listed fields, or, when none are listed, the
/// `key=value` parts of the payload.
pub open spec fn plain_parts(include_timestamp: bool, fields: Seq<Seq<char>>, data: JsonValue) -> Seq<Seq<char>> {
    let stamp = if include_timestamp && data.spec_field("timestamp"@) matches Some(JsonValue::String(t)) {
        seq![data.spec_field("timestamp"@)->Some_0->String_0@]
    } else {
        Seq::empty()
    };
    let listed = fields.map_values(|f: Seq<char>| field_part(data, f));
    let pairs = if fields.len() == 0 && data is Object {
        pair_parts(data->Object_0.spec_entries())
    } else {
        Seq::empty()
    };
    stamp + listed + pairs
}

/// Whether a payload field is a text, a number or a boolean.
pub open spec fn scalar_entry(e: (String, JsonValue)) -> bool {
    e.1 is String || e.1 is Number || e.1 is Bool
}

/// The `key=value` text of a payload field.
pub open spec fn pair_text(e: (String, JsonValue)) -> Seq<char> {
    e.0@ + "="@ + value_text(e.1)
}

/// The `key=value` parts are those of the text, number and boolean fields,
/// in order.
proof fn lemma_pair_parts(entries: Seq<(String, JsonValue)>)
    ensures
        pair_parts(entries) == entries.filter(|e: (String, JsonValue)| scalar_entry(e)).map_values(|e: (String, JsonValue)| pair_text(e)),
    decreases entries.len(),
{
    reveal(Seq::filter);
    let p = |e: (String, JsonValue)| scalar_entry(e);
    let f = |e: (String, JsonValue)| pair_text(e);
    if entries.len() == 0 {
        assert(entries.filter(p) =~= Seq::<(String, JsonValue)>::empty());
        assert(entries.filter(p).map_values(f) =~= Seq::<Seq<char>>::empty());
    } else {
        lemma_pair_parts(entries.drop_last());
        let rest = entries.drop_last().filter(p);
        if p(entries.last()) {
            assert(entries.filter(p) == rest.push(entries.last()));
            assert(rest.push(entries.last()).map_values(f) =~= rest.map_values(f).push(f(entries.last())));
        } else {
            assert(entries.filter(p) == rest);
        }
    }
}

/// Plain output with no listed fields: the `timestamp` text first when it
/// is asked for and the payload has it as text, then `key=value` for each
/// text, number or boolean field of the payload, in order, texts without
/// quotes; null, array and object fields are skipped, and a payload that
/// is not an object adds nothing more.
pub proof fn law_plain_output(include_timestamp: bool, data: JsonValue)
    ensures
        plain_parts(include_timestamp, Seq::empty(), data) == (if include_timestamp && data.spec_field("timestamp"@) matches Some(JsonValue::String(t)) {
            seq![data.spec_field("timestamp"@)->Some_0->String_0@]
        } else {
            Seq::<Seq<char>>::empty()
        }) + (if data is Object {
            data->Object_0.spec_entries().filter(|e: (String, JsonValue)| scalar_entry(e)).map_values(|e: (String, JsonValue)| pair_text(e))
        } else {
            Seq::<Seq<char>>::empty()
        }),
{
    let listed = Seq::<Seq<char>>::empty().map_values(|f: Seq<char>| field_part(data, f));
    assert(listed =~= Seq::<Seq<char>>::empty());
    if data is Object {
        lemma_pair_parts(data->Object_0.spec_entries());
    }
    let stamp: Seq<Seq<char>> = if include_timestamp && data.spec_field("timestamp"@) matches Some(JsonValue::String(t)) {
        seq![data.spec_field("timestamp"@)->Some_0->String_0@]
    } else {
        Seq::empty()
    };
    assert(stamp + listed =~= stamp);
}

/// Whether a value shows no escape character of its own in pretty output:
/// a text or a float's text holds none, and an object's keys hold none.
pub open spec fn clean_value(v: JsonValue) -> bool {
    match v {
        JsonValue::String(s) => no_escape(s@),
        JsonValue::Number(JsonNumber::Float(t)) => no_escape(t@),
        JsonValue::Object(m) => forall|i: int| 0 <= i < m.spec_entries().len() ==> no_escape(#[trigger] m.spec_entries()[i].0@),
        _ => true,
    }
}

/// Whether a payload shows no escape character of its own in pretty
/// output: its keys hold none and its values are clean.
pub open spec fn clean_payload(data: JsonValue) -> bool {
    data is Object ==> forall|i: int| 0 <= i < data->Object_0.spec_entries().len()
        ==> no_escape(#[trigger] data->Object_0.spec_entries()[i].0@) && clean_value(data->Object_0.spec_entries()[i].1)
}

/// Two texts without escape characters make one.
proof fn lemma_concat_no_escape(a: Seq<char>, b: Seq<char>)
    requires
        no_escape(a),
        no_escape(b),
    ensures
        no_escape(a + b),
{
    assert forall|i: int| 0 <= i < (a + b).len() implies (a + b)[i] != '\x1b' by {
        if i < a.len() {
            assert((a + b)[i] == a[i]);
        } else {
            assert((a + b)[i] == b[i - a.len()]);
        }
    }
}

/// Decimal digits hold no escape character.
proof fn lemma_decimal_no_escape(n: nat)
    ensures
        no_escape(decimal(n)),
    decreases n,
{
    if n >= 10 {
        lemma_decimal_no_escape(n / 10);
        let d = decimal(n / 10);
        assert(d.push(digit_char(n % 10)) =~= d + seq![digit_char(n % 10)]);
        lemma_concat_no_escape(d, seq![digit_char(n % 10)]);
    }
}

/// Joined texts without escape characters hold none.
proof fn lemma_join_no_escape(parts: Seq<Seq<char>>, sep: Seq<char>)
    requires
        no_escape(sep),
        forall|j: int| 0 <= j < parts.len() ==> no_escape(#[trigger] parts[j]),
    ensures
        no_escape(join_texts(parts, sep)),
    decreases parts.len(),
{
    if parts.len() == 1 {
        assert(no_escape(parts[0]));
    } else if parts.len() > 1 {
        lemma_join_no_escape(parts.drop_last(), sep);
        assert(no_escape(parts.last()));
        lemma_concat_no_escape(join_texts(parts.drop_last(), sep), sep);
        lemma_concat_no_escape(join_texts(parts.drop_last(), sep) + sep, parts.last());
    }
}

/// The text of a clean value that is no array or object holds no escape
/// character.
proof fn lemma_value_text_no_escape(v: JsonValue)
    requires
        clean_value(v),
        !(v is Array),
        !(v is Object),
    ensures
        no_escape(value_text(v)),
{
    reveal_strlit("true");
    reveal_strlit("false");
    reveal_strlit("null");
    match v {
        JsonValue::Number(n) => {
            match n {
                JsonNumber::PosInt(u) => lemma_decimal_no_escape(u as nat),
                JsonNumber::NegInt(i) => {
                    if i < 0 {
                        lemma_decimal_no_escape((-i) as nat);
                        lemma_concat_no_escape(seq!['-'], decimal((-i) as nat));
                    } else {
                        lemma_decimal_no_escape(i as nat);
                    }
                },
                JsonNumber::Float(t) => {},
            }
        },
        JsonValue::Bool(b) => {
            assert(no_escape("true"@));
            assert(no_escape("false"@));
        },
        JsonValue::Null => {
            assert(no_escape("null"@));
        },
        _ => {},
    }
}

/// Formats the payload as space-separated values.
pub struct PlainFormatter {
    include_timestamp: bool,
    include_fields: Vec<String>,
}

/// The text of `v` in plain output.
fn value_string(v: &JsonValue) -> (r: String)
    ensures
        r@ == value_text(*v),
        clean_value(*v) ==> no_escape(r@),
{
    proof {
        if clean_value(*v) && !(*v is Array) && !(*v is Object) {
            lemma_value_text_no_escape(*v);
        }
    }
    match v {
        JsonValue::String(s) => s.clone(),
        JsonValue::Number(n) => n.to_text(),
        JsonValue::Bool(b) => if *b { text_of("true") } else { text_of("false") },
        JsonValue::Null => text_of("null"),
        _ => compact_text(v),
    }
}

impl PlainFormatter {
    /// Whether the `timestamp` field leads.
    pub closed spec fn includes_timestamp(&self) -> bool {
        self.include_timestamp
    }

    /// The fields listed.
    pub closed spec fn fields(&self) -> Seq<Seq<char>> {
        texts_of(self.include_fields@)
    }

    /// A plain formatter.
    pub fn new(include_timestamp: bool, include_fields: Vec<String>) -> (f: Self)
        ensures
            f.includes_timestamp() == include_timestamp,
            f.fields() == texts_of(include_fields@),
    {
        PlainFormatter { include_timestamp, include_fields }
    }

    /// The text of field `field` of `data`: `-` when absent.
    pub fn extract_field(&self, data: &JsonValue, field: &str) -> (r: String)
        ensures
            r@ == field_part(*data, field@),
    {
        match data.get(field) {
            Some(v) => value_string(v),
            None => text_of("-"),
        }
    }
}

/// The `key=value` parts of the entries of `m`.
fn pairs_of(m: &ObjectMap, parts: &mut Vec<String>)
    ensures
        texts_of(final(parts)@) == texts_of(old(parts)@) + pair_parts(m.spec_entries()),
{
    let entries = m.entries();
    let ghost es = entries@;
    let mut i: usize = 0;
    let ghost start = texts_of(parts@);
    proof {
        assert(es.take(0) =~= Seq::<(String, JsonValue)>::empty());
        assert(start + pair_parts(es.take(0)) =~= start);
    }
    while i < entries.len()
        invariant
            0 <= i <= es.len(),
            es == entries@,
            es == m.spec_entries(),
            texts_of(parts@) == start + pair_parts(es.take(i as int)),
        decreases es.len() - i,
    {
        let ghost before = parts@;
        let (k, v) = (&entries[i].0, &entries[i].1);
        proof {
            assert(es.take(i + 1).drop_last() =~= es.take(i as int));
            assert(es.take(i + 1).last() == es[i as int]);
        }
        match v {
            JsonValue::String(_) | JsonValue::Number(_) | JsonValue::Bool(_) => {
                let mut p = k.clone();
                push_text(&mut p, "=");
                push_text(&mut p, value_string(v).as_str());
                parts.push(p);
                proof {
                    assert(texts_of(parts@) =~= texts_of(before).push(p@));
                }
            },
            _ => {},
        }
        i = i + 1;
    }
    proof {
        assert(es.take(es.len() as int) =~= es);
    }
}

impl Formatter for PlainFormatter {
    open spec fn formats(&self, data: JsonValue, r: Result<String, FormatError>) -> bool {
        r matches Ok(t) && t@ == join_texts(plain_parts(self.includes_timestamp(), self.fields(), data), " "@)
    }

    fn format(&self, event: &Event) -> (r: Result<String, FormatError>) {
        let data = event.data();
        let mut parts: Vec<String> = Vec::new();
        if self.include_timestamp {
            match data.get("timestamp") {
                Some(JsonValue::String(ts)) => parts.push(ts.clone()),
                _ => {},
            }
        }
        let ghost stamp = texts_of(parts@);
        let mut i: usize = 0;
        while i < self.include_fields.len()
            invariant
                0 <= i <= self.include_fields@.len(),
                texts_of(parts@) == stamp + texts_of(self.include_fields@).take(i as int).map_values(|f: Seq<char>| field_part(*data, f)),
            decreases self.include_fields@.len() - i,
        {
            let ghost before = parts@;
            let p = self.extract_field(data, self.include_fields[i].as_str());
            parts.push(p);
            proof {
                assert(texts_of(self.include_fields@).take(i + 1) =~= texts_of(self.include_fields@).take(i as int).push(self.include_fields@[i as int]@));
                assert(texts_of(parts@) =~= texts_of(before).push(p@));
                assert(texts_of(parts@) =~= stamp + texts_of(self.include_fields@).take(i + 1).map_values(|f: Seq<char>| field_part(*data, f)));
            }
            i = i + 1;
        }
        proof {
            assert(texts_of(self.include_fields@).take(self.include_fields@.len() as int) =~= texts_of(self.include_fields@));
        }
        if self.include_fields.len() == 0 {
            match data {
                JsonValue::Object(m) => pairs_of(m, &mut parts),
                _ => {},
            }
        }
        proof {
            assert(texts_of(parts@) =~= plain_parts(self.includes_timestamp(), self.fields(), *data));
        }
        Ok(join(&parts, " "))
    }
}

/// `text` wrapped in the terminal colour `code` when `color`, else as it is.
pub open spec fn colorized(color: bool, text: Seq<char>, code: Seq<char>) -> Seq<char> {
    if color {
        "\x1b["@ + code + "m"@ + text + "\x1b[0m"@
    } else {
        text
    }
}

/// One line of pretty output: a yellow label, and a value in colour `code`.
pub open spec fn labeled_line(color: bool, label: Seq<char>, value: Seq<char>, code: Seq<char>) -> Seq<char> {
    colorized(color, label, "1;33"@) + ": "@ + colorized(color, value, code) + "\n"@
}

/// The colour of a log level.
pub open spec fn level_color(level: Seq<char>) -> Seq<char> {
    if level == "ERROR"@ {
        "1;31"@
    } else if level == "WARN"@ {
        "1;33"@
    } else if level == "INFO"@ {
        "1;32"@
    } else if level == "DEBUG"@ {
        "1;34"@
    } else {
        "1;37"@
    }
}

/// The compact JSON texts of values.
pub open spec fn compact_list(s: Seq<JsonValue>) -> Seq<Seq<char>> {
    s.map_values(|x: JsonValue| json_compact(x@))
}

/// The `key: value` texts of entries, values as compact JSON.
pub open spec fn pair_list(es: Seq<(String, JsonValue)>) -> Seq<Seq<char>> {
    es.map_values(|e: (String, JsonValue)| e.0@ + ": "@ + json_compact(e.1@))
}

/// The text of a value in pretty output.
pub open spec fn pretty_value(v: JsonValue) -> Seq<char> {
    match v {
        JsonValue::Array(a) => "["@ + join_texts(compact_list(a@), ", "@) + "]"@,
        JsonValue::Object(m) => "{"@ + join_texts(pair_list(m.spec_entries()), ", "@) + "}"@,
        _ => value_text(v),
    }
}

/// Whether a key has a line of its own in pretty output.
pub open spec fn leading_key(k: Seq<char>) -> bool {
    k == "timestamp"@ || k == "level"@ || k == "message"@
}

/// The lines of pretty output for the other fields of `entries`, in order.
pub open spec fn rest_lines(color: bool, entries: Seq<(String, JsonValue)>) -> Seq<char>
    decreases entries.len(),
{
    if entries.len() == 0 {
        Seq::empty()
    } else {
        let rest = rest_lines(color, entries.drop_last());
        let (k, v) = entries.last();
        if leading_key(k@) {
            rest
        } else {
            rest + labeled_line(color, k@, pretty_value(v), "1;37"@)
        }
    }
}

/// The line for text field `key` of `data` under `label`, if it is text.
pub open spec fn text_field_line(color: bool, data: JsonValue, key: Seq<char>, label: Seq<char>) -> Seq<char> {
    if data.spec_field(key) matches Some(JsonValue::String(t)) {
        let t = data.spec_field(key)->Some_0->String_0@;
        labeled_line(color, label, t, if key == "level"@ { level_color(t) } else { "1;37"@ })
    } else {
        Seq::empty()
    }
}

/// The pretty output of a payload.
pub open spec fn pretty_output(color: bool, data: JsonValue) -> Seq<char> {
    colorized(color, "=== Event ==="@, "1;36"@) + "\n"@
        + text_field_line(color, data, "timestamp"@, "Timestamp"@)
        + text_field_line(color, data, "level"@, "Level"@)
        + text_field_line(color, data, "message"@, "Message"@)
        + (if data is Object { rest_lines(color, data->Object_0.spec_entries()) } else { Seq::empty() })
        + colorized(color, "============="@, "1;36"@)
}

/// Pretty output is framed by its header and footer line: in cyan with
/// colour, plain without.
pub proof fn law_pretty_frame(color: bool, data: JsonValue)
    ensures
        ({
            let out = pretty_output(color, data);
            let head = colorized(color, "=== Event ==="@, "1;36"@) + "\n"@;
            let foot = colorized(color, "============="@, "1;36"@);
            &&& out.len() >= head.len() + foot.len()
            &&& out.take(head.len() as int) == head
            &&& out.skip(out.len() - foot.len()) == foot
        }),
        color ==> colorized(color, "=== Event ==="@, "1;36"@) + "\n"@ == "\x1b[1;36m=== Event ===\x1b[0m\n"@,
        color ==> colorized(color, "============="@, "1;36"@) == "\x1b[1;36m=============\x1b[0m"@,
        !color ==> colorized(color, "=== Event ==="@, "1;36"@) + "\n"@ == "=== Event ===\n"@,
        !color ==> colorized(color, "============="@, "1;36"@) == "============="@,
{
    let head = colorized(color, "=== Event ==="@, "1;36"@) + "\n"@;
    let foot = colorized(color, "============="@, "1;36"@);
    let mid = text_field_line(color, data, "timestamp"@, "Timestamp"@)
        + text_field_line(color, data, "level"@, "Level"@)
        + text_field_line(color, data, "message"@, "Message"@)
        + (if data is Object { rest_lines(color, data->Object_0.spec_entries()) } else { Seq::empty() });
    let out = pretty_output(color, data);
    assert(out =~= head + mid + foot);
    assert(out.take(head.len() as int) =~= head);
    assert(out.skip(out.len() - foot.len()) =~= foot);
    reveal_strlit("=== Event ===");
    reveal_strlit("=============");
    reveal_strlit("1;36");
    reveal_strlit("\x1b[");
    reveal_strlit("m");
    reveal_strlit("\x1b[0m");
    reveal_strlit("\n");
    reveal_strlit("\x1b[1;36m=== Event ===\x1b[0m\n");
    reveal_strlit("\x1b[1;36m=============\x1b[0m");
    reveal_strlit("=== Event ===\n");
    if color {
        assert(head =~= "\x1b[1;36m=== Event ===\x1b[0m\n"@);
        assert(foot =~= "\x1b[1;36m=============\x1b[0m"@);
    } else {
        assert(head =~= "=== Event ===\n"@);
    }
}

/// Whether `piece` occurs in `s` as a run of consecutive characters.
pub open spec fn has_piece(s: Seq<char>, piece: Seq<char>) -> bool {
    exists|i: int| 0 <= i && i + piece.len() <= s.len() && #[trigger] s.subrange(i, i + piece.len()) == piece
}

/// A piece between two texts occurs in their concatenation.
proof fn lemma_piece_between(a: Seq<char>, p: Seq<char>, b: Seq<char>)
    ensures
        has_piece(a + p + b, p),
{
    let s = a + p + b;
    assert(s.subrange(a.len() as int, (a.len() + p.len()) as int) =~= p);
}

/// A piece of a text occurs in any text around it.
proof fn lemma_piece_within(a: Seq<char>, x: Seq<char>, b: Seq<char>, p: Seq<char>)
    requires
        has_piece(x, p),
    ensures
        has_piece(a + x + b, p),
{
    let i = choose|i: int| 0 <= i && i + p.len() <= x.len() && #[trigger] x.subrange(i, i + p.len()) == p;
    let s = a + x + b;
    assert(s.subrange(a.len() + i, a.len() + i + p.len()) =~= x.subrange(i, i + p.len()));
}

/// The uncoloured line of pretty output for a field `k` holding `v`.
pub open spec fn plain_field_line(k: Seq<char>, v: JsonValue) -> Seq<char> {
    k + ": "@ + pretty_value(v) + "\n"@
}

/// Each field of `entries` without a line of its own has its line among
/// the other lines.
proof fn lemma_rest_lines_hold(entries: Seq<(String, JsonValue)>, i: int)
    requires
        0 <= i < entries.len(),
        !leading_key(entries[i].0@),
    ensures
        has_piece(rest_lines(false, entries), plain_field_line(entries[i].0@, entries[i].1)),
    decreases entries.len(),
{
    let rest = rest_lines(false, entries.drop_last());
    let (k, v) = entries.last();
    let p = plain_field_line(entries[i].0@, entries[i].1);
    if i == entries.len() - 1 {
        assert(labeled_line(false, k@, pretty_value(v), "1;37"@) == p);
        assert(rest_lines(false, entries) == rest + p);
        lemma_piece_between(rest, p, Seq::empty());
        assert(rest + p + Seq::<char>::empty() =~= rest + p);
    } else {
        lemma_rest_lines_hold(entries.drop_last(), i);
        assert(entries.drop_last()[i] == entries[i]);
        let tail = if leading_key(k@) { Seq::<char>::empty() } else { labeled_line(false, k@, pretty_value(v), "1;37"@) };
        assert(rest_lines(false, entries) == rest + tail);
        lemma_piece_within(Seq::empty(), rest, tail, p);
        assert(Seq::<char>::empty() + rest + tail =~= rest + tail);
    }
}

/// Uncoloured pretty output shows every field of the payload.
proof fn lemma_pretty_output_shows_fields(data: JsonValue)
    ensures
        data.spec_field("timestamp"@) matches Some(JsonValue::String(t)) ==> has_piece(pretty_output(false, data), "Timestamp: "@ + t@ + "\n"@),
        data.spec_field("level"@) matches Some(JsonValue::String(t)) ==> has_piece(pretty_output(false, data), "Level: "@ + t@ + "\n"@),
        data.spec_field("message"@) matches Some(JsonValue::String(t)) ==> has_piece(pretty_output(false, data), "Message: "@ + t@ + "\n"@),
        data is Object ==> forall|i: int| 0 <= i < data->Object_0.spec_entries().len() && !leading_key(data->Object_0.spec_entries()[i].0@)
            ==> has_piece(pretty_output(false, data), #[trigger] plain_field_line(data->Object_0.spec_entries()[i].0@, data->Object_0.spec_entries()[i].1)),
{
    reveal_strlit("Timestamp: ");
    reveal_strlit("Level: ");
    reveal_strlit("Message: ");
    reveal_strlit("Timestamp");
    reveal_strlit("Level");
    reveal_strlit("Message");
    reveal_strlit(": ");
    let head = colorized(false, "=== Event ==="@, "1;36"@) + "\n"@;
    let lt = text_field_line(false, data, "timestamp"@, "Timestamp"@);
    let ll = text_field_line(false, data, "level"@, "Level"@);
    let lm = text_field_line(false, data, "message"@, "Message"@);
    let rest = if data is Object { rest_lines(false, data->Object_0.spec_entries()) } else { Seq::<char>::empty() };
    let foot = colorized(false, "============="@, "1;36"@);
    let out = pretty_output(false, data);
    assert(out == head + lt + ll + lm + rest + foot);
    if let Some(JsonValue::String(t)) = data.spec_field("timestamp"@) {
        assert(lt =~= "Timestamp: "@ + t@ + "\n"@);
        lemma_piece_between(head, lt, ll + lm + rest + foot);
        assert(head + lt + (ll + lm + rest + foot) =~= out);
    }
    if let Some(JsonValue::String(t)) = data.spec_field("level"@) {
        assert(ll =~= "Level: "@ + t@ + "\n"@);
        lemma_piece_between(head + lt, ll, lm + rest + foot);
        assert(head + lt + ll + (lm + rest + foot) =~= out);
    }
    if let Some(JsonValue::String(t)) = data.spec_field("message"@) {
        assert(lm =~= "Message: "@ + t@ + "\n"@);
        lemma_piece_between(head + lt + ll, lm, rest + foot);
        assert(head + lt + ll + lm + (rest + foot) =~= out);
    }
    if data is Object {
        let es = data->Object_0.spec_entries();
        assert forall|i: int| 0 <= i < es.len() && !leading_key(es[i].0@)
            implies has_piece(out, #[trigger] plain_field_line(es[i].0@, es[i].1)) by {
            lemma_rest_lines_hold(es, i);
            lemma_piece_within(head + lt + ll + lm, rest, foot, plain_field_line(es[i].0@, es[i].1));
        }
    }
}

/// Formats the payload as a block of labelled lines, in colour when asked.
pub struct PrettyFormatter {
    color: bool,
}

/// The text of `v` in pretty output.
fn pretty_value_string(v: &JsonValue) -> (r: String)
    ensures
        r@ == pretty_value(*v),
        clean_value(*v) ==> no_escape(r@),
{
    match v {
        JsonValue::Array(a) => {
            let mut items: Vec<String> = Vec::new();
            let mut i: usize = 0;
            while i < a.len()
                invariant
                    0 <= i <= a@.len(),
                    texts_of(items@) == compact_list(a@.take(i as int)),
                    forall|j: int| 0 <= j < items@.len() ==> no_escape(#[trigger] items@[j]@),
                decreases a@.len() - i,
            {
                let ghost before = items@;
                let t = compact_text(&a[i]);
                items.push(t);
                proof {
                    assert(texts_of(items@) =~= texts_of(before).push(t@));
                    assert(compact_list(a@.take(i + 1)) =~= compact_list(a@.take(i as int)).push(json_compact(a@[i as int]@)));
                }
                i = i + 1;
            }
            proof {
                assert(a@.take(a@.len() as int) =~= a@);
            }
            let joined = join(&items, ", ");
            proof {
                reveal_strlit(", ");
                reveal_strlit("[");
                reveal_strlit("]");
                assert forall|j: int| 0 <= j < texts_of(items@).len() implies no_escape(#[trigger] texts_of(items@)[j]) by {
                    assert(texts_of(items@)[j] == items@[j]@);
                }
                lemma_join_no_escape(texts_of(items@), ", "@);
                lemma_concat_no_escape("["@, joined@);
                lemma_concat_no_escape("["@ + joined@, "]"@);
            }
            let mut r = text_of("[");
            push_text(&mut r, joined.as_str());
            push_text(&mut r, "]");
            r
        },
        JsonValue::Object(m) => {
            let entries = m.entries();
            proof {
                if clean_value(*v) {
                    assert forall|j: int| 0 <= j < entries@.len() implies no_escape(#[trigger] entries@[j].0@) by {
                        assert(no_escape(m.spec_entries()[j].0@));
                    }
                }
            }
            let mut items: Vec<String> = Vec::new();
            let mut i: usize = 0;
            while i < entries.len()
                invariant
                    0 <= i <= entries@.len(),
                    entries@ == m.spec_entries(),
                    texts_of(items@) == pair_list(entries@.take(i as int)),
                    clean_value(*v) ==> forall|j: int| 0 <= j < items@.len() ==> no_escape(#[trigger] items@[j]@),
                    clean_value(*v) ==> forall|j: int| 0 <= j < entries@.len() ==> no_escape(#[trigger] entries@[j].0@),
                decreases entries@.len() - i,
            {
                let ghost before = items@;
                let mut t = entries[i].0.clone();
                push_text(&mut t, ": ");
                let c = compact_text(&entries[i].1);
                push_text(&mut t, c.as_str());
                proof {
                    if clean_value(*v) {
                        reveal_strlit(": ");
                        assert(no_escape(entries@[i as int].0@));
                        lemma_concat_no_escape(entries@[i as int].0@, ": "@);
                        lemma_concat_no_escape(entries@[i as int].0@ + ": "@, c@);
                    }
                }
                items.push(t);
                proof {
                    assert(texts_of(items@) =~= texts_of(before).push(t@));
                    assert(pair_list(entries@.take(i + 1)) =~= pair_list(entries@.take(i as int)).push(entries@[i as int].0@ + ": "@ + json_compact(entries@[i as int].1@)));
                }
                i = i + 1;
            }
            proof {
                assert(entries@.take(entries@.len() as int) =~= entries@);
            }
            let joined = join(&items, ", ");
            proof {
                if clean_value(*v) {
                    reveal_strlit(", ");
                    reveal_strlit("{");
                    reveal_strlit("}");
                    assert forall|j: int| 0 <= j < texts_of(items@).len() implies no_escape(#[trigger] texts_of(items@)[j]) by {
                        assert(texts_of(items@)[j] == items@[j]@);
                    }
                    lemma_join_no_escape(texts_of(items@), ", "@);
                    lemma_concat_no_escape("{"@, joined@);
                    lemma_concat_no_escape("{"@ + joined@, "}"@);
                }
            }
            let mut r = text_of("{");
            push_text(&mut r, joined.as_str());
            push_text(&mut r, "}");
            r
        },
        _ => value_string(v),
    }
}

/// A labelled line without colour holds no escape character when its label
/// and value hold none.
proof fn lemma_labeled_no_escape(label: Seq<char>, value: Seq<char>, code: Seq<char>)
    requires
        no_escape(label),
        no_escape(value),
    ensures
        no_escape(labeled_line(false, label, value, code)),
{
    reveal_strlit(": ");
    reveal_strlit("\n");
    lemma_concat_no_escape(label, ": "@);
    lemma_concat_no_escape(label + ": "@, value);
    lemma_concat_no_escape(label + ": "@ + value, "\n"@);
}

/// The line for a text field of a clean payload, without colour, holds no
/// escape character.
proof fn lemma_text_field_no_escape(data: JsonValue, key: Seq<char>, label: Seq<char>)
    requires
        clean_payload(data),
        no_escape(label),
    ensures
        no_escape(text_field_line(false, data, key, label)),
{
    if data.spec_field(key) matches Some(JsonValue::String(t)) {
        let es = data->Object_0.spec_entries();
        lemma_lookup_found(es, key);
        let i = choose|i: int| 0 <= i < es.len() && #[trigger] es[i].0@ == key && lookup(es, key) == Some(es[i].1);
        assert(clean_value(es[i].1));
        let t = data.spec_field(key)->Some_0->String_0@;
        lemma_labeled_no_escape(label, t, if key == "level"@ { level_color(t) } else { "1;37"@ });
    }
}

impl PrettyFormatter {
    /// Whether the output is coloured.
    pub closed spec fn in_color(&self) -> bool {
        self.color
    }

    /// A pretty formatter.
    pub fn new(color: bool) -> (f: Self)
        ensures
            f.in_color() == color,
    {
        PrettyFormatter { color }
    }

    /// `text` wrapped in the terminal colour `color_code` when this
    /// formatter colours, else as it is.
    pub fn colorize(&self, text: &str, color_code: &str) -> (r: String)
        ensures
            r@ == colorized(self.in_color(), text@, color_code@),
    {
        if self.color {
            let mut r = text_of("\x1b[");
            push_text(&mut r, color_code);
            push_text(&mut r, "m");
            push_text(&mut r, text);
            push_text(&mut r, "\x1b[0m");
            r
        } else {
            text_of(text)
        }
    }

    /// Appends one labelled line.
    fn push_line(&self, out: &mut String, label: &str, value: &str, code: &str)
        ensures
            final(out)@ == old(out)@ + labeled_line(self.in_color(), label@, value@, code@),
    {
        push_text(out, self.colorize(label, "1;33").as_str());
        push_text(out, ": ");
        push_text(out, self.colorize(value, code).as_str());
        push_text(out, "\n");
    }

    /// Appends the line for text field `key` under `label`, if it is text.
    fn push_text_field(&self, out: &mut String, data: &JsonValue, key: &str, label: &str)
        ensures
            final(out)@ == old(out)@ + text_field_line(self.in_color(), *data, key@, label@),
    {
        match data.get(key) {
            Some(JsonValue::String(t)) => {
                let code = if text_eq(key, "level") { level_code(t.as_str()) } else { "1;37" };
                self.push_line(out, label, t.as_str(), code);
            },
            _ => {
                proof {
                    assert(old(out)@ + Seq::<char>::empty() =~= old(out)@);
                }
            },
        }
    }
}

/// The colour of a log level.
fn level_code(level: &str) -> (r: &'static str)
    ensures
        r@ == level_color(level@),
{
    if text_eq(level, "ERROR") {
        "1;31"
    } else if text_eq(level, "WARN") {
        "1;33"
    } else if text_eq(level, "INFO") {
        "1;32"
    } else if text_eq(level, "DEBUG") {
        "1;34"
    } else {
        "1;37"
    }
}

impl Formatter for PrettyFormatter {
    open spec fn formats(&self, data: JsonValue, r: Result<String, FormatError>) -> bool {
        r matches Ok(t) && t@ == pretty_output(self.in_color(), data)
    }

    /// Without colour, the output of a clean payload holds no escape
    /// character.
    fn format(&self, event: &Event) -> (r: Result<String, FormatError>)
        ensures
            !self.in_color() && clean_payload(event.spec_data()) ==> (r matches Ok(t) && no_escape(t@)),
    {
        let data = event.data();
        let ghost plain = !self.in_color() && clean_payload(*data);
        let mut out = self.colorize("=== Event ===", "1;36");
        push_text(&mut out, "\n");
        proof {
            if plain {
                reveal_strlit("=== Event ===");
                reveal_strlit("\n");
                lemma_concat_no_escape("=== Event ==="@, "\n"@);
                assert(no_escape(out@));
            }
        }
        let ghost o0 = out@;
        self.push_text_field(&mut out, data, "timestamp", "Timestamp");
        let ghost o1 = out@;
        self.push_text_field(&mut out, data, "level", "Level");
        let ghost o2 = out@;
        self.push_text_field(&mut out, data, "message", "Message");
        proof {
            if plain {
                reveal_strlit("Timestamp");
                reveal_strlit("Level");
                reveal_strlit("Message");
                lemma_text_field_no_escape(*data, "timestamp"@, "Timestamp"@);
                lemma_text_field_no_escape(*data, "level"@, "Level"@);
                lemma_text_field_no_escape(*data, "message"@, "Message"@);
                lemma_concat_no_escape(o0, text_field_line(false, *data, "timestamp"@, "Timestamp"@));
                lemma_concat_no_escape(o1, text_field_line(false, *data, "level"@, "Level"@));
                lemma_concat_no_escape(o2, text_field_line(false, *data, "message"@, "Message"@));
            }
        }
        let ghost head = out@;
        match data {
            JsonValue::Object(m) => {
                let entries = m.entries();
                let ghost es = entries@;
                let mut i: usize = 0;
                proof {
                    assert(es.take(0) =~= Seq::<(String, JsonValue)>::empty());
                    assert(head + rest_lines(self.in_color(), es.take(0)) =~= head);
                }
                while i < entries.len()
                    invariant
                        0 <= i <= es.len(),
                        es == entries@,
                        es == m.spec_entries(),
                        out@ == head + rest_lines(self.in_color(), es.take(i as int)),
                        plain == (!self.in_color() && clean_payload(*data)),
                        *data == JsonValue::Object(*m),
                        plain ==> no_escape(out@),
                    decreases es.len() - i,
                {
                    let k = entries[i].0.as_str();
                    proof {
                        assert(es.take(i + 1).drop_last() =~= es.take(i as int));
                        assert(es.take(i + 1).last() == es[i as int]);
                    }
                    if !(text_eq(k, "timestamp") || text_eq(k, "level") || text_eq(k, "message")) {
                        let v = pretty_value_string(&entries[i].1);
                        let ghost before = out@;
                        self.push_line(&mut out, k, v.as_str(), "1;37");
                        proof {
                            if plain {
                                let d = *data;
                                assert(no_escape(d->Object_0.spec_entries()[i as int].0@) && clean_value(d->Object_0.spec_entries()[i as int].1));
                                assert(no_escape(es[i as int].0@) && clean_value(es[i as int].1));
                                lemma_labeled_no_escape(k@, v@, "1;37"@);
                                lemma_concat_no_escape(before, labeled_line(false, k@, v@, "1;37"@));
                            }
                        }
                    }
                    proof {
                        assert(out@ =~= head + rest_lines(self.in_color(), es.take(i + 1)));
                    }
                    i = i + 1;
                }
                proof {
                    assert(es.take(es.len() as int) =~= es);
                }
            },
            _ => {},
        }
        let ghost body = out@;
        push_text(&mut out, self.colorize("=============", "1;36").as_str());
        proof {
            if plain {
                reveal_strlit("=============");
                lemma_concat_no_escape(body, "============="@);
            }
        }
        Ok(out)
    }
}

/// An uncoloured pretty formatter shows every field of the payload: a text
/// `timestamp`, `level` or `message` on a line of its own, labelled
/// `Timestamp`, `Level` or `Message`, and every other field on a line
/// `key: value`.
pub proof fn law_pretty_shows_fields(f: PrettyFormatter, data: JsonValue, r: Result<String, FormatError>)
    requires
        !f.in_color(),
        f.formats(data, r),
    ensures
        r is Ok,
        data.spec_field("timestamp"@) matches Some(JsonValue::String(t)) ==> has_piece(r->Ok_0@, "Timestamp: "@ + t@ + "\n"@),
        data.spec_field("level"@) matches Some(JsonValue::String(t)) ==> has_piece(r->Ok_0@, "Level: "@ + t@ + "\n"@),
        data.spec_field("message"@) matches Some(JsonValue::String(t)) ==> has_piece(r->Ok_0@, "Message: "@ + t@ + "\n"@),
        data is Object ==> forall|i: int| 0 <= i < data->Object_0.spec_entries().len() && !leading_key(data->Object_0.spec_entries()[i].0@)
            ==> has_piece(r->Ok_0@, #[trigger] plain_field_line(data->Object_0.spec_entries()[i].0@, data->Object_0.spec_entries()[i].1)),
{
    lemma_pretty_output_shows_fields(data);
}

/// Joining a text in front of others puts it first, before a separator.
proof fn lemma_join_prepend(x: Seq<char>, ps: Seq<Seq<char>>, sep: Seq<char>)
    ensures
        join_texts(seq![x] + ps, sep) == (if ps.len() == 0 { x } else { x + sep + join_texts(ps, sep) }),
    decreases ps.len(),
{
    let all = seq![x] + ps;
    if ps.len() == 0 {
        assert(all =~= seq![x]);
        assert(join_texts(all, sep) == x);
    } else if ps.len() == 1 {
        assert(all.drop_last() =~= seq![x]);
        assert(join_texts(seq![x], sep) == x);
        assert(all.last() == ps[0]);
        assert(join_texts(all, sep) == join_texts(all.drop_last(), sep) + sep + all.last());
        assert(join_texts(ps, sep) == ps[0]);
    } else {
        lemma_join_prepend(x, ps.drop_last(), sep);
        assert(all.drop_last() =~= seq![x] + ps.drop_last());
        assert(all.last() == ps.last());
        assert(join_texts(all, sep) == join_texts(all.drop_last(), sep) + sep + all.last());
        assert(join_texts(ps, sep) == join_texts(ps.drop_last(), sep) + sep + ps.last());
        assert(x + sep + join_texts(ps.drop_last(), sep) + sep + ps.last() =~= x + sep + (join_texts(ps.drop_last(), sep) + sep + ps.last()));
    }
}

/// A plain formatter that includes the time stamp puts the payload's text
/// `timestamp` first, whatever fields it lists, followed by exactly what the
/// same formatter without the time stamp writes; without a text
/// `timestamp` in the payload the two write the same.
pub proof fn law_plain_timestamp_leads(
    f: PlainFormatter,
    g: PlainFormatter,
    data: JsonValue,
    r: Result<String, FormatError>,
    q: Result<String, FormatError>,
)
    requires
        f.includes_timestamp(),
        !g.includes_timestamp(),
        f.fields() == g.fields(),
        f.formats(data, r),
        g.formats(data, q),
    ensures
        r is Ok && q is Ok,
        data.spec_field("timestamp"@) matches Some(JsonValue::String(t)) ==> r->Ok_0@.len() >= t@.len() && r->Ok_0@.take(t@.len() as int) == t@
            && (r->Ok_0@ == t@ + " "@ + q->Ok_0@ || (r->Ok_0@ == t@ && q->Ok_0@.len() == 0)),
        !(data.spec_field("timestamp"@) matches Some(JsonValue::String(_))) ==> r->Ok_0@ == q->Ok_0@,
{
    let fs = f.fields();
    let rest = plain_parts(false, fs, data);
    let listed = fs.map_values(|x: Seq<char>| field_part(data, x));
    let pairs = if fs.len() == 0 && data is Object {
        pair_parts(data->Object_0.spec_entries())
    } else {
        Seq::<Seq<char>>::empty()
    };
    assert(rest =~= listed + pairs);
    if let Some(JsonValue::String(t)) = data.spec_field("timestamp"@) {
        assert(plain_parts(true, fs, data) =~= seq![t@] + rest);
        lemma_join_prepend(t@, rest, " "@);
        if rest.len() == 0 {
            assert(join_texts(rest, " "@) == Seq::<char>::empty());
            assert(r->Ok_0@.take(t@.len() as int) =~= t@);
        } else {
            assert((t@ + " "@ + join_texts(rest, " "@)).take(t@.len() as int) =~= t@);
        }
    } else {
        assert(plain_parts(true, fs, data) =~= rest);
    }
}

/// The boolean setting `key` of `cfg`, or `default` when it is not a boolean.
pub open spec fn setting_bool(cfg: ObjectMap, key: Seq<char>, default: bool) -> bool {
    match cfg.spec_get(key) {
        Some(JsonValue::Bool(b)) => b,
        _ => default,
    }
}

/// The texts among `items`, in order.
pub open spec fn text_items(items: Seq<JsonValue>) -> Seq<Seq<char>>
    decreases items.len(),
{
    if items.len() == 0 {
        Seq::empty()
    } else {
        let rest = text_items(items.drop_last());
        match items.last() {
            JsonValue::String(s) => rest.push(s@),
            _ => rest,
        }
    }
}

/// The fields setting of `cfg`: the texts of its `fields` array, or none.
pub open spec fn fields_setting(cfg: ObjectMap) -> Seq<Seq<char>> {
    match cfg.spec_get("fields"@) {
        Some(JsonValue::Array(a)) => text_items(a@),
        _ => Seq::empty(),
    }
}

/// One of the formatters of this library.
pub enum StandardFormatter {
    /// JSON text.
    Json(JsonFormatter),
    /// Labelled lines.
    Pretty(PrettyFormatter),
    /// Space-separated values.
    Plain(PlainFormatter),
}

/// Whether `f` is the formatter that `format` and the settings `cfg` ask
/// for: JSON compact unless `pretty`; pretty in colour unless `color` is
/// false; plain with the `timestamp` unless it is false, and the `fields`
/// listed.
pub open spec fn formatter_matches(f: StandardFormatter, format: OutputFormat, cfg: ObjectMap) -> bool {
    match format {
        OutputFormat::Json => f matches StandardFormatter::Json(j) && j.is_pretty() == setting_bool(cfg, "pretty"@, false),
        OutputFormat::Pretty => f matches StandardFormatter::Pretty(p) && p.in_color() == setting_bool(cfg, "color"@, true),
        OutputFormat::Plain => f matches StandardFormatter::Plain(p) && p.includes_timestamp() == setting_bool(cfg, "timestamp"@, true)
            && p.fields() == fields_setting(cfg),
    }
}

impl Formatter for StandardFormatter {
    open spec fn formats(&self, data: JsonValue, r: Result<String, FormatError>) -> bool {
        match self {
            StandardFormatter::Json(f) => f.formats(data, r),
            StandardFormatter::Pretty(f) => f.formats(data, r),
            StandardFormatter::Plain(f) => f.formats(data, r),
        }
    }

    fn format(&self, event: &Event) -> (r: Result<String, FormatError>) {
        match self {
            StandardFormatter::Json(f) => f.format(event),
            StandardFormatter::Pretty(f) => f.format(event),
            StandardFormatter::Plain(f) => f.format(event),
        }
    }
}

/// The boolean setting `key` of `cfg`, or `default`.
fn bool_setting(cfg: &ObjectMap, key: &str, default: bool) -> (b: bool)
    ensures
        b == setting_bool(*cfg, key@, default),
{
    match cfg.get(key) {
        Some(JsonValue::Bool(b)) => *b,
        _ => default,
    }
}

/// The texts of the `fields` array setting of `cfg`, in order.
fn fields_of_setting(cfg: &ObjectMap) -> (r: Vec<String>)
    ensures
        texts_of(r@) == fields_setting(*cfg),
{
    let mut r: Vec<String> = Vec::new();
    match cfg.get("fields") {
        Some(JsonValue::Array(a)) => {
            let mut i: usize = 0;
            while i < a.len()
                invariant
                    0 <= i <= a@.len(),
                    texts_of(r@) == text_items(a@.take(i as int)),
                decreases a@.len() - i,
            {
                let ghost before = r@;
                proof {
                    assert(a@.take(i + 1).drop_last() =~= a@.take(i as int));
                    assert(a@.take(i + 1).last() == a@[i as int]);
                }
                match &a[i] {
                    JsonValue::String(s) => {
                        r.push(s.clone());
                        proof {
                            assert(texts_of(r@) =~= texts_of(before).push(s@));
                        }
                    },
                    _ => {},
                }
                i = i + 1;
            }
            proof {
                assert(a@.take(a@.len() as int) =~= a@);
            }
        },
        _ => {
            proof {
                assert(texts_of(r@) =~= Seq::<Seq<char>>::empty());
            }
        },
    }
    r
}

/// The formatter that `format` and the settings `config` ask for.
pub fn build_formatter(format: OutputFormat, config: &ObjectMap) -> (f: StandardFormatter)
    ensures
        formatter_matches(f, format, *config),
{
    match format {
        OutputFormat::Json => StandardFormatter::Json(JsonFormatter::new(bool_setting(config, "pretty", false))),
        OutputFormat::Pretty => StandardFormatter::Pretty(PrettyFormatter::new(bool_setting(config, "color", true))),
        OutputFormat::Plain => StandardFormatter::Plain(
            PlainFormatter::new(bool_setting(config, "timestamp", true), fields_of_setting(config)),
        ),
    }
}

/// The formatter that `format` and the settings `config` ask for; never
/// fails.
pub fn create_formatter(format: OutputFormat, config: &ObjectMap) -> (r: Result<Box<dyn Formatter>, FormatError>)
    ensures
        r is Ok,
        exists|g: StandardFormatter| #[trigger] formatter_matches(g, format, *config)
            && forall|d: JsonValue, t: Result<String, FormatError>| #[trigger] r->Ok_0.formats(d, t) == g.formats(d, t),
{
    let g = build_formatter(format, config);
    let ghost gg = g;
    let r: Result<Box<dyn Formatter>, FormatError> = Ok(Box::new(g));
    proof {
        assert(forall|d: JsonValue, t: Result<String, FormatError>| #[trigger] r->Ok_0.formats(d, t) == gg.formats(d, t));
    }
    r
}

}
