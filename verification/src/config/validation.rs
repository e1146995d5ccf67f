//! Configuration validation against the plugin types this build knows.
use vstd::prelude::*;
use crate::config::config::{AppConfig, FilterConfig, InputConfig, OutputConfig};
use crate::text::{decimal, join, join_texts, push_text, text_eq, text_of, texts_of, usize_text};

verus! {

/// The texts of a list of strings hold no text twice.
pub open spec fn distinct_texts(v: Seq<String>) -> bool {
    forall|i: int, j: int| 0 <= i < j < v.len() ==> #[trigger] v[i]@ != #[trigger] v[j]@
}

/// Validates configurations against the allowed input, filter and output types.
#[derive(Debug)]
pub struct ConfigValidator {
    allowed_inputs: Vec<String>,
    allowed_filters: Vec<String>,
    allowed_outputs: Vec<String>,
}

/// "unknown type" message: `kind[i]: unknown kind type 't'. Allowed: a, b`.
pub open spec fn unknown_type_message(kind: Seq<char>, i: nat, t: Seq<char>, allowed: Seq<Seq<char>>) -> Seq<char> {
    kind + "["@ + decimal(i) + "]: unknown "@ + kind + " type '"@ + t + "'. Allowed: "@ + join_texts(allowed, ", "@)
}

/// "duplicate" message: `input[i]: duplicate configuration for type 't'`.
pub open spec fn duplicate_message(i: nat, t: Seq<char>) -> Seq<char> {
    "input["@ + decimal(i) + "]: duplicate configuration for type '"@ + t + "'"@
}

/// The messages about plugin `i` of a list, whose type is `t`.
pub open spec fn entry_messages(kind: Seq<char>, allowed: Seq<Seq<char>>, i: nat, t: Seq<char>) -> Seq<Seq<char>> {
    if allowed.contains(t) {
        Seq::empty()
    } else {
        seq![unknown_type_message(kind, i, t, allowed)]
    }
}

/// The messages about the first `n` plugins of a list, given by their types.
pub open spec fn list_messages(kind: Seq<char>, allowed: Seq<Seq<char>>, ts: Seq<Seq<char>>, n: int) -> Seq<Seq<char>>
    decreases n,
{
    if n <= 0 {
        Seq::empty()
    } else {
        list_messages(kind, allowed, ts, n - 1) + entry_messages(kind, allowed, (n - 1) as nat, ts[n - 1])
    }
}

/// The types of the inputs.
pub open spec fn input_kinds(v: Seq<InputConfig>) -> Seq<Seq<char>> {
    v.map_values(|c: InputConfig| c.kind@)
}

/// The types of the filters.
pub open spec fn filter_kinds(v: Seq<FilterConfig>) -> Seq<Seq<char>> {
    v.map_values(|c: FilterConfig| c.kind@)
}

/// The types of the outputs.
pub open spec fn output_kinds(v: Seq<OutputConfig>) -> Seq<Seq<char>> {
    v.map_values(|c: OutputConfig| c.kind@)
}

/// Input `i` repeats the type and configuration of an earlier input.
pub open spec fn is_duplicate(v: Seq<InputConfig>, i: int) -> bool {
    exists|j: int| 0 <= j < i && #[trigger] v[j].kind@ == v[i].kind@ && v[j].config.entries_view() == v[i].config.entries_view()
}

/// The duplicate messages about the first `n` inputs.
pub open spec fn duplicate_messages(v: Seq<InputConfig>, n: int) -> Seq<Seq<char>>
    decreases n,
{
    if n <= 0 {
        Seq::empty()
    } else {
        duplicate_messages(v, n - 1) + (if is_duplicate(v, n - 1) {
            seq![duplicate_message((n - 1) as nat, v[n - 1].kind@)]
        } else {
            Seq::empty()
        })
    }
}

/// Every problem that `ConfigValidator::validate` reports, in order.
pub open spec fn validation_messages(
    allowed_inputs: Seq<Seq<char>>,
    allowed_filters: Seq<Seq<char>>,
    allowed_outputs: Seq<Seq<char>>,
    c: AppConfig,
) -> Seq<Seq<char>> {
    (if c.workers == 0 { seq!["workers must be greater than 0"@] } else { Seq::empty() })
    + (if c.batch_size == 0 { seq!["batch_size must be greater than 0"@] } else { Seq::empty() })
    + (if c.buffer_size == 0 { seq!["buffer_size must be greater than 0"@] } else { Seq::empty() })
    + (if c.inputs@.len() == 0 { seq!["at least one input must be configured"@] } else { Seq::empty() })
    + list_messages("input"@, allowed_inputs, input_kinds(c.inputs@), c.inputs@.len() as int)
    + list_messages("filter"@, allowed_filters, filter_kinds(c.filters@), c.filters@.len() as int)
    + (if c.outputs@.len() == 0 { seq!["at least one output must be configured"@] } else { Seq::empty() })
    + list_messages("output"@, allowed_outputs, output_kinds(c.outputs@), c.outputs@.len() as int)
    + duplicate_messages(c.inputs@, c.inputs@.len() as int)
}

/// Whether `t` is among `allowed`.
fn allows(allowed: &Vec<String>, t: &str) -> (b: bool)
    ensures
        b == texts_of(allowed@).contains(t@),
{
    let mut i: usize = 0;
    while i < allowed.len()
        invariant
            0 <= i <= allowed@.len(),
            forall|j: int| 0 <= j < i ==> #[trigger] allowed@[j]@ != t@,
        decreases allowed@.len() - i,
    {
        if text_eq(allowed[i].as_str(), t) {
            proof {
                assert(texts_of(allowed@)[i as int] == t@);
            }
            return true;
        }
        i = i + 1;
    }
    proof {
        if texts_of(allowed@).contains(t@) {
            let j = choose|j: int| 0 <= j < texts_of(allowed@).len() && texts_of(allowed@)[j] == t@;
            assert(allowed@[j]@ == t@);
        }
    }
    false
}

/// Adds `t` to `allowed` unless it is there.
fn add_text(allowed: &mut Vec<String>, t: String)
    requires
        distinct_texts(old(allowed)@),
    ensures
        distinct_texts(final(allowed)@),
        texts_of(final(allowed)@).to_set() == texts_of(old(allowed)@).to_set().insert(t@),
{
    if !allows(allowed, t.as_str()) {
        let ghost t0 = t@;
        allowed.push(t);
        proof {
            assert(texts_of(allowed@) =~= texts_of(old(allowed)@).push(t0));
            texts_of(old(allowed)@).lemma_push_to_set_commute(t0);
            assert forall|i: int, j: int| 0 <= i < j < allowed@.len() implies #[trigger] allowed@[i]@ != #[trigger] allowed@[j]@ by {
                if j == allowed@.len() - 1 {
                    assert(texts_of(old(allowed)@)[i] == allowed@[i]@);
                }
            }
        }
    } else {
        proof {
            assert(texts_of(old(allowed)@).to_set() =~= texts_of(old(allowed)@).to_set().insert(t@));
        }
    }
}

/// The texts of `v` without repeats, first occurrences kept.
fn distinct_of(v: Vec<String>) -> (r: Vec<String>)
    ensures
        distinct_texts(r@),
        texts_of(r@).to_set() == texts_of(v@).to_set(),
{
    let mut r: Vec<String> = Vec::new();
    let mut i: usize = 0;
    proof {
        assert(texts_of(r@).to_set() =~= texts_of(v@.take(0)).to_set());
    }
    while i < v.len()
        invariant
            0 <= i <= v@.len(),
            distinct_texts(r@),
            texts_of(r@).to_set() == texts_of(v@.take(i as int)).to_set(),
        decreases v@.len() - i,
    {
        let t = v[i].clone();
        add_text(&mut r, t);
        proof {
            assert(texts_of(v@.take(i + 1)) =~= texts_of(v@.take(i as int)).push(v@[i as int]@));
            texts_of(v@.take(i as int)).lemma_push_to_set_commute(v@[i as int]@);
        }
        i = i + 1;
    }
    proof {
        assert(v@.take(v@.len() as int) =~= v@);
    }
    r
}

/// A list of literal texts as strings.
fn texts_from(items: &[&str]) -> (r: Vec<String>)
    ensures
        r@.len() == items@.len(),
        forall|i: int| 0 <= i < items@.len() ==> #[trigger] r@[i]@ == items@[i]@,
{
    let mut r: Vec<String> = Vec::new();
    let mut i: usize = 0;
    while i < items.len()
        invariant
            0 <= i <= items@.len(),
            r@.len() == i,
            forall|j: int| 0 <= j < i ==> #[trigger] r@[j]@ == items@[j]@,
        decreases items@.len() - i,
    {
        r.push(text_of(items[i]));
        i = i + 1;
    }
    r
}

impl ConfigValidator {
    #[verifier::type_invariant]
    spec fn distinct(self) -> bool {
        distinct_texts(self.allowed_inputs@) && distinct_texts(self.allowed_filters@) && distinct_texts(self.allowed_outputs@)
    }

    /// The allowed input types.
    pub closed spec fn spec_inputs(&self) -> Seq<Seq<char>> {
        texts_of(self.allowed_inputs@)
    }

    /// The allowed filter types.
    pub closed spec fn spec_filters(&self) -> Seq<Seq<char>> {
        texts_of(self.allowed_filters@)
    }

    /// The allowed output types.
    pub closed spec fn spec_outputs(&self) -> Seq<Seq<char>> {
        texts_of(self.allowed_outputs@)
    }

    /// A validator allowing the built-in types: inputs kafka, stdin, tcp,
    /// udp; filters add, drop, convert, date, grok, gsub; outputs
    /// elasticsearch, clickhouse, kafka, influxdb, stdout, tcp.
    pub fn new() -> (v: Self)
        ensures
            v.spec_inputs().to_set() == set!["kafka"@, "stdin"@, "tcp"@, "udp"@],
            v.spec_filters().to_set() == set!["add"@, "drop"@, "convert"@, "date"@, "grok"@, "gsub"@],
            v.spec_outputs().to_set() == set!["elasticsearch"@, "clickhouse"@, "kafka"@, "influxdb"@, "stdout"@, "tcp"@],
    {
        let inputs = texts_from(&["kafka", "stdin", "tcp", "udp"]);
        let filters = texts_from(&["add", "drop", "convert", "date", "grok", "gsub"]);
        let outputs = texts_from(&["elasticsearch", "clickhouse", "kafka", "influxdb", "stdout", "tcp"]);
        let v = ConfigValidator {
            allowed_inputs: distinct_of(inputs),
            allowed_filters: distinct_of(filters),
            allowed_outputs: distinct_of(outputs),
        };
        proof {
            assert(texts_of(inputs@) =~= seq!["kafka"@, "stdin"@, "tcp"@, "udp"@]);
            assert(texts_of(filters@) =~= seq!["add"@, "drop"@, "convert"@, "date"@, "grok"@, "gsub"@]);
            assert(texts_of(outputs@) =~= seq!["elasticsearch"@, "clickhouse"@, "kafka"@, "influxdb"@, "stdout"@, "tcp"@]);
            assert(seq!["kafka"@, "stdin"@, "tcp"@, "udp"@].to_set() =~= set!["kafka"@, "stdin"@, "tcp"@, "udp"@]);
            assert(seq!["add"@, "drop"@, "convert"@, "date"@, "grok"@, "gsub"@].to_set() =~= set!["add"@, "drop"@, "convert"@, "date"@, "grok"@, "gsub"@]);
            assert(seq!["elasticsearch"@, "clickhouse"@, "kafka"@, "influxdb"@, "stdout"@, "tcp"@].to_set() =~= set!["elasticsearch"@, "clickhouse"@, "kafka"@, "influxdb"@, "stdout"@, "tcp"@]);
        }
        v
    }

    /// A validator allowing exactly the given types (repeats ignored).
    pub fn with_allowed_types(allowed_inputs: Vec<String>, allowed_filters: Vec<String>, allowed_outputs: Vec<String>) -> (v: Self)
        ensures
            v.spec_inputs().to_set() == texts_of(allowed_inputs@).to_set(),
            v.spec_filters().to_set() == texts_of(allowed_filters@).to_set(),
            v.spec_outputs().to_set() == texts_of(allowed_outputs@).to_set(),
    {
        ConfigValidator {
            allowed_inputs: distinct_of(allowed_inputs),
            allowed_filters: distinct_of(allowed_filters),
            allowed_outputs: distinct_of(allowed_outputs),
        }
    }

    /// The allowed input types.
    pub fn allowed_inputs(&self) -> (r: &Vec<String>)
        ensures
            texts_of(r@) == self.spec_inputs(),
            distinct_texts(r@),
    {
        proof {
            use_type_invariant(self);
        }
        &self.allowed_inputs
    }

    /// The allowed filter types.
    pub fn allowed_filters(&self) -> (r: &Vec<String>)
        ensures
            texts_of(r@) == self.spec_filters(),
            distinct_texts(r@),
    {
        proof {
            use_type_invariant(self);
        }
        &self.allowed_filters
    }

    /// The allowed output types.
    pub fn allowed_outputs(&self) -> (r: &Vec<String>)
        ensures
            texts_of(r@) == self.spec_outputs(),
            distinct_texts(r@),
    {
        proof {
            use_type_invariant(self);
        }
        &self.allowed_outputs
    }

    /// Allows one more input type.
    pub fn add_input_type(&mut self, input_type: String)
        ensures
            final(self).spec_inputs().to_set() == old(self).spec_inputs().to_set().insert(input_type@),
            final(self).spec_filters() == old(self).spec_filters(),
            final(self).spec_outputs() == old(self).spec_outputs(),
    {
        proof {
            use_type_invariant(&*self);
        }
        let mut v: Vec<String> = Vec::new();
        std::mem::swap(&mut v, &mut self.allowed_inputs);
        add_text(&mut v, input_type);
        self.allowed_inputs = v;
    }

    /// Allows one more filter type.
    pub fn add_filter_type(&mut self, filter_type: String)
        ensures
            final(self).spec_filters().to_set() == old(self).spec_filters().to_set().insert(filter_type@),
            final(self).spec_inputs() == old(self).spec_inputs(),
            final(self).spec_outputs() == old(self).spec_outputs(),
    {
        proof {
            use_type_invariant(&*self);
        }
        let mut v: Vec<String> = Vec::new();
        std::mem::swap(&mut v, &mut self.allowed_filters);
        add_text(&mut v, filter_type);
        self.allowed_filters = v;
    }

    /// Allows one more output type.
    pub fn add_output_type(&mut self, output_type: String)
        ensures
            final(self).spec_outputs().to_set() == old(self).spec_outputs().to_set().insert(output_type@),
            final(self).spec_inputs() == old(self).spec_inputs(),
            final(self).spec_filters() == old(self).spec_filters(),
    {
        proof {
            use_type_invariant(&*self);
        }
        let mut v: Vec<String> = Vec::new();
        std::mem::swap(&mut v, &mut self.allowed_outputs);
        add_text(&mut v, output_type);
        self.allowed_outputs = v;
    }
}

impl Default for ConfigValidator {
    /// The validator of `ConfigValidator::new`.
    fn default() -> (v: Self)
        ensures
            v.spec_inputs().to_set() == set!["kafka"@, "stdin"@, "tcp"@, "udp"@],
            v.spec_filters().to_set() == set!["add"@, "drop"@, "convert"@, "date"@, "grok"@, "gsub"@],
            v.spec_outputs().to_set() == set!["elasticsearch"@, "clickhouse"@, "kafka"@, "influxdb"@, "stdout"@, "tcp"@],
    {
        ConfigValidator::new()
    }
}


fn input_kind_list(v: &Vec<InputConfig>) -> (r: Vec<String>)
    ensures
        texts_of(r@) == input_kinds(v@),
{
    let mut r: Vec<String> = Vec::new();
    let mut i: usize = 0;
    while i < v.len()
        invariant
            0 <= i <= v@.len(),
            r@.len() == i,
            forall|j: int| 0 <= j < i ==> (#[trigger] r@[j])@ == v@[j].kind@,
        decreases v@.len() - i,
    {
        r.push(v[i].kind.clone());
        i = i + 1;
    }
    proof {
        assert(texts_of(r@) =~= input_kinds(v@));
    }
    r
}

fn filter_kind_list(v: &Vec<FilterConfig>) -> (r: Vec<String>)
    ensures
        texts_of(r@) == filter_kinds(v@),
{
    let mut r: Vec<String> = Vec::new();
    let mut i: usize = 0;
    while i < v.len()
        invariant
            0 <= i <= v@.len(),
            r@.len() == i,
            forall|j: int| 0 <= j < i ==> (#[trigger] r@[j])@ == v@[j].kind@,
        decreases v@.len() - i,
    {
        r.push(v[i].kind.clone());
        i = i + 1;
    }
    proof {
        assert(texts_of(r@) =~= filter_kinds(v@));
    }
    r
}

fn output_kind_list(v: &Vec<OutputConfig>) -> (r: Vec<String>)
    ensures
        texts_of(r@) == output_kinds(v@),
{
    let mut r: Vec<String> = Vec::new();
    let mut i: usize = 0;
    while i < v.len()
        invariant
            0 <= i <= v@.len(),
            r@.len() == i,
            forall|j: int| 0 <= j < i ==> (#[trigger] r@[j])@ == v@[j].kind@,
        decreases v@.len() - i,
    {
        r.push(v[i].kind.clone());
        i = i + 1;
    }
    proof {
        assert(texts_of(r@) =~= output_kinds(v@));
    }
    r
}

fn unknown_type_text(kind: &str, i: usize, t: &str, allowed: &Vec<String>) -> (s: String)
    ensures
        s@ == unknown_type_message(kind@, i as nat, t@, texts_of(allowed@)),
{
    let mut s = text_of(kind);
    push_text(&mut s, "[");
    let n = usize_text(i);
    push_text(&mut s, n.as_str());
    push_text(&mut s, "]: unknown ");
    push_text(&mut s, kind);
    push_text(&mut s, " type '");
    push_text(&mut s, t);
    push_text(&mut s, "'. Allowed: ");
    let names = join(allowed, ", ");
    push_text(&mut s, names.as_str());
    s
}

fn duplicate_text(i: usize, t: &str) -> (s: String)
    ensures
        s@ == duplicate_message(i as nat, t@),
{
    let mut s = text_of("input[");
    let n = usize_text(i);
    push_text(&mut s, n.as_str());
    push_text(&mut s, "]: duplicate configuration for type '");
    push_text(&mut s, t);
    push_text(&mut s, "'");
    s
}

fn push_message(errors: &mut Vec<String>, m: String)
    ensures
        texts_of(final(errors)@) == texts_of(old(errors)@).push(m@),
{
    let ghost m0 = m@;
    errors.push(m);
    proof {
        assert(texts_of(errors@) =~= texts_of(old(errors)@).push(m0));
    }
}

fn check_list(errors: &mut Vec<String>, kind: &str, allowed: &Vec<String>, kinds: &Vec<String>)
    ensures
        texts_of(final(errors)@) == texts_of(old(errors)@) + list_messages(kind@, texts_of(allowed@), texts_of(kinds@), kinds@.len() as int),
{
    let ghost ts = texts_of(kinds@);
    let mut i: usize = 0;
    proof {
        assert(texts_of(errors@) =~= texts_of(old(errors)@) + list_messages(kind@, texts_of(allowed@), ts, 0));
    }
    while i < kinds.len()
        invariant
            0 <= i <= kinds@.len(),
            ts == texts_of(kinds@),
            texts_of(errors@) == texts_of(old(errors)@) + list_messages(kind@, texts_of(allowed@), ts, i as int),
        decreases kinds@.len() - i,
    {
        let ghost before = texts_of(errors@);
        let t = kinds[i].as_str();
        if !allows(allowed, t) {
            push_message(errors, unknown_type_text(kind, i, t, allowed));
        }
        proof {
            let em = entry_messages(kind@, texts_of(allowed@), i as nat, ts[i as int]);
            assert(texts_of(errors@) =~= before + em);
            assert(texts_of(errors@) =~= texts_of(old(errors)@) + list_messages(kind@, texts_of(allowed@), ts, i + 1));
        }
        i = i + 1;
    }
}

fn check_duplicates(errors: &mut Vec<String>, inputs: &Vec<InputConfig>)
    ensures
        texts_of(final(errors)@) == texts_of(old(errors)@) + duplicate_messages(inputs@, inputs@.len() as int),
{
    let mut i: usize = 0;
    proof {
        assert(texts_of(errors@) =~= texts_of(old(errors)@) + duplicate_messages(inputs@, 0));
    }
    while i < inputs.len()
        invariant
            0 <= i <= inputs@.len(),
            texts_of(errors@) == texts_of(old(errors)@) + duplicate_messages(inputs@, i as int),
        decreases inputs@.len() - i,
    {
        let mut j: usize = 0;
        let mut seen = false;
        while j < i
            invariant_except_break
                !seen,
            invariant
                0 <= j <= i < inputs@.len(),
                forall|k: int| 0 <= k < j ==> !(#[trigger] inputs@[k].kind@ == inputs@[i as int].kind@ && inputs@[k].config.entries_view() == inputs@[i as int].config.entries_view()),
            ensures
                seen <==> is_duplicate(inputs@, i as int),
            decreases i - j,
        {
            if text_eq(inputs[j].kind.as_str(), inputs[i].kind.as_str()) && inputs[j].config.same_entries(&inputs[i].config) {
                seen = true;
                break;
            }
            j = j + 1;
        }
        let ghost before = texts_of(errors@);
        if seen {
            push_message(errors, duplicate_text(i, inputs[i].kind.as_str()));
        }
        proof {
            assert(texts_of(errors@) =~= texts_of(old(errors)@) + duplicate_messages(inputs@, i + 1));
        }
        i = i + 1;
    }
}

impl ConfigValidator {
    /// Validates a configuration and reports every problem, in this order:
    /// zero workers, zero batch size, zero buffer size, no input; each input
    /// of an unknown type; each filter of an unknown type; no output; each
    /// output of an unknown type; and each input that repeats the type and
    /// configuration of an earlier one.
    pub fn validate(&self, config: &AppConfig) -> (r: Result<(), Vec<String>>)
        ensures
            r is Ok <==> validation_messages(self.spec_inputs(), self.spec_filters(), self.spec_outputs(), *config).len() == 0,
            r matches Err(v) ==> texts_of(v@) == validation_messages(self.spec_inputs(), self.spec_filters(), self.spec_outputs(), *config),
    {
        let mut errors: Vec<String> = Vec::new();
        if config.workers == 0 {
            push_message(&mut errors, text_of("workers must be greater than 0"));
        }
        if config.batch_size == 0 {
            push_message(&mut errors, text_of("batch_size must be greater than 0"));
        }
        if config.buffer_size == 0 {
            push_message(&mut errors, text_of("buffer_size must be greater than 0"));
        }
        if config.inputs.len() == 0 {
            push_message(&mut errors, text_of("at least one input must be configured"));
        }
        let ghost basic = texts_of(errors@);
        let ghost l_in = list_messages("input"@, self.spec_inputs(), input_kinds(config.inputs@), config.inputs@.len() as int);
        let ghost l_f = list_messages("filter"@, self.spec_filters(), filter_kinds(config.filters@), config.filters@.len() as int);
        let ghost l_out = list_messages("output"@, self.spec_outputs(), output_kinds(config.outputs@), config.outputs@.len() as int);
        let ghost no_out = if config.outputs@.len() == 0 { seq!["at least one output must be configured"@] } else { Seq::<Seq<char>>::empty() };
        let ins = input_kind_list(&config.inputs);
        proof {
            assert(texts_of(ins@).len() == ins@.len());
            assert(input_kinds(config.inputs@).len() == config.inputs@.len());
        }
        check_list(&mut errors, "input", &self.allowed_inputs, &ins);
        let ghost after_in = texts_of(errors@);
        proof {
            assert(after_in == basic + l_in);
        }
        let fls = filter_kind_list(&config.filters);
        proof {
            assert(texts_of(fls@).len() == fls@.len());
            assert(filter_kinds(config.filters@).len() == config.filters@.len());
        }
        check_list(&mut errors, "filter", &self.allowed_filters, &fls);
        let ghost mid = texts_of(errors@);
        proof {
            assert(mid == basic + l_in + l_f);
        }
        if config.outputs.len() == 0 {
            push_message(&mut errors, text_of("at least one output must be configured"));
        }
        proof {
            assert(texts_of(errors@) =~= mid + no_out);
        }
        let ghost mid2 = texts_of(errors@);
        let outs = output_kind_list(&config.outputs);
        proof {
            assert(texts_of(outs@).len() == outs@.len());
            assert(output_kinds(config.outputs@).len() == config.outputs@.len());
        }
        check_list(&mut errors, "output", &self.allowed_outputs, &outs);
        let ghost mid3 = texts_of(errors@);
        proof {
            assert(mid3 == mid2 + l_out);
        }
        check_duplicates(&mut errors, &config.inputs);
        proof {
            assert(basic =~= (if config.workers == 0 { seq!["workers must be greater than 0"@] } else { Seq::empty() })
                + (if config.batch_size == 0 { seq!["batch_size must be greater than 0"@] } else { Seq::empty() })
                + (if config.buffer_size == 0 { seq!["buffer_size must be greater than 0"@] } else { Seq::empty() })
                + (if config.inputs@.len() == 0 { seq!["at least one input must be configured"@] } else { Seq::empty() }));
            assert(texts_of(errors@) =~= validation_messages(self.spec_inputs(), self.spec_filters(), self.spec_outputs(), *config));
        }
        if errors.len() == 0 {
            Ok(())
        } else {
            Err(errors)
        }
    }
}

/// An unsupported type at place `i` of a list is reported.
proof fn lemma_unknown_listed(kind: Seq<char>, allowed: Seq<Seq<char>>, ts: Seq<Seq<char>>, n: int, i: int)
    requires
        0 <= i < n <= ts.len(),
        !allowed.contains(ts[i]),
    ensures
        list_messages(kind, allowed, ts, n).contains(unknown_type_message(kind, i as nat, ts[i], allowed)),
    decreases n,
{
    let m = unknown_type_message(kind, i as nat, ts[i], allowed);
    let before = list_messages(kind, allowed, ts, n - 1);
    let here = entry_messages(kind, allowed, (n - 1) as nat, ts[n - 1]);
    if i == n - 1 {
        assert(here == seq![m]);
        assert((before + here)[before.len() as int] == m);
    } else {
        lemma_unknown_listed(kind, allowed, ts, n - 1, i);
        let k = choose|k: int| 0 <= k < before.len() && before[k] == m;
        assert((before + here)[k] == m);
    }
}

/// Every message about a list begins with the list's kind.
proof fn lemma_list_messages_begin(kind: Seq<char>, allowed: Seq<Seq<char>>, ts: Seq<Seq<char>>, n: int)
    requires
        kind.len() > 0,
        n <= ts.len(),
    ensures
        forall|j: int| 0 <= j < list_messages(kind, allowed, ts, n).len() ==>
            (#[trigger] list_messages(kind, allowed, ts, n)[j]).len() > 0 && list_messages(kind, allowed, ts, n)[j][0] == kind[0],
    decreases n,
{
    if n > 0 {
        lemma_list_messages_begin(kind, allowed, ts, n - 1);
        let before = list_messages(kind, allowed, ts, n - 1);
        let here = entry_messages(kind, allowed, (n - 1) as nat, ts[n - 1]);
        assert forall|j: int| 0 <= j < (before + here).len() implies
            (#[trigger] (before + here)[j]).len() > 0 && (before + here)[j][0] == kind[0] by {
            if j >= before.len() {
                let m = unknown_type_message(kind, (n - 1) as nat, ts[n - 1], allowed);
                assert(m[0] == kind[0]);
            }
        }
    }
}

/// Every duplicate message begins with `i`, as "input[" does.
proof fn lemma_duplicate_messages_begin(v: Seq<InputConfig>, n: int)
    requires
        n <= v.len(),
    ensures
        forall|j: int| 0 <= j < duplicate_messages(v, n).len() ==>
            (#[trigger] duplicate_messages(v, n)[j]).len() > 0 && duplicate_messages(v, n)[j][0] == 'i',
    decreases n,
{
    reveal_strlit("input[");
    if n > 0 {
        lemma_duplicate_messages_begin(v, n - 1);
        let before = duplicate_messages(v, n - 1);
        let here: Seq<Seq<char>> = if is_duplicate(v, n - 1) {
            seq![duplicate_message((n - 1) as nat, v[n - 1].kind@)]
        } else {
            Seq::empty()
        };
        assert forall|j: int| 0 <= j < (before + here).len() implies
            (#[trigger] (before + here)[j]).len() > 0 && (before + here)[j][0] == 'i' by {
            if j >= before.len() {
                let m = duplicate_message((n - 1) as nat, v[n - 1].kind@);
                assert(m[0] == "input["@[0]);
            }
        }
    }
}

/// What a concatenation holds is what either part holds.
proof fn lemma_concat_contains(a: Seq<Seq<char>>, b: Seq<Seq<char>>, x: Seq<char>)
    ensures
        (a + b).contains(x) <==> a.contains(x) || b.contains(x),
{
    if (a + b).contains(x) {
        let k = choose|k: int| 0 <= k < (a + b).len() && (a + b)[k] == x;
        if k < a.len() {
            assert(a[k] == x);
        } else {
            assert(b[k - a.len()] == x);
        }
    }
    if a.contains(x) {
        let k = choose|k: int| 0 <= k < a.len() && a[k] == x;
        assert((a + b)[k] == x);
    }
    if b.contains(x) {
        let k = choose|k: int| 0 <= k < b.len() && b[k] == x;
        assert((a + b)[k + a.len()] == x);
    }
}

/// No message of the lists or duplicates begins with `c`, when `c` is not
/// the first letter of input, filter or output.
proof fn lemma_lists_lack(allowed_inputs: Seq<Seq<char>>, allowed_filters: Seq<Seq<char>>, allowed_outputs: Seq<Seq<char>>, c: AppConfig, x: Seq<char>)
    requires
        x.len() > 0,
        x[0] != 'i',
        x[0] != 'f',
        x[0] != 'o',
    ensures
        !list_messages("input"@, allowed_inputs, input_kinds(c.inputs@), c.inputs@.len() as int).contains(x),
        !list_messages("filter"@, allowed_filters, filter_kinds(c.filters@), c.filters@.len() as int).contains(x),
        !list_messages("output"@, allowed_outputs, output_kinds(c.outputs@), c.outputs@.len() as int).contains(x),
        !duplicate_messages(c.inputs@, c.inputs@.len() as int).contains(x),
{
    reveal_strlit("input");
    reveal_strlit("filter");
    reveal_strlit("output");
    lemma_list_messages_begin("input"@, allowed_inputs, input_kinds(c.inputs@), c.inputs@.len() as int);
    lemma_list_messages_begin("filter"@, allowed_filters, filter_kinds(c.filters@), c.filters@.len() as int);
    lemma_list_messages_begin("output"@, allowed_outputs, output_kinds(c.outputs@), c.outputs@.len() as int);
    lemma_duplicate_messages_begin(c.inputs@, c.inputs@.len() as int);
}

/// Validation lists every failure, not only the first: each size check is
/// reported exactly when it fails, and each plugin of a type that is not
/// allowed is reported with its place and type.
pub proof fn law_every_failure_listed(
    allowed_inputs: Seq<Seq<char>>,
    allowed_filters: Seq<Seq<char>>,
    allowed_outputs: Seq<Seq<char>>,
    c: AppConfig,
)
    ensures
        validation_messages(allowed_inputs, allowed_filters, allowed_outputs, c).contains("workers must be greater than 0"@) <==> c.workers == 0,
        validation_messages(allowed_inputs, allowed_filters, allowed_outputs, c).contains("batch_size must be greater than 0"@) <==> c.batch_size == 0,
        validation_messages(allowed_inputs, allowed_filters, allowed_outputs, c).contains("buffer_size must be greater than 0"@) <==> c.buffer_size == 0,
        forall|i: int| 0 <= i < c.inputs@.len() && !allowed_inputs.contains(#[trigger] c.inputs@[i].kind@) ==>
            validation_messages(allowed_inputs, allowed_filters, allowed_outputs, c).contains(unknown_type_message("input"@, i as nat, c.inputs@[i].kind@, allowed_inputs)),
        forall|i: int| 0 <= i < c.filters@.len() && !allowed_filters.contains(#[trigger] c.filters@[i].kind@) ==>
            validation_messages(allowed_inputs, allowed_filters, allowed_outputs, c).contains(unknown_type_message("filter"@, i as nat, c.filters@[i].kind@, allowed_filters)),
        forall|i: int| 0 <= i < c.outputs@.len() && !allowed_outputs.contains(#[trigger] c.outputs@[i].kind@) ==>
            validation_messages(allowed_inputs, allowed_filters, allowed_outputs, c).contains(unknown_type_message("output"@, i as nat, c.outputs@[i].kind@, allowed_outputs)),
{
    let ai = allowed_inputs;
    let af = allowed_filters;
    let ao = allowed_outputs;
    let a1: Seq<Seq<char>> = if c.workers == 0 { seq!["workers must be greater than 0"@] } else { Seq::empty() };
    let a2: Seq<Seq<char>> = if c.batch_size == 0 { seq!["batch_size must be greater than 0"@] } else { Seq::empty() };
    let a3: Seq<Seq<char>> = if c.buffer_size == 0 { seq!["buffer_size must be greater than 0"@] } else { Seq::empty() };
    let a4: Seq<Seq<char>> = if c.inputs@.len() == 0 { seq!["at least one input must be configured"@] } else { Seq::empty() };
    let li = list_messages("input"@, ai, input_kinds(c.inputs@), c.inputs@.len() as int);
    let lf = list_messages("filter"@, af, filter_kinds(c.filters@), c.filters@.len() as int);
    let a7: Seq<Seq<char>> = if c.outputs@.len() == 0 { seq!["at least one output must be configured"@] } else { Seq::empty() };
    let lo = list_messages("output"@, ao, output_kinds(c.outputs@), c.outputs@.len() as int);
    let d = duplicate_messages(c.inputs@, c.inputs@.len() as int);
    let v = validation_messages(ai, af, ao, c);
    assert(v == a1 + a2 + a3 + a4 + li + lf + a7 + lo + d);
    assert forall|x: Seq<char>| #[trigger] v.contains(x) <==> (a1.contains(x) || a2.contains(x) || a3.contains(x) || a4.contains(x)
        || li.contains(x) || lf.contains(x) || a7.contains(x) || lo.contains(x) || d.contains(x)) by {
        lemma_concat_contains(a1, a2, x);
        lemma_concat_contains(a1 + a2, a3, x);
        lemma_concat_contains(a1 + a2 + a3, a4, x);
        lemma_concat_contains(a1 + a2 + a3 + a4, li, x);
        lemma_concat_contains(a1 + a2 + a3 + a4 + li, lf, x);
        lemma_concat_contains(a1 + a2 + a3 + a4 + li + lf, a7, x);
        lemma_concat_contains(a1 + a2 + a3 + a4 + li + lf + a7, lo, x);
        lemma_concat_contains(a1 + a2 + a3 + a4 + li + lf + a7 + lo, d, x);
    }
    reveal_strlit("workers must be greater than 0");
    reveal_strlit("batch_size must be greater than 0");
    reveal_strlit("buffer_size must be greater than 0");
    reveal_strlit("at least one input must be configured");
    reveal_strlit("at least one output must be configured");
    let w = "workers must be greater than 0"@;
    let b = "batch_size must be greater than 0"@;
    let f = "buffer_size must be greater than 0"@;
    let l1 = "at least one input must be configured"@;
    let l2 = "at least one output must be configured"@;
    lemma_lists_lack(ai, af, ao, c, w);
    lemma_lists_lack(ai, af, ao, c, b);
    lemma_lists_lack(ai, af, ao, c, f);
    assert(w[0] != b[0] && w[0] != f[0] && w[0] != l1[0] && w[0] != l2[0]);
    assert(b[1] != f[1] && b[0] != l1[0] && b[0] != l2[0]);
    assert(f[0] != l1[0] && f[0] != l2[0]);
    if c.workers == 0 {
        assert(a1[0] == w);
    }
    if c.batch_size == 0 {
        assert(a2[0] == b);
    }
    if c.buffer_size == 0 {
        assert(a3[0] == f);
    }
    assert(a1.contains(w) <==> c.workers == 0);
    assert(!a2.contains(w) && !a3.contains(w) && !a4.contains(w) && !a7.contains(w));
    assert(a2.contains(b) <==> c.batch_size == 0);
    assert(!a1.contains(b) && !a3.contains(b) && !a4.contains(b) && !a7.contains(b));
    assert(a3.contains(f) <==> c.buffer_size == 0);
    assert(!a1.contains(f) && !a2.contains(f) && !a4.contains(f) && !a7.contains(f));
    assert(v.contains(w) <==> c.workers == 0);
    assert(v.contains(b) <==> c.batch_size == 0);
    assert(v.contains(f) <==> c.buffer_size == 0);
    assert forall|i: int| 0 <= i < c.inputs@.len() && !ai.contains(#[trigger] c.inputs@[i].kind@) implies
        v.contains(unknown_type_message("input"@, i as nat, c.inputs@[i].kind@, ai)) by {
        assert(input_kinds(c.inputs@)[i] == c.inputs@[i].kind@);
        lemma_unknown_listed("input"@, ai, input_kinds(c.inputs@), c.inputs@.len() as int, i);
        assert(v.contains(unknown_type_message("input"@, i as nat, c.inputs@[i].kind@, ai)));
    }
    assert forall|i: int| 0 <= i < c.filters@.len() && !af.contains(#[trigger] c.filters@[i].kind@) implies
        v.contains(unknown_type_message("filter"@, i as nat, c.filters@[i].kind@, af)) by {
        assert(filter_kinds(c.filters@)[i] == c.filters@[i].kind@);
        lemma_unknown_listed("filter"@, af, filter_kinds(c.filters@), c.filters@.len() as int, i);
        assert(v.contains(unknown_type_message("filter"@, i as nat, c.filters@[i].kind@, af)));
    }
    assert forall|i: int| 0 <= i < c.outputs@.len() && !ao.contains(#[trigger] c.outputs@[i].kind@) implies
        v.contains(unknown_type_message("output"@, i as nat, c.outputs@[i].kind@, ao)) by {
        assert(output_kinds(c.outputs@)[i] == c.outputs@[i].kind@);
        lemma_unknown_listed("output"@, ao, output_kinds(c.outputs@), c.outputs@.len() as int, i);
        assert(v.contains(unknown_type_message("output"@, i as nat, c.outputs@[i].kind@, ao)));
    }
}

/// The messages about the first `n` plugins of a list are none exactly when
/// each of those plugins has an allowed type.
proof fn lemma_list_messages_empty(kind: Seq<char>, allowed: Seq<Seq<char>>, ts: Seq<Seq<char>>, n: int)
    requires
        0 <= n <= ts.len(),
    ensures
        list_messages(kind, allowed, ts, n).len() == 0 <==> forall|i: int| 0 <= i < n ==> allowed.contains(#[trigger] ts[i]),
    decreases n,
{
    if n > 0 {
        lemma_list_messages_empty(kind, allowed, ts, n - 1);
        let here = entry_messages(kind, allowed, (n - 1) as nat, ts[n - 1]);
        assert(here.len() == 0 <==> allowed.contains(ts[n - 1]));
        if forall|i: int| 0 <= i < n ==> allowed.contains(#[trigger] ts[i]) {
            assert(forall|i: int| 0 <= i < n - 1 ==> allowed.contains(#[trigger] ts[i]));
        }
    }
}

/// The duplicate messages about the first `n` inputs are none exactly when
/// none of them repeats an earlier one.
proof fn lemma_duplicate_messages_empty(v: Seq<InputConfig>, n: int)
    requires
        0 <= n <= v.len(),
    ensures
        duplicate_messages(v, n).len() == 0 <==> forall|i: int| 0 <= i < n ==> !#[trigger] is_duplicate(v, i),
    decreases n,
{
    if n > 0 {
        lemma_duplicate_messages_empty(v, n - 1);
        if forall|i: int| 0 <= i < n ==> !#[trigger] is_duplicate(v, i) {
            assert(forall|i: int| 0 <= i < n - 1 ==> !#[trigger] is_duplicate(v, i));
        }
    }
}

/// A configuration passes validation exactly when all of these hold: at
/// least one worker, a batch size and a buffer size above zero, at least
/// one input and one output, every input, filter and output of an allowed
/// type, and no input that repeats the type and configuration of an
/// earlier one.
pub proof fn law_valid_exactly_when_all_hold(
    allowed_inputs: Seq<Seq<char>>,
    allowed_filters: Seq<Seq<char>>,
    allowed_outputs: Seq<Seq<char>>,
    c: AppConfig,
)
    ensures
        validation_messages(allowed_inputs, allowed_filters, allowed_outputs, c).len() == 0 <==> {
            &&& c.workers > 0
            &&& c.batch_size > 0
            &&& c.buffer_size > 0
            &&& c.inputs@.len() > 0
            &&& c.outputs@.len() > 0
            &&& forall|i: int| 0 <= i < c.inputs@.len() ==> allowed_inputs.contains(#[trigger] c.inputs@[i].kind@)
            &&& forall|i: int| 0 <= i < c.filters@.len() ==> allowed_filters.contains(#[trigger] c.filters@[i].kind@)
            &&& forall|i: int| 0 <= i < c.outputs@.len() ==> allowed_outputs.contains(#[trigger] c.outputs@[i].kind@)
            &&& forall|i: int| 0 <= i < c.inputs@.len() ==> !#[trigger] is_duplicate(c.inputs@, i)
        },
{
    let ik = input_kinds(c.inputs@);
    let fk = filter_kinds(c.filters@);
    let ok = output_kinds(c.outputs@);
    let li = list_messages("input"@, allowed_inputs, ik, c.inputs@.len() as int);
    let lf = list_messages("filter"@, allowed_filters, fk, c.filters@.len() as int);
    let lo = list_messages("output"@, allowed_outputs, ok, c.outputs@.len() as int);
    let d = duplicate_messages(c.inputs@, c.inputs@.len() as int);
    assert((li.len() == 0) == (forall|i: int| 0 <= i < c.inputs@.len() ==> allowed_inputs.contains(#[trigger] c.inputs@[i].kind@))) by {
        lemma_list_messages_empty("input"@, allowed_inputs, ik, c.inputs@.len() as int);
        if forall|i: int| 0 <= i < c.inputs@.len() ==> allowed_inputs.contains(#[trigger] ik[i]) {
            assert forall|i: int| 0 <= i < c.inputs@.len() implies allowed_inputs.contains(#[trigger] c.inputs@[i].kind@) by {
                assert(ik[i] == c.inputs@[i].kind@);
            }
        }
        if forall|i: int| 0 <= i < c.inputs@.len() ==> allowed_inputs.contains(#[trigger] c.inputs@[i].kind@) {
            assert forall|i: int| 0 <= i < c.inputs@.len() implies allowed_inputs.contains(#[trigger] ik[i]) by {
                assert(ik[i] == c.inputs@[i].kind@);
            }
        }
    }
    assert((lf.len() == 0) == (forall|i: int| 0 <= i < c.filters@.len() ==> allowed_filters.contains(#[trigger] c.filters@[i].kind@))) by {
        lemma_list_messages_empty("filter"@, allowed_filters, fk, c.filters@.len() as int);
        if forall|i: int| 0 <= i < c.filters@.len() ==> allowed_filters.contains(#[trigger] fk[i]) {
            assert forall|i: int| 0 <= i < c.filters@.len() implies allowed_filters.contains(#[trigger] c.filters@[i].kind@) by {
                assert(fk[i] == c.filters@[i].kind@);
            }
        }
        if forall|i: int| 0 <= i < c.filters@.len() ==> allowed_filters.contains(#[trigger] c.filters@[i].kind@) {
            assert forall|i: int| 0 <= i < c.filters@.len() implies allowed_filters.contains(#[trigger] fk[i]) by {
                assert(fk[i] == c.filters@[i].kind@);
            }
        }
    }
    assert((lo.len() == 0) == (forall|i: int| 0 <= i < c.outputs@.len() ==> allowed_outputs.contains(#[trigger] c.outputs@[i].kind@))) by {
        lemma_list_messages_empty("output"@, allowed_outputs, ok, c.outputs@.len() as int);
        if forall|i: int| 0 <= i < c.outputs@.len() ==> allowed_outputs.contains(#[trigger] ok[i]) {
            assert forall|i: int| 0 <= i < c.outputs@.len() implies allowed_outputs.contains(#[trigger] c.outputs@[i].kind@) by {
                assert(ok[i] == c.outputs@[i].kind@);
            }
        }
        if forall|i: int| 0 <= i < c.outputs@.len() ==> allowed_outputs.contains(#[trigger] c.outputs@[i].kind@) {
            assert forall|i: int| 0 <= i < c.outputs@.len() implies allowed_outputs.contains(#[trigger] ok[i]) by {
                assert(ok[i] == c.outputs@[i].kind@);
            }
        }
    }
    assert((d.len() == 0) == (forall|i: int| 0 <= i < c.inputs@.len() ==> !#[trigger] is_duplicate(c.inputs@, i))) by {
        lemma_duplicate_messages_empty(c.inputs@, c.inputs@.len() as int);
    }
    let a1: Seq<Seq<char>> = if c.workers == 0 { seq!["workers must be greater than 0"@] } else { Seq::empty() };
    let a2: Seq<Seq<char>> = if c.batch_size == 0 { seq!["batch_size must be greater than 0"@] } else { Seq::empty() };
    let a3: Seq<Seq<char>> = if c.buffer_size == 0 { seq!["buffer_size must be greater than 0"@] } else { Seq::empty() };
    let a4: Seq<Seq<char>> = if c.inputs@.len() == 0 { seq!["at least one input must be configured"@] } else { Seq::empty() };
    let a7: Seq<Seq<char>> = if c.outputs@.len() == 0 { seq!["at least one output must be configured"@] } else { Seq::empty() };
    assert(validation_messages(allowed_inputs, allowed_filters, allowed_outputs, c).len()
        == a1.len() + a2.len() + a3.len() + a4.len() + li.len() + lf.len() + a7.len() + lo.len() + d.len());
}

}
