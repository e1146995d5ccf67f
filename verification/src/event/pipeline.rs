//! The pipeline: processors applied one after another.
use vstd::prelude::*;
use crate::event::event::Event;
use crate::event::traits::{FunctionProcessor, ProcessorTrait};
use crate::list::List;
use crate::text::{decimal, push_text, text_of, usize_text};

verus! {

/// Pipeline errors.
#[derive(Debug)]
pub enum PipelineError {
    /// A processor failed.
    ProcessorError(String),
    /// An event of a batch failed.
    BatchError { index: usize, error: String },
    /// The pipeline has no processors.
    EmptyPipeline,
}

/// The text of a pipeline error, as it is displayed.
pub open spec fn pipeline_error_text(e: PipelineError) -> Seq<char> {
    match e {
        PipelineError::ProcessorError(s) => "Processor error: "@ + s@,
        PipelineError::BatchError { index, error } => "Batch processing error at index "@ + decimal(index as nat) + ": "@ + error@,
        PipelineError::EmptyPipeline => "Pipeline has no processors"@,
    }
}

impl PipelineError {
    /// The text of this error, as it is displayed.
    pub fn message(&self) -> (r: String)
        ensures
            r@ == pipeline_error_text(*self),
    {
        match self {
            PipelineError::ProcessorError(s) => {
                let mut r = text_of("Processor error: ");
                push_text(&mut r, s.as_str());
                r
            },
            PipelineError::BatchError { index, error } => {
                let mut r = text_of("Batch processing error at index ");
                push_text(&mut r, usize_text(*index).as_str());
                push_text(&mut r, ": ");
                push_text(&mut r, error.as_str());
                r
            },
            PipelineError::EmptyPipeline => text_of("Pipeline has no processors"),
        }
    }
}

/// The description of processor `name`, at `index`, failing with `error`.
pub open spec fn failure_text(name: Seq<char>, index: int, error: Seq<char>) -> Seq<char> {
    "Processor '"@ + name + "' (index "@ + decimal(index as nat) + ") failed: "@ + error
}

/// Whether processor `ps[k]` turns `a` into `b`.
pub open spec fn step_ok(ps: Seq<Box<dyn ProcessorTrait>>, k: int, a: Event, b: Event) -> bool {
    ps[k].processes(a, Ok::<Event, String>(b))
}

/// Whether `stages` are the events before and after each of the first `n`
/// processors of `ps`, all of which succeed.
pub open spec fn ok_stages(ps: Seq<Box<dyn ProcessorTrait>>, stages: Seq<Event>, n: int) -> bool {
    &&& stages.len() == n + 1
    &&& forall|k: int| 0 <= k < n ==> #[trigger] step_ok(ps, k, stages[k], stages[k + 1])
}

/// Whether processor `ps[j]` fails on `a` with a description that, with its
/// name and place, reads `message`.
pub open spec fn step_fails(ps: Seq<Box<dyn ProcessorTrait>>, j: int, a: Event, message: Seq<char>) -> bool {
    exists|e: String| #[trigger] ps[j].processes(a, Err::<Event, String>(e)) && message == failure_text(ps[j].spec_name(), j, e@)
}

/// Whether `r` is what the processors `ps`, one after another, make of
/// `input`: the last event when all succeed, else the error of the first
/// that fails.
pub open spec fn pipeline_outcome(ps: Seq<Box<dyn ProcessorTrait>>, input: Event, r: Result<Event, PipelineError>) -> bool {
    match r {
        Ok(out) => exists|stages: Seq<Event>|
            #[trigger] ok_stages(ps, stages, ps.len() as int) && stages[0] == input && stages.last() == out,
        Err(PipelineError::ProcessorError(m)) => exists|stages: Seq<Event>, j: int|
            0 <= j < ps.len() && #[trigger] ok_stages(ps, stages, j) && stages[0] == input && step_fails(ps, j, stages[j], m@),
        Err(_) => false,
    }
}

/// Whether the processors `ps` can take `input` through successfully.
pub open spec fn passes(ps: Seq<Box<dyn ProcessorTrait>>, input: Event) -> bool {
    exists|o: Event| #[trigger] pipeline_outcome(ps, input, Ok::<Event, PipelineError>(o))
}

/// Whether `r` is what running each of `events` through the processors
/// `ps`, in order, gives: every result when all pass, else the place and
/// error of the first event that fails, all before it having passed.
pub open spec fn batch_outcome(ps: Seq<Box<dyn ProcessorTrait>>, events: Seq<Event>, r: Result<Vec<Event>, PipelineError>) -> bool {
    match r {
        Ok(out) => out@.len() == events.len()
            && forall|i: int| 0 <= i < events.len() ==> pipeline_outcome(ps, events[i], Ok::<Event, PipelineError>(#[trigger] out@[i])),
        Err(PipelineError::BatchError { index, error }) => index < events.len()
            && (exists|m: String| #[trigger] pipeline_outcome(ps, events[index as int], Err::<Event, PipelineError>(PipelineError::ProcessorError(m)))
                && error@ == "Processor error: "@ + m@)
            && forall|j: int| 0 <= j < index ==> passes(ps, #[trigger] events[j]),
        Err(_) => false,
    }
}

/// A named sequence of processors.
pub struct SimplePipeline {
    processors: List<Box<dyn ProcessorTrait>>,
    name: String,
}

impl SimplePipeline {
    /// The processors, in order.
    pub closed spec fn processors_view(&self) -> Seq<Box<dyn ProcessorTrait>> {
        self.processors.items()
    }

    /// The name, as a spec value.
    pub closed spec fn name_view(&self) -> Seq<char> {
        self.name@
    }

    /// An empty pipeline named `default`.
    pub fn new() -> (p: Self)
        ensures
            p.processors_view() == Seq::<Box<dyn ProcessorTrait>>::empty(),
            p.name_view() == "default"@,
    {
        SimplePipeline { processors: List::new(), name: text_of("default") }
    }

    /// An empty pipeline named `name`.
    pub fn with_name(name: &str) -> (p: Self)
        ensures
            p.processors_view() == Seq::<Box<dyn ProcessorTrait>>::empty(),
            p.name_view() == name@,
    {
        SimplePipeline { processors: List::new(), name: text_of(name) }
    }

    /// The name.
    pub fn name(&self) -> (r: &str)
        ensures
            r@ == self.name_view(),
    {
        self.name.as_str()
    }

    /// Renames the pipeline.
    pub fn set_name(&mut self, name: &str)
        ensures
            final(self).name_view() == name@,
            final(self).processors_view() == old(self).processors_view(),
    {
        self.name = text_of(name);
    }

    /// Runs `event` through every processor in order; the first failure
    /// stops it and is reported with the processor's name and place.
    pub fn process(&self, event: Event) -> (r: Result<Event, PipelineError>)
        ensures
            pipeline_outcome(self.processors_view(), event, r),
    {
        let ghost ps = self.processors_view();
        let ghost mut stages: Seq<Event> = seq![event];
        let mut current = event;
        let mut i: usize = 0;
        while i < self.processors.len()
            invariant
                0 <= i <= ps.len(),
                ps == self.processors_view(),
                ok_stages(ps, stages, i as int),
                stages[0] == event,
                stages.last() == current,
            decreases ps.len() - i,
        {
            let p = self.processors.get(i);
            let ghost before = current;
            match p.process(current) {
                Ok(next) => {
                    proof {
                        let s2 = stages.push(next);
                        assert(step_ok(ps, i as int, before, next));
                        assert forall|k: int| 0 <= k < i + 1 implies #[trigger] step_ok(ps, k, s2[k], s2[k + 1]) by {
                            if k < i {
                                assert(step_ok(ps, k, stages[k], stages[k + 1]));
                            }
                        }
                        stages = s2;
                    }
                    current = next;
                },
                Err(e) => {
                    let mut m = text_of("Processor '");
                    push_text(&mut m, p.name());
                    push_text(&mut m, "' (index ");
                    push_text(&mut m, usize_text(i).as_str());
                    push_text(&mut m, ") failed: ");
                    push_text(&mut m, e.as_str());
                    proof {
                        assert(ps[i as int].processes(before, Err::<Event, String>(e)));
                        assert(step_fails(ps, i as int, stages[i as int], m@));
                    }
                    return Err(PipelineError::ProcessorError(m));
                },
            }
            i = i + 1;
        }
        Ok(current)
    }

    /// Runs each event through the pipeline, in order; the first failure
    /// stops the batch and is reported with the event's place.
    pub fn process_batch(&self, events: Vec<Event>) -> (r: Result<Vec<Event>, PipelineError>)
        ensures
            batch_outcome(self.processors_view(), events@, r),
    {
        let ghost all = events@;
        let mut rest = events;
        let mut results: Vec<Event> = Vec::new();
        let mut k: usize = 0;
        proof {
            assert(rest@ =~= all.skip(0));
            assert(all.len() == rest.len());
        }
        while rest.len() > 0
            invariant
                0 <= k <= all.len(),
                all.len() <= usize::MAX,
                rest@ == all.skip(k as int),
                all == events@,
                results@.len() == k,
                forall|i: int| 0 <= i < k ==> pipeline_outcome(self.processors_view(), all[i], Ok::<Event, PipelineError>(#[trigger] results@[i])),
            decreases rest@.len(),
        {
            proof {
                assert(all.skip(k as int).len() > 0);
            }
            let event = rest.remove(0);
            proof {
                assert(event == all[k as int]);
                assert(rest@ =~= all.skip(k + 1));
            }
            match self.process(event) {
                Ok(processed) => results.push(processed),
                Err(e) => {
                    let error = e.message();
                    let r: Result<Vec<Event>, PipelineError> = Err(PipelineError::BatchError { index: k, error });
                    proof {
                        assert(e is ProcessorError);
                        let m = e->ProcessorError_0;
                        let index = r->Err_0->index;
                        assert(index == k);
                        assert(pipeline_outcome(self.processors_view(), events@[index as int], Err::<Event, PipelineError>(PipelineError::ProcessorError(m))));
                        assert(r->Err_0->error@ == "Processor error: "@ + m@);
                        assert forall|j: int| 0 <= j < index implies
                            passes(self.processors_view(), #[trigger] events@[j]) by {
                            assert(pipeline_outcome(self.processors_view(), all[j], Ok::<Event, PipelineError>(results@[j])));
                        }
                    }
                    return r;
                },
            }
            k = k + 1;
        }
        Ok(results)
    }

    /// Adds a processor after the others.
    pub fn add_processor(&mut self, processor: Box<dyn ProcessorTrait>)
        ensures
            final(self).processors_view().len() == old(self).processors_view().len() + 1,
            final(self).processors_view().take(old(self).processors_view().len() as int) == old(self).processors_view(),
            final(self).processors_view() == old(self).processors_view().push(processor),
            final(self).name_view() == old(self).name_view(),
    {
        self.processors.push(processor);
        proof {
            assert(self.processors_view().take(old(self).processors_view().len() as int) =~= old(self).processors_view());
        }
    }

    /// Adds a processor named `name` that runs `func`, after the others.
    pub fn add_function<F: Fn(Event) -> Result<Event, String> + 'static>(&mut self, name: &str, func: F)
        requires
            forall|e: Event| call_requires(func, (e,)),
        ensures
            final(self).processors_view().len() == old(self).processors_view().len() + 1,
            final(self).processors_view().take(old(self).processors_view().len() as int) == old(self).processors_view(),
            final(self).processors_view().last().spec_name() == name@,
            forall|e: Event, r: Result<Event, String>| #[trigger] final(self).processors_view().last().processes(e, r) == call_ensures(func, (e,), r),
            final(self).name_view() == old(self).name_view(),
    {
        let fp = FunctionProcessor::new(name, func);
        let ghost gfp = fp;
        self.processors.push(Box::new(fp));
        proof {
            assert(self.processors_view().take(old(self).processors_view().len() as int) =~= old(self).processors_view());
            assert(self.processors_view().last().spec_name() == gfp.spec_name());
            assert forall|e: Event, r: Result<Event, String>| #[trigger] self.processors_view().last().processes(e, r) == call_ensures(func, (e,), r) by {
                assert(self.processors_view().last().processes(e, r) == gfp.processes(e, r));
            }
        }
    }

    /// The number of processors.
    pub fn processor_count(&self) -> (n: usize)
        ensures
            n == self.processors_view().len(),
    {
        self.processors.len()
    }

    /// Removes every processor.
    pub fn clear_processors(&mut self)
        ensures
            final(self).processors_view() == Seq::<Box<dyn ProcessorTrait>>::empty(),
            final(self).name_view() == old(self).name_view(),
    {
        self.processors.clear();
    }

    /// The processor at `index`.
    pub fn get_processor(&self, index: usize) -> (r: Option<&Box<dyn ProcessorTrait>>)
        ensures
            r is Some <==> index < self.processors_view().len(),
            r matches Some(p) ==> *p == self.processors_view()[index as int],
    {
        if index < self.processors.len() {
            Some(self.processors.get(index))
        } else {
            None
        }
    }

    /// Takes out the processor at `index`.
    pub fn remove_processor(&mut self, index: usize) -> (r: Option<Box<dyn ProcessorTrait>>)
        ensures
            index < old(self).processors_view().len() ==> r is Some
                && final(self).processors_view() == old(self).processors_view().remove(index as int),
            index >= old(self).processors_view().len() ==> r is None && final(self).processors_view() == old(self).processors_view(),
            final(self).name_view() == old(self).name_view(),
    {
        if index < self.processors.len() {
            Some(self.processors.remove(index))
        } else {
            None
        }
    }
}

impl Default for SimplePipeline {
    fn default() -> (p: Self)
        ensures
            p.processors_view() == Seq::<Box<dyn ProcessorTrait>>::empty(),
            p.name_view() == "default"@,
    {
        SimplePipeline::new()
    }
}

/// A pipeline without processors gives back the event it was given.
pub proof fn law_empty_pipeline_passes(input: Event, r: Result<Event, PipelineError>)
    requires
        pipeline_outcome(Seq::<Box<dyn ProcessorTrait>>::empty(), input, r),
    ensures
        r == Ok::<Event, PipelineError>(input),
{
    let ps = Seq::<Box<dyn ProcessorTrait>>::empty();
    match r {
        Ok(out) => {
            let stages = choose|stages: Seq<Event>| #[trigger] ok_stages(ps, stages, ps.len() as int) && stages[0] == input && stages.last() == out;
            assert(stages.len() == 1);
        },
        Err(_) => {},
    }
}

/// Whether each processor of `ps` has at most one outcome for each event.
pub open spec fn one_outcome_each(ps: Seq<Box<dyn ProcessorTrait>>) -> bool {
    forall|k: int, a: Event, o1: Result<Event, String>, o2: Result<Event, String>|
        0 <= k < ps.len() && #[trigger] ps[k].processes(a, o1) && #[trigger] ps[k].processes(a, o2) ==> o1 == o2
}

/// Two runs of the same processors from the same event pass the same events.
proof fn lemma_same_stages(ps: Seq<Box<dyn ProcessorTrait>>, s1: Seq<Event>, n1: int, s2: Seq<Event>, n2: int, n: int)
    requires
        one_outcome_each(ps),
        n1 <= ps.len(),
        n2 <= ps.len(),
        ok_stages(ps, s1, n1),
        ok_stages(ps, s2, n2),
        s1[0] == s2[0],
        0 <= n <= n1,
        n <= n2,
    ensures
        forall|k: int| 0 <= k <= n ==> #[trigger] s1[k] == s2[k],
    decreases n,
{
    if n > 0 {
        lemma_same_stages(ps, s1, n1, s2, n2, n - 1);
        let k = n - 1;
        assert(step_ok(ps, k, s1[k], s1[k + 1]));
        assert(step_ok(ps, k, s2[k], s2[k + 1]));
        assert(Ok::<Event, String>(s1[k + 1]) == Ok::<Event, String>(s2[k + 1]));
        assert forall|k: int| 0 <= k <= n implies #[trigger] s1[k] == s2[k] by {
            if k < n {
                assert(s1[k] == s2[k]);
            }
        }
    }
}

/// When each processor has one outcome per event and the processors, in
/// order, take `input` through the events of `stages`, the pipeline gives
/// the last of them.
pub proof fn law_pipeline_runs_in_order(ps: Seq<Box<dyn ProcessorTrait>>, input: Event, stages: Seq<Event>, r: Result<Event, PipelineError>)
    requires
        one_outcome_each(ps),
        ok_stages(ps, stages, ps.len() as int),
        stages[0] == input,
        pipeline_outcome(ps, input, r),
    ensures
        r == Ok::<Event, PipelineError>(stages.last()),
{
    match r {
        Ok(out) => {
            let s2 = choose|s2: Seq<Event>| #[trigger] ok_stages(ps, s2, ps.len() as int) && s2[0] == input && s2.last() == out;
            lemma_same_stages(ps, stages, ps.len() as int, s2, ps.len() as int, ps.len() as int);
            assert(stages[ps.len() as int] == s2[ps.len() as int]);
        },
        Err(PipelineError::ProcessorError(m)) => {
            let (s2, j) = choose|s2: Seq<Event>, j: int|
                0 <= j < ps.len() && #[trigger] ok_stages(ps, s2, j) && s2[0] == input && step_fails(ps, j, s2[j], m@);
            lemma_same_stages(ps, stages, ps.len() as int, s2, j, j);
            let e = choose|e: String| #[trigger] ps[j].processes(s2[j], Err::<Event, String>(e)) && m@ == failure_text(ps[j].spec_name(), j, e@);
            assert(step_ok(ps, j, stages[j], stages[j + 1]));
            assert(stages[j] == s2[j]);
            assert(ps[j].processes(s2[j], Ok::<Event, String>(stages[j + 1])));
        },
        Err(_) => {},
    }
}

/// When each processor has one outcome per event and processor `j` is the
/// first to fail, with `e`, the pipeline stops there with that error, the
/// processor's name and its place.
pub proof fn law_first_failure_stops(ps: Seq<Box<dyn ProcessorTrait>>, input: Event, stages: Seq<Event>, j: int, e: String, r: Result<Event, PipelineError>)
    requires
        one_outcome_each(ps),
        0 <= j < ps.len(),
        ok_stages(ps, stages, j),
        stages[0] == input,
        ps[j].processes(stages[j], Err::<Event, String>(e)),
        pipeline_outcome(ps, input, r),
    ensures
        r matches Err(PipelineError::ProcessorError(m)) && m@ == failure_text(ps[j].spec_name(), j, e@),
{
    match r {
        Ok(out) => {
            let s2 = choose|s2: Seq<Event>| #[trigger] ok_stages(ps, s2, ps.len() as int) && s2[0] == input && s2.last() == out;
            lemma_same_stages(ps, stages, j, s2, ps.len() as int, j);
            assert(step_ok(ps, j, s2[j], s2[j + 1]));
            assert(stages[j] == s2[j]);
            assert(ps[j].processes(stages[j], Ok::<Event, String>(s2[j + 1])));
        },
        Err(PipelineError::ProcessorError(m)) => {
            let (s2, j2) = choose|s2: Seq<Event>, j2: int|
                0 <= j2 < ps.len() && #[trigger] ok_stages(ps, s2, j2) && s2[0] == input && step_fails(ps, j2, s2[j2], m@);
            let e2 = choose|e2: String| #[trigger] ps[j2].processes(s2[j2], Err::<Event, String>(e2)) && m@ == failure_text(ps[j2].spec_name(), j2, e2@);
            if j2 < j {
                lemma_same_stages(ps, stages, j, s2, j2, j2);
                assert(step_ok(ps, j2, stages[j2], stages[j2 + 1]));
                assert(stages[j2] == s2[j2]);
                assert(ps[j2].processes(s2[j2], Ok::<Event, String>(stages[j2 + 1])));
            } else if j2 > j {
                lemma_same_stages(ps, stages, j, s2, j2, j);
                assert(step_ok(ps, j, s2[j], s2[j + 1]));
                assert(stages[j] == s2[j]);
                assert(ps[j].processes(stages[j], Ok::<Event, String>(s2[j + 1])));
            } else {
                lemma_same_stages(ps, stages, j, s2, j2, j);
                assert(stages[j] == s2[j]);
                assert(Err::<Event, String>(e2) == Err::<Event, String>(e));
            }
        },
        Err(_) => {},
    }
}

/// When each processor has one outcome per event and every event of a
/// batch can pass the processors, the batch passes as a whole.
pub proof fn law_batch_passes_when_each_event_passes(ps: Seq<Box<dyn ProcessorTrait>>, events: Seq<Event>, r: Result<Vec<Event>, PipelineError>)
    requires
        one_outcome_each(ps),
        forall|i: int| 0 <= i < events.len() ==> passes(ps, #[trigger] events[i]),
        batch_outcome(ps, events, r),
    ensures
        r is Ok,
{
    if let Err(PipelineError::BatchError { index, error }) = r {
        let e = events[index as int];
        assert(passes(ps, e));
        let m = choose|m: String| #[trigger] pipeline_outcome(ps, e, Err::<Event, PipelineError>(PipelineError::ProcessorError(m)))
            && error@ == "Processor error: "@ + m@;
        let o = choose|o: Event| #[trigger] pipeline_outcome(ps, e, Ok::<Event, PipelineError>(o));
        let stages = choose|stages: Seq<Event>| #[trigger] ok_stages(ps, stages, ps.len() as int) && stages[0] == e && stages.last() == o;
        law_pipeline_runs_in_order(ps, e, stages, Err::<Event, PipelineError>(PipelineError::ProcessorError(m)));
    }
}

/// The operations of a pipeline.
pub trait PipelineTrait {
    /// The processors, in order, as a spec value.
    spec fn stages(&self) -> Seq<Box<dyn ProcessorTrait>>;

    /// Runs one event through the pipeline.
    fn process_event(&self, event: Event) -> (r: Result<Event, PipelineError>)
        ensures
            pipeline_outcome(self.stages(), event, r),
    ;

    /// Runs events through the pipeline, in order.
    fn process_batch(&self, events: Vec<Event>) -> (r: Result<Vec<Event>, PipelineError>)
        ensures
            batch_outcome(self.stages(), events@, r),
    ;

    /// Adds a processor after the others.
    fn add_processor(&mut self, processor: Box<dyn ProcessorTrait>)
        ensures
            final(self).stages().len() == old(self).stages().len() + 1,
            final(self).stages().take(old(self).stages().len() as int) == old(self).stages(),
    ;

    /// The number of processors.
    fn processor_count(&self) -> (n: usize)
        ensures
            n == self.stages().len(),
    ;

    /// Removes every processor.
    fn clear_processors(&mut self)
        ensures
            final(self).stages() == Seq::<Box<dyn ProcessorTrait>>::empty(),
    ;
}

impl PipelineTrait for SimplePipeline {
    open spec fn stages(&self) -> Seq<Box<dyn ProcessorTrait>> {
        self.processors_view()
    }

    fn process_event(&self, event: Event) -> (r: Result<Event, PipelineError>)
        ensures
            pipeline_outcome(self.processors_view(), event, r),
    {
        SimplePipeline::process(self, event)
    }

    fn process_batch(&self, events: Vec<Event>) -> (r: Result<Vec<Event>, PipelineError>)
        ensures
            batch_outcome(self.processors_view(), events@, r),
    {
        SimplePipeline::process_batch(self, events)
    }

    fn add_processor(&mut self, processor: Box<dyn ProcessorTrait>)
        ensures
            final(self).processors_view().len() == old(self).processors_view().len() + 1,
            final(self).processors_view().take(old(self).processors_view().len() as int) == old(self).processors_view(),
            final(self).name_view() == old(self).name_view(),
    {
        SimplePipeline::add_processor(self, processor)
    }

    fn processor_count(&self) -> (n: usize)
        ensures
            n == self.processors_view().len(),
    {
        SimplePipeline::processor_count(self)
    }

    fn clear_processors(&mut self)
        ensures
            final(self).processors_view() == Seq::<Box<dyn ProcessorTrait>>::empty(),
            final(self).name_view() == old(self).name_view(),
    {
        SimplePipeline::clear_processors(self)
    }
}

}
