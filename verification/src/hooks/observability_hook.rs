//! Counts and times what the agent does, and turns it into trace events.

use vstd::prelude::*;
use crate::hooks::RunOutcome;
use crate::memory::{self, ToolCallRef};
use crate::text;
use crate::tui::debug::TraceEvent;

verus! {

/// How many bytes of an input are kept in a trace.
pub const INPUT_BYTES: usize = 200;

/// The tokens of a call of the model.
#[derive(Clone, Copy, Debug, PartialEq, Eq, Structural)]
pub struct Usage {
    pub prompt_tokens: u32,
    pub completion_tokens: u32,
    pub total_tokens: u32,
}

/// The numbers of a run, for display.
#[derive(Clone, Copy, Debug, PartialEq, Eq, Structural)]
pub struct Metrics {
    pub steps: usize,
    pub llm_calls: usize,
    pub llm_retries: usize,
    pub tool_calls: usize,
    pub tool_errors: usize,
    pub total_tokens: u64,
    pub is_streaming: bool,
    pub run_started: bool,
}

impl Metrics {
    /// The numbers before a run.
    #[verifier::allow_in_spec]
    pub fn fresh() -> Metrics
        returns
            (Metrics {
                steps: 0,
                llm_calls: 0,
                llm_retries: 0,
                tool_calls: 0,
                tool_errors: 0,
                total_tokens: 0,
                is_streaming: false,
                run_started: false,
            }),
    {
        Metrics {
            steps: 0,
            llm_calls: 0,
            llm_retries: 0,
            tool_calls: 0,
            tool_errors: 0,
            total_tokens: 0,
            is_streaming: false,
            run_started: false,
        }
    }
}

/// The next count; it starts over behind the largest number.
#[verifier::allow_in_spec]
pub fn next(n: usize) -> usize
    returns
        if n == usize::MAX {
            0
        } else {
            (n + 1) as usize
        },
{
    if n == usize::MAX {
        0
    } else {
        n + 1
    }
}

/// The time since `start`, or nothing where there is no start.
#[verifier::allow_in_spec]
pub fn elapsed(start: Option<u64>, now: u64) -> u64
    returns
        (match start {
            Some(s) => if now >= s {
                (now - s) as u64
            } else {
                0
            },
            None => 0,
        }),
{
    match start {
        Some(s) => if now >= s {
            now - s
        } else {
            0
        },
        None => 0,
    }
}

/// The sum of two numbers of tokens, or the largest number.
#[verifier::allow_in_spec]
pub fn sum_tokens(a: u32, b: u32) -> u32
    returns
        if a + b > u32::MAX {
            u32::MAX
        } else {
            (a + b) as u32
        },
{
    a.saturating_add(b)
}

/// The tokens of several calls together.
pub open spec fn total_usage(history: Seq<Usage>) -> Usage
    decreases history.len(),
{
    if history.len() == 0 {
        Usage { prompt_tokens: 0, completion_tokens: 0, total_tokens: 0 }
    } else {
        let t = total_usage(history.drop_last());
        let u = history.last();
        Usage {
            prompt_tokens: sum_tokens(t.prompt_tokens, u.prompt_tokens),
            completion_tokens: sum_tokens(t.completion_tokens, u.completion_tokens),
            total_tokens: sum_tokens(t.total_tokens, u.total_tokens),
        }
    }
}

/// The tokens of a run: those of its calls, or of the last call where no
/// calls are listed, or none.
pub open spec fn run_usage(history: Seq<Usage>, last: Option<Usage>) -> Usage {
    if history.len() == 0 {
        match last {
            Some(u) => u,
            None => total_usage(history),
        }
    } else {
        total_usage(history)
    }
}

/// The tokens of a run.
pub fn cumulative_usage(history: &Vec<Usage>, last: Option<Usage>) -> (r: Usage)
    ensures
        r == run_usage(history@, last),
{
    if history.len() == 0 {
        match last {
            Some(u) => {
                return u;
            },
            None => {},
        }
    }
    let mut total = Usage { prompt_tokens: 0, completion_tokens: 0, total_tokens: 0 };
    let mut i: usize = 0;
    assert(history@.take(0).len() == 0);
    while i < history.len()
        invariant
            i <= history@.len(),
            total == total_usage(history@.take(i as int)),
        decreases history@.len() - i,
    {
        assert(history@.take(i + 1).drop_last() =~= history@.take(i as int));
        let u = history[i];
        total = Usage {
            prompt_tokens: sum_tokens(total.prompt_tokens, u.prompt_tokens),
            completion_tokens: sum_tokens(total.completion_tokens, u.completion_tokens),
            total_tokens: sum_tokens(total.total_tokens, u.total_tokens),
        };
        i = i + 1;
    }
    assert(history@.take(i as int) =~= history@);
    total
}

/// The input as it is kept: of one with too many bytes the characters that end
/// within the limit, with an ellipsis.
pub open spec fn kept_input(s: Seq<char>) -> Seq<char> {
    if text::byte_len(s) > INPUT_BYTES {
        s.take(text::floor_index(s, INPUT_BYTES as nat)) + "…"@
    } else {
        s
    }
}

fn keep_input(s: &str) -> (r: String)
    ensures
        r@ == kept_input(s@),
{
    let n: usize = text::byte_len_of(s);
    if n > INPUT_BYTES {
        let cs = text::chars_of(s);
        let k: usize = text::floor_chars(&cs, INPUT_BYTES);
        assert(cs@.subrange(0, k as int) =~= s@.take(k as int));
        text::cat2(text::string_of_range(&cs, 0, k).as_str(), "…")
    } else {
        s.to_owned()
    }
}

/// How the end of a run is written.
pub open spec fn outcome_text(o: RunOutcome) -> Seq<char> {
    match o {
        RunOutcome::Success { .. } => "success"@,
        RunOutcome::Error { error } => "error: "@ + error@,
        RunOutcome::Cancelled => "cancelled"@,
    }
}

/// Why the model stopped, as far as its answer shows: tool calls, or the end
/// of the answer.
pub open spec fn finish_reason(response: memory::RecordView) -> Seq<char> {
    match response.tool_calls {
        Some(calls) => if calls.len() == 0 {
            "stop"@
        } else {
            "tool_calls"@
        },
        None => "stop"@,
    }
}

// ── When tool calls began ───────────────────────────────────────────────

/// When tool calls began, by their id.
pub open spec fn starts_view(v: Seq<(String, u64)>) -> Seq<(Seq<char>, u64)> {
    v.map_values(|e: (String, u64)| (e.0@, e.1))
}

/// The entries of other calls.
pub open spec fn other_starts(v: Seq<(Seq<char>, u64)>, id: Seq<char>) -> Seq<(Seq<char>, u64)>
    decreases v.len(),
{
    if v.len() == 0 {
        v
    } else {
        let rest = other_starts(v.drop_last(), id);
        if v.last().0 == id {
            rest
        } else {
            rest.push(v.last())
        }
    }
}

/// When a call began, as far as is known.
pub open spec fn start_of(v: Seq<(Seq<char>, u64)>, id: Seq<char>) -> Option<u64>
    decreases v.len(),
{
    if v.len() == 0 {
        None
    } else if v.last().0 == id {
        Some(v.last().1)
    } else {
        start_of(v.drop_last(), id)
    }
}

fn take_start(v: &mut Vec<(String, u64)>, id: &str) -> (r: Option<u64>)
    ensures
        r == start_of(starts_view(old(v)@), id@),
        starts_view(final(v)@) == other_starts(starts_view(old(v)@), id@),
{
    let ghost all = starts_view(v@);
    let mut kept: Vec<(String, u64)> = Vec::new();
    let mut found: Option<u64> = None;
    let mut i: usize = 0;
    assert(starts_view(kept@) =~= other_starts(all.take(0), id@));
    while i < v.len()
        invariant
            i <= v@.len(),
            all == starts_view(v@),
            found == start_of(all.take(i as int), id@),
            starts_view(kept@) == other_starts(all.take(i as int), id@),
        decreases v@.len() - i,
    {
        assert(all.take(i + 1).drop_last() =~= all.take(i as int));
        assert(all.take(i + 1).last() == (v@[i as int].0@, v@[i as int].1));
        let at: u64 = v[i].1;
        if text::same_text(v[i].0.as_str(), id) {
            found = Some(at);
        } else {
            let ghost before = starts_view(kept@);
            let name = v[i].0.clone();
            kept.push((name, at));
            assert(starts_view(kept@) =~= before.push((name@, at)));
        }
        i = i + 1;
    }
    assert(all.take(i as int) =~= all);
    *v = kept;
    found
}

// ── The hook ────────────────────────────────────────────────────────────

/// Counts and times a run.
pub struct ObservabilityHook {
    pub run_start: Option<u64>,
    pub llm_start: Option<u64>,
    pub tool_starts: Vec<(String, u64)>,
    pub current_step: usize,
    pub llm_call_count: usize,
    pub tool_call_count: usize,
    pub llm_error_count: usize,
    pub metrics: Metrics,
}

/// What the hook holds.
pub struct HookView {
    pub run_start: Option<u64>,
    pub llm_start: Option<u64>,
    pub tool_starts: Seq<(Seq<char>, u64)>,
    pub current_step: usize,
    pub llm_call_count: usize,
    pub tool_call_count: usize,
    pub llm_error_count: usize,
    pub metrics: Metrics,
}

impl View for ObservabilityHook {
    type V = HookView;

    open spec fn view(&self) -> HookView {
        HookView {
            run_start: self.run_start,
            llm_start: self.llm_start,
            tool_starts: starts_view(self.tool_starts@),
            current_step: self.current_step,
            llm_call_count: self.llm_call_count,
            tool_call_count: self.tool_call_count,
            llm_error_count: self.llm_error_count,
            metrics: self.metrics,
        }
    }
}

/// The hook at the start of a run: the counts of the last one are gone.
pub open spec fn started(h: HookView, now: u64) -> HookView {
    HookView {
        run_start: Some(now),
        llm_start: h.llm_start,
        tool_starts: Seq::empty(),
        current_step: 0,
        llm_call_count: 0,
        tool_call_count: 0,
        llm_error_count: 0,
        metrics: Metrics { is_streaming: true, run_started: true, ..Metrics::fresh() },
    }
}

/// The hook once the model answered.
pub open spec fn answered(h: HookView, usage: Usage) -> HookView {
    HookView {
        llm_call_count: next(h.llm_call_count),
        metrics: Metrics {
            llm_calls: next(h.metrics.llm_calls),
            total_tokens: if h.metrics.total_tokens + usage.total_tokens > u64::MAX {
                u64::MAX
            } else {
                (h.metrics.total_tokens + usage.total_tokens) as u64
            },
            ..h.metrics
        },
        ..h
    }
}

/// The hook once a call of the model failed.
pub open spec fn llm_failed(h: HookView, will_retry: bool) -> HookView {
    HookView {
        llm_call_count: next(h.llm_call_count),
        llm_error_count: next(h.llm_error_count),
        metrics: Metrics {
            llm_calls: next(h.metrics.llm_calls),
            llm_retries: if will_retry {
                next(h.metrics.llm_retries)
            } else {
                h.metrics.llm_retries
            },
            ..h.metrics
        },
        ..h
    }
}

/// The hook once a tool call began.
pub open spec fn call_began(h: HookView, id: Seq<char>, now: u64) -> HookView {
    HookView { tool_starts: other_starts(h.tool_starts, id).push((id, now)), ..h }
}

/// The hook once a tool call ended.
pub open spec fn call_ended(h: HookView, id: Seq<char>, success: bool) -> HookView {
    HookView {
        tool_starts: other_starts(h.tool_starts, id),
        tool_call_count: next(h.tool_call_count),
        metrics: Metrics {
            tool_calls: next(h.metrics.tool_calls),
            tool_errors: if success {
                h.metrics.tool_errors
            } else {
                next(h.metrics.tool_errors)
            },
            ..h.metrics
        },
        ..h
    }
}

impl ObservabilityHook {
    /// A hook before any run.
    pub fn new() -> (r: ObservabilityHook)
        ensures
            r@ == (HookView {
                run_start: None,
                llm_start: None,
                tool_starts: Seq::empty(),
                current_step: 0,
                llm_call_count: 0,
                tool_call_count: 0,
                llm_error_count: 0,
                metrics: Metrics::fresh(),
            }),
    {
        let r = ObservabilityHook {
            run_start: None,
            llm_start: None,
            tool_starts: Vec::new(),
            current_step: 0,
            llm_call_count: 0,
            tool_call_count: 0,
            llm_error_count: 0,
            metrics: Metrics::fresh(),
        };
        assert(r@.tool_starts =~= Seq::<(Seq<char>, u64)>::empty());
        r
    }

    /// A run begins. Its limits are not known here and stand as zero.
    pub fn on_run_start(&mut self, session_id: &str, user_input: &str, now: u64) -> (r: TraceEvent)
        ensures
            final(self)@ == started(old(self)@, now),
            r matches TraceEvent::RunStarted { session_id: id, user_input: s, max_steps, max_retries }
                && id@ == session_id@ && s@ == kept_input(user_input@) && max_steps == 0
                && max_retries == 0,
    {
        self.run_start = Some(now);
        self.tool_starts = Vec::new();
        self.current_step = 0;
        self.llm_call_count = 0;
        self.tool_call_count = 0;
        self.llm_error_count = 0;
        self.metrics = Metrics { is_streaming: true, run_started: true, ..Metrics::fresh() };
        assert(self@.tool_starts =~= Seq::<(Seq<char>, u64)>::empty());
        TraceEvent::RunStarted {
            session_id: session_id.to_owned(),
            user_input: keep_input(user_input),
            max_steps: 0,
            max_retries: 0,
        }
    }

    /// A run ends.
    pub fn on_run_finish(
        &mut self,
        outcome: &RunOutcome,
        history: &Vec<Usage>,
        last_usage: Option<Usage>,
        now: u64,
    ) -> (r: TraceEvent)
        ensures
            final(self)@ == (HookView {
                metrics: Metrics { is_streaming: false, ..old(self)@.metrics },
                ..old(self)@
            }),
            r matches TraceEvent::RunFinished {
                outcome: o,
                total_duration,
                total_steps,
                total_llm_calls,
                total_tool_calls,
                cumulative_usage: usage,
            } && o@ == outcome_text(*outcome) && total_duration == elapsed(
                old(self)@.run_start,
                now,
            ) && total_steps == old(self)@.current_step && total_llm_calls == old(
                self,
            )@.llm_call_count && total_tool_calls == old(self)@.tool_call_count && usage
                == run_usage(history@, last_usage),
    {
        let outcome = match outcome {
            RunOutcome::Success { .. } => "success".to_owned(),
            RunOutcome::Error { error } => text::cat2("error: ", error.as_str()),
            RunOutcome::Cancelled => "cancelled".to_owned(),
        };
        let usage = cumulative_usage(history, last_usage);
        self.metrics = Metrics { is_streaming: false, ..self.metrics };
        TraceEvent::RunFinished {
            outcome,
            total_duration: elapsed(self.run_start, now),
            total_steps: self.current_step,
            total_llm_calls: self.llm_call_count,
            total_tool_calls: self.tool_call_count,
            cumulative_usage: usage,
        }
    }

    /// A step begins.
    pub fn on_step_start(&mut self, step: usize) -> (r: TraceEvent)
        ensures
            final(self)@ == (HookView {
                current_step: step,
                metrics: Metrics { steps: step, ..old(self)@.metrics },
                ..old(self)@
            }),
            r matches TraceEvent::StepStarted { step: s } && s == step,
    {
        self.current_step = step;
        self.metrics = Metrics { steps: step, ..self.metrics };
        TraceEvent::StepStarted { step }
    }

    /// The model is called.
    pub fn on_llm_start(&mut self, message_count: usize, now: u64) -> (r: TraceEvent)
        ensures
            final(self)@ == (HookView { llm_start: Some(now), ..old(self)@ }),
            r matches TraceEvent::LlmCallStarted { step, attempt, message_count: n } && step == old(
                self,
            )@.current_step && attempt == 0 && n == message_count,
    {
        self.llm_start = Some(now);
        TraceEvent::LlmCallStarted { step: self.current_step, attempt: 0, message_count }
    }

    /// The model answered.
    pub fn on_llm_end(&mut self, response: &memory::Message, usage: Option<Usage>, now: u64) -> (r:
        TraceEvent)
        ensures
            ({
                let u = match usage {
                    Some(u) => u,
                    None => total_usage(Seq::empty()),
                };
                &&& final(self)@ == answered(old(self)@, u)
                &&& r matches TraceEvent::LlmCallFinished {
                    step,
                    attempt,
                    duration,
                    usage: used,
                    finish_reason: reason,
                } && step == old(self)@.current_step && attempt == 0 && duration == elapsed(
                    old(self)@.llm_start,
                    now,
                ) && used == u && text::opt_text(reason) == Some(finish_reason(response@))
            }),
    {
        let u = match usage {
            Some(u) => u,
            None => Usage { prompt_tokens: 0, completion_tokens: 0, total_tokens: 0 },
        };
        self.llm_call_count = next(self.llm_call_count);
        self.metrics = Metrics {
            llm_calls: next(self.metrics.llm_calls),
            total_tokens: self.metrics.total_tokens.saturating_add(u.total_tokens as u64),
            ..self.metrics
        };
        let reason = match &response.tool_calls {
            Some(calls) => {
                assert(memory::calls_view(calls@).len() == calls@.len());
                if calls.len() == 0 {
                    "stop"
                } else {
                    "tool_calls"
                }
            },
            None => "stop",
        };
        TraceEvent::LlmCallFinished {
            step: self.current_step,
            attempt: 0,
            duration: elapsed(self.llm_start, now),
            usage: u,
            finish_reason: Some(reason.to_owned()),
        }
    }

    /// A call of the model failed.
    pub fn on_llm_error(&mut self, error: &str, attempt: usize, will_retry: bool, now: u64) -> (r:
        TraceEvent)
        ensures
            final(self)@ == llm_failed(old(self)@, will_retry),
            r matches TraceEvent::LlmCallFailed {
                step,
                attempt: a,
                error: e,
                will_retry: w,
                duration,
            } && step == old(self)@.current_step && a == attempt && e@ == error@ && w == will_retry
                && duration == elapsed(old(self)@.llm_start, now),
    {
        self.llm_call_count = next(self.llm_call_count);
        self.llm_error_count = next(self.llm_error_count);
        let retries: usize = if will_retry {
            next(self.metrics.llm_retries)
        } else {
            self.metrics.llm_retries
        };
        self.metrics = Metrics {
            llm_calls: next(self.metrics.llm_calls),
            llm_retries: retries,
            ..self.metrics
        };
        TraceEvent::LlmCallFailed {
            step: self.current_step,
            attempt,
            error: error.to_owned(),
            will_retry,
            duration: elapsed(self.llm_start, now),
        }
    }

    /// A tool call begins. It is never held up.
    pub fn before_tool_call(&mut self, call: &ToolCallRef, now: u64) -> (r: TraceEvent)
        ensures
            final(self)@ == call_began(old(self)@, call@.id, now),
            r matches TraceEvent::ToolCallStarted { tool_call_id, tool_name, step } && tool_call_id@
                == call@.id && tool_name@ == call@.name && step == old(self)@.current_step,
    {
        let replaced = take_start(&mut self.tool_starts, call.id.as_str());
        let ghost before = starts_view(self.tool_starts@);
        let id = call.id.clone();
        self.tool_starts.push((id, now));
        assert(starts_view(self.tool_starts@) =~= before.push((id@, now)));
        TraceEvent::ToolCallStarted {
            tool_call_id: call.id.clone(),
            tool_name: call.name.clone(),
            step: self.current_step,
        }
    }

    fn end_call(&mut self, call: &ToolCallRef, success: bool, size: usize, now: u64) -> (r:
        TraceEvent)
        ensures
            final(self)@ == call_ended(old(self)@, call@.id, success),
            r matches TraceEvent::ToolCallFinished {
                tool_call_id,
                tool_name,
                duration,
                success: s,
                output_size_bytes,
            } && tool_call_id@ == call@.id && tool_name@ == call@.name && duration == elapsed(
                start_of(old(self)@.tool_starts, call@.id),
                now,
            ) && s == success && output_size_bytes == size,
    {
        let start = take_start(&mut self.tool_starts, call.id.as_str());
        self.tool_call_count = next(self.tool_call_count);
        let errors: usize = if success {
            self.metrics.tool_errors
        } else {
            next(self.metrics.tool_errors)
        };
        self.metrics = Metrics {
            tool_calls: next(self.metrics.tool_calls),
            tool_errors: errors,
            ..self.metrics
        };
        TraceEvent::ToolCallFinished {
            tool_call_id: call.id.clone(),
            tool_name: call.name.clone(),
            duration: elapsed(start, now),
            success,
            output_size_bytes: size,
        }
    }

    /// A tool call succeeded.
    pub fn after_tool_call(&mut self, call: &ToolCallRef, observation: &str, now: u64) -> (r:
        TraceEvent)
        ensures
            final(self)@ == call_ended(old(self)@, call@.id, true),
            r matches TraceEvent::ToolCallFinished {
                tool_call_id,
                tool_name,
                duration,
                success,
                output_size_bytes,
            } && tool_call_id@ == call@.id && tool_name@ == call@.name && duration == elapsed(
                start_of(old(self)@.tool_starts, call@.id),
                now,
            ) && success && output_size_bytes == text::byte_len(observation@),
    {
        let size: usize = text::byte_len_of(observation);
        self.end_call(call, true, size, now)
    }

    /// A tool call failed.
    pub fn on_tool_failed(&mut self, call: &ToolCallRef, now: u64) -> (r: TraceEvent)
        ensures
            final(self)@ == call_ended(old(self)@, call@.id, false),
            r matches TraceEvent::ToolCallFinished {
                tool_call_id,
                tool_name,
                duration,
                success,
                output_size_bytes,
            } && tool_call_id@ == call@.id && tool_name@ == call@.name && duration == elapsed(
                start_of(old(self)@.tool_starts, call@.id),
                now,
            ) && !success && output_size_bytes == 0,
    {
        self.end_call(call, false, 0, now)
    }
}

// ── Laws ────────────────────────────────────────────────────────────────

proof fn lemma_start_gone(v: Seq<(Seq<char>, u64)>, id: Seq<char>, other: Seq<char>)
    ensures
        start_of(other_starts(v, id), id) is None,
        other != id ==> start_of(other_starts(v, id), other) == start_of(v, other),
    decreases v.len(),
{
    if v.len() > 0 {
        lemma_start_gone(v.drop_last(), id, other);
        let rest = other_starts(v.drop_last(), id);
        if v.last().0 != id {
            assert(rest.push(v.last()).drop_last() =~= rest);
        }
    }
}

/// A call is timed from when it began: whatever other calls begin or end in
/// between, its start is kept, and it is gone once the call ended.
pub proof fn law_calls_are_timed_apart(
    h: HookView,
    id: Seq<char>,
    now: u64,
    other: Seq<char>,
    later: u64,
    success: bool,
)
    requires
        other != id,
    ensures
        start_of(call_began(h, id, now).tool_starts, id) == Some(now),
        start_of(
            call_began(call_began(h, id, now), other, later).tool_starts,
            id,
        ) == Some(now),
        start_of(
            call_ended(call_began(h, id, now), other, success).tool_starts,
            id,
        ) == Some(now),
        start_of(call_ended(h, id, success).tool_starts, id) is None,
{
    let v = call_began(h, id, now).tool_starts;
    lemma_start_gone(h.tool_starts, id, other);
    lemma_start_gone(v, other, id);
    let w = other_starts(v, other);
    assert(w.push((other, later)).drop_last() =~= w);
}

/// Each run is counted from zero.
pub proof fn law_runs_start_from_zero(h: HookView, g: HookView, now: u64)
    requires
        h.llm_start == g.llm_start,
    ensures
        started(h, now) == started(g, now),
{
}

} // verus!
