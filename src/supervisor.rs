//! The decisions of job supervision: which event each process event becomes,
//! and which handler publishes the one terminal event of a job.
use vstd::prelude::*;
use crate::registry::{Registry, DuplicateJob, taken};
use crate::text::{push_all, string_of, join_with, decimal, decimal_of};
use crate::window::{ErrorWindow, window_push_all};
use crate::lines::{LineReader, frame_from, decode_all, texts_view, last_line};

verus! {

/// An event published for a job.
#[derive(Clone, Debug, PartialEq, Eq)]
pub enum Event {
    Progress { job: String, line: String },
    Finished { job: String, code: Option<i32> },
    Failed { job: String, message: String },
    Cancelled { job: String },
}

pub ghost enum EventView {
    Progress { job: Seq<char>, line: Seq<char> },
    Finished { job: Seq<char>, code: Option<i32> },
    Failed { job: Seq<char>, message: Seq<char> },
    Cancelled { job: Seq<char> },
}

impl View for Event {
    type V = EventView;

    open spec fn view(&self) -> EventView {
        match self {
            Event::Progress { job, line } => EventView::Progress { job: job@, line: line@ },
            Event::Finished { job, code } => EventView::Finished { job: job@, code: *code },
            Event::Failed { job, message } => EventView::Failed { job: job@, message: message@ },
            Event::Cancelled { job } => EventView::Cancelled { job: job@ },
        }
    }
}

impl EventView {
    pub open spec fn is_terminal(self) -> bool {
        !(self is Progress)
    }
}

impl Event {
    pub fn is_terminal(&self) -> (r: bool)
        ensures
            r == self@.is_terminal(),
    {
        match self {
            Event::Progress { .. } => false,
            _ => true,
        }
    }

    pub fn job(&self) -> (r: &String)
        ensures
            r@ == match self@ {
                EventView::Progress { job, .. } => job,
                EventView::Finished { job, .. } => job,
                EventView::Failed { job, .. } => job,
                EventView::Cancelled { job } => job,
            },
    {
        match self {
            Event::Progress { job, .. } => job,
            Event::Finished { job, .. } => job,
            Event::Failed { job, .. } => job,
            Event::Cancelled { job } => job,
        }
    }
}

/// How waiting for a process ended.
#[derive(Clone, Debug, PartialEq, Eq)]
pub enum ExitOutcome {
    /// The process exited; `None` when it reported no exit code (killed by a signal).
    Exited { code: Option<i32> },
    /// Waiting for the process failed, with the system's error text.
    WaitFailed { error: String },
}

pub open spec fn stderr_marker() -> Seq<char> {
    "[STDERR] "@
}

pub open spec fn exit_code_text(code: Option<i32>) -> Seq<char> {
    match code {
        Some(n) => "Process exited with code "@ + decimal_of(n as int),
        None => "Process exited without an exit code"@,
    }
}

/// The message of a failed job: its diagnostic lines, or else its exit code.
pub open spec fn failure_text(window: Seq<Seq<char>>, code: Option<i32>) -> Seq<char> {
    if window.len() > 0 {
        join_with(window, '\n')
    } else {
        exit_code_text(code)
    }
}

/// The terminal event of a job whose process has been waited for.
pub open spec fn exit_event(job: Seq<char>, outcome: ExitOutcome, window: Seq<Seq<char>>) -> EventView {
    match outcome {
        ExitOutcome::Exited { code } => if code == Some(0i32) {
            EventView::Finished { job, code }
        } else {
            EventView::Failed { job, message: failure_text(window, code) }
        },
        ExitOutcome::WaitFailed { error } => EventView::Failed { job, message: error@ },
    }
}

/// The event that a line on the process's standard output becomes.
pub fn stdout_event(job: &String, line: String) -> (r: Event)
    ensures
        r@ == (EventView::Progress { job: job@, line: line@ }),
{
    Event::Progress { job: job.clone(), line }
}

/// The event that a line on the process's standard error becomes; the line
/// is also offered to the job's diagnostic window.
pub fn stderr_event(job: &String, line: String, window: &mut ErrorWindow) -> (r: Event)
    requires
        old(window).wf(),
    ensures
        final(window).wf(),
        final(window)@ == crate::window::window_push(old(window)@, line@),
        r@ == (EventView::Progress { job: job@, line: stderr_marker() + line@ }),
{
    let mut out: Vec<char> = Vec::new();
    push_all(&mut out, "[STDERR] ");
    push_all(&mut out, line.as_str());
    let marked = string_of(&out);
    window.push(line);
    Event::Progress { job: job.clone(), line: marked }
}

/// The event of a job whose process could not be started.
pub fn spawn_failed(job: String, error: String) -> (r: Event)
    ensures
        r@ == (EventView::Failed { job: job@, message: error@ }),
{
    Event::Failed { job, message: error }
}

pub fn exit_code_message(code: Option<i32>) -> (r: String)
    ensures
        r@ == exit_code_text(code),
{
    let mut out: Vec<char> = Vec::new();
    match code {
        Some(n) => {
            push_all(&mut out, "Process exited with code ");
            let d = decimal(n as i64);
            push_all(&mut out, d.as_str());
        },
        None => {
            push_all(&mut out, "Process exited without an exit code");
        },
    }
    string_of(&out)
}

/// The terminal event for an outcome, without consulting the registry.
pub fn classify_exit(job: &String, outcome: ExitOutcome, window: &ErrorWindow) -> (r: Event)
    ensures
        r@ == exit_event(job@, outcome, window@),
{
    match outcome {
        ExitOutcome::Exited { code } => {
            match code {
                Some(0i32) => Event::Finished { job: job.clone(), code },
                _ => {
                    let message = if window.is_empty() {
                        exit_code_message(code)
                    } else {
                        window.joined()
                    };
                    Event::Failed { job: job.clone(), message }
                },
            }
        },
        ExitOutcome::WaitFailed { error } => Event::Failed { job: job.clone(), message: error },
    }
}

/// Tracks the running jobs and decides which handler publishes each job's
/// terminal event: the exit observer or the cancellation, whichever removes
/// the job's entry first.
pub struct Supervisor<H> {
    registry: Registry<H>,
}

impl<H> View for Supervisor<H> {
    type V = Map<Seq<char>, H>;

    closed spec fn view(&self) -> Map<Seq<char>, H> {
        self.registry@
    }
}

impl<H> Supervisor<H> {
    pub closed spec fn wf(&self) -> bool {
        self.registry.wf()
    }

    pub fn new() -> (r: Supervisor<H>)
        ensures
            r.wf(),
            r@ == Map::<Seq<char>, H>::empty(),
    {
        Supervisor { registry: Registry::new() }
    }

    /// Whether the job is believed running.
    pub fn is_running(&self, job: &String) -> (r: bool)
        requires
            self.wf(),
        ensures
            r == self@.contains_key(job@),
    {
        self.registry.contains(job)
    }

    pub fn running_count(&self) -> (r: usize)
        requires
            self.wf(),
        ensures
            r == self@.len(),
    {
        self.registry.len()
    }

    /// Passes on a job's progress events only while the job is registered, so
    /// that nothing follows its terminal event.
    pub fn relay(&self, job: &String, events: Vec<Event>) -> (r: Vec<Event>)
        requires
            self.wf(),
        ensures
            self@.contains_key(job@) ==> r@ == events@,
            !self@.contains_key(job@) ==> r@.len() == 0,
    {
        if self.registry.contains(job) {
            events
        } else {
            Vec::new()
        }
    }

    /// Records a job whose process has been started.
    pub fn started(&mut self, job: String, handle: H) -> (r: Result<(), DuplicateJob<H>>)
        requires
            old(self).wf(),
        ensures
            final(self).wf(),
            r.is_err() == old(self)@.contains_key(job@),
            r.is_ok() ==> final(self)@ == old(self)@.insert(job@, handle),
            r.is_err() ==> final(self)@ == old(self)@ && r->Err_0.handle == handle,
    {
        self.registry.insert(job, handle)
    }

    /// The exit observer: the process has been waited for. The job leaves the
    /// registry; its terminal event is returned unless a cancellation already
    /// removed it, in which case nothing is to be published.
    pub fn exited(&mut self, job: &String, outcome: ExitOutcome, window: &ErrorWindow) -> (r: Option<Event>)
        requires
            old(self).wf(),
        ensures
            final(self).wf(),
            final(self)@ == old(self)@.remove(job@),
            r.is_some() == old(self)@.contains_key(job@),
            r.is_some() ==> r->0@ == exit_event(job@, outcome, window@),
    {
        match self.registry.take_and_remove(job) {
            Some(_) => Some(classify_exit(job, outcome, window)),
            None => None,
        }
    }

    /// The cancellation path: the job leaves the registry and, if it was
    /// running, its handle is handed out for termination together with the
    /// event to publish once the grace period is over. An unknown job is no
    /// error: nothing is handed out.
    pub fn cancel(&mut self, job: &String) -> (r: Option<(H, Event)>)
        requires
            old(self).wf(),
        ensures
            final(self).wf(),
            final(self)@ == old(self)@.remove(job@),
            r.is_some() == old(self)@.contains_key(job@),
            match r {
                Some(pair) => Some(pair.0) == taken(old(self)@, job@) && pair.1@ == (
                EventView::Cancelled { job: job@ }),
                None => true,
            },
    {
        match self.registry.take_and_remove(job) {
            Some(h) => Some((h, Event::Cancelled { job: job.clone() })),
            None => None,
        }
    }
}

/// How many terminal events for `job` a run of handlers publishes, starting
/// from registry contents `m`. Each entry of `calls` is the job of one exit
/// observer or cancellation; both publish exactly when the job is registered,
/// and both remove it.
pub open spec fn terminal_events<H>(m: Map<Seq<char>, H>, calls: Seq<Seq<char>>, job: Seq<char>) -> nat
    decreases calls.len(),
{
    if calls.len() == 0 {
        0
    } else {
        (if calls[0] == job && m.contains_key(job) { 1 as nat } else { 0 as nat }) + terminal_events(
            m.remove(calls[0]),
            calls.drop_first(),
            job,
        )
    }
}

/// However the exit observer and any number of cancellations of a job
/// interleave, with handlers of other jobs among them, a registered job gets
/// at most one terminal event, and exactly one once any of its handlers ran.
pub proof fn lemma_one_terminal_event<H>(m: Map<Seq<char>, H>, calls: Seq<Seq<char>>, job: Seq<char>)
    requires
        m.contains_key(job),
    ensures
        terminal_events(m, calls, job) <= 1,
        calls.contains(job) ==> terminal_events(m, calls, job) == 1,
    decreases calls.len(),
{
    if calls.len() > 0 {
        if calls[0] == job {
            lemma_no_terminal_event(m.remove(job), calls.drop_first(), job);
        } else {
            lemma_one_terminal_event(m.remove(calls[0]), calls.drop_first(), job);
            if calls.contains(job) {
                let i = choose|i: int| 0 <= i < calls.len() && calls[i] == job;
                assert(calls.drop_first()[i - 1] == job);
            }
        }
    }
}

/// Once a job has left the registry, no handler publishes a terminal event for it.
pub proof fn lemma_no_terminal_event<H>(m: Map<Seq<char>, H>, calls: Seq<Seq<char>>, job: Seq<char>)
    requires
        !m.contains_key(job),
    ensures
        terminal_events(m, calls, job) == 0,
    decreases calls.len(),
{
    if calls.len() > 0 {
        lemma_no_terminal_event(m.remove(calls[0]), calls.drop_first(), job);
    }
}

} // verus!

verus! {

pub open spec fn events_view(v: Seq<Event>) -> Seq<EventView> {
    v.map_values(|e: Event| e@)
}

/// The progress events of lines read from standard output.
pub open spec fn stdout_views(job: Seq<char>, lines: Seq<Seq<char>>) -> Seq<EventView> {
    lines.map_values(|l: Seq<char>| EventView::Progress { job, line: l })
}

/// The progress events of lines read from standard error, marked as such.
pub open spec fn stderr_views(job: Seq<char>, lines: Seq<Seq<char>>) -> Seq<EventView> {
    lines.map_values(|l: Seq<char>| EventView::Progress { job, line: stderr_marker() + l })
}

fn stdout_events(job: &String, lines: Vec<String>) -> (r: Vec<Event>)
    ensures
        events_view(r@) == stdout_views(job@, texts_view(lines@)),
{
    let mut out: Vec<Event> = Vec::new();
    let mut i: usize = 0;
    while i < lines.len()
        invariant
            i <= lines.len(),
            events_view(out@) == stdout_views(job@, texts_view(lines@).take(i as int)),
        decreases lines.len() - i,
    {
        let ev = stdout_event(job, lines[i].clone());
        let ghost prev = out@;
        out.push(ev);
        assert(events_view(out@) =~= events_view(prev).push(ev@));
        assert(texts_view(lines@).take(i as int + 1) =~= texts_view(lines@).take(i as int).push(
            lines@[i as int]@,
        ));
        assert(stdout_views(job@, texts_view(lines@).take(i as int + 1)) =~= stdout_views(
            job@,
            texts_view(lines@).take(i as int),
        ).push(ev@));
        i = i + 1;
    }
    assert(texts_view(lines@).take(lines.len() as int) =~= texts_view(lines@));
    out
}

fn stderr_events(job: &String, lines: Vec<String>, window: &mut ErrorWindow) -> (r: Vec<Event>)
    requires
        old(window).wf(),
    ensures
        final(window).wf(),
        final(window)@ == window_push_all(old(window)@, texts_view(lines@)),
        events_view(r@) == stderr_views(job@, texts_view(lines@)),
{
    let mut out: Vec<Event> = Vec::new();
    let mut i: usize = 0;
    let ghost w0 = window@;
    while i < lines.len()
        invariant
            i <= lines.len(),
            window.wf(),
            window@ == window_push_all(w0, texts_view(lines@).take(i as int)),
            events_view(out@) == stderr_views(job@, texts_view(lines@).take(i as int)),
        decreases lines.len() - i,
    {
        let ev = stderr_event(job, lines[i].clone(), window);
        let ghost prev = out@;
        out.push(ev);
        assert(events_view(out@) =~= events_view(prev).push(ev@));
        assert(texts_view(lines@).take(i as int + 1) =~= texts_view(lines@).take(i as int).push(
            lines@[i as int]@,
        ));
        assert(texts_view(lines@).take(i as int + 1).drop_last() =~= texts_view(lines@).take(i as int));
        assert(stderr_views(job@, texts_view(lines@).take(i as int + 1)) =~= stderr_views(
            job@,
            texts_view(lines@).take(i as int),
        ).push(ev@));
        i = i + 1;
    }
    assert(texts_view(lines@).take(lines.len() as int) =~= texts_view(lines@));
    out
}

/// The output side of one job: a line reader per pipe, and the diagnostic
/// window fed from standard error.
pub struct JobOutput {
    job: String,
    out: LineReader,
    err: LineReader,
    window: ErrorWindow,
}

impl JobOutput {
    pub closed spec fn job_id(&self) -> Seq<char> {
        self.job@
    }

    pub closed spec fn out_pending(&self) -> Seq<u8> {
        self.out@
    }

    pub closed spec fn err_pending(&self) -> Seq<u8> {
        self.err@
    }

    pub closed spec fn diagnostics(&self) -> Seq<Seq<char>> {
        self.window@
    }

    pub closed spec fn wf(&self) -> bool {
        self.window.wf()
    }

    pub fn new(job: String) -> (r: JobOutput)
        ensures
            r.wf(),
            r.job_id() == job@,
            r.out_pending() == Seq::<u8>::empty(),
            r.err_pending() == Seq::<u8>::empty(),
            r.diagnostics() == Seq::<Seq<char>>::empty(),
    {
        JobOutput { job, out: LineReader::new(), err: LineReader::new(), window: ErrorWindow::new() }
    }

    /// Bytes read from standard output: one progress event per completed line.
    pub fn on_stdout(&mut self, chunk: &[u8]) -> (r: Vec<Event>)
        requires
            old(self).wf(),
        ensures
            final(self).wf(),
            final(self).job_id() == old(self).job_id(),
            final(self).err_pending() == old(self).err_pending(),
            final(self).diagnostics() == old(self).diagnostics(),
            final(self).out_pending() == frame_from((Seq::empty(), old(self).out_pending()), chunk@).1,
            events_view(r@) == stdout_views(
                old(self).job_id(),
                decode_all(frame_from((Seq::empty(), old(self).out_pending()), chunk@).0),
            ),
    {
        let lines = self.out.feed(chunk);
        stdout_events(&self.job, lines)
    }

    /// Bytes read from standard error: one marked progress event per completed
    /// line, each line also offered to the diagnostic window.
    pub fn on_stderr(&mut self, chunk: &[u8]) -> (r: Vec<Event>)
        requires
            old(self).wf(),
        ensures
            final(self).wf(),
            final(self).job_id() == old(self).job_id(),
            final(self).out_pending() == old(self).out_pending(),
            final(self).err_pending() == frame_from((Seq::empty(), old(self).err_pending()), chunk@).1,
            final(self).diagnostics() == window_push_all(
                old(self).diagnostics(),
                decode_all(frame_from((Seq::empty(), old(self).err_pending()), chunk@).0),
            ),
            events_view(r@) == stderr_views(
                old(self).job_id(),
                decode_all(frame_from((Seq::empty(), old(self).err_pending()), chunk@).0),
            ),
    {
        let lines = self.err.feed(chunk);
        stderr_events(&self.job, lines, &mut self.window)
    }

    /// Both pipes closed: the unterminated last line of each, if any, becomes
    /// an event (standard output first).
    pub fn on_closed(&mut self) -> (r: Vec<Event>)
        requires
            old(self).wf(),
        ensures
            final(self).wf(),
            final(self).job_id() == old(self).job_id(),
            final(self).out_pending() == Seq::<u8>::empty(),
            final(self).err_pending() == Seq::<u8>::empty(),
            final(self).diagnostics() == window_push_all(
                old(self).diagnostics(),
                decode_all(last_line(old(self).err_pending())),
            ),
            events_view(r@) == stdout_views(old(self).job_id(), decode_all(last_line(old(self).out_pending())))
                + stderr_views(old(self).job_id(), decode_all(last_line(old(self).err_pending()))),
    {
        let mut outs: Vec<String> = Vec::new();
        match self.out.finish() {
            Some(l) => outs.push(l),
            None => {},
        }
        let mut errs: Vec<String> = Vec::new();
        match self.err.finish() {
            Some(l) => errs.push(l),
            None => {},
        }
        proof {
            assert(texts_view(outs@) =~= decode_all(last_line(old(self).out_pending())));
            assert(texts_view(errs@) =~= decode_all(last_line(old(self).err_pending())));
        }
        let mut events = stdout_events(&self.job, outs);
        let more = stderr_events(&self.job, errs, &mut self.window);
        let ghost a = events@;
        let ghost b = more@;
        let mut more = more;
        events.append(&mut more);
        assert(events_view(events@) =~= events_view(a) + events_view(b));
        events
    }

    /// The diagnostic window, for the failure message.
    pub fn window(&self) -> (r: &ErrorWindow)
        requires
            self.wf(),
        ensures
            r.wf(),
            r@ == self.diagnostics(),
    {
        &self.window
    }
}

} // verus!

verus! {

/// Once a handler has published a job's terminal event (it removed the job),
/// `relay` passes on none of the job's later progress: the terminal event is last.
pub proof fn lemma_nothing_after_terminal<H>(m: Map<Seq<char>, H>, job: Seq<char>)
    ensures
        !m.remove(job).contains_key(job),
{
}

} // verus!
