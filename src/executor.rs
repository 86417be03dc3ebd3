//! The test plan executor: a state machine over the document's events that hands
//! out one step at a time and stops at the first failure.
use crate::directive::{parse_code_info, parse_info, CodeBlock, CodeTy, StepModel};
use crate::scanner::{event_views, markdown_events, scan_markdown, EventModel, MdEvent};
use crate::step::{file_list, file_paths, shell_prelude, shell_script, string_views, Failure, FailureModel};
use vstd::prelude::*;

verus! {

/// The open step after one more event: a directive opens a step, text grows the
/// open step, and the end of a code block closes it.
pub open spec fn open_after_event(open: Option<StepModel>, ev: EventModel) -> Option<StepModel> {
    match ev {
        EventModel::FenceStart(info) => parse_info(info),
        EventModel::IndentStart => None,
        EventModel::Text(t) => match open {
            Some(b) => Some(StepModel { code: b.code + t, ..b }),
            None => None,
        },
        EventModel::CodeEnd => None,
        EventModel::Other => open,
    }
}

/// The step that runs at an event: the open one, where the event closes it and it
/// is not skipped.
pub open spec fn runs_at_event(open: Option<StepModel>, ev: EventModel) -> Option<StepModel> {
    match ev {
        EventModel::CodeEnd => match open {
            Some(b) => if b.ignore {
                None
            } else {
                Some(b)
            },
            None => None,
        },
        _ => None,
    }
}

/// The open step after a sequence of events.
pub open spec fn open_after(evs: Seq<EventModel>) -> Option<StepModel>
    decreases evs.len(),
{
    if evs.len() == 0 {
        None
    } else {
        open_after_event(open_after(evs.drop_last()), evs.last())
    }
}

/// The steps that a sequence of events runs, in the order in which they close.
pub open spec fn plan(evs: Seq<EventModel>) -> Seq<StepModel>
    decreases evs.len(),
{
    if evs.len() == 0 {
        Seq::empty()
    } else {
        let prev = plan(evs.drop_last());
        match runs_at_event(open_after(evs.drop_last()), evs.last()) {
            Some(b) => prev.push(b),
            None => prev,
        }
    }
}

/// The steps that a document runs, in order.
pub open spec fn document_plan(doc: Seq<char>) -> Seq<StepModel> {
    plan(markdown_events(doc))
}

/// What the executor asks of its caller next.
#[derive(Debug)]
pub enum Request {
    /// Run `script` in a shell; `code` is the step's body, for the diagnostic.
    Shell { script: String, code: String },
    /// Check that each of `paths` exists, in order.
    FileExist { code: String, paths: Vec<String> },
    /// Every step ran and succeeded.
    Finished,
    /// A step failed; nothing more runs.
    Halted(Failure),
}

/// The step that a request for work stands for.
pub open spec fn step_of(r: Request) -> StepModel {
    match r {
        Request::Shell { code, .. } => StepModel { ty: CodeTy::Shell, ignore: false, code: code@ },
        Request::FileExist { code, .. } => StepModel {
            ty: CodeTy::FileExist,
            ignore: false,
            code: code@,
        },
        _ => StepModel { ty: CodeTy::Shell, ignore: false, code: Seq::empty() },
    }
}

/// A request for work carries what its step needs done: the script with its
/// prelude, or the paths that the body names.
pub open spec fn well_formed_request(r: Request) -> bool {
    match r {
        Request::Shell { script, code } => script@ == shell_prelude() + code@,
        Request::FileExist { code, paths } => string_views(paths@) == file_list(code@),
        _ => false,
    }
}

/// The mathematical value of a `Run`.
pub struct RunModel {
    pub events: Seq<EventModel>,
    pub pos: nat,
    pub failed: Option<FailureModel>,
}

/// One pass over a document's events.
pub struct Run {
    events: Vec<MdEvent>,
    pos: usize,
    open: Option<CodeBlock>,
    failed: Option<Failure>,
}

impl View for Run {
    type V = RunModel;

    closed spec fn view(&self) -> RunModel {
        RunModel {
            events: event_views(self.events@),
            pos: self.pos as nat,
            failed: match self.failed {
                Some(f) => Some(f@),
                None => None,
            },
        }
    }
}

impl Run {
    /// The executor's invariant: the open step is the one that the events read
    /// so far leave open.
    pub closed spec fn wf(&self) -> bool {
        &&& self.pos <= self.events@.len()
        &&& match self.open {
            Some(b) => open_after(event_views(self.events@).take(self.pos as int)) == Some(b@),
            None => open_after(event_views(self.events@).take(self.pos as int)) is None,
        }
    }

    /// A run over the events of `document`, before any of them.
    pub fn new(document: &str) -> (r: Run)
        ensures
            r.wf(),
            r@.events == markdown_events(document@),
            r@.pos == 0,
            r@.failed is None,
    {
        let events = scan_markdown(document);
        let r = Run { events, pos: 0, open: None, failed: None };
        assert(event_views(r.events@).take(0) =~= Seq::<EventModel>::empty());
        r
    }

    /// Records the outcome of the step last requested. A failure halts the run;
    /// once halted, the first failure is kept.
    pub fn complete(&mut self, outcome: Result<(), Failure>)
        requires
            old(self).wf(),
        ensures
            final(self).wf(),
            final(self)@.events == old(self)@.events,
            final(self)@.pos == old(self)@.pos,
            final(self)@.failed == (match (old(self)@.failed, outcome) {
                (None, Err(f)) => Some(f@),
                (prev, _) => prev,
            }),
    {
        if self.failed.is_none() {
            match outcome {
                Ok(()) => {},
                Err(f) => {
                    self.failed = Some(f);
                },
            }
        }
    }

    /// Reads events until a step that is not skipped closes and asks for it to be
    /// run; at the end of the events, reports success. After a failure it reports
    /// that failure and reads nothing.
    pub fn next_request(&mut self) -> (r: Request)
        requires
            old(self).wf(),
        ensures
            final(self).wf(),
            final(self)@.events == old(self)@.events,
            final(self)@.failed == old(self)@.failed,
            old(self)@.pos <= final(self)@.pos <= final(self)@.events.len(),
            match old(self)@.failed {
                Some(f) => (r matches Request::Halted(g) && g@ == f) && final(self)@.pos == old(
                    self,
                )@.pos,
                None => match r {
                    Request::Finished => final(self)@.pos == final(self)@.events.len() && plan(
                        final(self)@.events,
                    ) == plan(final(self)@.events.take(old(self)@.pos as int)),
                    Request::Halted(_) => false,
                    _ => well_formed_request(r) && old(self)@.pos < final(self)@.pos && plan(
                        final(self)@.events.take(final(self)@.pos as int),
                    ) == plan(final(self)@.events.take(old(self)@.pos as int)).push(step_of(r)),
                },
            },
    {
        match &self.failed {
            Some(f) => {
                return Request::Halted(f.duplicate());
            },
            None => {},
        }
        let ghost evs = event_views(self.events@);
        let ghost p0 = self.pos as int;
        while self.pos < self.events.len()
            invariant
                self.wf(),
                self.failed is None,
                evs == event_views(self.events@),
                evs == old(self)@.events,
                old(self)@.failed is None,
                p0 == old(self)@.pos,
                p0 <= self.pos <= self.events@.len(),
                plan(evs.take(self.pos as int)) == plan(evs.take(p0)),
            decreases self.events@.len() - self.pos,
        {
            let i = self.pos;
            let ghost before = evs.take(i as int);
            assert(evs.take(i + 1).drop_last() =~= before);
            assert(evs.take(i + 1).last() == self.events@[i as int]@);
            self.pos = i + 1;
            match &self.events[i] {
                MdEvent::FenceStart(info) => {
                    self.open = parse_code_info(info.as_str());
                },
                MdEvent::IndentStart => {
                    self.open = None;
                },
                MdEvent::Text(t) => {
                    let o = self.open.take();
                    self.open = match o {
                        Some(mut b) => {
                            b.append(t.as_str());
                            Some(b)
                        },
                        None => None,
                    };
                },
                MdEvent::CodeEnd => {
                    let o = self.open.take();
                    match o {
                        Some(b) => {
                            if !b.ignore {
                                let req = match b.ty {
                                    CodeTy::Shell => {
                                        let script = shell_script(&b);
                                        Request::Shell { script, code: b.code }
                                    },
                                    CodeTy::FileExist => {
                                        let paths = file_paths(b.code.as_str());
                                        Request::FileExist { code: b.code, paths }
                                    },
                                };
                                return req;
                            }
                        },
                        None => {},
                    }
                },
                MdEvent::Other => {},
            }
        }
        assert(evs.take(evs.len() as int) =~= evs);
        Request::Finished
    }
}

} // verus!
