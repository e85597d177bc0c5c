use vstd::prelude::*;

use crate::config::PushMode;
use crate::digest::{fingerprint_of, opt_view, request_fingerprint};
use crate::errors::{AppError, AppResult};
use crate::gitops::{commit_step, CommitAction, CommitRun, CommitStage, GitOp, GitOutcome};
use crate::idempotency::{
    check_idempotency, create_response, key_of, normalize_idempotency_key,
    response_of,
};
use crate::store::{build_paste_draft, draft_of, name_or_default, name_rejected, opt_str};
use crate::types::{CreatePasteInput, CreatePasteResponse, IdempotencyRecord, PasteDraft, UtcDate};

verus! {

/// Where a create request stands.
#[derive(Debug, Clone, Copy, PartialEq, Eq, Structural)]
pub enum CreateStage {
    /// Waiting for the repository lock.
    AwaitLock,
    /// Waiting for the ledger's record of the idempotency key.
    AwaitLedger,
    /// Waiting for the draft's files to be written.
    AwaitFiles,
    /// Running the commit of the draft.
    Committing,
    /// Waiting for the ledger record of the new paste to be written.
    AwaitLedgerWrite,
    Finished,
}

/// A create that succeeded: the response, and whether it is the replay of
/// an earlier one.
#[derive(Debug)]
pub struct Created {
    pub replayed: bool,
    pub response: CreatePasteResponse,
    /// Why a best-effort push failed, if it did.
    pub push_error: Option<String>,
}

/// What the driver reports back after an action.
#[derive(Debug)]
pub enum FlowEvent {
    /// The action succeeded.
    Done,
    /// The action failed.
    Failed(AppError),
    /// The ledger's record of the key, if any.
    Ledger(Option<IdempotencyRecord>),
    /// The outcome of a git invocation or file removal of the commit run.
    Git(GitOutcome),
}

/// What the driver does next.
#[derive(Debug)]
pub enum CreateAction {
    /// Take the repository lock, and hold it until the end.
    LockRepository,
    /// Read the ledger's record of this key.
    ReadLedger(String),
    /// Write the draft's content and metadata files.
    WriteFiles,
    /// Run the tool, as the commit run asks.
    Git(GitOp),
    /// Delete a file, as the commit run asks.
    RemoveFile(String),
    /// Store this record under this key in the ledger.
    WriteLedger(String, IdempotencyRecord),
    /// Answer the request; the flow is over.
    Respond(AppResult<Created>),
}

/// The steps of one create request, from taking the repository lock to the
/// answer: the idempotency ledger is consulted first, a replay or a conflict
/// ends the request before anything is written, and a new paste is recorded
/// in the ledger only after its commit succeeded.
#[derive(Debug)]
pub struct CreateFlow {
    pub stage: CreateStage,
    pub repo: String,
    pub key: Option<String>,
    pub fingerprint: String,
    pub push_mode: PushMode,
    pub remote: String,
    pub input: Option<CreatePasteInput>,
    pub draft: Option<PasteDraft>,
    pub run: Option<CommitRun>,
    pub response: Option<CreatePasteResponse>,
    pub push_error: Option<String>,
}

/// The events a stage takes.
pub open spec fn event_fits(stage: CreateStage, ev: FlowEvent) -> bool {
    match stage {
        CreateStage::AwaitLock | CreateStage::AwaitFiles | CreateStage::AwaitLedgerWrite => ev is Done
            || ev is Failed,
        CreateStage::AwaitLedger => ev is Ledger || ev is Failed,
        CreateStage::Committing => ev is Git,
        CreateStage::Finished => false,
    }
}

impl CreateFlow {
    /// What each stage holds.
    pub open spec fn wf(self) -> bool {
        &&& (self.stage == CreateStage::AwaitLock || self.stage == CreateStage::AwaitLedger)
            ==> self.input is Some
        &&& self.stage == CreateStage::AwaitLedger ==> self.key is Some
        &&& (self.stage == CreateStage::AwaitFiles || self.stage == CreateStage::Committing)
            ==> self.draft is Some
        &&& self.stage == CreateStage::Committing ==> (self.run is Some && self.run->0.stage
            != CommitStage::Finished)
        &&& self.stage == CreateStage::AwaitLedgerWrite ==> self.response is Some
    }
}

/// `a` answers with error `e`, and the flow is over.
pub open spec fn ends_with_error(new: CreateFlow, a: CreateAction, e: AppError) -> bool {
    new.stage == CreateStage::Finished && a == CreateAction::Respond(Err(e))
}

/// From a flow that holds `input`, the draft is built: either the name is
/// refused and the flow answers `BadRequest`, or the files of a draft of the
/// input are to be written.
pub open spec fn proceeds_to_draft(
    old: CreateFlow,
    input: CreatePasteInput,
    new: CreateFlow,
    a: CreateAction,
) -> bool {
    if name_rejected(name_or_default(input.name)) {
        &&& new.stage == CreateStage::Finished
        &&& a is Respond
        &&& a->Respond_0 is Err
        &&& a->Respond_0->Err_0 is BadRequest
    } else {
        &&& new.stage == CreateStage::AwaitFiles
        &&& a == CreateAction::WriteFiles
        &&& new.draft is Some
        &&& exists|day: UtcDate|
            day.wf() && #[trigger] draft_of(
                old.repo@,
                input,
                new.draft->0.id@,
                new.draft->0.meta.created_at,
                day,
                new.draft->0,
            )
    }
}

/// The flows `a` and `b` serve the same request.
pub open spec fn same_request(a: CreateFlow, b: CreateFlow) -> bool {
    &&& a.repo == b.repo
    &&& a.key == b.key
    &&& a.fingerprint == b.fingerprint
    &&& a.push_mode == b.push_mode
    &&& a.remote == b.remote
}

/// One step of a create flow.
pub open spec fn flow_step(old: CreateFlow, ev: FlowEvent, new: CreateFlow, a: CreateAction) -> bool {
    &&& same_request(old, new)
    &&& match old.stage {
        CreateStage::AwaitLock => match ev {
            FlowEvent::Failed(e) => ends_with_error(new, a, e),
            _ => match old.key {
                Some(k) => new.stage == CreateStage::AwaitLedger && a == CreateAction::ReadLedger(k)
                    && new.input == old.input,
                None => proceeds_to_draft(old, old.input->0, new, a),
            },
        },
        CreateStage::AwaitLedger => match ev {
            FlowEvent::Failed(e) => ends_with_error(new, a, e),
            FlowEvent::Ledger(rec) => match rec {
                None => proceeds_to_draft(old, old.input->0, new, a),
                Some(r) => if r.request_fingerprint@ == old.fingerprint@ {
                    new.stage == CreateStage::Finished && a == CreateAction::Respond(
                        Ok(Created { replayed: true, response: r.response, push_error: None }),
                    )
                } else {
                    new.stage == CreateStage::Finished && a is Respond && a->Respond_0 is Err
                        && a->Respond_0->Err_0 is Conflict
                },
            },
            _ => false,
        },
        CreateStage::AwaitFiles => match ev {
            FlowEvent::Failed(e) => ends_with_error(new, a, e),
            _ => {
                let d = old.draft->0;
                &&& new.stage == CreateStage::Committing
                &&& new.draft == old.draft
                &&& new.run is Some
                &&& new.run->0.stage == CommitStage::Staging
                &&& new.run->0.content_rel == d.rel_path
                &&& new.run->0.meta_rel == d.meta_rel_path
                &&& new.run->0.content_abs == d.abs_path
                &&& new.run->0.meta_abs == d.meta_path
                &&& new.run->0.subject == d.subject
                &&& new.run->0.push_mode == old.push_mode
                &&& new.run->0.remote@ == old.remote@
                &&& a == CreateAction::Git(GitOp::Stage { content: d.rel_path, meta: d.meta_rel_path })
            },
        },
        CreateStage::Committing => match ev {
            FlowEvent::Git(o) => exists|r: CommitRun, ca: CommitAction|
                #[trigger] commit_step(old.run->0, o, r, ca) && committing_result(old, r, ca, new, a),
            _ => false,
        },
        CreateStage::AwaitLedgerWrite => match ev {
            FlowEvent::Failed(e) => ends_with_error(new, a, e),
            _ => new.stage == CreateStage::Finished && a == CreateAction::Respond(
                Ok(
                    Created {
                        replayed: false,
                        response: old.response->0,
                        push_error: old.push_error,
                    },
                ),
            ),
        },
        CreateStage::Finished => false,
    }
}

/// What the flow does with the commit run's action `ca`: passes tool and
/// file actions on, answers a failure, and on success records the new paste
/// under the key (if any) before answering.
pub open spec fn committing_result(
    old: CreateFlow,
    r: CommitRun,
    ca: CommitAction,
    new: CreateFlow,
    a: CreateAction,
) -> bool {
    match ca {
        CommitAction::Git(op) => new.stage == CreateStage::Committing && new.run == Some(r)
            && new.draft == old.draft && a == CreateAction::Git(op),
        CommitAction::RemoveFile(p) => new.stage == CreateStage::Committing && new.run == Some(r)
            && new.draft == old.draft && a == CreateAction::RemoveFile(p),
        CommitAction::Finish(Err(e)) => ends_with_error(new, a, e),
        CommitAction::Finish(Ok(res)) => {
            let d = old.draft->0;
            match old.key {
                Some(k) => {
                    &&& new.stage == CreateStage::AwaitLedgerWrite
                    &&& new.response is Some
                    &&& new.push_error == res.push_error
                    &&& response_of(d.id@, d.rel_path@, res.commit@, new.response->0)
                    &&& a is WriteLedger
                    &&& a->WriteLedger_0 == k
                    &&& a->WriteLedger_1.request_fingerprint == old.fingerprint
                    &&& response_of(d.id@, d.rel_path@, res.commit@, a->WriteLedger_1.response)
                },
                None => {
                    &&& new.stage == CreateStage::Finished
                    &&& a is Respond
                    &&& a->Respond_0 is Ok
                    &&& !a->Respond_0->Ok_0.replayed
                    &&& a->Respond_0->Ok_0.push_error == res.push_error
                    &&& response_of(d.id@, d.rel_path@, res.commit@, a->Respond_0->Ok_0.response)
                },
            }
        },
    }
}

impl CreateFlow {
    /// Starts a create: the idempotency key is the trimmed header value, if
    /// any is left, and the request's fingerprint is taken when there is a
    /// key. The first action takes the repository lock.
    pub fn start(
        repo: &str,
        input: CreatePasteInput,
        idempotency_key: Option<&str>,
        push_mode: PushMode,
        remote: &str,
    ) -> (r: (CreateFlow, CreateAction))
        ensures
            r.0.wf(),
            r.0.stage == CreateStage::AwaitLock,
            r.0.repo@ == repo@,
            opt_view(r.0.key) == key_of(opt_str(idempotency_key)),
            r.0.key is Some ==> r.0.fingerprint@ == fingerprint_of(
                opt_view(input.name),
                opt_view(input.tag),
                opt_view(input.content_type),
                input.bytes@,
            ),
            r.0.input == Some(input),
            r.0.push_mode == push_mode,
            r.0.remote@ == remote@,
            r.1 == CreateAction::LockRepository,
    {
        let key = normalize_idempotency_key(idempotency_key);
        let fingerprint = match &key {
            Some(_) => request_fingerprint(&input.name, &input.tag, &input.content_type, &input.bytes),
            None => String::new(),
        };
        let flow = CreateFlow {
            stage: CreateStage::AwaitLock,
            repo: repo.to_string(),
            key,
            fingerprint,
            push_mode,
            remote: remote.to_string(),
            input: Some(input),
            draft: None,
            run: None,
            response: None,
            push_error: None,
        };
        (flow, CreateAction::LockRepository)
    }

    /// Whether the flow has answered.
    pub fn is_finished(&self) -> (r: bool)
        ensures
            r == (self.stage == CreateStage::Finished),
    {
        self.stage == CreateStage::Finished
    }

    /// Whether the flow can take this event now.
    pub fn accepts(&self, ev: &FlowEvent) -> (r: bool)
        ensures
            r == event_fits(self.stage, *ev),
    {
        match self.stage {
            CreateStage::AwaitLock | CreateStage::AwaitFiles | CreateStage::AwaitLedgerWrite => {
                match ev {
                    FlowEvent::Done | FlowEvent::Failed(_) => true,
                    _ => false,
                }
            },
            CreateStage::AwaitLedger => match ev {
                FlowEvent::Ledger(_) | FlowEvent::Failed(_) => true,
                _ => false,
            },
            CreateStage::Committing => match ev {
                FlowEvent::Git(_) => true,
                _ => false,
            },
            CreateStage::Finished => false,
        }
    }

    /// The draft, once it is built.
    pub fn draft(&self) -> (r: Option<&PasteDraft>)
        ensures
            match r {
                Some(d) => self.draft == Some(*d),
                None => self.draft is None,
            },
    {
        match &self.draft {
            Some(d) => Some(d),
            None => None,
        }
    }

    fn build_draft(&mut self, input: CreatePasteInput) -> (a: CreateAction)
        ensures
            same_request(*old(self), *final(self)),
            proceeds_to_draft(*old(self), input, *final(self), a),
            final(self).wf(),
    {
        match build_paste_draft(self.repo.as_str(), input) {
            Ok(d) => {
                self.draft = Some(d);
                self.stage = CreateStage::AwaitFiles;
                CreateAction::WriteFiles
            },
            Err(e) => {
                self.stage = CreateStage::Finished;
                CreateAction::Respond(Err(e))
            },
        }
    }

    /// Takes the outcome of the last action and hands out the next one.
    pub fn step(&mut self, ev: FlowEvent) -> (a: CreateAction)
        requires
            old(self).wf(),
            event_fits(old(self).stage, ev),
        ensures
            final(self).wf(),
            flow_step(*old(self), ev, *final(self), a),
    {
        match self.stage {
            CreateStage::AwaitLock => match ev {
                FlowEvent::Failed(e) => {
                    self.stage = CreateStage::Finished;
                    CreateAction::Respond(Err(e))
                },
                _ => match &self.key {
                    Some(k) => {
                        let k2 = k.clone();
                        self.stage = CreateStage::AwaitLedger;
                        CreateAction::ReadLedger(k2)
                    },
                    None => {
                        let input = self.input.take().unwrap();
                        self.build_draft(input)
                    },
                },
            },
            CreateStage::AwaitLedger => match ev {
                FlowEvent::Failed(e) => {
                    self.stage = CreateStage::Finished;
                    CreateAction::Respond(Err(e))
                },
                FlowEvent::Ledger(rec) => {
                    let ghost rec0 = rec;
                    match check_idempotency(rec, self.fingerprint.as_str()) {
                        Err(e) => {
                            self.stage = CreateStage::Finished;
                            CreateAction::Respond(Err(e))
                        },
                        Ok(Some(resp)) => {
                            self.stage = CreateStage::Finished;
                            CreateAction::Respond(
                                Ok(Created { replayed: true, response: resp, push_error: None }),
                            )
                        },
                        Ok(None) => {
                            let input = self.input.take().unwrap();
                            self.build_draft(input)
                        },
                    }
                },
                _ => {
                    self.stage = CreateStage::Finished;
                    CreateAction::Respond(Err(AppError::Internal(String::new())))
                },
            },
            CreateStage::AwaitFiles => match ev {
                FlowEvent::Failed(e) => {
                    self.stage = CreateStage::Finished;
                    CreateAction::Respond(Err(e))
                },
                _ => {
                    let (run, first) = match &self.draft {
                        Some(d) => CommitRun::start(d, self.push_mode, self.remote.as_str()),
                        None => {
                            self.stage = CreateStage::Finished;
                            return CreateAction::Respond(Err(AppError::Internal(String::new())));
                        },
                    };
                    self.run = Some(run);
                    self.stage = CreateStage::Committing;
                    match first {
                        CommitAction::Git(op) => CreateAction::Git(op),
                        CommitAction::RemoveFile(p) => CreateAction::RemoveFile(p),
                        CommitAction::Finish(r) => {
                            self.stage = CreateStage::Finished;
                            CreateAction::Respond(Err(AppError::Internal(String::new())))
                        },
                    }
                },
            },
            CreateStage::Committing => match ev {
                FlowEvent::Git(o) => {
                    let mut run = self.run.take().unwrap();
                    let ca = run.step(o);
                    let ghost run_after = run;
                    let ghost ca0 = ca;
                    match ca {
                        CommitAction::Git(op) => {
                            self.run = Some(run);
                            CreateAction::Git(op)
                        },
                        CommitAction::RemoveFile(p) => {
                            self.run = Some(run);
                            CreateAction::RemoveFile(p)
                        },
                        CommitAction::Finish(Err(e)) => {
                            self.run = Some(run);
                            self.stage = CreateStage::Finished;
                            CreateAction::Respond(Err(e))
                        },
                        CommitAction::Finish(Ok(res)) => {
                            self.run = Some(run);
                            let d = self.draft.as_ref().unwrap();
                            let resp = create_response(
                                d.id.as_str(),
                                d.rel_path.as_str(),
                                res.commit.as_str(),
                            );
                            match &self.key {
                                Some(k) => {
                                    let again = create_response(
                                        d.id.as_str(),
                                        d.rel_path.as_str(),
                                        res.commit.as_str(),
                                    );
                                    let record = IdempotencyRecord {
                                        request_fingerprint: self.fingerprint.clone(),
                                        response: again,
                                    };
                                    let k2 = k.clone();
                                    self.response = Some(resp);
                                    self.push_error = res.push_error;
                                    self.stage = CreateStage::AwaitLedgerWrite;
                                    CreateAction::WriteLedger(k2, record)
                                },
                                None => {
                                    self.stage = CreateStage::Finished;
                                    CreateAction::Respond(
                                        Ok(
                                            Created {
                                                replayed: false,
                                                response: resp,
                                                push_error: res.push_error,
                                            },
                                        ),
                                    )
                                },
                            }
                        },
                    }
                },
                _ => {
                    self.stage = CreateStage::Finished;
                    CreateAction::Respond(Err(AppError::Internal(String::new())))
                },
            },
            CreateStage::AwaitLedgerWrite => match ev {
                FlowEvent::Failed(e) => {
                    self.stage = CreateStage::Finished;
                    CreateAction::Respond(Err(e))
                },
                _ => {
                    self.stage = CreateStage::Finished;
                    let resp = self.response.take().unwrap();
                    let push_error = self.push_error.take();
                    CreateAction::Respond(
                        Ok(Created { replayed: false, response: resp, push_error }),
                    )
                },
            },
            CreateStage::Finished => CreateAction::Respond(Err(AppError::Internal(String::new()))),
        }
    }
}

/// Replay under an idempotency key: when the ledger holds a record made by
/// a request with the same name, tag, content type and bytes, the flow
/// answers with the recorded response and ends, before any draft, file or
/// commit; when the record's fingerprint differs, it ends with `Conflict`.
pub proof fn lemma_replay_creates_nothing(
    old: CreateFlow,
    rec: IdempotencyRecord,
    new: CreateFlow,
    a: CreateAction,
    name: Option<Seq<char>>,
    tag: Option<Seq<char>>,
    content_type: Option<Seq<char>>,
    data: Seq<u8>,
)
    requires
        old.stage == CreateStage::AwaitLedger,
        old.fingerprint@ == fingerprint_of(name, tag, content_type, data),
        flow_step(old, FlowEvent::Ledger(Some(rec)), new, a),
    ensures
        new.stage == CreateStage::Finished,
        rec.request_fingerprint@ == fingerprint_of(name, tag, content_type, data) ==> a
            == CreateAction::Respond(
            Ok(Created { replayed: true, response: rec.response, push_error: None }),
        ),
        rec.request_fingerprint@ != fingerprint_of(name, tag, content_type, data) ==> (a is Respond
            && a->Respond_0 is Err && a->Respond_0->Err_0 is Conflict),
{
}

/// Only successful creates are recorded: the flow hands out a ledger write
/// only from the commit stage, when the commit run has finished successfully.
pub proof fn lemma_ledger_write_follows_commit(
    old: CreateFlow,
    ev: FlowEvent,
    new: CreateFlow,
    a: CreateAction,
)
    requires
        flow_step(old, ev, new, a),
        a is WriteLedger,
    ensures
        old.stage == CreateStage::Committing,
        ev is Git,
        exists|r: CommitRun, ca: CommitAction|
            #[trigger] commit_step(old.run->0, ev->Git_0, r, ca) && ca is Finish && ca->Finish_0 is Ok,
{
    match old.stage {
        CreateStage::Committing => {
            let o = ev->Git_0;
            let (r, ca) = choose|r: CommitRun, ca: CommitAction|
                #[trigger] commit_step(old.run->0, o, r, ca) && committing_result(old, r, ca, new, a);
            assert(ca is Finish && ca->Finish_0 is Ok);
        },
        _ => {},
    }
}

} // verus!
