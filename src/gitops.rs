use vstd::prelude::*;

use crate::config::PushMode;
use crate::errors::{message_of, AppError, AppResult};
use crate::text::{chars_of, contains_chars, contains_seq, push_all};
use crate::types::{GitCommitResult, PasteDraft};

verus! {

/// One invocation of the version-control tool, by what it does.
#[derive(Debug)]
pub enum GitOp {
    /// `rev-parse --is-inside-work-tree`
    IsWorkTree,
    /// `init`
    Init,
    /// `rev-parse --verify HEAD`
    VerifyHead,
    /// `add README.md .gitignore pastes meta`
    StageLayout,
    /// `commit -m "init lanpaste repository"`
    CommitLayout,
    /// `add <content> <meta>`
    Stage { content: String, meta: String },
    /// `commit -m <subject>`
    Commit { subject: String },
    /// `rev-parse --short=12 HEAD`
    ShortHead,
    /// `push <remote> HEAD`
    Push { remote: String },
    /// `reset --soft HEAD~1`
    UndoCommit,
    /// `reset`
    ResetIndex,
    /// `log -n 1 --format=%H -- <path>`
    LastCommitFor { path: String },
}

/// The argument vector of an invocation.
pub open spec fn git_args(op: GitOp) -> Seq<Seq<char>> {
    match op {
        GitOp::IsWorkTree => seq!["rev-parse"@, "--is-inside-work-tree"@],
        GitOp::Init => seq!["init"@],
        GitOp::VerifyHead => seq!["rev-parse"@, "--verify"@, "HEAD"@],
        GitOp::StageLayout => seq!["add"@, "README.md"@, ".gitignore"@, "pastes"@, "meta"@],
        GitOp::CommitLayout => seq!["commit"@, "-m"@, "init lanpaste repository"@],
        GitOp::Stage { content, meta } => seq!["add"@, content@, meta@],
        GitOp::Commit { subject } => seq!["commit"@, "-m"@, subject@],
        GitOp::ShortHead => seq!["rev-parse"@, "--short=12"@, "HEAD"@],
        GitOp::Push { remote } => seq!["push"@, remote@, "HEAD"@],
        GitOp::UndoCommit => seq!["reset"@, "--soft"@, "HEAD~1"@],
        GitOp::ResetIndex => seq!["reset"@],
        GitOp::LastCommitFor { path } => seq![
            "log"@,
            "-n"@,
            "1"@,
            "--format=%H"@,
            "--"@,
            path@,
        ],
    }
}

/// The views of a vector of strings.
pub open spec fn views(v: Seq<String>) -> Seq<Seq<char>> {
    v.map_values(|s: String| s@)
}

fn push_arg(v: &mut Vec<String>, s: &str)
    ensures
        views(final(v)@) == views(old(v)@).push(s@),
{
    v.push(s.to_string());
    assert(views(v@) =~= views(old(v)@).push(s@));
}

impl GitOp {
    /// The argument vector of this invocation.
    pub fn args(&self) -> (r: Vec<String>)
        ensures
            views(r@) == git_args(*self),
    {
        let mut v: Vec<String> = Vec::new();
        assert(views(v@) =~= seq![]);
        match self {
            GitOp::IsWorkTree => {
                push_arg(&mut v, "rev-parse");
                push_arg(&mut v, "--is-inside-work-tree");
            },
            GitOp::Init => {
                push_arg(&mut v, "init");
            },
            GitOp::VerifyHead => {
                push_arg(&mut v, "rev-parse");
                push_arg(&mut v, "--verify");
                push_arg(&mut v, "HEAD");
            },
            GitOp::StageLayout => {
                push_arg(&mut v, "add");
                push_arg(&mut v, "README.md");
                push_arg(&mut v, ".gitignore");
                push_arg(&mut v, "pastes");
                push_arg(&mut v, "meta");
            },
            GitOp::CommitLayout => {
                push_arg(&mut v, "commit");
                push_arg(&mut v, "-m");
                push_arg(&mut v, "init lanpaste repository");
            },
            GitOp::Stage { content, meta } => {
                push_arg(&mut v, "add");
                push_arg(&mut v, content.as_str());
                push_arg(&mut v, meta.as_str());
            },
            GitOp::Commit { subject } => {
                push_arg(&mut v, "commit");
                push_arg(&mut v, "-m");
                push_arg(&mut v, subject.as_str());
            },
            GitOp::ShortHead => {
                push_arg(&mut v, "rev-parse");
                push_arg(&mut v, "--short=12");
                push_arg(&mut v, "HEAD");
            },
            GitOp::Push { remote } => {
                push_arg(&mut v, "push");
                push_arg(&mut v, remote.as_str());
                push_arg(&mut v, "HEAD");
            },
            GitOp::UndoCommit => {
                push_arg(&mut v, "reset");
                push_arg(&mut v, "--soft");
                push_arg(&mut v, "HEAD~1");
            },
            GitOp::ResetIndex => {
                push_arg(&mut v, "reset");
            },
            GitOp::LastCommitFor { path } => {
                push_arg(&mut v, "log");
                push_arg(&mut v, "-n");
                push_arg(&mut v, "1");
                push_arg(&mut v, "--format=%H");
                push_arg(&mut v, "--");
                push_arg(&mut v, path.as_str());
            },
        }
        v
    }
}

/// The lines that the repository's `.gitignore` must hold.
pub open spec fn required_gitignore() -> Seq<Seq<char>> {
    seq![
        "# runtime / scratch (defensive)"@,
        "../run/"@,
        "../tmp/"@,
        ""@,
        "# common temp/intermediate"@,
        "*.tmp"@,
        "*.swp"@,
        "*.bak"@,
        "*.part"@,
        "*.lock"@,
        "*.log"@,
        ""@,
        "# OS/editor noise"@,
        ".DS_Store"@,
        "Thumbs.db"@,
        ".idea/"@,
        ".vscode/"@,
        ""@,
        "# Rust build artifacts"@,
        "target/"@,
    ]
}

/// The lines that the repository's `.gitignore` must hold.
pub fn gitignore_required_lines() -> (r: Vec<String>)
    ensures
        views(r@) == required_gitignore(),
{
    let mut v: Vec<String> = Vec::new();
    assert(views(v@) =~= seq![]);
    push_arg(&mut v, "# runtime / scratch (defensive)");
    push_arg(&mut v, "../run/");
    push_arg(&mut v, "../tmp/");
    push_arg(&mut v, "");
    push_arg(&mut v, "# common temp/intermediate");
    push_arg(&mut v, "*.tmp");
    push_arg(&mut v, "*.swp");
    push_arg(&mut v, "*.bak");
    push_arg(&mut v, "*.part");
    push_arg(&mut v, "*.lock");
    push_arg(&mut v, "*.log");
    push_arg(&mut v, "");
    push_arg(&mut v, "# OS/editor noise");
    push_arg(&mut v, ".DS_Store");
    push_arg(&mut v, "Thumbs.db");
    push_arg(&mut v, ".idea/");
    push_arg(&mut v, ".vscode/");
    push_arg(&mut v, "");
    push_arg(&mut v, "# Rust build artifacts");
    push_arg(&mut v, "target/");
    v
}

/// `content` with each line of `lines` that it does not hold yet appended,
/// each followed by a newline, in order.
pub open spec fn merged_lines(content: Seq<char>, lines: Seq<Seq<char>>) -> Seq<char>
    decreases lines.len(),
{
    if lines.len() == 0 {
        content
    } else {
        let m = merged_lines(content, lines.drop_last());
        if contains_seq(m, lines.last()) {
            m
        } else {
            m + lines.last() + seq!['\n']
        }
    }
}

/// Appends to `content` each of `lines` that it does not hold yet.
pub fn merge_lines(content: &str, lines: &Vec<String>) -> (r: String)
    ensures
        r@ == merged_lines(content@, views(lines@)),
{
    let mut out = content.to_string();
    let mut i: usize = 0;
    assert(views(lines@).take(0) =~= seq![]);
    while i < lines.len()
        invariant
            i <= lines@.len(),
            out@ == merged_lines(content@, views(lines@).take(i as int)),
        decreases lines@.len() - i,
    {
        let l = lines[i].as_str();
        assert(views(lines@).take(i + 1).drop_last() =~= views(lines@).take(i as int));
        assert(views(lines@).take(i + 1).last() == l@);
        if !contains_chars(&chars_of(out.as_str()), &chars_of(l)) {
            push_all(&mut out, l);
            out.push('\n');
        }
        i = i + 1;
    }
    assert(views(lines@).take(lines@.len() as int) =~= views(lines@));
    out
}

/// The `.gitignore` of the repository: the present one with each required
/// line that it lacks appended.
pub fn merge_gitignore(content: &str) -> (r: String)
    ensures
        r@ == merged_lines(content@, required_gitignore()),
{
    let lines = gitignore_required_lines();
    merge_lines(content, &lines)
}

/// What came of one invocation: its trimmed standard output, or the
/// message of its failure.
#[derive(Debug)]
pub enum GitOutcome {
    Success(String),
    Failure(String),
}

/// Whether the repository query found a work tree: the query succeeded and
/// printed `true`.
pub fn is_work_tree(outcome: &GitOutcome) -> (r: bool)
    ensures
        r == (outcome is Success && outcome->Success_0@ == "true"@),
{
    match outcome {
        GitOutcome::Success(out) => {
            let t = "true".to_string();
            out.eq(&t)
        },
        GitOutcome::Failure(_) => false,
    }
}

/// Where a commit run stands.
#[derive(Debug, Clone, Copy, PartialEq, Eq, Structural)]
pub enum CommitStage {
    Staging,
    Committing,
    ResolvingHead,
    Pushing,
    UndoingCommit,
    RemovingContent,
    RemovingMeta,
    ResettingIndex,
    Finished,
}

/// What the driver of a commit run does next.
#[derive(Debug)]
pub enum CommitAction {
    /// Run the tool and report its outcome.
    Git(GitOp),
    /// Delete a file and report the outcome (which does not matter).
    RemoveFile(String),
    /// The run is over with this result.
    Finish(AppResult<GitCommitResult>),
}

/// The commit of one draft, as a state machine: the driver performs each
/// action it is handed and reports the outcome back, until `Finish`. The
/// repository lock is held by the driver for the whole run.
#[derive(Debug)]
pub struct CommitRun {
    pub stage: CommitStage,
    pub push_mode: PushMode,
    pub remote: String,
    pub content_rel: String,
    pub meta_rel: String,
    pub content_abs: String,
    pub meta_abs: String,
    pub subject: String,
    /// The short commit id, once resolved.
    pub commit: String,
    /// The failure of a strict push, while it is being undone.
    pub push_error: String,
}

/// Two runs of the same draft under the same policy.
pub open spec fn same_plan(a: CommitRun, b: CommitRun) -> bool {
    &&& a.push_mode == b.push_mode
    &&& a.remote == b.remote
    &&& a.content_rel == b.content_rel
    &&& a.meta_rel == b.meta_rel
    &&& a.content_abs == b.content_abs
    &&& a.meta_abs == b.meta_abs
    &&& a.subject == b.subject
}

/// `a` finishes with an `Internal` failure whose message is `m`.
pub open spec fn fails_with(a: CommitAction, m: Seq<char>) -> bool {
    &&& a is Finish
    &&& a->Finish_0 is Err
    &&& a->Finish_0->Err_0 is Internal
    &&& message_of(a->Finish_0->Err_0) == m
}

/// `a` finishes successfully with commit `c`, push flag `pushed` and push
/// error `err`.
pub open spec fn succeeds_with(
    a: CommitAction,
    c: Seq<char>,
    pushed: bool,
    err: Option<Seq<char>>,
) -> bool {
    &&& a is Finish
    &&& a->Finish_0 is Ok
    &&& a->Finish_0->Ok_0.commit@ == c
    &&& a->Finish_0->Ok_0.pushed == pushed
    &&& match err {
        None => a->Finish_0->Ok_0.push_error is None,
        Some(e) => a->Finish_0->Ok_0.push_error is Some && a->Finish_0->Ok_0.push_error->0@ == e,
    }
}

/// The message of a strict push failure.
pub open spec fn strict_push_message(e: Seq<char>) -> Seq<char> {
    "push failed in strict mode: "@ + e
}

/// One step of a commit run: from `old`, on outcome `ev` of the last action,
/// to `new`, handing out action `a`.
pub open spec fn commit_step(old: CommitRun, ev: GitOutcome, new: CommitRun, a: CommitAction) -> bool {
    &&& same_plan(old, new)
    &&& match old.stage {
        CommitStage::Staging => match ev {
            GitOutcome::Success(_) => new.stage == CommitStage::Committing && a == CommitAction::Git(
                GitOp::Commit { subject: old.subject },
            ),
            GitOutcome::Failure(e) => new.stage == CommitStage::Finished && fails_with(a, e@),
        },
        CommitStage::Committing => match ev {
            GitOutcome::Success(_) => new.stage == CommitStage::ResolvingHead && a
                == CommitAction::Git(GitOp::ShortHead),
            GitOutcome::Failure(e) => new.stage == CommitStage::Finished && fails_with(a, e@),
        },
        CommitStage::ResolvingHead => match ev {
            GitOutcome::Success(c) => if old.push_mode == PushMode::Off {
                new.stage == CommitStage::Finished && succeeds_with(a, c@, false, None)
            } else {
                new.stage == CommitStage::Pushing && new.commit@ == c@ && a == CommitAction::Git(
                    GitOp::Push { remote: old.remote },
                )
            },
            GitOutcome::Failure(e) => new.stage == CommitStage::Finished && fails_with(a, e@),
        },
        CommitStage::Pushing => match ev {
            GitOutcome::Success(_) => new.stage == CommitStage::Finished && succeeds_with(
                a,
                old.commit@,
                true,
                None,
            ),
            GitOutcome::Failure(e) => if old.push_mode == PushMode::Strict {
                new.stage == CommitStage::UndoingCommit && new.push_error@ == e@ && a
                    == CommitAction::Git(GitOp::UndoCommit)
            } else {
                new.stage == CommitStage::Finished && succeeds_with(a, old.commit@, false, Some(e@))
            },
        },
        CommitStage::UndoingCommit => new.stage == CommitStage::RemovingContent && new.push_error
            == old.push_error && a == CommitAction::RemoveFile(old.content_abs),
        CommitStage::RemovingContent => new.stage == CommitStage::RemovingMeta && new.push_error
            == old.push_error && a == CommitAction::RemoveFile(old.meta_abs),
        CommitStage::RemovingMeta => new.stage == CommitStage::ResettingIndex && new.push_error
            == old.push_error && a == CommitAction::Git(GitOp::ResetIndex),
        CommitStage::ResettingIndex => new.stage == CommitStage::Finished && fails_with(
            a,
            strict_push_message(old.push_error@),
        ),
        CommitStage::Finished => false,
    }
}

impl CommitRun {
    /// Starts the commit of a draft: the first action stages exactly the
    /// draft's content and metadata paths.
    pub fn start(draft: &PasteDraft, push_mode: PushMode, remote: &str) -> (r: (
        CommitRun,
        CommitAction,
    ))
        ensures
            r.0.stage == CommitStage::Staging,
            r.0.push_mode == push_mode,
            r.0.remote@ == remote@,
            r.0.content_rel == draft.rel_path,
            r.0.meta_rel == draft.meta_rel_path,
            r.0.content_abs == draft.abs_path,
            r.0.meta_abs == draft.meta_path,
            r.0.subject == draft.subject,
            r.1 == CommitAction::Git(
                GitOp::Stage { content: draft.rel_path, meta: draft.meta_rel_path },
            ),
    {
        let run = CommitRun {
            stage: CommitStage::Staging,
            push_mode,
            remote: remote.to_string(),
            content_rel: draft.rel_path.clone(),
            meta_rel: draft.meta_rel_path.clone(),
            content_abs: draft.abs_path.clone(),
            meta_abs: draft.meta_path.clone(),
            subject: draft.subject.clone(),
            commit: String::new(),
            push_error: String::new(),
        };
        let first = CommitAction::Git(
            GitOp::Stage { content: draft.rel_path.clone(), meta: draft.meta_rel_path.clone() },
        );
        (run, first)
    }

    /// Whether the run has handed out its result.
    pub fn is_finished(&self) -> (r: bool)
        ensures
            r == (self.stage == CommitStage::Finished),
    {
        self.stage == CommitStage::Finished
    }

    /// Takes the outcome of the last action and hands out the next one.
    pub fn step(&mut self, ev: GitOutcome) -> (a: CommitAction)
        requires
            old(self).stage != CommitStage::Finished,
        ensures
            commit_step(*old(self), ev, *final(self), a),
    {
        match self.stage {
            CommitStage::Staging => match ev {
                GitOutcome::Success(_) => {
                    self.stage = CommitStage::Committing;
                    CommitAction::Git(GitOp::Commit { subject: self.subject.clone() })
                },
                GitOutcome::Failure(e) => {
                    self.stage = CommitStage::Finished;
                    CommitAction::Finish(Err(AppError::Internal(e)))
                },
            },
            CommitStage::Committing => match ev {
                GitOutcome::Success(_) => {
                    self.stage = CommitStage::ResolvingHead;
                    CommitAction::Git(GitOp::ShortHead)
                },
                GitOutcome::Failure(e) => {
                    self.stage = CommitStage::Finished;
                    CommitAction::Finish(Err(AppError::Internal(e)))
                },
            },
            CommitStage::ResolvingHead => match ev {
                GitOutcome::Success(c) => {
                    if self.push_mode == PushMode::Off {
                        self.stage = CommitStage::Finished;
                        CommitAction::Finish(
                            Ok(GitCommitResult { commit: c, pushed: false, push_error: None }),
                        )
                    } else {
                        self.stage = CommitStage::Pushing;
                        self.commit = c;
                        CommitAction::Git(GitOp::Push { remote: self.remote.clone() })
                    }
                },
                GitOutcome::Failure(e) => {
                    self.stage = CommitStage::Finished;
                    CommitAction::Finish(Err(AppError::Internal(e)))
                },
            },
            CommitStage::Pushing => match ev {
                GitOutcome::Success(_) => {
                    self.stage = CommitStage::Finished;
                    CommitAction::Finish(
                        Ok(
                            GitCommitResult {
                                commit: self.commit.clone(),
                                pushed: true,
                                push_error: None,
                            },
                        ),
                    )
                },
                GitOutcome::Failure(e) => {
                    if self.push_mode == PushMode::Strict {
                        self.stage = CommitStage::UndoingCommit;
                        self.push_error = e;
                        CommitAction::Git(GitOp::UndoCommit)
                    } else {
                        self.stage = CommitStage::Finished;
                        CommitAction::Finish(
                            Ok(
                                GitCommitResult {
                                    commit: self.commit.clone(),
                                    pushed: false,
                                    push_error: Some(e),
                                },
                            ),
                        )
                    }
                },
            },
            CommitStage::UndoingCommit => {
                self.stage = CommitStage::RemovingContent;
                CommitAction::RemoveFile(self.content_abs.clone())
            },
            CommitStage::RemovingContent => {
                self.stage = CommitStage::RemovingMeta;
                CommitAction::RemoveFile(self.meta_abs.clone())
            },
            CommitStage::RemovingMeta => {
                self.stage = CommitStage::ResettingIndex;
                CommitAction::Git(GitOp::ResetIndex)
            },
            CommitStage::ResettingIndex => {
                self.stage = CommitStage::Finished;
                let mut m = String::new();
                push_all(&mut m, "push failed in strict mode: ");
                push_all(&mut m, self.push_error.as_str());
                CommitAction::Finish(Err(AppError::Internal(m)))
            },
            CommitStage::Finished => {
                CommitAction::Finish(Err(AppError::Internal(String::new())))
            },
        }
    }
}


/// Best-effort push: when the push fails, the run still finishes
/// successfully, with the local commit, `pushed` false and the failure
/// recorded.
pub proof fn lemma_best_effort_push_failure(
    old: CommitRun,
    e: String,
    new: CommitRun,
    a: CommitAction,
)
    requires
        old.stage == CommitStage::Pushing,
        old.push_mode == PushMode::BestEffort,
        commit_step(old, GitOutcome::Failure(e), new, a),
    ensures
        new.stage == CommitStage::Finished,
        succeeds_with(a, old.commit@, false, Some(e@)),
{
}

/// Strict push: when the push fails, the next actions whatever their
/// outcomes are to undo the commit (`reset --soft HEAD~1`), delete the
/// content file, delete the metadata file and reset the index; then the run
/// fails with `Internal`. The undo brings HEAD back to where it stood before
/// the run's single commit.
pub proof fn lemma_strict_push_failure_rolls_back(
    r0: CommitRun,
    e: String,
    r1: CommitRun,
    a1: CommitAction,
    o2: GitOutcome,
    r2: CommitRun,
    a2: CommitAction,
    o3: GitOutcome,
    r3: CommitRun,
    a3: CommitAction,
    o4: GitOutcome,
    r4: CommitRun,
    a4: CommitAction,
    o5: GitOutcome,
    r5: CommitRun,
    a5: CommitAction,
)
    requires
        r0.stage == CommitStage::Pushing,
        r0.push_mode == PushMode::Strict,
        commit_step(r0, GitOutcome::Failure(e), r1, a1),
        commit_step(r1, o2, r2, a2),
        commit_step(r2, o3, r3, a3),
        commit_step(r3, o4, r4, a4),
        commit_step(r4, o5, r5, a5),
    ensures
        a1 == CommitAction::Git(GitOp::UndoCommit),
        a2 == CommitAction::RemoveFile(r0.content_abs),
        a3 == CommitAction::RemoveFile(r0.meta_abs),
        a4 == CommitAction::Git(GitOp::ResetIndex),
        fails_with(a5, strict_push_message(e@)),
        r5.stage == CommitStage::Finished,
{
}

/// How many commits an action adds to HEAD when it succeeds: one for a
/// commit, minus one for undoing one, none otherwise.
pub open spec fn head_delta(a: CommitAction) -> int {
    match a {
        CommitAction::Git(GitOp::Commit { .. }) => 1,
        CommitAction::Git(GitOp::UndoCommit) => -1,
        _ => 0,
    }
}

/// How many commits a sequence of actions adds to HEAD.
pub open spec fn net_commits(acts: Seq<CommitAction>) -> int
    decreases acts.len(),
{
    if acts.len() == 0 {
        0
    } else {
        net_commits(acts.drop_last()) + head_delta(acts.last())
    }
}

/// A recorded run: `runs[k]` takes outcome `events[k]` to `runs[k + 1]` and
/// hands out `acts[k + 1]`; `acts[0]` is the action the run started with.
pub open spec fn is_trace(
    runs: Seq<CommitRun>,
    events: Seq<GitOutcome>,
    acts: Seq<CommitAction>,
) -> bool {
    &&& runs.len() == events.len() + 1
    &&& acts.len() == runs.len()
    &&& forall|k: int|
        0 <= k < events.len() ==> #[trigger] commit_step(runs[k], events[k], runs[k + 1], acts[k + 1])
}

/// The commits added so far by a run that stands at `stage`.
pub open spec fn commits_at(stage: CommitStage) -> int {
    match stage {
        CommitStage::Committing | CommitStage::ResolvingHead | CommitStage::Pushing => 1,
        _ => 0,
    }
}

proof fn lemma_trace_prefix(
    runs: Seq<CommitRun>,
    events: Seq<GitOutcome>,
    acts: Seq<CommitAction>,
    k: int,
)
    requires
        is_trace(runs, events, acts),
        runs[0].stage == CommitStage::Staging,
        head_delta(acts[0]) == 0,
        0 <= k < runs.len(),
        forall|j: int| 0 <= j < k ==> runs[j].stage != CommitStage::Finished,
        runs[k].stage != CommitStage::Finished,
    ensures
        net_commits(acts.take(k + 1)) == commits_at(runs[k].stage),
    decreases k,
{
    assert(acts.take(k + 1).drop_last() =~= acts.take(k));
    assert(acts.take(k + 1).last() == acts[k]);
    if k == 0 {
        assert(acts.take(0) =~= Seq::<CommitAction>::empty());
        assert(net_commits(acts.take(0)) == 0);
    } else {
        lemma_trace_prefix(runs, events, acts, k - 1);
        assert(commit_step(runs[k - 1], events[k - 1], runs[k], acts[k]));
        assert(net_commits(acts.take(k + 1)) == net_commits(acts.take(k)) + head_delta(acts[k]));
        assert(commits_at(runs[k].stage) == commits_at(runs[k - 1].stage) + head_delta(acts[k]));
    }
}

/// A create whose commit run finishes successfully adds exactly one commit
/// to HEAD: the run hands out one commit and no undo.
pub proof fn lemma_success_adds_one_commit(
    runs: Seq<CommitRun>,
    events: Seq<GitOutcome>,
    acts: Seq<CommitAction>,
)
    requires
        is_trace(runs, events, acts),
        runs[0].stage == CommitStage::Staging,
        acts[0] is Git && acts[0]->Git_0 is Stage,
        acts.last() is Finish,
        acts.last()->Finish_0 is Ok,
    ensures
        net_commits(acts) == 1,
{
    let n = runs.len() - 1;
    assert(n >= 1) by {
        if n == 0 {
            assert(acts.last() == acts[0]);
        }
    }
    assert forall|j: int| 0 <= j < n implies runs[j].stage != CommitStage::Finished by {
        assert(commit_step(runs[j], events[j], runs[j + 1], acts[j + 1]));
    }
    lemma_trace_prefix(runs, events, acts, n - 1);
    assert(commit_step(runs[n - 1], events[n - 1], runs[n], acts[n]));
    assert(acts.drop_last() =~= acts.take(n));
}

} // verus!
