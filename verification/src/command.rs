//! Command variants and their remote calls.
//!
//! A command is one concrete operation request against the remote
//! collaboration platform: creating a label, an issue, a team or a gist.
//! Each variant owns its immutable parameter set. Running a command does not
//! perform network traffic here; instead the engine *plans* the remote calls
//! a command needs (as [`RemoteRequest`] values, in declaration order) and
//! later *collects* the per-call outcomes supplied by the embedding program
//! back into one result per leaf invocation.

use vstd::prelude::*;

use crate::error::{Error, ErrorView};
use crate::octomate::{Context, JobView, RepositoryView};

verus! {

// ---------------------------------------------------------------------------
// Parameter sets, one per command variant
// ---------------------------------------------------------------------------

/// Parameters of a gist creation. Gists are not repository-scoped, so this
/// command performs exactly one remote call regardless of context.
#[derive(Debug, PartialEq, Eq)]
pub struct CreateGistOptions {
    pub title: String,
    pub content: String,
    pub description: Option<String>,
    pub public: Option<bool>,
}

/// Parameters of a team creation. The command is job-scoped: the names of
/// the enclosing job's target repositories become the repositories attached
/// to the new team, and outside a job the command is a no-op.
#[derive(Debug, PartialEq, Eq)]
pub struct CreateTeamOptions {
    pub name: String,
    pub description: Option<String>,
    pub owner: String,
    pub maintainers: Option<Vec<String>>,
}

/// Parameters of an issue creation. The command is targeted: it performs one
/// remote call per target repository of the enclosing job.
#[derive(Debug, PartialEq, Eq)]
pub struct CreateIssueOptions {
    pub title: String,
    pub body: String,
    pub milestone: Option<u64>,
    pub assignees: Option<Vec<String>>,
    pub labels: Option<Vec<String>>,
}

/// Parameters of a label creation. The command is targeted: it performs one
/// remote call per target repository of the enclosing job.
#[derive(Debug, PartialEq, Eq)]
pub struct CreateLabelOptions {
    pub name: String,
    pub color: String,
    pub description: String,
}

/// One command of a step: a closed tagged union over the supported
/// operation kinds, dispatched by exhaustive match.
#[derive(Debug, PartialEq, Eq)]
pub enum Command {
    CreateLabel(CreateLabelOptions),
    CreateIssue(CreateIssueOptions),
    CreateTeam(CreateTeamOptions),
    CreateGist(CreateGistOptions),
}

// ---------------------------------------------------------------------------
// Mathematical abstractions of the parameter sets
// ---------------------------------------------------------------------------

pub ghost struct CreateGistOptionsView {
    pub title: Seq<char>,
    pub content: Seq<char>,
    pub description: Option<Seq<char>>,
    pub public: Option<bool>,
}

pub ghost struct CreateTeamOptionsView {
    pub name: Seq<char>,
    pub description: Option<Seq<char>>,
    pub owner: Seq<char>,
    pub maintainers: Option<Seq<Seq<char>>>,
}

pub ghost struct CreateIssueOptionsView {
    pub title: Seq<char>,
    pub body: Seq<char>,
    pub milestone: Option<u64>,
    pub assignees: Option<Seq<Seq<char>>>,
    pub labels: Option<Seq<Seq<char>>>,
}

pub ghost struct CreateLabelOptionsView {
    pub name: Seq<char>,
    pub color: Seq<char>,
    pub description: Seq<char>,
}

pub ghost enum CommandView {
    CreateLabel(CreateLabelOptionsView),
    CreateIssue(CreateIssueOptionsView),
    CreateTeam(CreateTeamOptionsView),
    CreateGist(CreateGistOptionsView),
}

impl View for CreateGistOptions {
    type V = CreateGistOptionsView;

    open spec fn view(&self) -> CreateGistOptionsView {
        CreateGistOptionsView {
            title: self.title@,
            content: self.content@,
            description: self.description.deep_view(),
            public: self.public,
        }
    }
}

impl View for CreateTeamOptions {
    type V = CreateTeamOptionsView;

    open spec fn view(&self) -> CreateTeamOptionsView {
        CreateTeamOptionsView {
            name: self.name@,
            description: self.description.deep_view(),
            owner: self.owner@,
            maintainers: self.maintainers.deep_view(),
        }
    }
}

impl View for CreateIssueOptions {
    type V = CreateIssueOptionsView;

    open spec fn view(&self) -> CreateIssueOptionsView {
        CreateIssueOptionsView {
            title: self.title@,
            body: self.body@,
            milestone: self.milestone,
            assignees: self.assignees.deep_view(),
            labels: self.labels.deep_view(),
        }
    }
}

impl View for CreateLabelOptions {
    type V = CreateLabelOptionsView;

    open spec fn view(&self) -> CreateLabelOptionsView {
        CreateLabelOptionsView {
            name: self.name@,
            color: self.color@,
            description: self.description@,
        }
    }
}

impl View for Command {
    type V = CommandView;

    open spec fn view(&self) -> CommandView {
        match self {
            Command::CreateLabel(o) => CommandView::CreateLabel(o@),
            Command::CreateIssue(o) => CommandView::CreateIssue(o@),
            Command::CreateTeam(o) => CommandView::CreateTeam(o@),
            Command::CreateGist(o) => CommandView::CreateGist(o@),
        }
    }
}

// ---------------------------------------------------------------------------
// Remote requests: the calls a command asks the platform to perform
// ---------------------------------------------------------------------------

/// One fully-resolved remote call, with every optional parameter already
/// defaulted as documented per variant (absent description becomes empty,
/// absent assignee or maintainer list becomes the empty list, absent
/// visibility flag means private). An absent milestone stays absent: the
/// issue is created with no milestone.
#[derive(Debug, PartialEq, Eq)]
pub enum RemoteRequest {
    CreateLabel {
        owner: String,
        repo: String,
        name: String,
        color: String,
        description: String,
    },
    CreateIssue {
        owner: String,
        repo: String,
        title: String,
        body: String,
        milestone: Option<u64>,
        assignees: Vec<String>,
        labels: Vec<String>,
    },
    CreateTeam {
        org: String,
        name: String,
        description: String,
        maintainers: Vec<String>,
        repo_names: Vec<String>,
    },
    CreateGist {
        title: String,
        content: String,
        description: String,
        public: bool,
    },
}

pub ghost enum RemoteRequestView {
    CreateLabel {
        owner: Seq<char>,
        repo: Seq<char>,
        name: Seq<char>,
        color: Seq<char>,
        description: Seq<char>,
    },
    CreateIssue {
        owner: Seq<char>,
        repo: Seq<char>,
        title: Seq<char>,
        body: Seq<char>,
        milestone: Option<u64>,
        assignees: Seq<Seq<char>>,
        labels: Seq<Seq<char>>,
    },
    CreateTeam {
        org: Seq<char>,
        name: Seq<char>,
        description: Seq<char>,
        maintainers: Seq<Seq<char>>,
        repo_names: Seq<Seq<char>>,
    },
    CreateGist {
        title: Seq<char>,
        content: Seq<char>,
        description: Seq<char>,
        public: bool,
    },
}

impl View for RemoteRequest {
    type V = RemoteRequestView;

    open spec fn view(&self) -> RemoteRequestView {
        match self {
            RemoteRequest::CreateLabel { owner, repo, name, color, description } => (
                RemoteRequestView::CreateLabel {
                    owner: owner@,
                    repo: repo@,
                    name: name@,
                    color: color@,
                    description: description@,
                }
            ),
            RemoteRequest::CreateIssue {
                owner,
                repo,
                title,
                body,
                milestone,
                assignees,
                labels,
            } => (
                RemoteRequestView::CreateIssue {
                    owner: owner@,
                    repo: repo@,
                    title: title@,
                    body: body@,
                    milestone: *milestone,
                    assignees: assignees.deep_view(),
                    labels: labels.deep_view(),
                }
            ),
            RemoteRequest::CreateTeam { org, name, description, maintainers, repo_names } => (
                RemoteRequestView::CreateTeam {
                    org: org@,
                    name: name@,
                    description: description@,
                    maintainers: maintainers.deep_view(),
                    repo_names: repo_names.deep_view(),
                }
            ),
            RemoteRequest::CreateGist { title, content, description, public } => (
                RemoteRequestView::CreateGist {
                    title: title@,
                    content: content@,
                    description: description@,
                    public: *public,
                }
            ),
        }
    }
}

/// The views of a sequence of planned requests.
pub open spec fn requests_view(s: Seq<RemoteRequest>) -> Seq<RemoteRequestView> {
    Seq::new(s.len(), |i: int| s[i]@)
}

// ---------------------------------------------------------------------------
// Responses: one payload per command variant, plus the no-op marker
// ---------------------------------------------------------------------------

/// Payload of a successful label creation.
#[derive(Debug, PartialEq, Eq)]
pub struct Label {
    pub name: String,
    pub color: String,
    pub description: String,
}

/// Payload of a successful issue creation.
#[derive(Debug, PartialEq, Eq)]
pub struct Issue {
    pub number: u64,
    pub title: String,
}

/// Payload of a successful team creation.
#[derive(Debug, PartialEq, Eq)]
pub struct Team {
    pub name: String,
    pub slug: String,
}

/// Payload of a successful gist creation.
#[derive(Debug, PartialEq, Eq)]
pub struct Gist {
    pub id: String,
}

/// One result of one leaf invocation. `NoOp` is returned when a job-scoped
/// command runs outside any job: it marks that the command's preconditions
/// were not met and that zero remote calls were performed.
#[derive(Debug, PartialEq, Eq)]
pub enum Response {
    CreateLabel(Label),
    CreateIssue(Issue),
    CreateTeam(Team),
    CreateGist(Gist),
    NoOp,
}

pub ghost struct LabelView {
    pub name: Seq<char>,
    pub color: Seq<char>,
    pub description: Seq<char>,
}

pub ghost struct IssueView {
    pub number: u64,
    pub title: Seq<char>,
}

pub ghost struct TeamView {
    pub name: Seq<char>,
    pub slug: Seq<char>,
}

pub ghost struct GistView {
    pub id: Seq<char>,
}

pub ghost enum ResponseView {
    CreateLabel(LabelView),
    CreateIssue(IssueView),
    CreateTeam(TeamView),
    CreateGist(GistView),
    NoOp,
}

impl View for Label {
    type V = LabelView;

    open spec fn view(&self) -> LabelView {
        LabelView { name: self.name@, color: self.color@, description: self.description@ }
    }
}

impl View for Issue {
    type V = IssueView;

    open spec fn view(&self) -> IssueView {
        IssueView { number: self.number, title: self.title@ }
    }
}

impl View for Team {
    type V = TeamView;

    open spec fn view(&self) -> TeamView {
        TeamView { name: self.name@, slug: self.slug@ }
    }
}

impl View for Gist {
    type V = GistView;

    open spec fn view(&self) -> GistView {
        GistView { id: self.id@ }
    }
}

impl View for Response {
    type V = ResponseView;

    open spec fn view(&self) -> ResponseView {
        match self {
            Response::CreateLabel(l) => ResponseView::CreateLabel(l@),
            Response::CreateIssue(i) => ResponseView::CreateIssue(i@),
            Response::CreateTeam(t) => ResponseView::CreateTeam(t@),
            Response::CreateGist(g) => ResponseView::CreateGist(g@),
            Response::NoOp => ResponseView::NoOp,
        }
    }
}

// ---------------------------------------------------------------------------
// Outcomes: what one remote call (or a no-op) produced
// ---------------------------------------------------------------------------

/// What one leaf invocation produced: a typed payload, or the typed error
/// the remote capability failed with. Failures never abort sibling calls;
/// they travel inside the result tree as values.
pub type Outcome = Result<Response, Error>;

pub type OutcomeView = Result<ResponseView, ErrorView>;

pub open spec fn outcome_view(o: Outcome) -> OutcomeView {
    match o {
        Ok(r) => Ok(r@),
        Err(e) => Err(e@),
    }
}

/// The views of a sequence of outcomes.
pub open spec fn outcomes_view(s: Seq<Outcome>) -> Seq<OutcomeView> {
    Seq::new(s.len(), |i: int| outcome_view(s[i]))
}

// ---------------------------------------------------------------------------
// Defaults of absent optional parameters
// ---------------------------------------------------------------------------

pub open spec fn or_empty_text(s: Option<Seq<char>>) -> Seq<char> {
    match s {
        Some(v) => v,
        None => Seq::empty(),
    }
}

pub open spec fn or_empty_list(s: Option<Seq<Seq<char>>>) -> Seq<Seq<char>> {
    match s {
        Some(v) => v,
        None => Seq::empty(),
    }
}

pub open spec fn or_false(b: Option<bool>) -> bool {
    match b {
        Some(v) => v,
        None => false,
    }
}

// ---------------------------------------------------------------------------
// What a command asks of the remote platform, and what it returns
// ---------------------------------------------------------------------------

/// Whether a command reads the enclosing job from its context. Such a
/// command is a no-op outside any job.
pub open spec fn is_job_scoped(c: CommandView) -> bool {
    !(c is CreateGist)
}

/// The remote calls one command performs under the given enclosing job, in
/// declaration order of the job's target repositories.
///
/// A targeted command (label, issue) calls once per target repository; a
/// job-scoped untargeted command (team) calls exactly once, attaching the
/// names of all target repositories; a context-independent command (gist)
/// calls exactly once whatever the context. A job-scoped command outside any
/// job performs zero calls.
pub open spec fn command_calls(c: CommandView, job: Option<JobView>) -> Seq<RemoteRequestView> {
    match c {
        CommandView::CreateLabel(o) => match job {
            None => Seq::empty(),
            Some(j) => j.on_repositories.map_values(
                |r: RepositoryView| RemoteRequestView::CreateLabel {
                    owner: r.owner,
                    repo: r.name,
                    name: o.name,
                    color: o.color,
                    description: o.description,
                },
            ),
        },
        CommandView::CreateIssue(o) => match job {
            None => Seq::empty(),
            Some(j) => j.on_repositories.map_values(
                |r: RepositoryView| RemoteRequestView::CreateIssue {
                    owner: r.owner,
                    repo: r.name,
                    title: o.title,
                    body: o.body,
                    milestone: o.milestone,
                    assignees: or_empty_list(o.assignees),
                    labels: or_empty_list(o.labels),
                },
            ),
        },
        CommandView::CreateTeam(o) => match job {
            None => Seq::empty(),
            Some(j) => seq![
                RemoteRequestView::CreateTeam {
                    org: o.owner,
                    name: o.name,
                    description: or_empty_text(o.description),
                    maintainers: or_empty_list(o.maintainers),
                    repo_names: j.on_repositories.map_values(|r: RepositoryView| r.name),
                },
            ],
        },
        CommandView::CreateGist(o) => seq![
            RemoteRequestView::CreateGist {
                title: o.title,
                content: o.content,
                description: or_empty_text(o.description),
                public: or_false(o.public),
            },
        ],
    }
}

/// The results one command reports, given the outcomes of exactly the calls
/// it planned: a job-scoped command outside any job reports one no-op
/// response; every other command reports its call outcomes positionally, in
/// declaration order of its calls.
pub open spec fn command_results(
    c: CommandView,
    job: Option<JobView>,
    outs: Seq<OutcomeView>,
) -> Seq<OutcomeView>
    recommends
        outs.len() == command_calls(c, job).len(),
{
    if is_job_scoped(c) && job is None {
        seq![Ok(ResponseView::NoOp)]
    } else {
        outs
    }
}

/// How many results one command reports: one per target repository for a
/// targeted command under a job, and exactly one in every other case.
pub open spec fn command_result_count(c: CommandView, job: Option<JobView>) -> nat {
    match c {
        CommandView::CreateLabel(_) | CommandView::CreateIssue(_) => match job {
            None => 1,
            Some(j) => j.on_repositories.len(),
        },
        CommandView::CreateTeam(_) => 1,
        CommandView::CreateGist(_) => 1,
    }
}

// ---------------------------------------------------------------------------
// Small executable helpers
// ---------------------------------------------------------------------------

/// A copy of a list of names, value for value.
fn clone_strings(v: &Vec<String>) -> (r: Vec<String>)
    ensures
        r.deep_view() == v.deep_view(),
{
    let mut r: Vec<String> = Vec::new();
    let mut i: usize = 0;
    while i < v.len()
        invariant
            i <= v@.len(),
            r.deep_view() == v.deep_view().take(i as int),
        decreases v@.len() - i,
    {
        let x = v[i].clone();
        proof {
            assert(r.deep_view().len() == i as int);
            assert(r.deep_view() == Seq::new(r@.len() as nat, |k: int| r@[k].deep_view()));
            assert(r@.len() == i as int);
        }
        r.push(x);
        proof {
            assert(r@[i as int] == v@[i as int]);
            assert(r.deep_view() =~= v.deep_view().take(i as int + 1));
        }
        i = i + 1;
    }
    proof {
        assert(v.deep_view().take(v@.len() as int) =~= v.deep_view());
    }
    r
}

/// The defaulted copy of an optional list: absent means empty.
fn clone_strings_or_empty(v: &Option<Vec<String>>) -> (r: Vec<String>)
    ensures
        r.deep_view() == or_empty_list(v.deep_view()),
{
    match v {
        Some(list) => clone_strings(list),
        None => {
            let r: Vec<String> = Vec::new();
            proof {
                assert(r.deep_view() =~= Seq::<Seq<char>>::empty());
            }
            r
        },
    }
}

/// The defaulted copy of an optional text: absent means empty.
fn clone_text_or_empty(v: &Option<String>) -> (r: String)
    ensures
        r@ == or_empty_text(v.deep_view()),
{
    match v {
        Some(text) => text.clone(),
        None => String::new(),
    }
}

/// Removes the first `k` outcomes from the front of `pending`, preserving
/// their order.
fn take_outcomes(pending: &mut Vec<Outcome>, k: usize) -> (res: Vec<Outcome>)
    requires
        k <= old(pending)@.len(),
    ensures
        final(pending)@ == old(pending)@.skip(k as int),
        res@ == old(pending)@.take(k as int),
{
    let mut res: Vec<Outcome> = Vec::new();
    let mut t: usize = 0;
    proof {
        assert(old(pending)@.skip(0) =~= old(pending)@);
    }
    while t < k
        invariant
            t <= k,
            k <= old(pending)@.len(),
            pending@ == old(pending)@.skip(t as int),
            res@ == old(pending)@.take(t as int),
        decreases k - t,
    {
        let o = pending.remove(0);
        res.push(o);
        proof {
            assert(old(pending)@.skip(t as int).remove(0) =~= old(pending)@.skip(t as int + 1));
            assert(old(pending)@.skip(t as int)[0] == old(pending)@[t as int]);
            assert(old(pending)@.take(t as int).push(old(pending)@[t as int]) =~= old(
                pending,
            )@.take(t as int + 1));
        }
        t = t + 1;
    }
    res
}

/// The single no-op result of a job-scoped command outside any job.
fn no_op_results() -> (res: Vec<Outcome>)
    ensures
        outcomes_view(res@) == seq![Ok::<ResponseView, ErrorView>(ResponseView::NoOp)],
{
    let mut res: Vec<Outcome> = Vec::new();
    res.push(Ok(Response::NoOp));
    proof {
        assert(outcomes_view(res@) =~= seq![Ok::<ResponseView, ErrorView>(ResponseView::NoOp)]);
    }
    res
}

// ---------------------------------------------------------------------------
// Planning and running the command variants
// ---------------------------------------------------------------------------

impl CreateLabelOptions {
    /// Appends this command's remote calls to `out`: one label creation per
    /// target repository of the enclosing job, in declaration order; none
    /// outside a job.
    #[verifier::loop_isolation(false)]
    pub fn plan(&self, ctx: &Context, out: &mut Vec<RemoteRequest>)
        ensures
            requests_view(final(out)@) == requests_view(old(out)@) + command_calls(
                CommandView::CreateLabel(self@),
                ctx@.job,
            ),
    {
        let ghost calls = command_calls(CommandView::CreateLabel(self@), ctx@.job);
        match ctx.job {
            None => {
                proof {
                    assert(requests_view(out@) =~= requests_view(out@) + calls);
                }
            },
            Some(job) => {
                let n: usize = job.on_repositories.len();
                let mut t: usize = 0;
                while t < n
                    invariant
                        t <= n,
                        requests_view(out@) == requests_view(old(out)@) + calls.take(t as int),
                    decreases n - t,
                {
                    let repo = &job.on_repositories[t];
                    let req = RemoteRequest::CreateLabel {
                        owner: repo.owner.clone(),
                        repo: repo.name.clone(),
                        name: self.name.clone(),
                        color: self.color.clone(),
                        description: self.description.clone(),
                    };
                    proof {
                        assert(req@ == calls[t as int]);
                    }
                    let ghost before = out@;
                    out.push(req);
                    proof {
                        assert(out@ == before.push(req));
                        assert(requests_view(before) == requests_view(old(out)@) + calls.take(
                            t as int,
                        ));
                        calls.lemma_take_succ_push(t as int);
                        assert(requests_view(out@) =~= requests_view(before).push(req@));
                        assert(requests_view(out@) =~= requests_view(old(out)@) + calls.take(
                            t as int + 1,
                        ));
                    }
                    t = t + 1;
                }
                proof {
                    assert(calls.take(n as int) =~= calls);
                }
            },
        }
    }

    /// Collects this command's results from the outcomes of its planned
    /// calls, which stand at the front of `pending`: one result per target,
    /// positionally; a single no-op response outside a job.
    pub fn run(&self, ctx: &Context, pending: &mut Vec<Outcome>) -> (res: Vec<Outcome>)
        requires
            command_calls(CommandView::CreateLabel(self@), ctx@.job).len() <= old(
                pending,
            )@.len(),
        ensures
            final(pending)@ == old(pending)@.skip(
                command_calls(CommandView::CreateLabel(self@), ctx@.job).len() as int,
            ),
            outcomes_view(res@) == command_results(
                CommandView::CreateLabel(self@),
                ctx@.job,
                outcomes_view(
                    old(pending)@.take(
                        command_calls(CommandView::CreateLabel(self@), ctx@.job).len() as int,
                    ),
                ),
            ),
    {
        match ctx.job {
            None => {
                proof {
                    assert(pending@.skip(0) =~= pending@);
                }
                no_op_results()
            },
            Some(job) => take_outcomes(pending, job.on_repositories.len()),
        }
    }
}

impl CreateIssueOptions {
    /// Appends this command's remote calls to `out`: one issue creation per
    /// target repository of the enclosing job, in declaration order; none
    /// outside a job. Absent assignee and label lists default to empty; an
    /// absent milestone stays absent.
    #[verifier::loop_isolation(false)]
    pub fn plan(&self, ctx: &Context, out: &mut Vec<RemoteRequest>)
        ensures
            requests_view(final(out)@) == requests_view(old(out)@) + command_calls(
                CommandView::CreateIssue(self@),
                ctx@.job,
            ),
    {
        let ghost calls = command_calls(CommandView::CreateIssue(self@), ctx@.job);
        match ctx.job {
            None => {
                proof {
                    assert(requests_view(out@) =~= requests_view(out@) + calls);
                }
            },
            Some(job) => {
                let n: usize = job.on_repositories.len();
                let mut t: usize = 0;
                while t < n
                    invariant
                        t <= n,
                        requests_view(out@) == requests_view(old(out)@) + calls.take(t as int),
                    decreases n - t,
                {
                    let repo = &job.on_repositories[t];
                    let req = RemoteRequest::CreateIssue {
                        owner: repo.owner.clone(),
                        repo: repo.name.clone(),
                        title: self.title.clone(),
                        body: self.body.clone(),
                        milestone: self.milestone,
                        assignees: clone_strings_or_empty(&self.assignees),
                        labels: clone_strings_or_empty(&self.labels),
                    };
                    proof {
                        assert(req@ == calls[t as int]);
                    }
                    let ghost before = out@;
                    out.push(req);
                    proof {
                        assert(out@ == before.push(req));
                        assert(requests_view(before) == requests_view(old(out)@) + calls.take(
                            t as int,
                        ));
                        calls.lemma_take_succ_push(t as int);
                        assert(requests_view(out@) =~= requests_view(before).push(req@));
                        assert(requests_view(out@) =~= requests_view(old(out)@) + calls.take(
                            t as int + 1,
                        ));
                    }
                    t = t + 1;
                }
                proof {
                    assert(calls.take(n as int) =~= calls);
                }
            },
        }
    }

    /// Collects this command's results from the outcomes of its planned
    /// calls, which stand at the front of `pending`: one result per target,
    /// positionally; a single no-op response outside a job.
    pub fn run(&self, ctx: &Context, pending: &mut Vec<Outcome>) -> (res: Vec<Outcome>)
        requires
            command_calls(CommandView::CreateIssue(self@), ctx@.job).len() <= old(
                pending,
            )@.len(),
        ensures
            final(pending)@ == old(pending)@.skip(
                command_calls(CommandView::CreateIssue(self@), ctx@.job).len() as int,
            ),
            outcomes_view(res@) == command_results(
                CommandView::CreateIssue(self@),
                ctx@.job,
                outcomes_view(
                    old(pending)@.take(
                        command_calls(CommandView::CreateIssue(self@), ctx@.job).len() as int,
                    ),
                ),
            ),
    {
        match ctx.job {
            None => {
                proof {
                    assert(pending@.skip(0) =~= pending@);
                }
                no_op_results()
            },
            Some(job) => take_outcomes(pending, job.on_repositories.len()),
        }
    }
}

impl CreateTeamOptions {
    /// Appends this command's remote call to `out`: exactly one team
    /// creation under a job, attaching the names of all the job's target
    /// repositories in declaration order; none outside a job. Absent
    /// description and maintainer list default to empty.
    #[verifier::loop_isolation(false)]
    pub fn plan(&self, ctx: &Context, out: &mut Vec<RemoteRequest>)
        ensures
            requests_view(final(out)@) == requests_view(old(out)@) + command_calls(
                CommandView::CreateTeam(self@),
                ctx@.job,
            ),
    {
        let ghost calls = command_calls(CommandView::CreateTeam(self@), ctx@.job);
        match ctx.job {
            None => {
                proof {
                    assert(requests_view(out@) =~= requests_view(out@) + calls);
                }
            },
            Some(job) => {
                let n: usize = job.on_repositories.len();
                let mut repo_names: Vec<String> = Vec::new();
                let mut t: usize = 0;
                while t < n
                    invariant
                        t <= n,
                        repo_names.deep_view() == job@.on_repositories.map_values(
                            |r: RepositoryView| r.name,
                        ).take(t as int),
                    decreases n - t,
                {
                    repo_names.push(job.on_repositories[t].name.clone());
                    t = t + 1;
                }
                proof {
                    assert(job@.on_repositories.map_values(|r: RepositoryView| r.name).take(
                        n as int,
                    ) =~= job@.on_repositories.map_values(|r: RepositoryView| r.name));
                }
                out.push(
                    RemoteRequest::CreateTeam {
                        org: self.owner.clone(),
                        name: self.name.clone(),
                        description: clone_text_or_empty(&self.description),
                        maintainers: clone_strings_or_empty(&self.maintainers),
                        repo_names,
                    },
                );
                proof {
                    assert(requests_view(out@) =~= requests_view(old(out)@) + calls);
                }
            },
        }
    }

    /// Collects this command's result from the outcome of its planned call,
    /// which stands at the front of `pending`: exactly one result under a
    /// job, and a single no-op response outside a job.
    pub fn run(&self, ctx: &Context, pending: &mut Vec<Outcome>) -> (res: Vec<Outcome>)
        requires
            command_calls(CommandView::CreateTeam(self@), ctx@.job).len() <= old(
                pending,
            )@.len(),
        ensures
            final(pending)@ == old(pending)@.skip(
                command_calls(CommandView::CreateTeam(self@), ctx@.job).len() as int,
            ),
            outcomes_view(res@) == command_results(
                CommandView::CreateTeam(self@),
                ctx@.job,
                outcomes_view(
                    old(pending)@.take(
                        command_calls(CommandView::CreateTeam(self@), ctx@.job).len() as int,
                    ),
                ),
            ),
    {
        match ctx.job {
            None => {
                proof {
                    assert(pending@.skip(0) =~= pending@);
                }
                no_op_results()
            },
            Some(_job) => take_outcomes(pending, 1),
        }
    }
}

impl CreateGistOptions {
    /// Appends this command's remote call to `out`: exactly one gist
    /// creation, whatever the context. An absent description defaults to
    /// empty and an absent visibility flag means private.
    pub fn plan(&self, ctx: &Context, out: &mut Vec<RemoteRequest>)
        ensures
            requests_view(final(out)@) == requests_view(old(out)@) + command_calls(
                CommandView::CreateGist(self@),
                ctx@.job,
            ),
    {
        let public = match self.public {
            Some(b) => b,
            None => false,
        };
        out.push(
            RemoteRequest::CreateGist {
                title: self.title.clone(),
                content: self.content.clone(),
                description: clone_text_or_empty(&self.description),
                public,
            },
        );
        proof {
            assert(requests_view(out@) =~= requests_view(old(out)@) + command_calls(
                CommandView::CreateGist(self@),
                ctx@.job,
            ));
        }
    }

    /// Collects this command's result from the outcome of its planned call,
    /// which stands at the front of `pending`: exactly one result, whatever
    /// the context.
    pub fn run(&self, ctx: &Context, pending: &mut Vec<Outcome>) -> (res: Vec<Outcome>)
        requires
            command_calls(CommandView::CreateGist(self@), ctx@.job).len() <= old(
                pending,
            )@.len(),
        ensures
            final(pending)@ == old(pending)@.skip(
                command_calls(CommandView::CreateGist(self@), ctx@.job).len() as int,
            ),
            outcomes_view(res@) == command_results(
                CommandView::CreateGist(self@),
                ctx@.job,
                outcomes_view(
                    old(pending)@.take(
                        command_calls(CommandView::CreateGist(self@), ctx@.job).len() as int,
                    ),
                ),
            ),
    {
        take_outcomes(pending, 1)
    }
}

impl Command {
    /// Appends the remote calls of this command to `out`, dispatching on the
    /// variant tag.
    pub fn plan(&self, ctx: &Context, out: &mut Vec<RemoteRequest>)
        ensures
            requests_view(final(out)@) == requests_view(old(out)@) + command_calls(self@, ctx@.job),
    {
        match self {
            Command::CreateLabel(o) => o.plan(ctx, out),
            Command::CreateIssue(o) => o.plan(ctx, out),
            Command::CreateTeam(o) => o.plan(ctx, out),
            Command::CreateGist(o) => o.plan(ctx, out),
        }
    }

    /// Collects the results of this command from the outcomes of its
    /// planned calls, which stand at the front of `pending`, dispatching on
    /// the variant tag.
    pub fn run(&self, ctx: &Context, pending: &mut Vec<Outcome>) -> (res: Vec<Outcome>)
        requires
            command_calls(self@, ctx@.job).len() <= old(pending)@.len(),
        ensures
            final(pending)@ == old(pending)@.skip(command_calls(self@, ctx@.job).len() as int),
            outcomes_view(res@) == command_results(
                self@,
                ctx@.job,
                outcomes_view(
                    old(pending)@.take(command_calls(self@, ctx@.job).len() as int),
                ),
            ),
    {
        match self {
            Command::CreateLabel(o) => o.run(ctx, pending),
            Command::CreateIssue(o) => o.run(ctx, pending),
            Command::CreateTeam(o) => o.run(ctx, pending),
            Command::CreateGist(o) => o.run(ctx, pending),
        }
    }
}

} // verus!
