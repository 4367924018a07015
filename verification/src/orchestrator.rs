//! The orchestrator: one run, from the shared secret to the last bind.
//!
//! The orchestrator touches nothing outside itself. Each step hands out one
//! action for its caller to perform and takes in the event that answers it.

use crate::binder::{
    bind_outcome, bind_request, outcome_of, request_for, BindOutcome, BindRequest, OutcomeView,
    PlatformReply, PlatformReplyView, RequestView,
};
use crate::credentials::{
    credential_from, resolve_token, token_variable, token_variable_for, Credential,
    CredentialView,
};
use crate::discovery::{
    absorb_reply, after_reply, is_valid_url, lemma_record_all_wf, reply_listing, sources_view,
    url_parses, DiscoveryError, DiscoveryErrorView, ReplyView, SourceReply, SourceView,
    TunnelSource,
};
use crate::json::text_object_bytes;
use crate::ports::{IdentityView, PortTable};
use crate::services::{ServiceMap, ServiceView, Services};
use crate::text::optional_text;
use vstd::prelude::*;

verus! {

/// Seconds that a run waits for the tunnels to come up.
pub const WARM_UP_SECONDS: u64 = 2;

/// Where a run stands.
#[derive(Clone, Copy, Debug, PartialEq, Eq)]
pub enum Phase {
    Init,
    WarmingUp,
    Discovering,
    Binding,
    Done,
}

/// What the caller reports back.
#[derive(Clone, Debug, PartialEq, Eq)]
pub enum Event {
    /// The value of the shared secret's variable, where it is set.
    Secret(Option<String>),
    /// The warm-up time has passed.
    WarmedUp,
    /// What the source that was asked answered.
    SourceReplied(SourceReply),
    /// The value of the token variable that was asked for, where it is set.
    Credential(Option<String>),
    /// What the platform answered to the registration call.
    PlatformReplied(PlatformReply),
}

/// An event as mathematics sees it.
pub enum EventView {
    Secret(Option<Seq<char>>),
    WarmedUp,
    SourceReplied(ReplyView),
    Credential(Option<Seq<char>>),
    PlatformReplied(PlatformReplyView),
}

impl View for Event {
    type V = EventView;

    open spec fn view(&self) -> EventView {
        match self {
            Event::Secret(value) => EventView::Secret(optional_text(*value)),
            Event::WarmedUp => EventView::WarmedUp,
            Event::SourceReplied(reply) => EventView::SourceReplied(reply@),
            Event::Credential(value) => EventView::Credential(optional_text(*value)),
            Event::PlatformReplied(reply) => EventView::PlatformReplied(reply@),
        }
    }
}

/// What the caller is to do next.
#[derive(Clone, Debug, PartialEq, Eq)]
pub enum Action {
    /// Read the environment variable that holds the shared secret.
    ReadSecret { variable: String },
    /// Leave with a failure: the shared secret is missing.
    Abort,
    /// Wait.
    Sleep { seconds: u64 },
    /// GET the tunnel list of a source.
    Fetch { label: String, url: String },
    /// Read the environment variable that holds a service's token.
    ReadCredential { service: String, variable: String },
    /// Send a registration call.
    Post(BindRequest),
    /// Leave: every service was attempted.
    Finish,
}

/// An action as mathematics sees it.
pub enum ActionView {
    ReadSecret { variable: Seq<char> },
    Abort,
    Sleep { seconds: u64 },
    Fetch { label: Seq<char>, url: Seq<char> },
    ReadCredential { service: Seq<char>, variable: Seq<char> },
    Post(RequestView),
    Finish,
}

impl View for Action {
    type V = ActionView;

    open spec fn view(&self) -> ActionView {
        match self {
            Action::ReadSecret { variable } => ActionView::ReadSecret { variable: variable@ },
            Action::Abort => ActionView::Abort,
            Action::Sleep { seconds } => ActionView::Sleep { seconds: *seconds },
            Action::Fetch { label, url } => ActionView::Fetch { label: label@, url: url@ },
            Action::ReadCredential { service, variable } => ActionView::ReadCredential {
                service: service@,
                variable: variable@,
            },
            Action::Post(request) => ActionView::Post(request@),
            Action::Finish => ActionView::Finish,
        }
    }
}

/// What a step has to tell about the sources and services it dealt with.
#[derive(Clone, Debug, PartialEq, Eq)]
pub enum Report {
    /// A source added nothing to the discovered services.
    SourceSkipped { label: String, url: String, error: DiscoveryError },
    /// A service has no token; no registration call was made for it.
    ServiceSkipped { service: String },
    /// A registration call was made and answered.
    Bound(BindOutcome),
}

/// A report as mathematics sees it.
pub enum ReportView {
    SourceSkipped { label: Seq<char>, url: Seq<char>, error: DiscoveryErrorView },
    ServiceSkipped { service: Seq<char> },
    Bound(OutcomeView),
}

impl View for Report {
    type V = ReportView;

    open spec fn view(&self) -> ReportView {
        match self {
            Report::SourceSkipped { label, url, error } => ReportView::SourceSkipped {
                label: label@,
                url: url@,
                error: error@,
            },
            Report::ServiceSkipped { service } => ReportView::ServiceSkipped {
                service: service@,
            },
            Report::Bound(outcome) => ReportView::Bound(outcome@),
        }
    }
}

/// The reports as mathematics sees them.
pub open spec fn reports_view(reports: Seq<Report>) -> Seq<ReportView> {
    reports.map_values(|report: Report| report@)
}

/// What one step hands to the caller.
#[derive(Clone, Debug, PartialEq, Eq)]
pub struct Step {
    pub reports: Vec<Report>,
    pub action: Action,
}

/// The state of a run as mathematics sees it.
pub struct RunView {
    pub table: Seq<IdentityView>,
    pub sources: Seq<SourceView>,
    pub phase: Phase,
    /// Whether the run ended for want of the shared secret.
    pub aborted: bool,
    pub shared_secret: Seq<char>,
    /// While discovering, the source that was asked; while binding, the
    /// service that is being bound.
    pub cursor: int,
    /// While binding, the credential of the registration call that is out.
    pub pending: Option<CredentialView>,
    pub services: Services,
}

impl RunView {
    /// The states that a run can be in.
    pub open spec fn wf(self) -> bool {
        &&& self.phase == Phase::Discovering ==> 0 <= self.cursor < self.sources.len()
            && is_valid_url(self.sources[self.cursor].base_url)
        &&& self.phase == Phase::Binding ==> 0 <= self.cursor < self.services.order.len()
            && self.services.urls.contains_key(self.services.order[self.cursor])
        &&& self.pending is Some ==> self.phase == Phase::Binding
        &&& self.aborted ==> self.phase == Phase::Done
    }

    /// The service that is being bound.
    pub open spec fn current_service(self) -> ServiceView {
        let name = self.services.order[self.cursor];
        ServiceView { name, public_url: self.services.urls[name] }
    }
}

/// The first source from `from` on whose URL is valid, or the number of
/// sources where there is none.
pub open spec fn next_valid(sources: Seq<SourceView>, from: int) -> int
    decreases sources.len() - from,
{
    if from < 0 || from >= sources.len() {
        sources.len() as int
    } else if is_valid_url(sources[from].base_url) {
        from
    } else {
        next_valid(sources, from + 1)
    }
}

/// One report for each source from `from` up to `to`, saying that its URL
/// is invalid.
pub open spec fn invalid_reports(sources: Seq<SourceView>, from: int, to: int) -> Seq<
    ReportView,
> {
    Seq::new(
        (to - from) as nat,
        |k: int|
            ReportView::SourceSkipped {
                label: sources[from + k].label,
                url: sources[from + k].base_url,
                error: DiscoveryErrorView::InvalidUrl,
            },
    )
}

/// The run as it asks the first source from `from` on whose URL is valid,
/// or as it turns to binding where no source is left.
pub open spec fn discovering_from(run: RunView, from: int) -> RunView {
    let next = next_valid(run.sources, from);
    if next < run.sources.len() {
        RunView { phase: Phase::Discovering, cursor: next, ..run }
    } else {
        binding_from(run, 0)
    }
}

/// The run as it binds the service at `at`, or as it ends where no service
/// is left.
pub open spec fn binding_from(run: RunView, at: int) -> RunView {
    if 0 <= at < run.services.order.len() {
        RunView { phase: Phase::Binding, cursor: at, pending: None, ..run }
    } else {
        RunView { phase: Phase::Done, cursor: 0, pending: None, ..run }
    }
}

/// The state in which a run begins.
pub open spec fn initial(table: Seq<IdentityView>, sources: Seq<SourceView>) -> RunView {
    RunView {
        table,
        sources,
        phase: Phase::Init,
        aborted: false,
        shared_secret: Seq::empty(),
        cursor: 0,
        pending: None,
        services: Services::empty(),
    }
}

/// The action that a run in state `run` waits to see answered.
pub open spec fn awaited(run: RunView) -> ActionView {
    match run.phase {
        Phase::Init => ActionView::ReadSecret { variable: "TG_SECRET"@ },
        Phase::WarmingUp => ActionView::Sleep { seconds: WARM_UP_SECONDS },
        Phase::Discovering => ActionView::Fetch {
            label: run.sources[run.cursor].label,
            url: run.sources[run.cursor].base_url,
        },
        Phase::Binding => match run.pending {
            None => ActionView::ReadCredential {
                service: run.current_service().name,
                variable: token_variable(run.current_service().name),
            },
            Some(credential) => ActionView::Post(
                request_for(run.current_service(), credential, run.shared_secret),
            ),
        },
        Phase::Done => if run.aborted {
            ActionView::Abort
        } else {
            ActionView::Finish
        },
    }
}

/// The state that follows `run` on `event`, and what there is to report.
/// An event that does not answer the awaited action changes nothing.
pub open spec fn transition(run: RunView, event: EventView) -> (RunView, Seq<ReportView>) {
    match (run.phase, event) {
        (Phase::Init, EventView::Secret(value)) => {
            if value is Some && value->0.len() > 0 {
                (RunView { phase: Phase::WarmingUp, shared_secret: value->0, ..run }, Seq::empty())
            } else {
                (RunView { phase: Phase::Done, aborted: true, ..run }, Seq::empty())
            }
        },
        (Phase::WarmingUp, EventView::WarmedUp) => (
            discovering_from(run, 0),
            invalid_reports(run.sources, 0, next_valid(run.sources, 0)),
        ),
        (Phase::Discovering, EventView::SourceReplied(reply)) => {
            let source = run.sources[run.cursor];
            let heard = RunView { services: after_reply(run.table, run.services, reply), ..run };
            let own = match reply_listing(reply) {
                Ok(_) => Seq::empty(),
                Err(error) => seq![
                    ReportView::SourceSkipped {
                        label: source.label,
                        url: source.base_url,
                        error,
                    },
                ],
            };
            (
                discovering_from(heard, run.cursor + 1),
                own + invalid_reports(
                    run.sources,
                    run.cursor + 1,
                    next_valid(run.sources, run.cursor + 1),
                ),
            )
        },
        (Phase::Binding, EventView::Credential(value)) => {
            if run.pending is Some {
                (run, Seq::empty())
            } else {
                match credential_from(run.current_service().name, value) {
                    Some(credential) => (
                        RunView { pending: Some(credential), ..run },
                        Seq::empty(),
                    ),
                    None => (
                        binding_from(run, run.cursor + 1),
                        seq![ReportView::ServiceSkipped { service: run.current_service().name }],
                    ),
                }
            }
        },
        (Phase::Binding, EventView::PlatformReplied(reply)) => {
            if run.pending is None {
                (run, Seq::empty())
            } else {
                (
                    binding_from(run, run.cursor + 1),
                    seq![ReportView::Bound(outcome_of(run.current_service(), reply))],
                )
            }
        },
        _ => (run, Seq::empty()),
    }
}

/// Without the shared secret a run ends at once: it asks for nothing but to
/// leave with a failure, and no event moves it again.
pub proof fn lemma_missing_secret_aborts(run: RunView, value: Option<Seq<char>>, later: EventView)
    requires
        run.phase == Phase::Init,
        value is None || value->0.len() == 0,
    ensures
        awaited(transition(run, EventView::Secret(value)).0) == ActionView::Abort,
        transition(run, EventView::Secret(value)).1.len() == 0,
        transition(transition(run, EventView::Secret(value)).0, later) == (
            transition(run, EventView::Secret(value)).0,
            Seq::<ReportView>::empty(),
        ),
{
}

/// Once a run has its shared secret, no event changes it.
pub proof fn lemma_secret_is_kept(run: RunView, event: EventView)
    requires
        run.phase != Phase::Init,
    ensures
        transition(run, event).0.shared_secret == run.shared_secret,
        transition(run, event).0.phase != Phase::Init,
{
}

/// The next valid source is not before the place where the search began.
pub proof fn lemma_next_valid_is_later(sources: Seq<SourceView>, from: int)
    requires
        0 <= from <= sources.len(),
    ensures
        from <= next_valid(sources, from) <= sources.len(),
        next_valid(sources, from) < sources.len() ==> is_valid_url(
            sources[next_valid(sources, from)].base_url,
        ),
        forall|k: int| from <= k < next_valid(sources, from) ==> !is_valid_url(
            (#[trigger] sources[k]).base_url,
        ),
    decreases sources.len() - from,
{
    if from < sources.len() && !is_valid_url(sources[from].base_url) {
        lemma_next_valid_is_later(sources, from + 1);
    }
}

/// Every event leaves a run in one of the states that a run can be in, and
/// its services well formed.
pub proof fn lemma_transition_keeps_wf(run: RunView, event: EventView)
    requires
        run.wf(),
        run.services.wf(),
    ensures
        transition(run, event).0.wf(),
        transition(run, event).0.services.wf(),
{
    let next = transition(run, event).0;
    match (run.phase, event) {
        (Phase::WarmingUp, EventView::WarmedUp) => {
            lemma_next_valid_is_later(run.sources, 0);
            lemma_first_service_is_bound(run.services);
        },
        (Phase::Discovering, EventView::SourceReplied(reply)) => {
            lemma_next_valid_is_later(run.sources, run.cursor + 1);
            match reply_listing(reply) {
                Ok(tunnels) => lemma_record_all_wf(run.table, run.services, tunnels),
                Err(_) => {},
            }
            lemma_first_service_is_bound(next.services);
        },
        (Phase::Binding, _) => {
            if next.phase == Phase::Binding {
                assert(run.services.order.contains(run.services.order[next.cursor]));
            }
        },
        _ => {},
    }
}

/// In a well-formed mapping the first name of the order, where there is
/// one, is bound.
proof fn lemma_first_service_is_bound(services: Services)
    requires
        services.wf(),
    ensures
        services.order.len() > 0 ==> services.urls.contains_key(services.order[0]),
{
    if services.order.len() > 0 {
        assert(services.order.contains(services.order[0]));
    }
}

/// Nothing is tried twice: the event that answers a request to a source
/// moves the run to a later source or out of discovery, and the event that
/// answers a registration call moves it to the next service or to its end.
pub proof fn lemma_one_attempt_each(run: RunView, event: EventView)
    requires
        run.wf(),
    ensures
        run.phase == Phase::Discovering && event is SourceReplied ==> {
            let next = transition(run, event).0;
            ||| next.phase == Phase::Discovering && next.cursor > run.cursor
            ||| next.phase == Phase::Binding && next.cursor == 0 && next.pending is None
            ||| next.phase == Phase::Done
        },
        run.phase == Phase::Binding && run.pending is Some && event is PlatformReplied ==> {
            let next = transition(run, event).0;
            ||| next.phase == Phase::Binding && next.cursor == run.cursor + 1 && next.pending is None
            ||| next.phase == Phase::Done
        },
{
    if run.phase == Phase::Discovering {
        lemma_next_valid_is_later(run.sources, run.cursor + 1);
    }
}

/// A source whose reply yields no tunnels leaves the services as they were,
/// and the run turns to the next source as after any other reply.
pub proof fn lemma_failed_source_moves_on(run: RunView, reply: ReplyView)
    requires
        run.phase == Phase::Discovering,
        reply_listing(reply) is Err,
    ensures
        transition(run, EventView::SourceReplied(reply)).0 == discovering_from(run, run.cursor + 1),
        transition(run, EventView::SourceReplied(reply)).0.services == run.services,
{
}

/// A service without a credential is passed over. No registration call is
/// asked for it, and the run goes on from the very state that it reaches
/// after a registration call that was made and answered.
pub proof fn lemma_skipped_service_affects_no_other(
    run: RunView,
    value: Option<Seq<char>>,
    token: Seq<char>,
    reply: PlatformReplyView,
)
    requires
        run.phase == Phase::Binding,
        run.pending is None,
        value is None || value->0.len() == 0,
        token.len() > 0,
    ensures
        !(awaited(transition(run, EventView::Credential(value)).0) is Post),
        transition(run, EventView::Credential(value)).0 == transition(
            transition(run, EventView::Credential(Some(token))).0,
            EventView::PlatformReplied(reply),
        ).0,
{
}

/// Every registration call that a run asks for goes to the endpoint of the
/// service's token and carries, as `url`, the public URL of the service
/// followed by `/webhook` and, as `secret_token`, the run's shared secret.
pub proof fn lemma_post_carries_url_and_secret(run: RunView)
    requires
        awaited(run) is Post,
    ensures
        run.phase == Phase::Binding,
        run.pending is Some,
        awaited(run)->Post_0.service_name == run.current_service().name,
        awaited(run)->Post_0.endpoint == "https://api.telegram.org/bot"@ + run.pending->0.token
            + "/setWebhook"@,
        awaited(run)->Post_0.content_type == "application/json"@,
        awaited(run)->Post_0.body == text_object_bytes(
            seq![
                ("url"@, run.current_service().public_url + "/webhook"@),
                ("secret_token"@, run.shared_secret),
            ],
        ),
{
}

/// One run of the rebinding, as a state machine.
#[derive(Debug)]
pub struct Orchestrator {
    table: PortTable,
    sources: Vec<TunnelSource>,
    phase: Phase,
    aborted: bool,
    shared_secret: String,
    cursor: usize,
    pending: Option<Credential>,
    services: ServiceMap,
}

impl View for Orchestrator {
    type V = RunView;

    closed spec fn view(&self) -> RunView {
        RunView {
            table: self.table@,
            sources: sources_view(self.sources@),
            phase: self.phase,
            aborted: self.aborted,
            shared_secret: self.shared_secret@,
            cursor: self.cursor as int,
            pending: match self.pending {
                Some(credential) => Some(credential@),
                None => None,
            },
            services: self.services@,
        }
    }
}

impl Orchestrator {
    #[verifier::type_invariant]
    spec fn inv(self) -> bool {
        self@.wf()
    }

    /// Begins a run over `table` and `sources`. Nothing has happened yet:
    /// the first action asks for the shared secret.
    pub fn new(table: PortTable, sources: Vec<TunnelSource>) -> (begun: (Orchestrator, Step))
        ensures
            begun.0@ == initial(table@, sources_view(sources@)),
            begun.0@.wf(),
            begun.1.reports@.len() == 0,
            begun.1.action@ == awaited(begun.0@),
    {
        let run = Orchestrator {
            table,
            sources,
            phase: Phase::Init,
            aborted: false,
            shared_secret: String::from_str(""),
            cursor: 0,
            pending: None,
            services: ServiceMap::new(),
        };
        proof {
            reveal_strlit("");
            assert(run.shared_secret@ =~= Seq::<char>::empty());
        }
        let action = run.awaited_action();
        (run, Step { reports: Vec::new(), action })
    }

    /// Where the run stands.
    pub fn phase(&self) -> (phase: Phase)
        ensures
            phase == self@.phase,
    {
        self.phase
    }

    /// Whether the run ended for want of the shared secret.
    pub fn aborted(&self) -> (aborted: bool)
        ensures
            aborted == self@.aborted,
    {
        self.aborted
    }

    /// The services discovered so far.
    pub fn services(&self) -> (services: &ServiceMap)
        ensures
            services@ == self@.services,
    {
        &self.services
    }

    /// The action that the run waits to see answered.
    pub fn awaited_action(&self) -> (action: Action)
        ensures
            self@.wf(),
            action@ == awaited(self@),
    {
        proof {
            use_type_invariant(self);
        }
        match self.phase {
            Phase::Init => Action::ReadSecret { variable: String::from_str("TG_SECRET") },
            Phase::WarmingUp => Action::Sleep { seconds: WARM_UP_SECONDS },
            Phase::Discovering => {
                let source = &self.sources[self.cursor];
                assert(sources_view(self.sources@)[self.cursor as int] == source@);
                Action::Fetch { label: source.label.clone(), url: source.base_url.clone() }
            },
            Phase::Binding => {
                let service = self.services.service(self.cursor);
                match &self.pending {
                    None => Action::ReadCredential {
                        service: service.name.clone(),
                        variable: token_variable_for(service.name.as_str()),
                    },
                    Some(credential) => Action::Post(
                        bind_request(service, credential, self.shared_secret.as_str()),
                    ),
                }
            },
            Phase::Done => if self.aborted {
                Action::Abort
            } else {
                Action::Finish
            },
        }
    }

    /// Takes in `event` and says what to do next. The event that answers the
    /// awaited action moves the run on; any other event changes nothing,
    /// and the awaited action is asked again.
    pub fn step(self, event: Event) -> (next: (Orchestrator, Step))
        ensures
            self@.wf(),
            next.0@ == transition(self@, event@).0,
            next.0@.wf(),
            reports_view(next.1.reports@) == transition(self@, event@).1,
            next.1.action@ == awaited(next.0@),
    {
        proof {
            use_type_invariant(&self);
        }
        let (run, reports) = self.advance(event);
        let action = run.awaited_action();
        (run, Step { reports, action })
    }

    /// The state that follows on `event`, with what there is to report.
    fn advance(self, event: Event) -> (next: (Orchestrator, Vec<Report>))
        ensures
            next.0@ == transition(self@, event@).0,
            reports_view(next.1@) == transition(self@, event@).1,
    {
        proof {
            use_type_invariant(&self);
        }
        let ghost before = self@;
        let Orchestrator {
            table,
            sources,
            phase,
            aborted,
            shared_secret,
            cursor,
            pending,
            mut services,
        } = self;
        match (phase, event) {
            (Phase::Init, Event::Secret(value)) => {
                let secret = match value {
                    Some(secret) => if secret.as_str().is_empty() {
                        None
                    } else {
                        Some(secret)
                    },
                    None => None,
                };
                let run = match secret {
                    Some(secret) => Orchestrator {
                        table,
                        sources,
                        phase: Phase::WarmingUp,
                        aborted,
                        shared_secret: secret,
                        cursor,
                        pending,
                        services,
                    },
                    None => Orchestrator {
                        table,
                        sources,
                        phase: Phase::Done,
                        aborted: true,
                        shared_secret,
                        cursor,
                        pending,
                        services,
                    },
                };
                let reports: Vec<Report> = Vec::new();
                assert(reports_view(reports@) =~= Seq::empty());
                (run, reports)
            },
            (Phase::WarmingUp, Event::WarmedUp) => {
                let reports: Vec<Report> = Vec::new();
                assert(reports_view(reports@) =~= Seq::empty());
                Self::discover_from(table, sources, shared_secret, services, 0, reports)
            },
            (Phase::Discovering, Event::SourceReplied(reply)) => {
                let mut reports: Vec<Report> = Vec::new();
                assert(reports_view(reports@) =~= Seq::empty());
                let asked: usize = sources.len();
                assert(cursor < asked);
                assert(sources_view(sources@)[cursor as int] == sources@[cursor as int]@);
                match absorb_reply(&table, &mut services, &reply) {
                    Ok(()) => {},
                    Err(error) => {
                        reports.push(
                            Report::SourceSkipped {
                                label: sources[cursor].label.clone(),
                                url: sources[cursor].base_url.clone(),
                                error,
                            },
                        );
                        assert(reports_view(reports@) =~= seq![
                            ReportView::SourceSkipped {
                                label: before.sources[before.cursor].label,
                                url: before.sources[before.cursor].base_url,
                                error: error@,
                            },
                        ]);
                    },
                }
                Self::discover_from(table, sources, shared_secret, services, cursor + 1, reports)
            },
            (Phase::Binding, Event::Credential(value)) => {
                let reports: Vec<Report> = Vec::new();
                assert(reports_view(reports@) =~= Seq::empty());
                if pending.is_some() {
                    (
                        Orchestrator {
                            table,
                            sources,
                            phase,
                            aborted,
                            shared_secret,
                            cursor,
                            pending,
                            services,
                        },
                        reports,
                    )
                } else {
                    let found: usize = services.len();
                    assert(cursor < found);
                    let name = services.service(cursor).name.clone();
                    match resolve_token(name.as_str(), value) {
                        Some(credential) => (
                            Orchestrator {
                                table,
                                sources,
                                phase,
                                aborted,
                                shared_secret,
                                cursor,
                                pending: Some(credential),
                                services,
                            },
                            reports,
                        ),
                        None => {
                            let mut reports = reports;
                            reports.push(Report::ServiceSkipped { service: name });
                            assert(reports_view(reports@) =~= seq![
                                ReportView::ServiceSkipped {
                                    service: before.current_service().name,
                                },
                            ]);
                            (
                                Self::bind_from(
                                    table,
                                    sources,
                                    shared_secret,
                                    services,
                                    cursor + 1,
                                ),
                                reports,
                            )
                        },
                    }
                }
            },
            (Phase::Binding, Event::PlatformReplied(reply)) => {
                let mut reports: Vec<Report> = Vec::new();
                assert(reports_view(reports@) =~= Seq::empty());
                if pending.is_none() {
                    (
                        Orchestrator {
                            table,
                            sources,
                            phase,
                            aborted,
                            shared_secret,
                            cursor,
                            pending,
                            services,
                        },
                        reports,
                    )
                } else {
                    let found: usize = services.len();
                    assert(cursor < found);
                    let outcome = bind_outcome(services.service(cursor), &reply);
                    reports.push(Report::Bound(outcome));
                    assert(reports_view(reports@) =~= seq![
                        ReportView::Bound(outcome_of(before.current_service(), reply@)),
                    ]);
                    (
                        Self::bind_from(table, sources, shared_secret, services, cursor + 1),
                        reports,
                    )
                }
            },
            (phase, _) => {
                let reports: Vec<Report> = Vec::new();
                assert(reports_view(reports@) =~= Seq::empty());
                (
                    Orchestrator {
                        table,
                        sources,
                        phase,
                        aborted,
                        shared_secret,
                        cursor,
                        pending,
                        services,
                    },
                    reports,
                )
            },
        }
    }

    /// Turns to the first source from `from` on whose URL is valid, with a
    /// report for each source passed over, or to binding where none is left.
    fn discover_from(
        table: PortTable,
        sources: Vec<TunnelSource>,
        shared_secret: String,
        services: ServiceMap,
        from: usize,
        reports: Vec<Report>,
    ) -> (next: (Orchestrator, Vec<Report>))
        requires
            from <= sources@.len(),
        ensures
            next.0@ == discovering_from(
                RunView {
                    table: table@,
                    sources: sources_view(sources@),
                    phase: Phase::Discovering,
                    aborted: false,
                    shared_secret: shared_secret@,
                    cursor: from as int,
                    pending: None,
                    services: services@,
                },
                from as int,
            ),
            reports_view(next.1@) == reports_view(reports@) + invalid_reports(
                sources_view(sources@),
                from as int,
                next_valid(sources_view(sources@), from as int),
            ),
    {
        let ghost views = sources_view(sources@);
        let ghost given = reports_view(reports@);
        let mut reports = reports;
        let mut i: usize = from;
        assert(invalid_reports(views, from as int, from as int) =~= Seq::empty());
        assert(given + Seq::<ReportView>::empty() =~= given);
        while i < sources.len() && !url_parses(sources[i].base_url.as_str())
            invariant
                from <= i <= sources.len(),
                views == sources_view(sources@),
                next_valid(views, from as int) == next_valid(views, i as int),
                reports_view(reports@) == given + invalid_reports(views, from as int, i as int),
            decreases sources.len() - i,
        {
            assert(views[i as int] == sources@[i as int]@);
            let ghost held = reports_view(reports@);
            reports.push(
                Report::SourceSkipped {
                    label: sources[i].label.clone(),
                    url: sources[i].base_url.clone(),
                    error: DiscoveryError::InvalidUrl,
                },
            );
            assert(reports_view(reports@) =~= held.push(
                ReportView::SourceSkipped {
                    label: views[i as int].label,
                    url: views[i as int].base_url,
                    error: DiscoveryErrorView::InvalidUrl,
                },
            ));
            assert(reports_view(reports@) =~= given + invalid_reports(
                views,
                from as int,
                i + 1,
            ));
            i = i + 1;
        }
        if i < sources.len() {
            assert(views[i as int] == sources@[i as int]@);
            (
                Orchestrator {
                    table,
                    sources,
                    phase: Phase::Discovering,
                    aborted: false,
                    shared_secret,
                    cursor: i,
                    pending: None,
                    services,
                },
                reports,
            )
        } else {
            (Self::bind_from(table, sources, shared_secret, services, 0), reports)
        }
    }

    /// Turns to the service at `at`, or ends the run where none is left.
    fn bind_from(
        table: PortTable,
        sources: Vec<TunnelSource>,
        shared_secret: String,
        services: ServiceMap,
        at: usize,
    ) -> (next: Orchestrator)
        ensures
            next@.table == table@,
            next@.sources == sources_view(sources@),
            next@.aborted == false,
            next@.shared_secret == shared_secret@,
            next@.pending is None,
            next@.services == services@,
            at < services@.order.len() ==> next@.phase == Phase::Binding && next@.cursor == at,
            at >= services@.order.len() ==> next@.phase == Phase::Done && next@.cursor == 0,
    {
        if at < services.len() {
            let _ = services.service(at);
            Orchestrator {
                table,
                sources,
                phase: Phase::Binding,
                aborted: false,
                shared_secret,
                cursor: at,
                pending: None,
                services,
            }
        } else {
            Orchestrator {
                table,
                sources,
                phase: Phase::Done,
                aborted: false,
                shared_secret,
                cursor: 0,
                pending: None,
                services,
            }
        }
    }
}

} // verus!
