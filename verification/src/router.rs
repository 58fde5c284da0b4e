//! Routing: which registered services a message goes to, and the
//! decisions of one routing run (store, list, deliver to each match).
use vstd::prelude::*;

use crate::error::BmsgError;
use crate::message::{field_matches, Message, Target};
use crate::registry::{RegisteredService, ServiceView};
use crate::text::{lemma_contains_text_deep, lemma_filter_push, list_contains, wildcard};

verus! {

/// A service's platform list accepts a platform when it names it or `*`.
pub open spec fn platform_accepts(platforms: Seq<Seq<char>>, platform: Seq<char>) -> bool {
    platforms.contains(platform) || platforms.contains(wildcard())
}

/// Whether a service receives messages for the target: its platforms accept
/// the target's platform and its package is the target's or `*`.
pub open spec fn accepts(svc: ServiceView, target: Target) -> bool {
    &&& platform_accepts(svc.platforms, target.platform@)
    &&& field_matches(svc.app_package, target.app_package@)
}

/// The predicate "receives messages for `target`".
pub open spec fn accepts_target(target: Target) -> spec_fn(ServiceView) -> bool {
    |s: ServiceView| accepts(s, target)
}

/// Whether the service receives messages for the target.
pub fn service_accepts(svc: &RegisteredService, target: &Target) -> (r: bool)
    ensures
        r == accepts(svc@, *target),
{
    let platform_match = list_contains(&svc.platforms, target.platform.as_str())
        || list_contains(&svc.platforms, "*");
    let app_match = crate::text::is_wildcard(svc.app_package.as_str()) || crate::text::str_eq(
        svc.app_package.as_str(),
        target.app_package.as_str(),
    );
    proof {
        reveal_strlit("*");
        assert("*"@ =~= wildcard());
        lemma_contains_text_deep(svc.platforms, target.platform@);
        lemma_contains_text_deep(svc.platforms, wildcard());
    }
    platform_match && app_match
}

/// The services that receive messages for the target, in their order.
pub fn match_services(target: &Target, services: &Vec<RegisteredService>) -> (r: Vec<
    RegisteredService,
>)
    ensures
        r.deep_view() == services.deep_view().filter(accepts_target(*target)),
{
    let ghost pred = accepts_target(*target);
    let mut r: Vec<RegisteredService> = Vec::new();
    let mut i: usize = 0;
    while i < services.len()
        invariant
            i <= services@.len(),
            pred == accepts_target(*target),
            r.deep_view() == services.deep_view().take(i as int).filter(pred),
        decreases services.len() - i,
    {
        let ghost before = r.deep_view();
        let svc = &services[i];
        proof {
            lemma_filter_push(services.deep_view().take(i as int), pred, svc@);
            assert(services.deep_view().take(i + 1) == services.deep_view().take(i as int).push(
                svc@,
            ));
        }
        if service_accepts(svc, target) {
            let c = svc.clone();
            r.push(c);
            assert(r.deep_view() =~= before.push(svc@));
        }
        i = i + 1;
    }
    assert(services.deep_view().take(services@.len() as int) == services.deep_view());
    r
}

/// Matching once more keeps every matched service: the match is idempotent.
pub proof fn lemma_match_idempotent(target: Target, services: Seq<ServiceView>)
    ensures
        services.filter(accepts_target(target)).filter(accepts_target(target)) == services.filter(
            accepts_target(target),
        ),
    decreases services.len(),
{
    let p = accepts_target(target);
    if services.len() > 0 {
        let init = services.drop_last();
        lemma_match_idempotent(target, init);
        assert(services == init.push(services.last()));
        lemma_filter_push(init, p, services.last());
        if p(services.last()) {
            lemma_filter_push(init.filter(p), p, services.last());
        }
    } else {
        reveal(Seq::filter);
        assert(services.filter(p) =~= services);
    }
}

/// Every matched service accepts the target, and every service that accepts
/// the target is matched.
pub proof fn lemma_match_exact(target: Target, services: Seq<ServiceView>, s: ServiceView)
    ensures
        services.filter(accepts_target(target)).contains(s) <==> (services.contains(s) && accepts(
            s,
            target,
        )),
{
    let p = accepts_target(target);
    if services.filter(p).contains(s) {
        services.lemma_filter_contains_rev(p, s);
        let j = choose|j: int| 0 <= j < services.filter(p).len() && services.filter(p)[j] == s;
        services.lemma_filter_pred(p, j);
    }
    if services.contains(s) && accepts(s, target) {
        let i = choose|i: int| 0 <= i < services.len() && services[i] == s;
        services.lemma_filter_contains(p, i);
    }
}

/// A delivery that failed.
#[derive(Debug)]
pub struct RouteFailure {
    pub service_id: String,
    pub endpoint: String,
    pub error: String,
}

/// The model of a failed delivery.
pub struct RouteFailureView {
    pub service_id: Seq<char>,
    pub endpoint: Seq<char>,
    pub error: Seq<char>,
}

impl View for RouteFailure {
    type V = RouteFailureView;

    open spec fn view(&self) -> RouteFailureView {
        RouteFailureView {
            service_id: self.service_id@,
            endpoint: self.endpoint@,
            error: self.error@,
        }
    }
}

impl DeepView for RouteFailure {
    type V = RouteFailureView;

    open spec fn deep_view(&self) -> RouteFailureView {
        self@
    }
}

/// The outcome of routing one message.
#[derive(Debug)]
pub struct RouteResult {
    pub message_id: String,
    pub delivered: Vec<String>,
    pub failed: Vec<RouteFailure>,
    pub stored: bool,
}

/// The outcome of one delivery: `None` when it succeeded, else the error text.
pub type DeliveryOutcome = Option<Seq<char>>;

/// The ids of the matched services whose delivery succeeded, in order.
pub open spec fn delivered_ids(matched: Seq<ServiceView>, outcomes: Seq<DeliveryOutcome>) -> Seq<
    Seq<char>,
>
    decreases outcomes.len(),
{
    if outcomes.len() == 0 {
        Seq::empty()
    } else {
        let k = outcomes.len() - 1;
        let before = delivered_ids(matched, outcomes.drop_last());
        match outcomes[k] {
            None => before.push(matched[k].id),
            Some(_) => before,
        }
    }
}

/// The failed deliveries, in order, each with its service and error text.
pub open spec fn failures(matched: Seq<ServiceView>, outcomes: Seq<DeliveryOutcome>) -> Seq<
    RouteFailureView,
>
    decreases outcomes.len(),
{
    if outcomes.len() == 0 {
        Seq::empty()
    } else {
        let k = outcomes.len() - 1;
        let before = failures(matched, outcomes.drop_last());
        match outcomes[k] {
            None => before,
            Some(e) => before.push(
                RouteFailureView { service_id: matched[k].id, endpoint: matched[k].endpoint, error: e },
            ),
        }
    }
}

/// Every delivery is counted once: as delivered or as failed.
pub proof fn lemma_outcomes_partition(matched: Seq<ServiceView>, outcomes: Seq<DeliveryOutcome>)
    ensures
        delivered_ids(matched, outcomes).len() + failures(matched, outcomes).len() == outcomes.len(),
    decreases outcomes.len(),
{
    if outcomes.len() > 0 {
        lemma_outcomes_partition(matched, outcomes.drop_last());
    }
}

/// The position of the successful delivery that the `j`-th delivered entry
/// stands for.
proof fn lemma_delivered_entry(matched: Seq<ServiceView>, outcomes: Seq<DeliveryOutcome>, j: int) -> (k: int)
    requires
        0 <= j < delivered_ids(matched, outcomes).len(),
    ensures
        0 <= k < outcomes.len(),
        outcomes[k] is None,
        delivered_ids(matched, outcomes)[j] == matched[k].id,
    decreases outcomes.len(),
{
    if outcomes.len() == 0 {
        assert(false);
        0
    } else {
        let init = outcomes.drop_last();
        let n = outcomes.len() - 1;
        let d0 = delivered_ids(matched, init);
        if j < d0.len() {
            let k = lemma_delivered_entry(matched, init, j);
            assert(outcomes[k] == init[k]);
            k
        } else {
            n
        }
    }
}

/// The `j`-th delivered entry is the id of a matched service whose delivery
/// succeeded.
pub open spec fn delivered_from_success(
    matched: Seq<ServiceView>,
    outcomes: Seq<DeliveryOutcome>,
    j: int,
) -> bool {
    exists|k: int|
        0 <= k < outcomes.len() && #[trigger] outcomes[k] is None && delivered_ids(matched, outcomes)[j]
            == matched[k].id
}

/// Every delivered entry is the id of a matched service whose delivery
/// succeeded.
pub proof fn lemma_delivered_are_ids(matched: Seq<ServiceView>, outcomes: Seq<DeliveryOutcome>)
    ensures
        forall|j: int|
            0 <= j < delivered_ids(matched, outcomes).len() ==> #[trigger] delivered_from_success(
                matched,
                outcomes,
                j,
            ),
{
    assert forall|j: int| 0 <= j < delivered_ids(matched, outcomes).len() implies #[trigger] delivered_from_success(
        matched,
        outcomes,
        j,
    ) by {
        let k = lemma_delivered_entry(matched, outcomes, j);
        assert(outcomes[k] is None);
    }
}

/// The id of every matched service whose delivery succeeded is delivered.
pub proof fn lemma_successes_are_delivered(matched: Seq<ServiceView>, outcomes: Seq<DeliveryOutcome>)
    ensures
        forall|k: int|
            0 <= k < outcomes.len() && #[trigger] outcomes[k] is None ==> delivered_ids(
                matched,
                outcomes,
            ).contains(matched[k].id),
    decreases outcomes.len(),
{
    if outcomes.len() > 0 {
        let init = outcomes.drop_last();
        lemma_successes_are_delivered(matched, init);
        let d0 = delivered_ids(matched, init);
        let d = delivered_ids(matched, outcomes);
        let n = outcomes.len() - 1;
        assert forall|k: int| 0 <= k < outcomes.len() && #[trigger] outcomes[k] is None implies d.contains(
            matched[k].id,
        ) by {
            if k < n {
                assert(init[k] == outcomes[k]);
                assert(d0.contains(matched[k].id));
                let j = choose|j: int| 0 <= j < d0.len() && d0[j] == matched[k].id;
                assert(d[j] == d0[j]);
            } else {
                assert(d[d.len() - 1] == matched[k].id);
            }
        }
    }
}

/// The position of the failed delivery that the `j`-th failure stands for.
proof fn lemma_failure_entry(matched: Seq<ServiceView>, outcomes: Seq<DeliveryOutcome>, j: int) -> (k: int)
    requires
        0 <= j < failures(matched, outcomes).len(),
    ensures
        0 <= k < outcomes.len(),
        outcomes[k] == Some(failures(matched, outcomes)[j].error),
        failures(matched, outcomes)[j].service_id == matched[k].id,
        failures(matched, outcomes)[j].endpoint == matched[k].endpoint,
    decreases outcomes.len(),
{
    if outcomes.len() == 0 {
        assert(false);
        0
    } else {
        let init = outcomes.drop_last();
        let n = outcomes.len() - 1;
        let f0 = failures(matched, init);
        if j < f0.len() {
            let k = lemma_failure_entry(matched, init, j);
            assert(outcomes[k] == init[k]);
            k
        } else {
            n
        }
    }
}

/// Every failure names a matched service whose delivery failed, by its id
/// and endpoint, with that delivery's error text.
pub proof fn lemma_failures_are_matched(matched: Seq<ServiceView>, outcomes: Seq<DeliveryOutcome>)
    ensures
        forall|j: int|
            #![trigger failures(matched, outcomes)[j]]
            0 <= j < failures(matched, outcomes).len() ==> exists|k: int|
                #![trigger matched[k]]
                0 <= k < outcomes.len() && outcomes[k] == Some(failures(matched, outcomes)[j].error)
                    && failures(matched, outcomes)[j].service_id == matched[k].id && failures(
                    matched,
                    outcomes,
                )[j].endpoint == matched[k].endpoint,
{
    assert forall|j: int|
        #![trigger failures(matched, outcomes)[j]]
        0 <= j < failures(matched, outcomes).len() implies exists|k: int|
            #![trigger matched[k]]
            0 <= k < outcomes.len() && outcomes[k] == Some(failures(matched, outcomes)[j].error)
                && failures(matched, outcomes)[j].service_id == matched[k].id && failures(
                matched,
                outcomes,
            )[j].endpoint == matched[k].endpoint by {
        let k = lemma_failure_entry(matched, outcomes, j);
        assert(matched[k].id == failures(matched, outcomes)[j].service_id);
    }
}

/// What a routing run waits for next.
#[derive(Debug, Clone, Copy, PartialEq, Eq, Structural)]
pub enum RouteStep {
    /// Store the message, then report with `on_stored`.
    StoreMessage,
    /// List the registered services, then report with `on_listed`.
    ListServices,
    /// Deliver to the matched service at this position, then report with
    /// `on_delivered`.
    Deliver(usize),
    /// Nothing more: take the result with `finish`.
    Done,
}

/// One routing run of a message: the decisions between the storage, the
/// registry and the deliveries, which the caller performs.
pub struct Routing {
    message_id: String,
    target: Target,
    persist: bool,
    stored: bool,
    matched: Vec<RegisteredService>,
    delivered: Vec<String>,
    failed: Vec<RouteFailure>,
    error: Option<BmsgError>,
    step: RouteStep,
    outcomes: Ghost<Seq<DeliveryOutcome>>,
}

impl Routing {
    pub closed spec fn spec_step(&self) -> RouteStep {
        self.step
    }

    pub closed spec fn spec_persist(&self) -> bool {
        self.persist
    }

    pub closed spec fn spec_stored(&self) -> bool {
        self.stored
    }

    pub closed spec fn spec_message_id(&self) -> Seq<char> {
        self.message_id@
    }

    pub closed spec fn spec_target(&self) -> Target {
        self.target
    }

    /// The services matched once the registry has answered.
    pub closed spec fn spec_matched(&self) -> Seq<ServiceView> {
        self.matched.deep_view()
    }

    /// The outcomes of the deliveries made so far, in order.
    pub closed spec fn spec_outcomes(&self) -> Seq<DeliveryOutcome> {
        self.outcomes@
    }

    /// The error that ended the run early, if any.
    pub closed spec fn spec_error(&self) -> Option<BmsgError> {
        self.error
    }

    /// The consistency of a run.
    pub closed spec fn wf(&self) -> bool {
        &&& self.outcomes@.len() <= self.matched@.len()
        &&& self.delivered.deep_view() == delivered_ids(self.matched.deep_view(), self.outcomes@)
        &&& self.failed.deep_view() == failures(self.matched.deep_view(), self.outcomes@)
        &&& match self.step {
            RouteStep::StoreMessage => {
                &&& self.persist && !self.stored
                &&& self.error is None
                &&& self.matched@.len() == 0
            },
            RouteStep::ListServices => {
                &&& self.stored == self.persist
                &&& self.error is None
                &&& self.matched@.len() == 0
            },
            RouteStep::Deliver(i) => {
                &&& self.stored == self.persist
                &&& self.error is None
                &&& i == self.outcomes@.len()
                &&& i < self.matched@.len()
            },
            RouteStep::Done => self.error is None ==> {
                &&& self.stored == self.persist
                &&& self.outcomes@.len() == self.matched@.len()
            },
        }
    }

    /// Starts routing a message: it is stored first when it asks to be,
    /// otherwise the registry is asked for its services at once.
    pub fn start(msg: &Message) -> (r: Routing)
        ensures
            r.wf(),
            r.spec_step() == (if msg.persist {
                RouteStep::StoreMessage
            } else {
                RouteStep::ListServices
            }),
            r.spec_persist() == msg.persist,
            !r.spec_stored(),
            r.spec_message_id() == msg.id@,
            r.spec_target() == msg.target,
            r.spec_outcomes().len() == 0,
            r.spec_matched().len() == 0,
            r.spec_error() is None,
    {
        let r = Routing {
            message_id: msg.id.clone(),
            target: msg.target.clone(),
            persist: msg.persist,
            stored: false,
            matched: Vec::new(),
            delivered: Vec::new(),
            failed: Vec::new(),
            error: None,
            step: if msg.persist {
                RouteStep::StoreMessage
            } else {
                RouteStep::ListServices
            },
            outcomes: Ghost(Seq::empty()),
        };
        proof {
            assert(r.delivered.deep_view() =~= Seq::<Seq<char>>::empty());
            assert(r.failed.deep_view() =~= Seq::<RouteFailureView>::empty());
        }
        r
    }

    /// What the run waits for next.
    pub fn step(&self) -> (s: RouteStep)
        ensures
            s == self.spec_step(),
    {
        self.step
    }

    /// The service to deliver to now.
    pub fn current_service(&self) -> (s: &RegisteredService)
        requires
            self.wf(),
            self.spec_step() is Deliver,
        ensures
            s@ == self.spec_matched()[self.spec_outcomes().len() as int],
    {
        match self.step {
            RouteStep::Deliver(i) => &self.matched[i],
            _ => &self.matched[0],
        }
    }

    /// Reports the storage of the message: on success the registry is asked
    /// next; a failure ends the run with that error.
    pub fn on_stored(&mut self, r: Result<(), BmsgError>)
        requires
            old(self).wf(),
            old(self).spec_step() == RouteStep::StoreMessage,
        ensures
            final(self).wf(),
            final(self).spec_persist() == old(self).spec_persist(),
            final(self).spec_message_id() == old(self).spec_message_id(),
            final(self).spec_target() == old(self).spec_target(),
            final(self).spec_outcomes() == old(self).spec_outcomes(),
            final(self).spec_matched() == old(self).spec_matched(),
            match r {
                Ok(_) => {
                    &&& final(self).spec_step() == RouteStep::ListServices
                    &&& final(self).spec_stored()
                    &&& final(self).spec_error() is None
                },
                Err(e) => {
                    &&& final(self).spec_step() == RouteStep::Done
                    &&& !final(self).spec_stored()
                    &&& final(self).spec_error() == Some(e)
                },
            },
    {
        match r {
            Ok(_) => {
                self.stored = true;
                self.step = RouteStep::ListServices;
            },
            Err(e) => {
                self.error = Some(e);
                self.step = RouteStep::Done;
            },
        }
    }

    /// Reports the registry's list of services: the matching ones are
    /// delivered to in order; a failure ends the run with that error.
    pub fn on_listed(&mut self, r: Result<Vec<RegisteredService>, BmsgError>)
        requires
            old(self).wf(),
            old(self).spec_step() == RouteStep::ListServices,
        ensures
            final(self).wf(),
            final(self).spec_persist() == old(self).spec_persist(),
            final(self).spec_stored() == old(self).spec_stored(),
            final(self).spec_message_id() == old(self).spec_message_id(),
            final(self).spec_target() == old(self).spec_target(),
            final(self).spec_outcomes() == old(self).spec_outcomes(),
            match r {
                Ok(services) => {
                    &&& final(self).spec_matched() == services.deep_view().filter(
                        accepts_target(old(self).spec_target()),
                    )
                    &&& final(self).spec_error() is None
                    &&& final(self).spec_step() == if final(self).spec_matched().len() == 0 {
                        RouteStep::Done
                    } else {
                        RouteStep::Deliver(0)
                    }
                },
                Err(e) => {
                    &&& final(self).spec_step() == RouteStep::Done
                    &&& final(self).spec_error() == Some(e)
                    &&& final(self).spec_matched() == old(self).spec_matched()
                },
            },
    {
        match r {
            Ok(services) => {
                let matched = match_services(&self.target, &services);
                self.step = if matched.len() == 0 {
                    RouteStep::Done
                } else {
                    RouteStep::Deliver(0)
                };
                self.matched = matched;
            },
            Err(e) => {
                self.error = Some(e);
                self.step = RouteStep::Done;
            },
        }
    }

    /// Reports the delivery to the current service: it is counted as
    /// delivered or as failed (with the error's text), and the next matched
    /// service is due, if any.
    pub fn on_delivered(&mut self, r: Result<(), BmsgError>)
        requires
            old(self).wf(),
            old(self).spec_step() is Deliver,
        ensures
            final(self).wf(),
            final(self).spec_persist() == old(self).spec_persist(),
            final(self).spec_stored() == old(self).spec_stored(),
            final(self).spec_message_id() == old(self).spec_message_id(),
            final(self).spec_target() == old(self).spec_target(),
            final(self).spec_matched() == old(self).spec_matched(),
            final(self).spec_error() is None,
            final(self).spec_outcomes() == old(self).spec_outcomes().push(
                match r {
                    Ok(_) => None,
                    Err(e) => Some(e.spec_text()),
                },
            ),
            final(self).spec_step() == if final(self).spec_outcomes().len()
                < final(self).spec_matched().len() {
                RouteStep::Deliver(final(self).spec_outcomes().len() as usize)
            } else {
                RouteStep::Done
            },
    {
        let i = match self.step {
            RouteStep::Deliver(i) => i,
            _ => 0,
        };
        let ghost old_outcomes = self.outcomes@;
        let ghost matched = self.matched.deep_view();
        let ghost outcome: DeliveryOutcome = match &r {
            Ok(_) => None,
            Err(e) => Some(e.spec_text()),
        };
        let ghost before_delivered = self.delivered.deep_view();
        let ghost before_failed = self.failed.deep_view();
        match r {
            Ok(_) => {
                let id = self.matched[i].id.clone();
                self.delivered.push(id);
                assert(self.delivered.deep_view() =~= before_delivered.push(matched[i as int].id));
                assert(self.failed.deep_view() == before_failed);
            },
            Err(e) => {
                let failure = RouteFailure {
                    service_id: self.matched[i].id.clone(),
                    endpoint: self.matched[i].endpoint.clone(),
                    error: e.to_string(),
                };
                self.failed.push(failure);
                assert(self.failed.deep_view() =~= before_failed.push(
                    RouteFailureView {
                        service_id: matched[i as int].id,
                        endpoint: matched[i as int].endpoint,
                        error: e.spec_text(),
                    },
                ));
                assert(self.delivered.deep_view() == before_delivered);
            },
        }
        assert(i < self.matched@.len());
        self.outcomes = Ghost(old_outcomes.push(outcome));
        assert(self.outcomes@.drop_last() == old_outcomes);
        let n = self.matched.len();
        assert(i < n);
        self.step = if i + 1 < n {
            RouteStep::Deliver(i + 1)
        } else {
            RouteStep::Done
        };
    }

    /// The result of a finished run: the run's error if it ended early,
    /// otherwise the delivered ids and failures in the order of the matches.
    pub fn finish(self) -> (r: Result<RouteResult, BmsgError>)
        requires
            self.wf(),
            self.spec_step() == RouteStep::Done,
        ensures
            match self.spec_error() {
                Some(e) => r == Err::<RouteResult, BmsgError>(e),
                None => r matches Ok(res) && {
                    &&& res.message_id@ == self.spec_message_id()
                    &&& res.stored == self.spec_persist()
                    &&& res.delivered.deep_view() == delivered_ids(
                        self.spec_matched(),
                        self.spec_outcomes(),
                    )
                    &&& res.failed.deep_view() == failures(
                        self.spec_matched(),
                        self.spec_outcomes(),
                    )
                    &&& self.spec_outcomes().len() == self.spec_matched().len()
                },
            },
    {
        match self.error {
            Some(e) => Err(e),
            None => Ok(
                RouteResult {
                    message_id: self.message_id,
                    delivered: self.delivered,
                    failed: self.failed,
                    stored: self.stored,
                },
            ),
        }
    }
}

} // verus!
