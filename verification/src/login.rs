use crate::session::{
    distinct_names, has_name, lemma_upsert_distinct, pair_views, position_of, upsert, AuthSession,
    AuthSessionView, AuthState, AuthStateView, CookieJar,
};
use crate::clock::utc_now;
use crate::text::{has_prefix, opt_text};
use vstd::prelude::*;
use vstd::string::*;

verus! {

/// The address at which the portal signs a user in.
pub const AUTH_URL: &'static str =
    "https://www.cbc.ca/account/login?returnto=https%3A%2F%2Fwww.cbc.ca%2F&referrer=https%3A%2F%2Fwww.cbc.ca%2F";

/// Where the portal sends a user who has signed in: a login surface that
/// shows an address beginning so has reached the landing page.
pub const LANDING_URL: &'static str = "https://www.cbc.ca/account/landing";

/// The label of the login surface.
pub const AUTH_WINDOW_LABEL: &'static str = "cbc_auth_window";

/// The number of times a login surface is looked at before the login is
/// given up.
pub const MAX_ATTEMPTS: u32 = 600;

/// The time between two looks at the login surface, in milliseconds.
pub const POLL_INTERVAL_MS: u64 = 500;

/// The time for which a session lasts, in seconds.
pub const SESSION_LIFETIME_SECS: i64 = 86400;

/// What the host is told when cookies could not be had from the landing
/// page.
pub const NO_COOKIES_MESSAGE: &'static str = "Failed to extract session cookies";

/// Where a login stands. Before a surface is watched there is no monitor:
/// the login is idle. While the surface is watched the login is polling;
/// each of the other four phases ends it.
#[derive(Clone, Copy, Debug, PartialEq, Eq)]
pub enum LoginPhase {
    /// The surface is being watched.
    Polling,
    /// The landing page was reached and brought cookies.
    Success,
    /// The surface was closed before the landing page was reached.
    Cancelled,
    /// The landing page was reached and brought no cookie.
    ErrorNoCookies,
    /// The landing page was not reached in time.
    TimedOut,
}

/// How a login ended. The host is told of it once.
#[derive(Debug)]
pub enum LoginOutcome {
    /// The user signed in; this is the session.
    Success(AuthSession),
    /// The user closed the surface.
    Cancelled,
    /// The login failed; the text says why.
    Error(String),
    /// The user did not sign in in time.
    Timeout,
}

/// What a `LoginOutcome` holds.
pub enum OutcomeView {
    Success(AuthSessionView),
    Cancelled,
    Error(Seq<char>),
    Timeout,
}

impl View for LoginOutcome {
    type V = OutcomeView;

    open spec fn view(&self) -> OutcomeView {
        match *self {
            LoginOutcome::Success(session) => OutcomeView::Success(session@),
            LoginOutcome::Cancelled => OutcomeView::Cancelled,
            LoginOutcome::Error(why) => OutcomeView::Error(why@),
            LoginOutcome::Timeout => OutcomeView::Timeout,
        }
    }
}

impl LoginOutcome {
    /// The name of the event that tells the host of this outcome.
    pub open spec fn event_name_text(self) -> Seq<char> {
        match self {
            LoginOutcome::Success(_) => "cbc-auth-success"@,
            LoginOutcome::Cancelled => "cbc-auth-cancelled"@,
            LoginOutcome::Error(_) => "cbc-auth-error"@,
            LoginOutcome::Timeout => "cbc-auth-timeout"@,
        }
    }

    /// The name of the event that tells the host of this outcome.
    pub fn event_name(&self) -> (name: &'static str)
        ensures
            name@ == self.event_name_text(),
    {
        match self {
            LoginOutcome::Success(_) => "cbc-auth-success",
            LoginOutcome::Cancelled => "cbc-auth-cancelled",
            LoginOutcome::Error(_) => "cbc-auth-error",
            LoginOutcome::Timeout => "cbc-auth-timeout",
        }
    }
}

/// What one look at the login surface found.
#[derive(Debug)]
pub enum Observation {
    /// The surface is gone.
    Gone,
    /// The surface is there; the address that it shows could not be read.
    Unreadable,
    /// The surface shows `url`. `cookies` are the cookies that it holds for
    /// that address, each a name and a value, or nothing where they were
    /// not read.
    Showing { url: String, cookies: Option<Vec<(String, String)>> },
}

/// What an `Observation` holds.
pub enum ObservationView {
    Gone,
    Unreadable,
    Showing { url: Seq<char>, cookies: Option<Seq<(Seq<char>, Seq<char>)>> },
}

impl View for Observation {
    type V = ObservationView;

    open spec fn view(&self) -> ObservationView {
        match *self {
            Observation::Gone => ObservationView::Gone,
            Observation::Unreadable => ObservationView::Unreadable,
            Observation::Showing { url, cookies } => ObservationView::Showing {
                url: url@,
                cookies: match cookies {
                    Some(raw) => Some(pair_views(raw@)),
                    None => None,
                },
            },
        }
    }
}

/// What the caller is to do after a look at the login surface.
#[derive(Debug)]
pub enum PollAction {
    /// Wait for `POLL_INTERVAL_MS`, then look again.
    Wait,
    /// The login is over. Close the surface if `close_surface` says so and
    /// it is still there, then tell the host of `outcome`.
    Finish { close_surface: bool, outcome: LoginOutcome },
    /// The login was over before this look: there is nothing to do.
    Stopped,
}

/// What a `PollAction` holds.
pub enum ActionView {
    Wait,
    Finish { close_surface: bool, outcome: OutcomeView },
    Stopped,
}

impl View for PollAction {
    type V = ActionView;

    open spec fn view(&self) -> ActionView {
        match *self {
            PollAction::Wait => ActionView::Wait,
            PollAction::Finish { close_surface, outcome } => ActionView::Finish {
                close_surface,
                outcome: outcome@,
            },
            PollAction::Stopped => ActionView::Stopped,
        }
    }
}

/// The watch over one login surface.
pub struct LoginMonitor {
    label: String,
    phase: LoginPhase,
    attempts: u32,
}

/// What a `LoginMonitor` holds: the label of the surface, the phase of the
/// login, and the number of looks that have left it polling.
pub struct MonitorView {
    pub label: Seq<char>,
    pub phase: LoginPhase,
    pub attempts: nat,
}

impl View for LoginMonitor {
    type V = MonitorView;

    closed spec fn view(&self) -> MonitorView {
        MonitorView { label: self.label@, phase: self.phase, attempts: self.attempts as nat }
    }
}

/// How a login is to begin.
#[derive(Debug)]
pub enum LoginStart {
    /// A login surface is open already: bring it to the front.
    Refocus { label: String },
    /// Open a login surface with this label at this address.
    Open { label: String, url: String },
}

/// What a `LoginStart` holds.
pub enum StartView {
    Refocus { label: Seq<char> },
    Open { label: Seq<char>, url: Seq<char> },
}

impl View for LoginStart {
    type V = StartView;

    open spec fn view(&self) -> StartView {
        match *self {
            LoginStart::Refocus { label } => StartView::Refocus { label: label@ },
            LoginStart::Open { label, url } => StartView::Open { label: label@, url: url@ },
        }
    }
}

/// Whether an address is one of the landing page.
pub open spec fn is_landing(url: Seq<char>) -> bool {
    LANDING_URL@.is_prefix_of(url)
}

/// The cookies that a login keeps of those read: the pairs with a name and
/// a value, each given in turn, so that of two pairs with one name the
/// later gives the value.
pub open spec fn collected(raw: Seq<(Seq<char>, Seq<char>)>) -> Seq<(Seq<char>, Seq<char>)>
    decreases raw.len(),
{
    if raw.len() == 0 {
        Seq::empty()
    } else {
        let kept = collected(raw.drop_last());
        let (name, value) = raw.last();
        if name.len() > 0 && value.len() > 0 {
            upsert(kept, name, value)
        } else {
            kept
        }
    }
}

/// The session that a login at the time `now` makes of the cookies kept.
pub open spec fn session_of(cookies: Seq<(Seq<char>, Seq<char>)>, now: i64) -> AuthSessionView {
    AuthSessionView {
        cookies,
        user_id: None,
        expires_at: (now + SESSION_LIFETIME_SECS) as i64,
    }
}

/// The phase that a look ends the login with, if it does: a surface that
/// is gone cancels it; the landing page ends it, well where it brought a
/// cookie and badly where it did not. Any other look decides nothing.
pub open spec fn verdict(seen: ObservationView) -> Option<LoginPhase> {
    match seen {
        ObservationView::Gone => Some(LoginPhase::Cancelled),
        ObservationView::Unreadable => None,
        ObservationView::Showing { url, cookies } => if is_landing(url) {
            match cookies {
                Some(raw) => if collected(raw).len() > 0 {
                    Some(LoginPhase::Success)
                } else {
                    Some(LoginPhase::ErrorNoCookies)
                },
                None => Some(LoginPhase::ErrorNoCookies),
            }
        } else {
            None
        },
    }
}

/// The phase of a polling login after a look, `attempts` looks having
/// left it polling before: what the look decides, and where it decides
/// nothing, timed out after the last look allowed and polling before.
pub open spec fn phase_after(attempts: nat, seen: ObservationView) -> LoginPhase {
    match verdict(seen) {
        Some(phase) => phase,
        None => if attempts + 1 >= MAX_ATTEMPTS {
            LoginPhase::TimedOut
        } else {
            LoginPhase::Polling
        },
    }
}

/// What a look brings about.
pub struct PollView {
    pub monitor: MonitorView,
    pub store: AuthStateView,
    pub action: ActionView,
}

/// What a look at the login surface brings about, at the time `now`. A
/// login that is over stays as it is. A polling login goes to the phase
/// that `phase_after` gives. Where that ends the login, the store loses
/// the surface's label, and on success gains the session.
pub open spec fn poll_step(
    monitor: MonitorView,
    store: AuthStateView,
    seen: ObservationView,
    now: i64,
) -> PollView {
    if monitor.phase != LoginPhase::Polling {
        PollView { monitor, store, action: ActionView::Stopped }
    } else {
        let ended = AuthStateView { login_surface: None, ..store };
        match phase_after(monitor.attempts, seen) {
            LoginPhase::Polling => PollView {
                monitor: MonitorView { attempts: monitor.attempts + 1, ..monitor },
                store,
                action: ActionView::Wait,
            },
            LoginPhase::Success => {
                let session = session_of(collected(seen->cookies->0), now);
                PollView {
                    monitor: MonitorView { phase: LoginPhase::Success, ..monitor },
                    store: AuthStateView { session: Some(session), login_surface: None },
                    action: ActionView::Finish {
                        close_surface: true,
                        outcome: OutcomeView::Success(session),
                    },
                }
            },
            LoginPhase::Cancelled => PollView {
                monitor: MonitorView { phase: LoginPhase::Cancelled, ..monitor },
                store: ended,
                action: ActionView::Finish {
                    close_surface: false,
                    outcome: OutcomeView::Cancelled,
                },
            },
            LoginPhase::ErrorNoCookies => PollView {
                monitor: MonitorView { phase: LoginPhase::ErrorNoCookies, ..monitor },
                store: ended,
                action: ActionView::Finish {
                    close_surface: true,
                    outcome: OutcomeView::Error(NO_COOKIES_MESSAGE@),
                },
            },
            LoginPhase::TimedOut => PollView {
                monitor: MonitorView { phase: LoginPhase::TimedOut, ..monitor },
                store: ended,
                action: ActionView::Finish {
                    close_surface: true,
                    outcome: OutcomeView::Timeout,
                },
            },
        }
    }
}

/// Whether the address `url` is one of the landing page.
pub fn is_landing_url(url: &str) -> (landing: bool)
    ensures
        landing == is_landing(url@),
{
    has_prefix(url, LANDING_URL)
}

/// The cookies that a login keeps of those read from the landing page.
pub fn collect_cookies(raw: Vec<(String, String)>) -> (jar: CookieJar)
    ensures
        jar@ == collected(pair_views(raw@)),
{
    let ghost pairs = pair_views(raw@);
    let mut jar = CookieJar::new();
    for pair in it: raw
        invariant
            it.seq() == raw@,
            pairs == pair_views(raw@),
            jar@ == collected(pairs.take(it.index() as int)),
    {
        proof {
            let more = pairs.take(it.index() + 1);
            assert(more.drop_last() =~= pairs.take(it.index() as int));
            assert(more.last() == (pair.0@, pair.1@));
        }
        if !pair.0.as_str().is_empty() && !pair.1.as_str().is_empty() {
            jar.insert(pair.0, pair.1);
        }
    }
    assert(pairs.take(pairs.len() as int) =~= pairs);
    jar
}

/// How a login is to begin. `surface_alive` says whether the surface that
/// the store names is still there. Where it is, the login that is under
/// way goes on and its surface comes to the front; otherwise a surface is
/// to be opened at the portal's login address.
pub fn start_cbc_auth(state: &AuthState, surface_alive: bool) -> (start: LoginStart)
    ensures
        start@ == match state@.login_surface {
            Some(label) if surface_alive => StartView::Refocus { label },
            _ => StartView::Open { label: AUTH_WINDOW_LABEL@, url: AUTH_URL@ },
        },
{
    match &state.auth_webview_label {
        Some(label) if surface_alive => LoginStart::Refocus { label: label.clone() },
        _ => LoginStart::Open {
            label: String::from_str(AUTH_WINDOW_LABEL),
            url: String::from_str(AUTH_URL),
        },
    }
}

/// Ends the login that is under way, if there is one: the store loses the
/// label of the login surface, and the caller gets it, to close the
/// surface if it is still there.
pub fn cancel_cbc_auth(state: &mut AuthState) -> (label: Option<String>)
    ensures
        opt_text(label) == old(state)@.login_surface,
        final(state)@ == (AuthStateView { login_surface: None, ..old(state)@ }),
{
    state.auth_webview_label.take()
}

impl LoginMonitor {
    /// Begins the watch over the surface that was opened under `label`:
    /// the store takes the label, and the login is polling.
    pub fn watch(state: &mut AuthState, label: String) -> (monitor: Self)
        ensures
            monitor@ == (MonitorView { label: label@, phase: LoginPhase::Polling, attempts: 0 }),
            final(state)@ == (AuthStateView { login_surface: Some(label@), ..old(state)@ }),
    {
        state.auth_webview_label = Some(label.clone());
        LoginMonitor { label, phase: LoginPhase::Polling, attempts: 0 }
    }

    /// The label of the surface that is watched.
    pub fn label(&self) -> (label: &str)
        ensures
            label@ == self@.label,
    {
        self.label.as_str()
    }

    /// The phase of the login.
    pub fn phase(&self) -> (phase: LoginPhase)
        ensures
            phase == self@.phase,
    {
        self.phase
    }

    /// The number of looks that have left the login polling.
    pub fn attempts(&self) -> (attempts: u32)
        ensures
            attempts == self@.attempts,
    {
        self.attempts
    }
}

/// Whether a look takes a login to success: the login is polling, and the
/// look finds the landing page with a cookie to keep. Only such a look
/// makes a session, and so only such a look asks what time it is.
pub open spec fn decides_success(monitor: MonitorView, seen: ObservationView) -> bool {
    monitor.phase == LoginPhase::Polling && verdict(seen) == Some(LoginPhase::Success)
}

/// Whether a look at the time `now` takes the monitor, the store and the
/// caller from the first three values to the last three.
pub open spec fn is_step(
    monitor: MonitorView,
    store: AuthStateView,
    seen: ObservationView,
    now: i64,
    next_monitor: MonitorView,
    next_store: AuthStateView,
    action: ActionView,
) -> bool {
    poll_step(monitor, store, seen, now) == (PollView {
        monitor: next_monitor,
        store: next_store,
        action,
    })
}

/// Takes in one look. The time is `given` where the caller has it, and is
/// read from the system clock, if the look needs it, where not.
fn take_look(
    monitor: &mut LoginMonitor,
    state: &mut AuthState,
    seen: Observation,
    given: Option<i64>,
) -> (action: PollAction)
    requires
        given matches Some(now) ==> (decides_success(old(monitor)@, seen@) ==> now
            + SESSION_LIFETIME_SECS <= i64::MAX),
    ensures
        exists|now: i64| #[trigger]
            is_step(
                old(monitor)@,
                old(state)@,
                seen@,
                now,
                final(monitor)@,
                final(state)@,
                action@,
            ) && (given matches Some(at) ==> now == at) && (decides_success(old(monitor)@, seen@)
                ==> now + SESSION_LIFETIME_SECS <= i64::MAX),
{
    let ghost look = seen@;
    let ghost any: i64 = match given {
        Some(at) => at,
        None => 0,
    };
    match monitor.phase {
        LoginPhase::Polling => {},
        _ => {
            let action = PollAction::Stopped;
            assert(is_step(old(monitor)@, old(state)@, look, any, monitor@, state@, action@));
            return action;
        },
    }
    match seen {
        Observation::Gone => {
            monitor.phase = LoginPhase::Cancelled;
            state.auth_webview_label = None;
            let action = PollAction::Finish {
                close_surface: false,
                outcome: LoginOutcome::Cancelled,
            };
            assert(is_step(old(monitor)@, old(state)@, look, any, monitor@, state@, action@));
            return action;
        },
        Observation::Unreadable => {},
        Observation::Showing { url, cookies } => {
            if is_landing_url(url.as_str()) {
                let jar = match cookies {
                    Some(raw) => collect_cookies(raw),
                    None => CookieJar::new(),
                };
                state.auth_webview_label = None;
                if !jar.is_empty() {
                    let now = match given {
                        Some(at) => at,
                        None => utc_now().secs,
                    };
                    let session = AuthSession {
                        cookies: jar,
                        user_id: None,
                        expires_at: now + SESSION_LIFETIME_SECS,
                    };
                    state.session = Some(session.clone());
                    monitor.phase = LoginPhase::Success;
                    let action = PollAction::Finish {
                        close_surface: true,
                        outcome: LoginOutcome::Success(session),
                    };
                    assert(is_step(
                        old(monitor)@,
                        old(state)@,
                        look,
                        now,
                        monitor@,
                        state@,
                        action@,
                    ));
                    return action;
                }
                monitor.phase = LoginPhase::ErrorNoCookies;
                let action = PollAction::Finish {
                    close_surface: true,
                    outcome: LoginOutcome::Error(String::from_str(NO_COOKIES_MESSAGE)),
                };
                assert(is_step(old(monitor)@, old(state)@, look, any, monitor@, state@, action@));
                return action;
            }
        },
    }
    let action = if monitor.attempts >= MAX_ATTEMPTS - 1 {
        monitor.phase = LoginPhase::TimedOut;
        state.auth_webview_label = None;
        PollAction::Finish { close_surface: true, outcome: LoginOutcome::Timeout }
    } else {
        monitor.attempts = monitor.attempts + 1;
        PollAction::Wait
    };
    assert(is_step(old(monitor)@, old(state)@, look, any, monitor@, state@, action@));
    action
}

/// Takes in one look at the login surface and says what the caller is to
/// do. A look that takes the login to success makes the session at the
/// time that the system clock gives; the clock is read for no other look,
/// and what any other look brings about is the same at every time.
pub fn poll_for_auth_completion(
    monitor: &mut LoginMonitor,
    state: &mut AuthState,
    seen: Observation,
) -> (action: PollAction)
    ensures
        exists|now: i64| #[trigger]
            is_step(
                old(monitor)@,
                old(state)@,
                seen@,
                now,
                final(monitor)@,
                final(state)@,
                action@,
            ) && now + SESSION_LIFETIME_SECS <= i64::MAX,
        !decides_success(old(monitor)@, seen@) ==> forall|now: i64| #[trigger]
            is_step(
                old(monitor)@,
                old(state)@,
                seen@,
                now,
                final(monitor)@,
                final(state)@,
                action@,
            ),
{
    let action = take_look(monitor, state, seen, None);
    proof {
        let used = choose|now: i64| #[trigger]
            is_step(old(monitor)@, old(state)@, seen@, now, monitor@, state@, action@) && (
            decides_success(old(monitor)@, seen@) ==> now + SESSION_LIFETIME_SECS <= i64::MAX);
        if !decides_success(old(monitor)@, seen@) {
            // Any time will do, so one that a session can start at does.
            lemma_only_success_asks_the_time(old(monitor)@, old(state)@, seen@, used, 0);
            assert(is_step(old(monitor)@, old(state)@, seen@, 0, monitor@, state@, action@));
            assert forall|now: i64| #[trigger]
                is_step(old(monitor)@, old(state)@, seen@, now, monitor@, state@, action@) by {
                lemma_only_success_asks_the_time(old(monitor)@, old(state)@, seen@, used, now);
            }
        }
    }
    action
}

/// Takes in one look at the login surface, at the time `now` in seconds
/// since the Unix epoch, and says what the caller is to do. A look that
/// takes the login to success makes a session that ends
/// `SESSION_LIFETIME_SECS` after `now`, so for such a look that time has to
/// be one that the session can hold; any other look is taken in at every
/// time.
pub fn poll_for_auth_completion_at(
    monitor: &mut LoginMonitor,
    state: &mut AuthState,
    seen: Observation,
    now: i64,
) -> (action: PollAction)
    requires
        decides_success(old(monitor)@, seen@) ==> now + SESSION_LIFETIME_SECS <= i64::MAX,
    ensures
        final(monitor)@ == poll_step(old(monitor)@, old(state)@, seen@, now).monitor,
        final(state)@ == poll_step(old(monitor)@, old(state)@, seen@, now).store,
        action@ == poll_step(old(monitor)@, old(state)@, seen@, now).action,
{
    take_look(monitor, state, seen, Some(now))
}

/// What a look brings about depends on the time only where the look takes
/// the login to success.
pub proof fn lemma_only_success_asks_the_time(
    monitor: MonitorView,
    store: AuthStateView,
    seen: ObservationView,
    now: i64,
    other: i64,
)
    requires
        !decides_success(monitor, seen),
    ensures
        poll_step(monitor, store, seen, now) == poll_step(monitor, store, seen, other),
{
}

/// The cookies that a login keeps each have a name and a value, and no two
/// of them have one name.
pub proof fn law_kept_cookies_are_named(raw: Seq<(Seq<char>, Seq<char>)>)
    ensures
        distinct_names(collected(raw)),
        forall|i: int|
            0 <= i < collected(raw).len() ==> (#[trigger] collected(raw)[i]).0.len() > 0
                && collected(raw)[i].1.len() > 0,
    decreases raw.len(),
{
    if raw.len() > 0 {
        let kept = collected(raw.drop_last());
        let (name, value) = raw.last();
        law_kept_cookies_are_named(raw.drop_last());
        if name.len() > 0 && value.len() > 0 {
            lemma_upsert_distinct(kept, name, value);
            let after = upsert(kept, name, value);
            assert forall|i: int| 0 <= i < after.len() implies (#[trigger] after[i]).0.len() > 0
                && after[i].1.len() > 0 by {
                if has_name(kept, name) {
                    if i != position_of(kept, name) {
                        assert(after[i] == kept[i]);
                    }
                } else if i < kept.len() {
                    assert(after[i] == kept[i]);
                }
            }
        }
    }
}

/// A polling login that sees the landing page with a cookie to keep is
/// over with that look, whatever the time: the caller is to close the
/// surface and tell the host of success, the session holds the cookies
/// kept and names no user, the store holds that session and no login
/// surface.
pub proof fn law_landing_look_signs_in(
    monitor: MonitorView,
    store: AuthStateView,
    url: Seq<char>,
    raw: Seq<(Seq<char>, Seq<char>)>,
    now: i64,
)
    requires
        monitor.phase == LoginPhase::Polling,
        is_landing(url),
        collected(raw).len() > 0,
    ensures
        ({
            let seen = ObservationView::Showing { url, cookies: Some(raw) };
            let step = poll_step(monitor, store, seen, now);
            let session = session_of(collected(raw), now);
            &&& decides_success(monitor, seen)
            &&& step.action == (ActionView::Finish {
                close_surface: true,
                outcome: OutcomeView::Success(session),
            })
            &&& session.cookies == collected(raw)
            &&& session.user_id is None
            &&& now + 86400 <= i64::MAX ==> session.expires_at == now + 86400
            &&& step.store == (AuthStateView { session: Some(session), login_surface: None })
            &&& step.monitor.phase == LoginPhase::Success
        }),
{
}

/// A polling login that finds its surface gone is over with that look,
/// whatever the time: the caller is to tell the host of the cancellation
/// and to close nothing, no session is made, and the store holds the
/// session that it held and no login surface.
pub proof fn law_closed_look_cancels(monitor: MonitorView, store: AuthStateView, now: i64)
    requires
        monitor.phase == LoginPhase::Polling,
    ensures
        ({
            let step = poll_step(monitor, store, ObservationView::Gone, now);
            &&& !decides_success(monitor, ObservationView::Gone)
            &&& step.action == (ActionView::Finish {
                close_surface: false,
                outcome: OutcomeView::Cancelled,
            })
            &&& step.store == (AuthStateView { login_surface: None, ..store })
            &&& step.monitor.phase == LoginPhase::Cancelled
        }),
{
}

/// One look at the login surface and the time at which it was taken.
pub struct Look {
    pub seen: ObservationView,
    pub now: i64,
}

/// A login as it stands after some looks: the monitor, the store, and
/// the outcomes that the host has been told of, in order.
pub struct RunView {
    pub monitor: MonitorView,
    pub store: AuthStateView,
    pub outcomes: Seq<OutcomeView>,
}

/// A login of which the host has been told nothing yet.
pub open spec fn untold(monitor: MonitorView, store: AuthStateView) -> RunView {
    RunView { monitor, store, outcomes: Seq::empty() }
}

/// A login after one more look: the look is taken in as `poll_step` says,
/// and the host is told of the outcome where the look brings one.
pub open spec fn after_look(at: RunView, look: Look) -> RunView {
    let step = poll_step(at.monitor, at.store, look.seen, look.now);
    RunView {
        monitor: step.monitor,
        store: step.store,
        outcomes: match step.action {
            ActionView::Finish { outcome, .. } => at.outcomes.push(outcome),
            _ => at.outcomes,
        },
    }
}

/// A login after the looks of `looks`, taken one after the other.
pub open spec fn run_from(at: RunView, looks: Seq<Look>) -> RunView
    decreases looks.len(),
{
    if looks.len() == 0 {
        at
    } else {
        after_look(run_from(at, looks.drop_last()), looks.last())
    }
}

/// Whether none of the looks decides anything: each finds the surface
/// there, and none finds it at the landing page.
pub open spec fn all_quiet(looks: Seq<Look>) -> bool {
    forall|i: int| 0 <= i < looks.len() ==> verdict((#[trigger] looks[i]).seen) is None
}

/// Taking looks one run after the other is taking them as one run.
pub proof fn lemma_run_concat(at: RunView, first: Seq<Look>, second: Seq<Look>)
    ensures
        run_from(at, first + second) == run_from(run_from(at, first), second),
    decreases second.len(),
{
    if second.len() == 0 {
        assert(first + second =~= first);
    } else {
        assert((first + second).drop_last() =~= first + second.drop_last());
        assert((first + second).last() == second.last());
        lemma_run_concat(at, first, second.drop_last());
    }
}

/// A run of one look is that look.
proof fn lemma_single_look(at: RunView, look: Look)
    ensures
        run_from(at, seq![look]) == after_look(at, look),
{
    assert(seq![look].drop_last() =~= Seq::<Look>::empty());
    assert(run_from(at, Seq::<Look>::empty()) == at);
    assert(seq![look].last() == look);
}

/// A login that is over stays as it is, whatever is seen later.
pub proof fn lemma_over_stays_over(at: RunView, looks: Seq<Look>)
    requires
        at.monitor.phase != LoginPhase::Polling,
    ensures
        run_from(at, looks) == at,
    decreases looks.len(),
{
    if looks.len() > 0 {
        lemma_over_stays_over(at, looks.drop_last());
    }
}

/// Looks that decide nothing leave a login polling, as long as the last
/// look allowed is not among them: the store stays as it is and the host
/// is told nothing.
pub proof fn lemma_quiet_looks(at: RunView, looks: Seq<Look>)
    requires
        at.monitor.phase == LoginPhase::Polling,
        all_quiet(looks),
        at.monitor.attempts + looks.len() < MAX_ATTEMPTS,
    ensures
        run_from(at, looks) == (RunView {
            monitor: MonitorView {
                attempts: at.monitor.attempts + looks.len(),
                ..at.monitor
            },
            ..at
        }),
    decreases looks.len(),
{
    if looks.len() > 0 {
        assert forall|i: int| 0 <= i < looks.drop_last().len() implies verdict(
            (#[trigger] looks.drop_last()[i]).seen,
        ) is None by {
            assert(looks.drop_last()[i] == looks[i]);
        }
        lemma_quiet_looks(at, looks.drop_last());
        assert(verdict(looks[looks.len() - 1].seen) is None);
    }
}

/// The host is told of one outcome at most. It is told of one exactly when
/// the looks have taken the login out of polling; the store then holds no
/// login surface. A login that was over before the looks stays untold.
pub proof fn law_one_outcome_at_most(monitor: MonitorView, store: AuthStateView, looks: Seq<Look>)
    ensures
        run_from(untold(monitor, store), looks).outcomes.len() <= 1,
        run_from(untold(monitor, store), looks).outcomes.len() == 1 <==> monitor.phase
            == LoginPhase::Polling && run_from(untold(monitor, store), looks).monitor.phase
            != LoginPhase::Polling,
        run_from(untold(monitor, store), looks).outcomes.len() == 1 ==> run_from(
            untold(monitor, store),
            looks,
        ).store.login_surface is None,
    decreases looks.len(),
{
    if monitor.phase != LoginPhase::Polling {
        lemma_over_stays_over(untold(monitor, store), looks);
    } else if looks.len() > 0 {
        law_one_outcome_at_most(monitor, store, looks.drop_last());
        let before = run_from(untold(monitor, store), looks.drop_last());
        let after = after_look(before, looks.last());
        if before.monitor.phase != LoginPhase::Polling {
            assert(after == before);
        } else {
            assert(before.outcomes.len() == 0);
        }
    }
}

/// Reaching the landing page with cookies signs the user in. Let a
/// polling login see looks that decide nothing, then the landing page
/// with cookies of which one at least has a name and a value, then
/// anything. The host is told of success once and of nothing else, with
/// the session made of those cookies; the store holds that session and no
/// login surface. The session holds the cookies kept and names no user;
/// it ends a day after the look, where the count of seconds can say so.
pub proof fn law_landing_with_cookies_succeeds(
    monitor: MonitorView,
    store: AuthStateView,
    quiet: Seq<Look>,
    url: Seq<char>,
    raw: Seq<(Seq<char>, Seq<char>)>,
    now: i64,
    later: Seq<Look>,
)
    requires
        monitor.phase == LoginPhase::Polling,
        all_quiet(quiet),
        monitor.attempts + quiet.len() < MAX_ATTEMPTS,
        is_landing(url),
        collected(raw).len() > 0,
    ensures
        ({
            let landing = Look {
                seen: ObservationView::Showing { url, cookies: Some(raw) },
                now,
            };
            let end = run_from(untold(monitor, store), quiet + seq![landing] + later);
            let session = session_of(collected(raw), now);
            &&& end.outcomes == seq![OutcomeView::Success(session)]
            &&& end.store.session == Some(session)
            &&& end.store.login_surface is None
            &&& end.monitor.phase == LoginPhase::Success
            &&& session.cookies == collected(raw)
            &&& session.user_id is None
            &&& now + 86400 <= i64::MAX ==> session.expires_at == now + 86400
        }),
{
    let landing = Look { seen: ObservationView::Showing { url, cookies: Some(raw) }, now };
    let start = untold(monitor, store);
    lemma_quiet_looks(start, quiet);
    lemma_run_concat(start, quiet + seq![landing], later);
    lemma_run_concat(start, quiet, seq![landing]);
    let polled = run_from(start, quiet);
    lemma_single_look(polled, landing);
    let landed = after_look(polled, landing);
    assert(landed.outcomes =~= seq![OutcomeView::Success(session_of(collected(raw), now))]);
    lemma_over_stays_over(landed, later);
}

/// Closing the surface before the landing page is reached cancels the
/// login. Let a polling login see looks that decide nothing, then the
/// surface gone, then anything. The host is told of the cancellation once
/// and of nothing else; the store keeps the session that it had, so none
/// where it had none, and holds no login surface.
pub proof fn law_closed_surface_cancels(
    monitor: MonitorView,
    store: AuthStateView,
    quiet: Seq<Look>,
    now: i64,
    later: Seq<Look>,
)
    requires
        monitor.phase == LoginPhase::Polling,
        all_quiet(quiet),
        monitor.attempts + quiet.len() < MAX_ATTEMPTS,
    ensures
        ({
            let gone = Look { seen: ObservationView::Gone, now };
            let end = run_from(untold(monitor, store), quiet + seq![gone] + later);
            &&& end.outcomes == seq![OutcomeView::Cancelled]
            &&& end.store.session == store.session
            &&& end.store.login_surface is None
            &&& end.monitor.phase == LoginPhase::Cancelled
        }),
{
    let gone = Look { seen: ObservationView::Gone, now };
    let start = untold(monitor, store);
    lemma_quiet_looks(start, quiet);
    lemma_run_concat(start, quiet + seq![gone], later);
    lemma_run_concat(start, quiet, seq![gone]);
    let polled = run_from(start, quiet);
    lemma_single_look(polled, gone);
    let closed = after_look(polled, gone);
    assert(closed.outcomes =~= seq![OutcomeView::Cancelled]);
    lemma_over_stays_over(closed, later);
}

/// A login does not poll for ever: after as many looks as a polling login
/// has left, it is over, whatever the looks found.
pub proof fn law_login_ends_in_time(monitor: MonitorView, store: AuthStateView, looks: Seq<Look>)
    requires
        monitor.phase == LoginPhase::Polling,
        monitor.attempts < MAX_ATTEMPTS,
        monitor.attempts + looks.len() >= MAX_ATTEMPTS,
    ensures
        run_from(untold(monitor, store), looks).monitor.phase != LoginPhase::Polling,
        run_from(untold(monitor, store), looks).outcomes.len() == 1,
{
    lemma_attempts_count_looks(monitor, store, looks);
    law_one_outcome_at_most(monitor, store, looks);
}

/// While a login polls, each look has added one to its attempts.
proof fn lemma_attempts_count_looks(monitor: MonitorView, store: AuthStateView, looks: Seq<Look>)
    requires
        monitor.phase == LoginPhase::Polling,
        monitor.attempts < MAX_ATTEMPTS,
    ensures
        run_from(untold(monitor, store), looks).monitor.phase == LoginPhase::Polling ==> run_from(
            untold(monitor, store),
            looks,
        ).monitor.attempts == monitor.attempts + looks.len() && monitor.attempts + looks.len()
            < MAX_ATTEMPTS,
    decreases looks.len(),
{
    if looks.len() > 0 {
        lemma_attempts_count_looks(monitor, store, looks.drop_last());
        let before = run_from(untold(monitor, store), looks.drop_last());
        if before.monitor.phase != LoginPhase::Polling {
            assert(after_look(before, looks.last()).monitor.phase != LoginPhase::Polling);
        }
    }
}

} // verus!
