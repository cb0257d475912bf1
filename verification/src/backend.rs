//! The behavior behind the setup window: what each page shows and checks,
//! what the recovery record keeps, and the setup itself as a state machine.
//! The interface performs each action it returns (reading the recovery
//! record, asking for an account, writing the record, running the privileged
//! step) and hands the outcome back as the next event.

use vstd::prelude::*;
use vstd::string::*;
use crate::account::{
    account_matches_setup_identity_in, default_display_name, display_name_problem,
    effective_display_name, effective_display_name_of, passwd_has_setup_identity,
    username_problem, validate_display_name, validate_username,
};
use crate::details::{DetailsView, SetupDetails};
use crate::hostname::{
    current_or_generated_hostname, current_or_offered_hostname, hostname_problem, validate_hostname,
};
use crate::progress::{
    copy_string, is_line_safe, is_resumable_page, lemma_progress_round_trip, parsed, serialized,
    ProgressView, SetupProgress,
};
use crate::text::{chars_of, str_eq, string_from, trim, trim_bounds};

verus! {

/// Where the setup stands while the interface performs its actions.
pub enum SetupStage {
    /// No setup under way.
    Idle,
    /// Waiting for the system name to use, none having been entered.
    ResolvingHostname { display_name: String, password: String },
    /// Waiting for the recovery record.
    LoadingProgress { hostname: String, display_name: String, password: String },
    /// Waiting for a generated login name.
    ChoosingUsername { hostname: String, display_name: String, password: String },
    /// Waiting to learn whether the login name's account exists and is
    /// setup's own.
    CheckingAccount {
        hostname: String,
        display_name: String,
        username: String,
        password: String,
    },
    /// Waiting for the recovery record that reserves the account to be
    /// written.
    Saving { hostname: String, display_name: String, username: String, password: String },
    /// The privileged step is running.
    Applying,
}

/// What the interface reports to the setup.
pub enum SetupEvent {
    /// Finish was pressed with these entries.
    Start { hostname: String, display_name: String, password: String },
    /// The system name to use where none was entered.
    HostnameResolved(String),
    /// The recovery record as read.
    ProgressLoaded(SetupProgress),
    /// A generated login name.
    UsernameGenerated(String),
    /// Whether the login name's account exists, and whether it is the
    /// account that setup creates.
    AccountChecked { exists: bool, matches: bool },
    /// The recovery record was written, or could not be (the error).
    ProgressSaved(Option<String>),
    /// The privileged step finished, or failed (its message).
    Finished(Option<String>),
}

/// What the setup asks the interface to do next.
pub enum SetupAction {
    /// Nothing: the setup waits for the user.
    Nothing,
    /// Find the system name to use where none was entered.
    ResolveHostname,
    /// Read the recovery record.
    LoadProgress,
    /// Generate a login name for this display name.
    GenerateUsername(String),
    /// Find out whether this account exists and is setup's own for this
    /// display name.
    CheckAccount { username: String, display_name: String },
    /// Write this recovery record.
    SaveProgress(SetupProgress),
    /// Run the privileged step with these details.
    Apply(SetupDetails),
}

pub enum StageView {
    Idle,
    ResolvingHostname { display_name: Seq<char>, password: Seq<char> },
    LoadingProgress { hostname: Seq<char>, display_name: Seq<char>, password: Seq<char> },
    ChoosingUsername { hostname: Seq<char>, display_name: Seq<char>, password: Seq<char> },
    CheckingAccount {
        hostname: Seq<char>,
        display_name: Seq<char>,
        username: Seq<char>,
        password: Seq<char>,
    },
    Saving {
        hostname: Seq<char>,
        display_name: Seq<char>,
        username: Seq<char>,
        password: Seq<char>,
    },
    Applying,
}

pub enum EventView {
    Start { hostname: Seq<char>, display_name: Seq<char>, password: Seq<char> },
    HostnameResolved(Seq<char>),
    ProgressLoaded(ProgressView),
    UsernameGenerated(Seq<char>),
    AccountChecked { exists: bool, matches: bool },
    ProgressSaved(Option<Seq<char>>),
    Finished(Option<Seq<char>>),
}

pub enum ActionView {
    Nothing,
    ResolveHostname,
    LoadProgress,
    GenerateUsername(Seq<char>),
    CheckAccount { username: Seq<char>, display_name: Seq<char> },
    SaveProgress(ProgressView),
    Apply(DetailsView),
}

/// The setup window's state: whether the privileged step is running,
/// whether setup completed, the error shown, and the stage of the setup.
pub struct BackendView {
    pub busy: bool,
    pub completed: bool,
    pub error_message: Seq<char>,
    pub stage: StageView,
}

pub open spec fn opt_view(o: Option<String>) -> Option<Seq<char>> {
    match o {
        Some(s) => Some(s@),
        None => None,
    }
}

impl View for SetupStage {
    type V = StageView;

    open spec fn view(&self) -> StageView {
        match self {
            SetupStage::Idle => StageView::Idle,
            SetupStage::ResolvingHostname { display_name, password } => StageView::ResolvingHostname {
                display_name: display_name@,
                password: password@,
            },
            SetupStage::LoadingProgress { hostname, display_name, password } => StageView::LoadingProgress {
                hostname: hostname@,
                display_name: display_name@,
                password: password@,
            },
            SetupStage::ChoosingUsername { hostname, display_name, password } => StageView::ChoosingUsername {
                hostname: hostname@,
                display_name: display_name@,
                password: password@,
            },
            SetupStage::CheckingAccount { hostname, display_name, username, password } => StageView::CheckingAccount {
                hostname: hostname@,
                display_name: display_name@,
                username: username@,
                password: password@,
            },
            SetupStage::Saving { hostname, display_name, username, password } => StageView::Saving {
                hostname: hostname@,
                display_name: display_name@,
                username: username@,
                password: password@,
            },
            SetupStage::Applying => StageView::Applying,
        }
    }
}

impl View for SetupEvent {
    type V = EventView;

    open spec fn view(&self) -> EventView {
        match self {
            SetupEvent::Start { hostname, display_name, password } => EventView::Start {
                hostname: hostname@,
                display_name: display_name@,
                password: password@,
            },
            SetupEvent::HostnameResolved(h) => EventView::HostnameResolved(h@),
            SetupEvent::ProgressLoaded(p) => EventView::ProgressLoaded(p@),
            SetupEvent::UsernameGenerated(u) => EventView::UsernameGenerated(u@),
            SetupEvent::AccountChecked { exists, matches } => EventView::AccountChecked {
                exists: *exists,
                matches: *matches,
            },
            SetupEvent::ProgressSaved(e) => EventView::ProgressSaved(opt_view(*e)),
            SetupEvent::Finished(e) => EventView::Finished(opt_view(*e)),
        }
    }
}

impl View for SetupAction {
    type V = ActionView;

    open spec fn view(&self) -> ActionView {
        match self {
            SetupAction::Nothing => ActionView::Nothing,
            SetupAction::ResolveHostname => ActionView::ResolveHostname,
            SetupAction::LoadProgress => ActionView::LoadProgress,
            SetupAction::GenerateUsername(d) => ActionView::GenerateUsername(d@),
            SetupAction::CheckAccount { username, display_name } => ActionView::CheckAccount {
                username: username@,
                display_name: display_name@,
            },
            SetupAction::SaveProgress(p) => ActionView::SaveProgress(p@),
            SetupAction::Apply(d) => ActionView::Apply(d@),
        }
    }
}

/// `s` stopped with the error `e` shown: the setup waits for the user.
pub open spec fn stopped(s: BackendView, e: Seq<char>) -> (BackendView, ActionView) {
    (BackendView { error_message: e, stage: StageView::Idle, ..s }, ActionView::Nothing)
}

/// `s` waiting in `stage` for the outcome of `action`.
pub open spec fn waiting(s: BackendView, stage: StageView, action: ActionView) -> (
    BackendView,
    ActionView,
) {
    (BackendView { stage, ..s }, action)
}

/// Once the system name `h` is known: check it, the display name `d` and
/// the password `p`, then read the recovery record.
pub open spec fn after_hostname(s: BackendView, h: Seq<char>, d: Seq<char>, p: Seq<char>) -> (
    BackendView,
    ActionView,
) {
    if hostname_problem(h) is Some {
        stopped(s, hostname_problem(h)->0)
    } else if display_name_problem(d) is Some {
        stopped(s, display_name_problem(d)->0)
    } else if p.len() == 0 {
        stopped(s, "The password cannot be blank"@)
    } else {
        waiting(
            s,
            StageView::LoadingProgress { hostname: h, display_name: d, password: p },
            ActionView::LoadProgress,
        )
    }
}

/// Once the login name `u` is known: check it, then ask about its account.
pub open spec fn after_username(
    s: BackendView,
    h: Seq<char>,
    d: Seq<char>,
    u: Seq<char>,
    p: Seq<char>,
) -> (BackendView, ActionView) {
    if username_problem(u) is Some {
        stopped(s, username_problem(u)->0)
    } else {
        waiting(
            s,
            StageView::CheckingAccount { hostname: h, display_name: d, username: u, password: p },
            ActionView::CheckAccount { username: u, display_name: d },
        )
    }
}

/// The setup's next state and action on event `e` in state `s`. Finish is
/// taken only while no setup runs or has completed; the display name is the
/// default one where blank; a login name reserved earlier for the same
/// display name is reused, so that an interrupted setup never creates a
/// second account; an existing account that is not setup's own is never
/// touched; the privileged step starts only once the reservation is
/// recorded. An event that the stage does not wait for changes nothing.
pub open spec fn setup_step(s: BackendView, e: EventView) -> (BackendView, ActionView) {
    match (s.stage, e) {
        (StageView::Idle, EventView::Start { hostname, display_name, password }) => {
            if s.busy || s.completed {
                (s, ActionView::Nothing)
            } else {
                let d = effective_display_name_of(display_name);
                if hostname.len() == 0 {
                    waiting(
                        s,
                        StageView::ResolvingHostname { display_name: d, password },
                        ActionView::ResolveHostname,
                    )
                } else {
                    after_hostname(s, hostname, d, password)
                }
            }
        },
        (
            StageView::ResolvingHostname { display_name, password },
            EventView::HostnameResolved(hostname),
        ) => after_hostname(s, hostname, display_name, password),
        (
            StageView::LoadingProgress { hostname, display_name, password },
            EventView::ProgressLoaded(previous),
        ) => {
            if previous.username.len() > 0 && previous.display_name == display_name {
                after_username(s, hostname, display_name, previous.username, password)
            } else {
                waiting(
                    s,
                    StageView::ChoosingUsername { hostname, display_name, password },
                    ActionView::GenerateUsername(display_name),
                )
            }
        },
        (
            StageView::ChoosingUsername { hostname, display_name, password },
            EventView::UsernameGenerated(username),
        ) => after_username(s, hostname, display_name, username, password),
        (
            StageView::CheckingAccount { hostname, display_name, username, password },
            EventView::AccountChecked { exists, matches },
        ) => {
            if exists && !matches {
                stopped(
                    s,
                    "The reserved account name belongs to a different system account. FluffSetup will not modify it."@,
                )
            } else {
                waiting(
                    s,
                    StageView::Saving { hostname, display_name, username, password },
                    ActionView::SaveProgress(
                        ProgressView {
                            page: 2,
                            hostname,
                            display_name,
                            username,
                            account_created: matches,
                        },
                    ),
                )
            }
        },
        (
            StageView::Saving { hostname, display_name, username, password },
            EventView::ProgressSaved(outcome),
        ) => match outcome {
            Some(error) => stopped(s, "Could not reserve the account for recovery: "@ + error),
            None => (
                BackendView {
                    busy: true,
                    completed: false,
                    error_message: seq![],
                    stage: StageView::Applying,
                },
                ActionView::Apply(DetailsView { hostname, display_name, username, password }),
            ),
        },
        (StageView::Applying, EventView::Finished(outcome)) => (
            BackendView {
                busy: false,
                completed: outcome is None,
                error_message: match outcome {
                    Some(error) => error,
                    None => seq![],
                },
                stage: StageView::Idle,
            },
            ActionView::Nothing,
        ),
        _ => (s, ActionView::Nothing),
    }
}

/// The state of the setup window.
pub struct SetupBackend {
    busy: bool,
    completed: bool,
    error_message: String,
    stage: SetupStage,
}

impl View for SetupBackend {
    type V = BackendView;

    closed spec fn view(&self) -> BackendView {
        BackendView {
            busy: self.busy,
            completed: self.completed,
            error_message: self.error_message@,
            stage: self.stage@,
        }
    }
}

/// The recovery record that Next keeps: the page and the entries, and the
/// reserved login name only while the display name is the one it was
/// reserved for.
pub open spec fn kept_progress(
    page: i32,
    hostname: Seq<char>,
    display_name: Seq<char>,
    previous: ProgressView,
) -> ProgressView {
    let keep = previous.display_name == display_name && previous.username.len() > 0;
    ProgressView {
        page,
        hostname,
        display_name,
        username: if keep {
            previous.username
        } else {
            seq![]
        },
        account_created: keep && previous.account_created,
    }
}

/// The message shown under the system name field: nothing while it is
/// empty (the offered name stands in), else what is wrong with it.
pub open spec fn hostname_hint(h: Seq<char>) -> Seq<char> {
    if h.len() == 0 {
        seq![]
    } else {
        match hostname_problem(h) {
            Some(e) => e,
            None => seq![],
        }
    }
}

/// The message shown under the name field: nothing while it is blank,
/// else what is wrong with it.
pub open spec fn name_hint(d: Seq<char>) -> Seq<char> {
    if trim(d).len() == 0 {
        seq![]
    } else {
        match display_name_problem(d) {
            Some(e) => e,
            None => seq![],
        }
    }
}

fn idle_with_error(s: &mut SetupBackend, e: String)
    ensures
        final(s)@ == stopped(old(s)@, e@).0,
{
    s.error_message = e;
    s.stage = SetupStage::Idle;
}

impl SetupBackend {
    /// A window with no setup under way and no error shown.
    pub fn new() -> (b: Self)
        ensures
            b@ == (BackendView {
                busy: false,
                completed: false,
                error_message: seq![],
                stage: StageView::Idle,
            }),
    {
        SetupBackend {
            busy: false,
            completed: false,
            error_message: String::new(),
            stage: SetupStage::Idle,
        }
    }

    /// Whether the privileged step is running.
    pub fn busy(&self) -> (r: bool)
        ensures
            r == self@.busy,
    {
        self.busy
    }

    /// Whether setup completed.
    pub fn completed(&self) -> (r: bool)
        ensures
            r == self@.completed,
    {
        self.completed
    }

    /// The error shown, empty where there is none.
    pub fn error_message(&self) -> (r: String)
        ensures
            r@ == self@.error_message,
    {
        copy_string(&self.error_message)
    }

    /// The system name shown in gray until one is entered: the current one
    /// where it is valid (from the contents of its file, where it could be
    /// read), else one offered from six random bytes.
    pub fn current_hostname(&self, current: Option<&str>, random: Option<[u8; 6]>) -> (r: String)
        ensures
            r@ == current_or_offered_hostname(
                match current {
                    Some(t) => Some(t@),
                    None => None,
                },
                random,
            ),
    {
        current_or_generated_hostname(current, random)
    }

    /// The display name that a blank entry stands for.
    pub fn default_name(&self) -> (r: String)
        ensures
            r@ == "User"@,
    {
        string_from(default_display_name())
    }

    /// The page to resume at, from the recovery record.
    pub fn resume_page(&self, progress: &SetupProgress) -> (page: i32)
        ensures
            page == progress.page,
    {
        progress.page
    }

    /// The system name to show again, from the recovery record.
    pub fn saved_hostname(&self, progress: &SetupProgress) -> (r: String)
        ensures
            r@ == progress.hostname@,
    {
        copy_string(&progress.hostname)
    }

    /// The display name to show again, from the recovery record.
    pub fn saved_name(&self, progress: &SetupProgress) -> (r: String)
        ensures
            r@ == progress.display_name@,
    {
        copy_string(&progress.display_name)
    }

    /// Whether the account reserved in the recovery record already exists as
    /// setup creates it, in the account database `passwd` (`None` where it
    /// could not be read).
    pub fn account_already_created(&self, progress: &SetupProgress, passwd: Option<&str>) -> (r:
        bool)
        ensures
            r == (progress.username@.len() > 0 && match passwd {
                Some(text) => passwd_has_setup_identity(
                    text@,
                    progress.username@,
                    progress.display_name@,
                ),
                None => false,
            }),
    {
        if progress.username.as_str().is_empty() {
            return false;
        }
        match passwd {
            Some(text) => account_matches_setup_identity_in(
                text,
                progress.username.as_str(),
                progress.display_name.as_str(),
            ),
            None => false,
        }
    }

    /// The recovery record to write when the user moves to `page` with these
    /// entries, given the record written before. The password is never part
    /// of it.
    pub fn save_progress(
        &self,
        page: i32,
        hostname: &str,
        display_name: &str,
        previous: &SetupProgress,
    ) -> (p: SetupProgress)
        ensures
            p@ == kept_progress(page, hostname@, display_name@, previous@),
    {
        let keep = str_eq(previous.display_name.as_str(), display_name)
            && !previous.username.as_str().is_empty();
        SetupProgress {
            page,
            hostname: string_from(hostname),
            display_name: string_from(display_name),
            username: if keep {
                copy_string(&previous.username)
            } else {
                String::new()
            },
            account_created: keep && previous.account_created,
        }
    }

    /// The message for the system name field.
    pub fn validate_hostname(&self, hostname: &str) -> (r: String)
        ensures
            r@ == hostname_hint(hostname@),
    {
        if hostname.is_empty() {
            return String::new();
        }
        match validate_hostname(hostname) {
            Err(e) => e,
            Ok(()) => String::new(),
        }
    }

    /// The message for the name field.
    pub fn validate_name(&self, display_name: &str) -> (r: String)
        ensures
            r@ == name_hint(display_name@),
    {
        let chars = chars_of(display_name);
        let (a, b) = trim_bounds(&chars);
        if a == b {
            return String::new();
        }
        match validate_display_name(display_name) {
            Err(e) => string_from(e),
            Ok(()) => String::new(),
        }
    }

    /// Finish was pressed with these entries.
    pub fn start_setup(&mut self, hostname: &str, display_name: &str, password: &str) -> (action:
        SetupAction)
        ensures
            (final(self)@, action@) == setup_step(
                old(self)@,
                EventView::Start {
                    hostname: hostname@,
                    display_name: display_name@,
                    password: password@,
                },
            ),
    {
        self.handle(
            SetupEvent::Start {
                hostname: string_from(hostname),
                display_name: string_from(display_name),
                password: string_from(password),
            },
        )
    }

    fn check_hostname(&mut self, h: String, d: String, p: String) -> (action: SetupAction)
        ensures
            (final(self)@, action@) == after_hostname(old(self)@, h@, d@, p@),
    {
        match validate_hostname(h.as_str()) {
            Err(e) => {
                idle_with_error(self, e);
                return SetupAction::Nothing;
            },
            Ok(()) => {},
        }
        match validate_display_name(d.as_str()) {
            Err(e) => {
                idle_with_error(self, string_from(e));
                return SetupAction::Nothing;
            },
            Ok(()) => {},
        }
        if p.as_str().is_empty() {
            idle_with_error(self, string_from("The password cannot be blank"));
            return SetupAction::Nothing;
        }
        self.stage = SetupStage::LoadingProgress { hostname: h, display_name: d, password: p };
        SetupAction::LoadProgress
    }

    fn check_username(&mut self, h: String, d: String, u: String, p: String) -> (action:
        SetupAction)
        ensures
            (final(self)@, action@) == after_username(old(self)@, h@, d@, u@, p@),
    {
        match validate_username(u.as_str()) {
            Err(e) => {
                idle_with_error(self, string_from(e));
                return SetupAction::Nothing;
            },
            Ok(()) => {},
        }
        let action = SetupAction::CheckAccount {
            username: copy_string(&u),
            display_name: copy_string(&d),
        };
        self.stage = SetupStage::CheckingAccount {
            hostname: h,
            display_name: d,
            username: u,
            password: p,
        };
        action
    }

    /// Takes the next event; gives what the interface is to do.
    pub fn handle(&mut self, event: SetupEvent) -> (action: SetupAction)
        ensures
            (final(self)@, action@) == setup_step(old(self)@, event@),
    {
        let mut stage = SetupStage::Idle;
        core::mem::swap(&mut stage, &mut self.stage);
        match (stage, event) {
            (SetupStage::Idle, SetupEvent::Start { hostname, display_name, password }) => {
                if self.busy || self.completed {
                    return SetupAction::Nothing;
                }
                let d = string_from(effective_display_name(display_name.as_str()));
                if hostname.as_str().is_empty() {
                    self.stage = SetupStage::ResolvingHostname { display_name: d, password };
                    SetupAction::ResolveHostname
                } else {
                    self.check_hostname(hostname, d, password)
                }
            },
            (
                SetupStage::ResolvingHostname { display_name, password },
                SetupEvent::HostnameResolved(hostname),
            ) => self.check_hostname(hostname, display_name, password),
            (
                SetupStage::LoadingProgress { hostname, display_name, password },
                SetupEvent::ProgressLoaded(previous),
            ) => {
                if !previous.username.as_str().is_empty() && str_eq(
                    previous.display_name.as_str(),
                    display_name.as_str(),
                ) {
                    self.check_username(hostname, display_name, previous.username, password)
                } else {
                    let action = SetupAction::GenerateUsername(copy_string(&display_name));
                    self.stage = SetupStage::ChoosingUsername { hostname, display_name, password };
                    action
                }
            },
            (
                SetupStage::ChoosingUsername { hostname, display_name, password },
                SetupEvent::UsernameGenerated(username),
            ) => self.check_username(hostname, display_name, username, password),
            (
                SetupStage::CheckingAccount { hostname, display_name, username, password },
                SetupEvent::AccountChecked { exists, matches },
            ) => {
                if exists && !matches {
                    idle_with_error(
                        self,
                        string_from(
                            "The reserved account name belongs to a different system account. FluffSetup will not modify it.",
                        ),
                    );
                    return SetupAction::Nothing;
                }
                let record = SetupProgress {
                    page: 2,
                    hostname: copy_string(&hostname),
                    display_name: copy_string(&display_name),
                    username: copy_string(&username),
                    account_created: matches,
                };
                self.stage = SetupStage::Saving { hostname, display_name, username, password };
                SetupAction::SaveProgress(record)
            },
            (
                SetupStage::Saving { hostname, display_name, username, password },
                SetupEvent::ProgressSaved(outcome),
            ) => match outcome {
                Some(error) => {
                    let mut message = string_from("Could not reserve the account for recovery: ");
                    message.append(error.as_str());
                    idle_with_error(self, message);
                    SetupAction::Nothing
                },
                None => {
                    self.error_message = String::new();
                    self.completed = false;
                    self.busy = true;
                    self.stage = SetupStage::Applying;
                    SetupAction::Apply(SetupDetails { hostname, display_name, username, password })
                },
            },
            (SetupStage::Applying, SetupEvent::Finished(outcome)) => {
                self.busy = false;
                match outcome {
                    None => {
                        self.completed = true;
                        self.error_message = String::new();
                    },
                    Some(error) => {
                        self.completed = false;
                        self.error_message = error;
                    },
                }
                SetupAction::Nothing
            },
            (stage, _) => {
                self.stage = stage;
                SetupAction::Nothing
            },
        }
    }
}

/// Finish does nothing while the privileged step runs or after setup
/// completed.
pub proof fn lemma_finish_ignored_while_busy_or_completed(
    s: BackendView,
    hostname: Seq<char>,
    display_name: Seq<char>,
    password: Seq<char>,
)
    requires
        s.busy || s.completed,
    ensures
        setup_step(s, EventView::Start { hostname, display_name, password }) == (
            s,
            ActionView::Nothing,
        ),
{
}

/// The privileged step is started only once the record that reserves the
/// account was written, and then with exactly the details checked before.
pub proof fn lemma_apply_only_after_reservation(s: BackendView, e: EventView)
    ensures
        setup_step(s, e).1 is Apply ==> {
            &&& s.stage is Saving
            &&& e == EventView::ProgressSaved(None)
            &&& setup_step(s, e).1 == ActionView::Apply(
                DetailsView {
                    hostname: s.stage->Saving_hostname,
                    display_name: s.stage->Saving_display_name,
                    username: s.stage->Saving_username,
                    password: s.stage->Saving_password,
                },
            )
            &&& setup_step(s, e).0.busy
        },
{
}

/// An existing account that is not the one setup creates is never
/// reserved or set up: setup stops with a message.
pub proof fn lemma_foreign_account_untouched(s: BackendView)
    requires
        s.stage is CheckingAccount,
    ensures
        setup_step(s, EventView::AccountChecked { exists: true, matches: false }).1
            == ActionView::Nothing,
        setup_step(s, EventView::AccountChecked { exists: true, matches: false }).0.stage
            == StageView::Idle,
{
}

/// What an interrupted setup resumes with: a recovery record that Next
/// wrote for the same display name, read back, makes the setup reuse the
/// login name it reserved instead of generating another, so that at most
/// one account is created across interruptions.
pub proof fn lemma_interrupted_setup_reuses_reservation(
    s: BackendView,
    page: i32,
    entered_hostname: Seq<char>,
    previous: ProgressView,
)
    requires
        s.stage is LoadingProgress,
        previous.display_name == s.stage->LoadingProgress_display_name,
        previous.username.len() > 0,
        is_resumable_page(page as int),
        is_line_safe(entered_hostname),
        is_line_safe(previous.display_name),
        is_line_safe(previous.username),
    ensures
        ({
            let written = kept_progress(
                page,
                entered_hostname,
                previous.display_name,
                previous,
            );
            let read_back = parsed(serialized(written));
            let (next, action) = setup_step(s, EventView::ProgressLoaded(read_back));
            &&& read_back.username == previous.username
            &&& !(action is GenerateUsername)
            &&& username_problem(previous.username) is None ==> action
                == ActionView::CheckAccount {
                username: previous.username,
                display_name: previous.display_name,
            }
        }),
{
    let written = kept_progress(page, entered_hostname, previous.display_name, previous);
    lemma_progress_round_trip(written);
}

/// A login name reserved for one display name is never taken over by the
/// setup of another: when the recovery record was written for a different
/// display name, the setup asks for a new login name for the display name
/// being set up, whatever name the record reserves.
pub proof fn lemma_other_display_name_gets_new_username(
    s: BackendView,
    hostname: Seq<char>,
    display_name: Seq<char>,
    password: Seq<char>,
    previous: ProgressView,
)
    requires
        s.stage == (StageView::LoadingProgress { hostname, display_name, password }),
        previous.display_name != display_name,
    ensures
        setup_step(s, EventView::ProgressLoaded(previous)).1 == ActionView::GenerateUsername(
            display_name,
        ),
        setup_step(s, EventView::ProgressLoaded(previous)).0 == (BackendView {
            stage: StageView::ChoosingUsername { hostname, display_name, password },
            ..s
        }),
        !(setup_step(s, EventView::ProgressLoaded(previous)).1 is CheckAccount),
{
}

} // verus!
