//! The application state and its transitions.  The firewall backend, the
//! terminal and the clock stay outside: the caller runs the backend calls
//! that a transition asks for and hands their results back.
use vstd::prelude::*;
use vstd::string::*;
use crate::events::{AppEvent, KeyInput, KeyKind};
use crate::firewall::{rule_views, FirewallRule, RuleView};
use crate::forms::{edit_fields, form_rule, validation_error, FormMode, FormState};
use crate::history::{HistoryAction, HistoryEntry, HistoryLog, appended};
use crate::monitor::{monitoring_error_text, MonitoringError, TrafficMonitor, TrafficStats};
use crate::text::{concat2, concat3, owned};

verus! {

/// The three views of the application.
#[derive(Debug, Clone, Copy, PartialEq, Eq, Structural)]
pub enum ViewMode {
    Rules,
    Monitoring,
    History,
}

/// The errors the application reports.
#[derive(Debug)]
pub enum AppError {
    BackendNotAvailable(String),
    ValidationFailed,
    MonitoringFailed(String),
}

/// The message shown for an application error.
pub open spec fn app_error_text(e: AppError) -> Seq<char> {
    match e {
        AppError::BackendNotAvailable(n) => "Backend '"@ + n@ + "' is not available"@,
        AppError::ValidationFailed => "Validation failed"@,
        AppError::MonitoringFailed(m) => "Failed to collect monitoring stats: "@ + m@,
    }
}

impl AppError {
    pub fn message(&self) -> (r: String)
        ensures
            r@ == app_error_text(*self),
    {
        match self {
            AppError::BackendNotAvailable(n) => concat3("Backend '", n.as_str(), "' is not available"),
            AppError::ValidationFailed => owned("Validation failed"),
            AppError::MonitoringFailed(m) => concat2("Failed to collect monitoring stats: ", m.as_str()),
        }
    }
}

/// Work that an event asks of the caller: the backend, the monitor or the
/// export file.
#[derive(Debug, Clone, Copy, PartialEq, Eq, Structural)]
pub enum Action {
    Nothing,
    ReloadRules,
    CollectStats,
    ExportRules,
    ImportRules,
    SwitchBackend,
}

/// The work an event asks for in a view, when no form is open.
pub open spec fn action_for(mode: ViewMode, e: AppEvent) -> Action {
    match e {
        AppEvent::Refresh => match mode {
            ViewMode::Rules => Action::ReloadRules,
            ViewMode::Monitoring => Action::CollectStats,
            ViewMode::History => Action::Nothing,
        },
        AppEvent::ExportRules => Action::ExportRules,
        AppEvent::ImportRules => Action::ImportRules,
        AppEvent::SwitchBackend => Action::SwitchBackend,
        _ => Action::Nothing,
    }
}

/// A change of the firewall that a saved form asks for.  The caller runs
/// it on the backend, reloads the rules, and then records it with
/// `finish_change`.
#[derive(Debug)]
pub enum PendingChange {
    Add { rule: FirewallRule, record: HistoryAction },
    Update { rule: FirewallRule, record: HistoryAction },
    Delete { rule_id: usize, record: HistoryAction },
}

impl PendingChange {
    /// The history record of the change.
    pub open spec fn record_of(self) -> HistoryAction {
        match self {
            PendingChange::Add { record, .. } => record,
            PendingChange::Update { record, .. } => record,
            PendingChange::Delete { record, .. } => record,
        }
    }
}

/// The form for a new rule, as `FormState::new_add` makes it.
pub open spec fn is_add_form(f: FormState) -> bool {
    &&& f.mode == FormMode::AddRule
    &&& f.protocol@ == "tcp"@
    &&& f.port@ == Seq::<char>::empty()
    &&& f.source@ == "0.0.0.0/0"@
    &&& f.destination@ == "0.0.0.0/0"@
    &&& f.interface@ == Seq::<char>::empty()
    &&& f.action@ == "ACCEPT"@
    &&& f.current_field == 0
    &&& !f.confirmed
    &&& !f.cancelled
    &&& f.error_message is None
}

/// The confirmation form for deleting rule `id`.
pub open spec fn is_delete_form(f: FormState, id: usize) -> bool {
    &&& f.mode == FormMode::DeleteConfirm(id)
    &&& f.protocol@.len() == 0 && f.port@.len() == 0 && f.source@.len() == 0
    &&& f.destination@.len() == 0 && f.interface@.len() == 0 && f.action@.len() == 0
    &&& f.current_field == 0
    &&& !f.confirmed
    &&& !f.cancelled
    &&& f.error_message is None
}

/// `g` is what key `key` makes of form `f`: only key presses count.
pub open spec fn key_result(f: FormState, g: FormState, key: KeyInput) -> bool {
    if key.kind == KeyKind::Press {
        crate::forms::key_effect(f, g, key.code)
    } else {
        g == f
    }
}

/// `g` is form `f` given back unconfirmed with the error message `m`.
pub open spec fn reopened_with(f: FormState, g: FormState, m: Seq<char>) -> bool {
    &&& g.mode == f.mode
    &&& g.protocol == f.protocol
    &&& g.port == f.port
    &&& g.source == f.source
    &&& g.destination == f.destination
    &&& g.interface == f.interface
    &&& g.action == f.action
    &&& g.current_field == f.current_field
    &&& g.cancelled == f.cancelled
    &&& !g.confirmed
    &&& g.error_message matches Some(e) && e@ == m
}

/// The port recorded for a rule: its port, or `*` for any port.
pub open spec fn port_label(p: Option<Seq<char>>) -> Seq<char> {
    match p {
        Some(s) => s,
        None => "*"@,
    }
}

/// The position of the first rule with the given number, if any.
pub open spec fn rule_with_id(rules: Seq<RuleView>, id: usize) -> Option<int>
    decreases rules.len(),
{
    if rules.len() == 0 {
        None
    } else if rules[0].id == id {
        Some(0)
    } else {
        match rule_with_id(rules.drop_first(), id) {
            Some(k) => Some(k + 1),
            None => None,
        }
    }
}

/// The state of the application.
pub struct App {
    rules: Vec<FirewallRule>,
    selected_index: usize,
    show_details: bool,
    form: Option<FormState>,
    view_mode: ViewMode,
    history: HistoryLog,
    monitor: TrafficMonitor,
    monitoring_stats: Option<TrafficStats>,
    history_offset: usize,
    running: bool,
}

impl App {
    pub closed spec fn rules_view(&self) -> Seq<RuleView> {
        rule_views(self.rules@)
    }

    pub closed spec fn selected_view(&self) -> usize {
        self.selected_index
    }

    pub closed spec fn details_view(&self) -> bool {
        self.show_details
    }

    pub closed spec fn form_view(&self) -> Option<FormState> {
        self.form
    }

    pub closed spec fn mode_view(&self) -> ViewMode {
        self.view_mode
    }

    pub closed spec fn running_view(&self) -> bool {
        self.running
    }

    pub closed spec fn history_view(&self) -> HistoryLog {
        self.history
    }

    pub closed spec fn stats_view(&self) -> Option<TrafficStats> {
        self.monitoring_stats
    }

    pub closed spec fn offset_view(&self) -> usize {
        self.history_offset
    }

    pub closed spec fn monitor_view(&self) -> TrafficMonitor {
        self.monitor
    }

    /// The selection points into the list whenever the list is not empty.
    pub open spec fn selection_ok(&self) -> bool {
        self.rules_view().len() > 0 ==> self.selected_view() < self.rules_view().len()
    }

    /// Everything but the fields named by the flags is as in `other`.
    pub open spec fn same_except(
        &self,
        other: &App,
        rules: bool,
        selected: bool,
        details: bool,
        form: bool,
        mode: bool,
        running: bool,
    ) -> bool {
        &&& (!rules ==> self.rules_view() == other.rules_view())
        &&& (!selected ==> self.selected_view() == other.selected_view())
        &&& (!details ==> self.details_view() == other.details_view())
        &&& (!form ==> self.form_view() == other.form_view())
        &&& (!mode ==> self.mode_view() == other.mode_view())
        &&& (!running ==> self.running_view() == other.running_view())
        &&& self.history_view() == other.history_view()
        &&& self.stats_view() == other.stats_view()
        &&& self.offset_view() == other.offset_view()
        &&& self.monitor_view() == other.monitor_view()
    }

    /// A new application: no rules, the rules view, no form, an in-memory
    /// history of 100 entries, a 60 s nftables monitor, running.
    pub fn new() -> (r: App)
        ensures
            r.rules_view().len() == 0,
            r.selected_view() == 0,
            !r.details_view(),
            r.form_view() is None,
            r.mode_view() == ViewMode::Rules,
            r.history_view().entries_view().len() == 0,
            r.history_view().max_view() == 100,
            !r.history_view().persistent_view(),
            r.monitor_view().backend_view() == "nftables"@,
            r.monitor_view().window_view() == 60,
            r.stats_view() is None,
            r.offset_view() == 0,
            r.running_view(),
    {
        App {
            rules: Vec::new(),
            selected_index: 0,
            show_details: false,
            form: None,
            view_mode: ViewMode::Rules,
            history: HistoryLog::new(100, false, None),
            monitor: TrafficMonitor::new(owned("nftables"), 60),
            monitoring_stats: None,
            history_offset: 0,
            running: true,
        }
    }

    pub fn is_running(&self) -> (r: bool)
        ensures
            r == self.running_view(),
    {
        self.running
    }

    /// Startup check: the backend must be available.
    pub fn init(&self, available: bool, backend_name: &str) -> (r: Result<(), AppError>)
        ensures
            available ==> r is Ok,
            !available ==> (r matches Err(AppError::BackendNotAvailable(n)) && n@
                == backend_name@),
    {
        if available {
            Ok(())
        } else {
            Err(AppError::BackendNotAvailable(owned(backend_name)))
        }
    }

    /// Takes the freshly listed rules; the selection moves to the last rule
    /// when it fell off the end of a non-empty list.
    pub fn load_rules(&mut self, rules: Vec<FirewallRule>)
        ensures
            final(self).rules_view() == rule_views(rules@),
            final(self).selected_view() == if rules@.len() > 0 && old(self).selected_view()
                >= rules@.len() {
                (rules@.len() - 1) as usize
            } else {
                old(self).selected_view()
            },
            final(self).selection_ok(),
            final(self).same_except(&*old(self), true, true, false, false, false, false),
    {
        self.rules = rules;
        if self.rules.len() > 0 && self.selected_index >= self.rules.len() {
            self.selected_index = self.rules.len() - 1;
        }
    }

    /// Handles an event.  While a form is open only Cancel counts, and it
    /// closes the form.  Otherwise: Quit stops, Up and Down move the
    /// selection within the list, Enter toggles the details of the selected
    /// rule, AddRule, EditRule and DeleteRule open their form, Cancel goes
    /// back to the rules view, and the toggles switch between the rules
    /// view and the monitoring or history view.  Refresh, export, import
    /// and backend switching are the caller's.
    pub fn handle_event(&mut self, event: AppEvent)
        ensures
            old(self).selection_ok() ==> final(self).selection_ok(),
            old(self).form_view() is Some ==> (if event == AppEvent::Cancel {
                final(self).form_view() is None && final(self).same_except(
                    &*old(self),
                    false,
                    false,
                    false,
                    true,
                    false,
                    false,
                )
            } else {
                final(self).same_except(&*old(self), false, false, false, false, false, false)
            }),
            old(self).form_view() is None ==> event_effect(*old(self), *final(self), event),
    {
        if self.has_active_form() {
            match event {
                AppEvent::Cancel => {
                    self.cancel_form();
                },
                _ => {},
            }
            return ;
        }
        let n = self.rules.len();
        match event {
            AppEvent::Quit => {
                self.running = false;
            },
            AppEvent::Up => {
                if n > 0 && self.selected_index > 0 {
                    self.selected_index = self.selected_index - 1;
                }
            },
            AppEvent::Down => {
                if n > 0 && self.selected_index < n - 1 {
                    self.selected_index = self.selected_index + 1;
                }
            },
            AppEvent::Enter => {
                if n > 0 {
                    self.show_details = !self.show_details;
                }
            },
            AppEvent::AddRule => {
                self.form = Some(FormState::new_add());
            },
            AppEvent::EditRule => {
                if n > 0 && self.selected_index < n {
                    assert(self.rules_view()[self.selected_index as int] == self.rules@[self.selected_index as int]@);
                    let f = FormState::new_edit(&self.rules[self.selected_index]);
                    self.form = Some(f);
                }
            },
            AppEvent::DeleteRule => {
                if n > 0 && self.selected_index < n {
                    assert(self.rules_view()[self.selected_index as int] == self.rules@[self.selected_index as int]@);
                    let id = self.rules[self.selected_index].id;
                    self.form = Some(FormState::new_delete(id));
                }
            },
            AppEvent::Cancel => {
                self.set_view_mode(ViewMode::Rules);
            },
            AppEvent::ToggleMonitoring => {
                match self.view_mode {
                    ViewMode::Monitoring => self.set_view_mode(ViewMode::Rules),
                    _ => self.set_view_mode(ViewMode::Monitoring),
                }
            },
            AppEvent::ToggleHistory => {
                match self.view_mode {
                    ViewMode::History => self.set_view_mode(ViewMode::Rules),
                    _ => self.set_view_mode(ViewMode::History),
                }
            },
            _ => {},
        }
    }

    /// One turn of the main loop for an event: refresh, export, import and
    /// backend switching are handed to the caller as work to do (a refresh
    /// reloads the rules in the rules view and collects statistics in the
    /// monitoring view); every other event is handled as `handle_event`
    /// does.  While a form is open, events are the form's and nothing is
    /// asked.
    pub fn dispatch(&mut self, event: AppEvent) -> (r: Action)
        ensures
            old(self).selection_ok() ==> final(self).selection_ok(),
            old(self).form_view() is Some ==> r == Action::Nothing && *final(self)
                == *old(self),
            old(self).form_view() is None ==> r == action_for(old(self).mode_view(), event),
            old(self).form_view() is None && action_for(old(self).mode_view(), event)
                == Action::Nothing && !(event is Refresh) ==> event_effect(
                *old(self),
                *final(self),
                event,
            ),
            old(self).form_view() is None && (action_for(old(self).mode_view(), event)
                != Action::Nothing || event is Refresh) ==> *final(self) == *old(self),
    {
        if self.has_active_form() {
            return Action::Nothing;
        }
        match event {
            AppEvent::Refresh => match self.view_mode {
                ViewMode::Rules => Action::ReloadRules,
                ViewMode::Monitoring => Action::CollectStats,
                ViewMode::History => Action::Nothing,
            },
            AppEvent::ExportRules => Action::ExportRules,
            AppEvent::ImportRules => Action::ImportRules,
            AppEvent::SwitchBackend => Action::SwitchBackend,
            _ => {
                self.handle_event(event);
                Action::Nothing
            },
        }
    }

    /// Handles a key while a form is open: the form takes the key; when the
    /// key cancels the form, the form closes.  Gives whether the form asks to
    /// be saved.
    pub fn handle_form_key(&mut self, key: &KeyInput) -> (r: bool)
        ensures
            old(self).form_view() is None ==> !r && *final(self) == *old(self),
            old(self).form_view() matches Some(f) ==> exists|g: FormState|
                #![trigger key_result(f, g, *key)]
                key_result(f, g, *key) && if g.cancelled {
                    final(self).form_view() is None && !r
                } else {
                    final(self).form_view() == Some(g) && r == g.confirmed
                },
            final(self).same_except(&*old(self), false, false, false, true, false, false),
    {
        let mut form = match self.form.take() {
            Some(f) => f,
            None => {
                return false;
            },
        };
        let ghost f0 = form;
        form.handle_input(key);
        assert(key_result(f0, form, *key));
        if form.cancelled {
            self.form = None;
            return false;
        }
        let confirmed = form.confirmed;
        self.form = Some(form);
        confirmed
    }

    pub fn selected_index(&self) -> (r: Option<usize>)
        ensures
            self.rules_view().len() == 0 ==> r is None,
            self.rules_view().len() > 0 ==> r == Some(self.selected_view()),
    {
        if self.rules.len() == 0 {
            None
        } else {
            Some(self.selected_index)
        }
    }

    pub fn show_details(&self) -> (r: bool)
        ensures
            r == self.details_view(),
    {
        self.show_details
    }

    pub fn rules(&self) -> (r: &[FirewallRule])
        ensures
            rule_views(r@) == self.rules_view(),
    {
        self.rules.as_slice()
    }

    /// The rules, to be changed in place.
    pub fn rules_mut(&mut self) -> (r: &mut Vec<FirewallRule>)
        ensures
            rule_views(r@) == old(self).rules_view(),
            final(self).rules_view() == rule_views(final(r)@),
            final(self).same_except(&*old(self), true, false, false, false, false, false),
    {
        &mut self.rules
    }

    pub fn has_active_form(&self) -> (r: bool)
        ensures
            r == self.form_view() is Some,
    {
        match &self.form {
            Some(f) => f.is_active(),
            None => false,
        }
    }

    pub fn form(&self) -> (r: Option<&FormState>)
        ensures
            match r {
                Some(f) => self.form_view() == Some(*f),
                None => self.form_view() is None,
            },
    {
        match &self.form {
            Some(f) => Some(f),
            None => None,
        }
    }

    pub fn form_mut(&mut self) -> (r: Option<&mut FormState>)
        ensures
            match r {
                Some(f) => old(self).form_view() == Some(*f) && final(self).form_view() == Some(
                    *final(f),
                ),
                None => old(self).form_view() is None && *final(self) == *old(self),
            },
            final(self).same_except(&*old(self), false, false, false, true, false, false),
    {
        match &mut self.form {
            Some(f) => Some(f),
            None => None,
        }
    }

    /// Saves the open form.  The form is closed.  An add or edit form that
    /// does not validate is reopened with its error and reported; a valid
    /// one gives the change to run (new rules are numbered after the listed
    /// ones).  A confirmed delete form gives the deletion, recorded with the
    /// port of the listed rule of that number, or `*`.  An unconfirmed
    /// delete form, or no form, gives nothing.
    pub fn begin_save_form(&mut self) -> (r: Result<Option<PendingChange>, AppError>)
        requires
            old(self).rules_view().len() < usize::MAX,
        ensures
            match old(self).form_view() {
                None => r matches Ok(None) && *final(self) == *old(self),
                Some(f) => match f.mode {
                    FormMode::AddRule => match validation_error(f) {
                        Some(m) => r matches Err(AppError::ValidationFailed)
                            && final(self).form_view() matches Some(g) && reopened_with(f, g, m),
                        None => {
                            let id = (old(self).rules_view().len() + 1) as usize;
                            let rule = form_rule(f, id);
                            &&& final(self).form_view() is None
                            &&& r matches Ok(Some(PendingChange::Add { rule: nr, record }))
                            &&& nr@ == rule
                            &&& record matches HistoryAction::RuleAdded { id: rid, port }
                            &&& rid == id
                            &&& port@ == port_label(rule.port)
                        },
                    },
                    FormMode::EditRule(id) => match validation_error(f) {
                        Some(m) => r matches Err(AppError::ValidationFailed)
                            && final(self).form_view() matches Some(g) && reopened_with(f, g, m),
                        None => {
                            let rule = form_rule(f, id);
                            &&& final(self).form_view() is None
                            &&& r matches Ok(Some(PendingChange::Update { rule: nr, record }))
                            &&& nr@ == rule
                            &&& record matches HistoryAction::RuleEdited { id: rid, port }
                            &&& rid == id
                            &&& port@ == port_label(rule.port)
                        },
                    },
                    FormMode::DeleteConfirm(id) => {
                        &&& final(self).form_view() is None
                        &&& (!f.confirmed ==> r matches Ok(None))
                        &&& (f.confirmed ==> {
                            &&& r matches Ok(Some(PendingChange::Delete { rule_id, record }))
                            &&& rule_id == id
                            &&& record matches HistoryAction::RuleDeleted { id: rid, port }
                            &&& rid == id
                            &&& port@ == match rule_with_id(old(self).rules_view(), id) {
                                Some(k) => port_label(old(self).rules_view()[k].port),
                                None => "*"@,
                            }
                        })
                    },
                },
            },
            final(self).same_except(&*old(self), false, false, false, true, false, false),
    {
        let form = match self.form.take() {
            Some(f) => f,
            None => {
                return Ok(None);
            },
        };
        match form.mode {
            FormMode::AddRule => {
                match form.validate() {
                    Err(e) => {
                        let mut new_form = form;
                        new_form.error_message = Some(e);
                        new_form.confirmed = false;
                        self.form = Some(new_form);
                        return Err(AppError::ValidationFailed);
                    },
                    Ok(()) => {},
                }
                let new_id = self.rules.len() + 1;
                match form.to_rule(new_id) {
                    Some(rule) => {
                        let port = port_text(&rule.port);
                        Ok(Some(PendingChange::Add { rule, record: HistoryAction::RuleAdded { id: new_id, port } }))
                    },
                    None => Ok(None),
                }
            },
            FormMode::EditRule(rule_id) => {
                match form.validate() {
                    Err(e) => {
                        let mut new_form = form;
                        new_form.error_message = Some(e);
                        new_form.confirmed = false;
                        self.form = Some(new_form);
                        return Err(AppError::ValidationFailed);
                    },
                    Ok(()) => {},
                }
                match form.to_rule(rule_id) {
                    Some(rule) => {
                        let port = port_text(&rule.port);
                        Ok(Some(PendingChange::Update { rule, record: HistoryAction::RuleEdited { id: rule_id, port } }))
                    },
                    None => Ok(None),
                }
            },
            FormMode::DeleteConfirm(rule_id) => {
                if form.confirmed {
                    let port = self.port_of_rule(rule_id);
                    Ok(Some(PendingChange::Delete { rule_id, record: HistoryAction::RuleDeleted { id: rule_id, port } }))
                } else {
                    Ok(None)
                }
            },
        }
    }

    /// The port of the first listed rule numbered `rule_id`, or `*`.
    fn port_of_rule(&self, rule_id: usize) -> (r: String)
        ensures
            r@ == match rule_with_id(self.rules_view(), rule_id) {
                Some(k) => port_label(self.rules_view()[k].port),
                None => "*"@,
            },
    {
        let ghost rv = self.rules_view();
        let mut j: usize = 0;
        assert(rv.skip(0) =~= rv);
        while j < self.rules.len()
            invariant
                j <= self.rules@.len(),
                rv == rule_views(self.rules@),
                match rule_with_id(rv.skip(j as int), rule_id) {
                    Some(x) => rule_with_id(rv, rule_id) == Some(x + j),
                    None => rule_with_id(rv, rule_id) is None,
                },
            decreases self.rules.len() - j,
        {
            assert(rv.skip(j as int)[0] == self.rules@[j as int]@);
            if self.rules[j].id == rule_id {
                return port_text(&self.rules[j].port);
            }
            assert(rv.skip(j as int).drop_first() =~= rv.skip(j + 1));
            j = j + 1;
        }
        assert(rv.skip(j as int) =~= Seq::<RuleView>::empty());
        owned("*")
    }

    /// Records a change that the backend has made (after the rules were
    /// reloaded): the selection is kept within the list and the change is
    /// added to the history.
    pub fn finish_change(&mut self, change: PendingChange)
        ensures
            final(self).selection_ok(),
            final(self).selected_view() == if old(self).rules_view().len() > 0
                && old(self).selected_view() >= old(self).rules_view().len() {
                (old(self).rules_view().len() - 1) as usize
            } else {
                old(self).selected_view()
            },
            exists|e: HistoryEntry|
                #![trigger appended(old(self).history_view().entries_view(), e, old(self).history_view().max_view())]
                e.action == change.record_of() && final(self).history_view().entries_view()
                    == appended(
                    old(self).history_view().entries_view(),
                    e,
                    old(self).history_view().max_view(),
                ),
            final(self).history_view().max_view() == old(self).history_view().max_view(),
            final(self).rules_view() == old(self).rules_view(),
            final(self).form_view() == old(self).form_view(),
            final(self).mode_view() == old(self).mode_view(),
            final(self).details_view() == old(self).details_view(),
            final(self).running_view() == old(self).running_view(),
    {
        if self.rules.len() > 0 && self.selected_index >= self.rules.len() {
            self.selected_index = self.rules.len() - 1;
        }
        let ghost before = self.history;
        let record = match change {
            PendingChange::Add { record, .. } => record,
            PendingChange::Update { record, .. } => record,
            PendingChange::Delete { record, .. } => record,
        };
        assert(record == change.record_of());
        self.history.add(record);
        proof {
            let e = choose|e: HistoryEntry|
                #![trigger appended(before.entries_view(), e, before.max_view())]
                e.action == record && self.history.entries_view() == appended(
                    before.entries_view(),
                    e,
                    before.max_view(),
                );
            assert(e.action == change.record_of());
            assert(before == old(self).history_view());
            assert(self.history_view().entries_view() == appended(
                old(self).history_view().entries_view(),
                e,
                old(self).history_view().max_view(),
            ));
        }
    }

    pub fn cancel_form(&mut self)
        ensures
            final(self).form_view() is None,
            final(self).same_except(&*old(self), false, false, false, true, false, false),
    {
        self.form = None;
    }

    pub fn view_mode(&self) -> (r: ViewMode)
        ensures
            r == self.mode_view(),
    {
        self.view_mode
    }

    /// Switches the view; the details of a rule are closed.
    pub fn set_view_mode(&mut self, mode: ViewMode)
        ensures
            final(self).mode_view() == mode,
            !final(self).details_view(),
            final(self).same_except(&*old(self), false, false, true, false, true, false),
    {
        self.view_mode = mode;
        self.show_details = false;
    }

    pub fn history(&self) -> (r: &HistoryLog)
        ensures
            *r == self.history_view(),
    {
        &self.history
    }

    pub fn history_mut(&mut self) -> (r: &mut HistoryLog)
        ensures
            *r == old(self).history_view(),
            final(self).history_view() == *final(r),
    {
        &mut self.history
    }

    pub fn monitor(&self) -> (r: &TrafficMonitor)
        ensures
            *r == self.monitor_view(),
    {
        &self.monitor
    }

    /// Takes the outcome of collecting statistics: new statistics replace
    /// the old ones; a failure is reported and the old ones stay.
    pub fn refresh_monitoring(&mut self, result: Result<TrafficStats, MonitoringError>) -> (r:
        Result<(), AppError>)
        ensures
            match result {
                Ok(stats) => r is Ok && final(self).stats_view() == Some(stats),
                Err(e) => (r matches Err(AppError::MonitoringFailed(m)) && m@
                    == monitoring_error_text(e)) && final(self).stats_view() == old(
                    self,
                ).stats_view(),
            },
            final(self).rules_view() == old(self).rules_view(),
            final(self).selected_view() == old(self).selected_view(),
            final(self).form_view() == old(self).form_view(),
            final(self).mode_view() == old(self).mode_view(),
            final(self).history_view() == old(self).history_view(),
    {
        match result {
            Ok(stats) => {
                self.monitoring_stats = Some(stats);
                Ok(())
            },
            Err(e) => Err(AppError::MonitoringFailed(e.message())),
        }
    }

    pub fn monitoring_stats(&self) -> (r: Option<&TrafficStats>)
        ensures
            match r {
                Some(s) => self.stats_view() == Some(*s),
                None => self.stats_view() is None,
            },
    {
        match &self.monitoring_stats {
            Some(s) => Some(s),
            None => None,
        }
    }

    pub fn history_offset(&self) -> (r: usize)
        ensures
            r == self.offset_view(),
    {
        self.history_offset
    }

    pub fn set_history_offset(&mut self, offset: usize)
        ensures
            final(self).offset_view() == offset,
            final(self).rules_view() == old(self).rules_view(),
            final(self).selected_view() == old(self).selected_view(),
            final(self).form_view() == old(self).form_view(),
            final(self).mode_view() == old(self).mode_view(),
    {
        self.history_offset = offset;
    }
}

/// The port text recorded for a rule: its port, or `*`.
fn port_text(p: &Option<String>) -> (r: String)
    ensures
        r@ == port_label(crate::text::opt_view(*p)),
{
    match p {
        Some(s) => s.clone(),
        None => owned("*"),
    }
}

/// What an event does when no form is open.
pub open spec fn event_effect(old: App, new: App, e: AppEvent) -> bool {
    let n = old.rules_view().len();
    let sel = old.selected_view();
    match e {
        AppEvent::Quit => !new.running_view() && new.same_except(
            &old,
            false,
            false,
            false,
            false,
            false,
            true,
        ),
        AppEvent::Up => new.selected_view() == (if n > 0 && sel > 0 {
            (sel - 1) as usize
        } else {
            sel
        }) && new.same_except(&old, false, true, false, false, false, false),
        AppEvent::Down => new.selected_view() == (if n > 0 && sel < n - 1 {
            (sel + 1) as usize
        } else {
            sel
        }) && new.same_except(&old, false, true, false, false, false, false),
        AppEvent::Enter => new.details_view() == (if n > 0 {
            !old.details_view()
        } else {
            old.details_view()
        }) && new.same_except(&old, false, false, true, false, false, false),
        AppEvent::AddRule => (new.form_view() matches Some(f) && is_add_form(f))
            && new.same_except(&old, false, false, false, true, false, false),
        AppEvent::EditRule => (if n > 0 && sel < n {
            new.form_view() matches Some(f) && edit_fields(f, old.rules_view()[sel as int])
        } else {
            new.form_view() is None
        }) && new.same_except(&old, false, false, false, true, false, false),
        AppEvent::DeleteRule => (if n > 0 && sel < n {
            new.form_view() matches Some(f) && is_delete_form(
                f,
                old.rules_view()[sel as int].id,
            )
        } else {
            new.form_view() is None
        }) && new.same_except(&old, false, false, false, true, false, false),
        AppEvent::Cancel => new.mode_view() == ViewMode::Rules && !new.details_view()
            && new.same_except(&old, false, false, true, false, true, false),
        AppEvent::ToggleMonitoring => new.mode_view() == (if old.mode_view()
            == ViewMode::Monitoring {
            ViewMode::Rules
        } else {
            ViewMode::Monitoring
        }) && !new.details_view() && new.same_except(&old, false, false, true, false, true, false),
        AppEvent::ToggleHistory => new.mode_view() == (if old.mode_view() == ViewMode::History {
            ViewMode::Rules
        } else {
            ViewMode::History
        }) && !new.details_view() && new.same_except(&old, false, false, true, false, true, false),
        _ => new.same_except(&old, false, false, false, false, false, false),
    }
}

/// Law: from the rules view, pressing the monitoring toggle twice comes
/// back to the rules view with the same rules and selection.
pub proof fn lemma_monitoring_toggle_returns(a: App, b: App, c: App)
    requires
        a.form_view() is None,
        a.mode_view() == ViewMode::Rules,
        event_effect(a, b, AppEvent::ToggleMonitoring),
        event_effect(b, c, AppEvent::ToggleMonitoring),
    ensures
        b.mode_view() == ViewMode::Monitoring,
        c.mode_view() == ViewMode::Rules,
        c.rules_view() == a.rules_view(),
        c.selected_view() == a.selected_view(),
        c.form_view() is None,
        !c.details_view(),
{
}

/// Law: from the rules view, pressing the history toggle twice comes back
/// to the rules view with the same rules and selection.
pub proof fn lemma_history_toggle_returns(a: App, b: App, c: App)
    requires
        a.form_view() is None,
        a.mode_view() == ViewMode::Rules,
        event_effect(a, b, AppEvent::ToggleHistory),
        event_effect(b, c, AppEvent::ToggleHistory),
    ensures
        b.mode_view() == ViewMode::History,
        c.mode_view() == ViewMode::Rules,
        c.rules_view() == a.rules_view(),
        c.selected_view() == a.selected_view(),
        c.form_view() is None,
        !c.details_view(),
{
}

/// Law: moving down and then up comes back to the same rule, unless the
/// selection was already on the last rule.
pub proof fn lemma_down_then_up(a: App, b: App, c: App)
    requires
        a.rules_view().len() <= usize::MAX,
        a.selection_ok(),
        a.selected_view() + 1 < a.rules_view().len(),
        event_effect(a, b, AppEvent::Down),
        event_effect(b, c, AppEvent::Up),
    ensures
        b.selected_view() == a.selected_view() + 1,
        c.selected_view() == a.selected_view(),
        c.rules_view() == a.rules_view(),
{
}

/// Law: the selection never leaves the list; on a non-empty list it
/// stays on the first and last rule when moved past them.
pub proof fn lemma_moves_stay_in_list(a: App, b: App, e: AppEvent)
    requires
        a.selection_ok(),
        e == AppEvent::Up || e == AppEvent::Down,
        event_effect(a, b, e),
    ensures
        b.selection_ok(),
        a.rules_view().len() > 0 && a.selected_view() == 0 && e == AppEvent::Up
            ==> b.selected_view() == 0,
        a.rules_view().len() > 0 && a.selected_view() == a.rules_view().len() - 1 && e
            == AppEvent::Down ==> b.selected_view() == a.selected_view(),
{
}

/// Law: pressing Enter twice opens and closes the details of the selected
/// rule, leaving the details as they were.
pub proof fn lemma_details_toggle_twice(a: App, b: App, c: App)
    requires
        event_effect(a, b, AppEvent::Enter),
        event_effect(b, c, AppEvent::Enter),
    ensures
        c.details_view() == a.details_view(),
        a.rules_view().len() > 0 ==> b.details_view() == !a.details_view(),
        c.selected_view() == a.selected_view(),
        c.mode_view() == a.mode_view(),
{
}

} // verus!
