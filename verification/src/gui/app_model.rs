//! The application list as the GUI shows it, and which entry is selected.
use vstd::prelude::*;
use crate::applications::{AppWindow, opt_view};
use crate::session_metadata::{SessionMetadata, recorded_process_name, session_metadata_for};
use crate::text::{TrimSet, dec, push_dec, push_str, str_eq, string_of, trim, trim_chars};
use crate::uuid_text::{is_v4_uuid_text, spec_v4_uuid_text};

verus! {

/// An application with the label shown for it.
#[derive(Debug, Clone)]
pub struct AppItem {
    pub app: AppWindow,
    pub label: String,
}

/// What identifies the selected application across a refresh of the list.
#[derive(Debug, Clone, PartialEq, Eq)]
pub struct AppIdentity {
    hwnd: isize,
    process_id: u32,
    title: String,
}

/// The selection state of the application list.
#[derive(Debug)]
pub struct AppSelection {
    apps: Vec<AppItem>,
    selected_index: Option<usize>,
    status_text: String,
    logging: bool,
    last_log_dir: Option<String>,
}

/// The process name shown in a label: the name, or `(unknown)`.
pub open spec fn label_process_name(app: AppWindow) -> Seq<char> {
    match app.process_name {
        Some(n) => n@,
        None => "(unknown)"@,
    }
}

/// `{trimmed title} | {process name} | pid:{process id}`.
pub open spec fn spec_label(app: AppWindow) -> Seq<char> {
    trim(app.title@, TrimSet::Whitespace) + " | "@ + label_process_name(app) + " | pid:"@ + dec(
        app.process_id as nat,
    )
}

/// The label of an application (see `spec_label`).
pub fn build_label(app: &AppWindow) -> (r: String)
    ensures
        r@ == spec_label(*app),
{
    let mut s = trim_chars(app.title.as_str(), TrimSet::Whitespace);
    push_str(&mut s, " | ");
    match &app.process_name {
        Some(name) => push_str(&mut s, name.as_str()),
        None => push_str(&mut s, "(unknown)"),
    }
    push_str(&mut s, " | pid:");
    push_dec(&mut s, app.process_id as u64);
    s
}

/// Same handle, process and title.
pub open spec fn same_app(a: AppWindow, b: AppWindow) -> bool {
    a.hwnd == b.hwnd && a.process_id == b.process_id && a.title@ == b.title@
}

/// A copy of an application record.
fn copy_app(app: &AppWindow) -> (r: AppWindow)
    ensures
        same_app(r, *app),
        opt_view(r.process_name) == opt_view(app.process_name),
{
    AppWindow {
        hwnd: app.hwnd,
        title: app.title.clone(),
        process_id: app.process_id,
        process_name: match &app.process_name {
            Some(n) => Some(n.clone()),
            None => None,
        },
    }
}

/// The list items of the applications, in order.
pub fn build_items(apps: Vec<AppWindow>) -> (items: Vec<AppItem>)
    ensures
        items.len() == apps.len(),
        forall|i: int|
            0 <= i < items.len() ==> same_app((#[trigger] items@[i]).app, apps@[i])
                && opt_view(items@[i].app.process_name) == opt_view(apps@[i].process_name)
                && items@[i].label@ == spec_label(apps@[i]),
{
    let mut items: Vec<AppItem> = Vec::new();
    let mut i: usize = 0;
    while i < apps.len()
        invariant
            i <= apps.len(),
            items.len() == i,
            forall|j: int|
                0 <= j < i ==> same_app((#[trigger] items@[j]).app, apps@[j]) && opt_view(
                    items@[j].app.process_name,
                ) == opt_view(apps@[j].process_name) && items@[j].label@ == spec_label(apps@[j]),
        decreases apps.len() - i,
    {
        let app = &apps[i];
        let label = build_label(app);
        items.push(AppItem { app: copy_app(app), label });
        i = i + 1;
    }
    items
}

impl AppIdentity {
    pub closed spec fn hwnd(&self) -> isize {
        self.hwnd
    }

    pub closed spec fn process_id(&self) -> u32 {
        self.process_id
    }

    pub closed spec fn title(&self) -> Seq<char> {
        self.title@
    }

    /// The identity of `app`.
    pub fn from_app(app: &AppWindow) -> (r: Self)
        ensures
            r.hwnd() == app.hwnd,
            r.process_id() == app.process_id,
            r.title() == app.title@,
    {
        AppIdentity { hwnd: app.hwnd, process_id: app.process_id, title: app.title.clone() }
    }

    /// Whether `app` has this identity: same window handle, process id and title.
    pub fn matches(&self, app: &AppWindow) -> (r: bool)
        ensures
            r == (self.hwnd() == app.hwnd && self.process_id() == app.process_id && self.title()
                == app.title@),
    {
        self.hwnd == app.hwnd && self.process_id == app.process_id && str_eq(
            self.title.as_str(),
            app.title.as_str(),
        )
    }
}

/// The first position of an item with the given identity.
pub fn preserve_selected_index(apps: &Vec<AppItem>, preserve: Option<AppIdentity>) -> (r: Option<
    usize,
>)
    ensures
        match preserve {
            None => r.is_none(),
            Some(id) => match r {
                Some(i) => i < apps.len() && apps@[i as int].app.hwnd == id.hwnd()
                    && apps@[i as int].app.process_id == id.process_id() && apps@[i as int].app.title@
                    == id.title() && forall|j: int|
                    0 <= j < i ==> !(apps@[j].app.hwnd == id.hwnd() && apps@[j].app.process_id
                        == id.process_id() && apps@[j].app.title@ == id.title()),
                None => forall|j: int|
                    0 <= j < apps.len() ==> !(apps@[j].app.hwnd == id.hwnd()
                        && apps@[j].app.process_id == id.process_id() && apps@[j].app.title@
                        == id.title()),
            },
        },
{
    match &preserve {
        None => None,
        Some(target) => {
            let mut i: usize = 0;
            while i < apps.len()
                invariant
                    preserve == Some(*target),
                    i <= apps.len(),
                    forall|j: int|
                        0 <= j < i ==> !(apps@[j].app.hwnd == target.hwnd() && apps@[j].app.process_id
                            == target.process_id() && apps@[j].app.title@ == target.title()),
                decreases apps.len() - i,
            {
                if target.matches(&apps[i].app) {
                    return Some(i);
                }
                i = i + 1;
            }
            None
        },
    }
}

/// The status line after a successful refresh that found `n` applications.
pub open spec fn spec_refresh_status(n: nat, selection_kept: bool, is_initial: bool) -> Seq<char> {
    if n == 0 {
        "No running applications found."@
    } else if !selection_kept {
        if is_initial {
            "Loaded "@ + dec(n) + " applications. Select one."@
        } else {
            "Refreshed "@ + dec(n) + " applications. Selection was cleared."@
        }
    } else if is_initial {
        "Loaded "@ + dec(n) + " applications."@
    } else {
        "Refreshed "@ + dec(n) + " applications."@
    }
}

/// The status line after selecting an existing entry.
pub open spec fn spec_selected_status(app: AppWindow) -> Seq<char> {
    "Selected: "@ + app.title@ + " (pid "@ + dec(app.process_id as nat) + ", "@ + match app.process_name {
        Some(n) => n@,
        None => "unknown"@,
    } + ")."@
}

impl AppSelection {
    pub closed spec fn items(&self) -> Seq<AppItem> {
        self.apps@
    }

    pub closed spec fn selected(&self) -> Option<usize> {
        self.selected_index
    }

    pub closed spec fn status(&self) -> Seq<char> {
        self.status_text@
    }

    /// Whether a logging session is running.
    pub closed spec fn is_logging(&self) -> bool {
        self.logging
    }

    /// The log directory of the last started session, if any.
    pub closed spec fn last_dir(&self) -> Option<Seq<char>> {
        opt_view(self.last_log_dir)
    }

    /// The selection is within the list.
    pub closed spec fn wf(&self) -> bool {
        match self.selected_index {
            Some(i) => i < self.apps.len(),
            None => true,
        }
    }

    /// An empty list, nothing selected, status `Ready`.
    pub fn new() -> (r: Self)
        ensures
            r.wf(),
            r.items().len() == 0,
            r.selected() == None::<usize>,
            r.status() == "Ready"@,
            !r.is_logging(),
            r.last_dir() == None::<Seq<char>>,
    {
        AppSelection {
            apps: Vec::new(),
            selected_index: None,
            status_text: string_of("Ready"),
            logging: false,
            last_log_dir: None,
        }
    }

    /// The list items.
    pub fn apps(&self) -> (r: &Vec<AppItem>)
        ensures
            r@ == self.items(),
    {
        &self.apps
    }

    /// The selected position, if any.
    pub fn selected_index(&self) -> (r: Option<usize>)
        ensures
            r == self.selected(),
    {
        self.selected_index
    }

    /// The status line.
    pub fn status_text(&self) -> (r: &str)
        ensures
            r@ == self.status(),
    {
        self.status_text.as_str()
    }

    /// The selected item, if any.
    pub fn selected_app(&self) -> (r: Option<&AppItem>)
        requires
            self.wf(),
        ensures
            match self.selected() {
                Some(i) => r == Some(&self.items()[i as int]),
                None => r.is_none(),
            },
    {
        match self.selected_index {
            Some(i) => Some(&self.apps[i]),
            None => None,
        }
    }

    /// Replaces the list after a successful refresh. The previously selected
    /// application stays selected if it is still listed (at its first
    /// position); the status line tells what happened.
    pub fn apply_refresh(&mut self, apps: Vec<AppWindow>, is_initial: bool)
        requires
            old(self).wf(),
        ensures
            final(self).wf(),
            final(self).items().len() == apps.len(),
            forall|i: int|
                0 <= i < apps.len() ==> same_app((#[trigger] final(self).items()[i]).app, apps@[i])
                    && final(self).items()[i].label@ == spec_label(apps@[i]),
            match old(self).selected() {
                None => final(self).selected().is_none(),
                Some(k) => {
                    let prev = old(self).items()[k as int].app;
                    match final(self).selected() {
                        Some(i) => same_app(apps@[i as int], prev) && forall|j: int|
                            0 <= j < i ==> !same_app(apps@[j], prev),
                        None => forall|j: int| 0 <= j < apps.len() ==> !same_app(apps@[j], prev),
                    }
                },
            },
            final(self).status() == spec_refresh_status(
                apps.len() as nat,
                final(self).selected().is_some(),
                is_initial,
            ),
            final(self).is_logging() == old(self).is_logging(),
            final(self).last_dir() == old(self).last_dir(),
    {
        let preserve = match self.selected_index {
            Some(i) => Some(AppIdentity::from_app(&self.apps[i].app)),
            None => None,
        };
        let n = apps.len();
        let ghost apps_view = apps@;
        let ghost old_items = self.apps@;
        let ghost old_selected = self.selected_index;
        let items = build_items(apps);
        let selected = preserve_selected_index(&items, preserve);
        proof {
            match old_selected {
                Some(k) => {
                    let prev = old_items[k as int].app;
                    assert forall|j: int| 0 <= j < items.len() && same_app(apps_view[j], prev) implies
                        items@[j].app.hwnd == prev.hwnd && items@[j].app.process_id == prev.process_id
                            && items@[j].app.title@ == prev.title@ by {
                        assert(same_app(items@[j].app, apps_view[j]));
                    }
                    assert forall|j: int| 0 <= j < items.len() && items@[j].app.hwnd == prev.hwnd
                        && items@[j].app.process_id == prev.process_id && items@[j].app.title@ == prev.title@
                        implies same_app(apps_view[j], prev) by {
                        assert(same_app(items@[j].app, apps_view[j]));
                    }
                },
                None => {},
            }
        }
        self.apps = items;
        self.selected_index = selected;
        let mut status = String::new();
        if n == 0 {
            self.selected_index = None;
            push_str(&mut status, "No running applications found.");
        } else if self.selected_index.is_none() {
            if is_initial {
                push_str(&mut status, "Loaded ");
                push_dec(&mut status, n as u64);
                push_str(&mut status, " applications. Select one.");
            } else {
                push_str(&mut status, "Refreshed ");
                push_dec(&mut status, n as u64);
                push_str(&mut status, " applications. Selection was cleared.");
            }
        } else if is_initial {
            push_str(&mut status, "Loaded ");
            push_dec(&mut status, n as u64);
            push_str(&mut status, " applications.");
        } else {
            push_str(&mut status, "Refreshed ");
            push_dec(&mut status, n as u64);
            push_str(&mut status, " applications.");
        }
        self.status_text = status;
    }

    /// Records a failed refresh; the list and selection stay as they were.
    pub fn apply_refresh_error(&mut self, error_text: &str)
        ensures
            final(self).items() == old(self).items(),
            final(self).selected() == old(self).selected(),
            final(self).wf() == old(self).wf(),
            final(self).status() == "Failed to load applications: "@ + error_text@,
            final(self).is_logging() == old(self).is_logging(),
            final(self).last_dir() == old(self).last_dir(),
    {
        let mut status = String::new();
        push_str(&mut status, "Failed to load applications: ");
        push_str(&mut status, error_text);
        self.status_text = status;
    }

    /// Selects the entry at `index` (negative clears the selection).
    pub fn update_selection(&mut self, index: i32)
        requires
            old(self).wf(),
        ensures
            final(self).wf(),
            final(self).items() == old(self).items(),
            index < 0 ==> final(self).selected().is_none() && final(self).status()
                == "Selection cleared."@,
            index >= 0 && index >= old(self).items().len() ==> final(self).selected().is_none()
                && final(self).status() == "Selected item no longer exists."@,
            0 <= index < old(self).items().len() ==> final(self).selected() == Some(index as usize)
                && final(self).status() == spec_selected_status(old(self).items()[index as int].app),
            final(self).is_logging() == old(self).is_logging(),
            final(self).last_dir() == old(self).last_dir(),
    {
        if index < 0 {
            self.selected_index = None;
            self.status_text = string_of("Selection cleared.");
            return;
        }
        let index: usize = index as usize;
        if index >= self.apps.len() {
            self.selected_index = None;
            self.status_text = string_of("Selected item no longer exists.");
            return;
        }
        self.selected_index = Some(index);
        let app = &self.apps[index].app;
        let mut status = String::new();
        push_str(&mut status, "Selected: ");
        push_str(&mut status, app.title.as_str());
        push_str(&mut status, " (pid ");
        push_dec(&mut status, app.process_id as u64);
        push_str(&mut status, ", ");
        match &app.process_name {
            Some(name) => push_str(&mut status, name.as_str()),
            None => push_str(&mut status, "unknown"),
        }
        push_str(&mut status, ").");
        self.status_text = status;
    }
}

/// What starting a session does: log `app`, and write `metadata` into the
/// session's log directory.
#[derive(Debug, Clone)]
pub struct StartPlan {
    pub app: AppWindow,
    pub metadata: SessionMetadata,
}

/// The step at which starting a logging session failed.
#[derive(Debug, Clone, Copy, PartialEq, Eq, Structural)]
pub enum StartFailure {
    LogDirectory,
    SessionMetadata,
    InputLogging,
    ScreenCapture,
}

/// The start of the status line after a failed start.
pub open spec fn start_failure_prefix(failure: StartFailure) -> Seq<char> {
    match failure {
        StartFailure::LogDirectory => "Failed to create log directory: "@,
        StartFailure::SessionMetadata => "Failed to write session metadata: "@,
        StartFailure::InputLogging => "Failed to start input logging: "@,
        StartFailure::ScreenCapture => "Failed to start screen capture: "@,
    }
}

/// The status line after stopping, given the error text of a failed stop.
pub open spec fn spec_stopped_status(error_text: Option<Seq<char>>) -> Seq<char> {
    match error_text {
        None => "Logging stopped."@,
        Some(e) => "Failed to stop logging cleanly: "@ + e,
    }
}

/// The status line after asking to open `path`, given the error text of a failure.
pub open spec fn spec_opened_status(path: Seq<char>, error_text: Option<Seq<char>>) -> Seq<char> {
    match error_text {
        None => "Opened log folder: "@ + path,
        Some(e) => "Failed to open folder: "@ + e,
    }
}

/// The text of an optional string slice.
pub open spec fn opt_str_view(s: Option<&str>) -> Option<Seq<char>> {
    match s {
        Some(v) => Some(v@),
        None => None,
    }
}

impl AppSelection {
    /// Whether a logging session is running.
    pub fn logging(&self) -> (r: bool)
        ensures
            r == self.is_logging(),
    {
        self.logging
    }

    /// Whether a log directory can be opened.
    pub fn has_log_dir(&self) -> (r: bool)
        ensures
            r == self.last_dir().is_some(),
    {
        self.last_log_dir.is_some()
    }

    /// Decides whether a session may start: not while one runs, and not
    /// without a selection. On refusal the status line says why. Otherwise
    /// returns the application to log and the session metadata to write into
    /// its log directory when logging starts (see `session_metadata_for`),
    /// with the session id made from `session_random_bytes`.
    pub fn begin_start(
        &mut self,
        local_participant_id: &str,
        operation_logger_version: &str,
        is_production_build: bool,
        started_at_utc: String,
        session_random_bytes: [u8; 16],
    ) -> (r: Option<StartPlan>)
        requires
            old(self).wf(),
        ensures
            final(self).wf(),
            final(self).items() == old(self).items(),
            final(self).selected() == old(self).selected(),
            final(self).is_logging() == old(self).is_logging(),
            final(self).last_dir() == old(self).last_dir(),
            old(self).is_logging() ==> r.is_none() && final(self).status()
                == "Logging is already running."@,
            !old(self).is_logging() && old(self).selected().is_none() ==> r.is_none()
                && final(self).status() == "Select an application first."@,
            !old(self).is_logging() && old(self).selected().is_some() ==> ({
                let app = old(self).items()[old(self).selected().unwrap() as int].app;
                &&& r.is_some()
                &&& same_app(r.unwrap().app, app)
                &&& opt_view(r.unwrap().app.process_name) == opt_view(app.process_name)
                &&& final(self).status() == old(self).status()
                &&& r.unwrap().metadata.operation_logger_version@ == operation_logger_version@
                &&& r.unwrap().metadata.is_production_build == is_production_build
                &&& r.unwrap().metadata.local_participant_id@ == local_participant_id@
                &&& r.unwrap().metadata.session_id@ == spec_v4_uuid_text(session_random_bytes@)
                &&& is_v4_uuid_text(r.unwrap().metadata.session_id@)
                &&& r.unwrap().metadata.started_at_utc == started_at_utc
                &&& r.unwrap().metadata.target_app.title@ == app.title@
                &&& r.unwrap().metadata.target_app.process_name@ == recorded_process_name(app)
            }),
    {
        if self.logging {
            self.status_text = string_of("Logging is already running.");
            return None;
        }
        match self.selected_index {
            Some(i) => {
                let app = copy_app(&self.apps[i].app);
                let metadata = session_metadata_for(
                    &app,
                    local_participant_id,
                    operation_logger_version,
                    is_production_build,
                    started_at_utc,
                    session_random_bytes,
                );
                Some(StartPlan { app, metadata })
            },
            None => {
                self.status_text = string_of("Select an application first.");
                None
            },
        }
    }

    /// Records that starting failed at `failure` with `error_text`.
    pub fn start_failed(&mut self, failure: StartFailure, error_text: &str)
        ensures
            final(self).wf() == old(self).wf(),
            final(self).items() == old(self).items(),
            final(self).selected() == old(self).selected(),
            final(self).is_logging() == old(self).is_logging(),
            final(self).last_dir() == old(self).last_dir(),
            final(self).status() == start_failure_prefix(failure) + error_text@,
    {
        let mut status = String::new();
        match failure {
            StartFailure::LogDirectory => push_str(&mut status, "Failed to create log directory: "),
            StartFailure::SessionMetadata => push_str(
                &mut status,
                "Failed to write session metadata: ",
            ),
            StartFailure::InputLogging => push_str(&mut status, "Failed to start input logging: "),
            StartFailure::ScreenCapture => push_str(&mut status, "Failed to start screen capture: "),
        }
        push_str(&mut status, error_text);
        self.status_text = status;
    }

    /// Records a session that started, writing into `log_dir`.
    pub fn started(&mut self, log_dir: &str)
        ensures
            final(self).wf() == old(self).wf(),
            final(self).items() == old(self).items(),
            final(self).selected() == old(self).selected(),
            final(self).is_logging(),
            final(self).last_dir() == Some(log_dir@),
            final(self).status() == "Logging started: "@ + log_dir@,
    {
        let mut status = String::new();
        push_str(&mut status, "Logging started: ");
        push_str(&mut status, log_dir);
        self.status_text = status;
        self.logging = true;
        self.last_log_dir = Some(string_of(log_dir));
    }

    /// Decides whether there is a session to stop; if not, the status line says so.
    pub fn begin_stop(&mut self) -> (r: bool)
        ensures
            r == old(self).is_logging(),
            final(self).wf() == old(self).wf(),
            final(self).items() == old(self).items(),
            final(self).selected() == old(self).selected(),
            final(self).is_logging() == old(self).is_logging(),
            final(self).last_dir() == old(self).last_dir(),
            r ==> final(self).status() == old(self).status(),
            !r ==> final(self).status() == "Logging is not running."@,
    {
        if !self.logging {
            self.status_text = string_of("Logging is not running.");
            return false;
        }
        true
    }

    /// Records that the session stopped; `error_text` is the first error met
    /// while stopping, if any.
    pub fn stopped(&mut self, error_text: Option<&str>)
        ensures
            final(self).wf() == old(self).wf(),
            final(self).items() == old(self).items(),
            final(self).selected() == old(self).selected(),
            !final(self).is_logging(),
            final(self).last_dir() == old(self).last_dir(),
            final(self).status() == spec_stopped_status(opt_str_view(error_text)),
    {
        let mut status = String::new();
        match error_text {
            None => push_str(&mut status, "Logging stopped."),
            Some(e) => {
                push_str(&mut status, "Failed to stop logging cleanly: ");
                push_str(&mut status, e);
            },
        }
        self.status_text = status;
        self.logging = false;
    }

    /// The folder to open: the last log directory; without one the status
    /// line says so.
    pub fn folder_to_open(&mut self) -> (r: Option<String>)
        ensures
            opt_view(r) == old(self).last_dir(),
            final(self).wf() == old(self).wf(),
            final(self).items() == old(self).items(),
            final(self).selected() == old(self).selected(),
            final(self).is_logging() == old(self).is_logging(),
            final(self).last_dir() == old(self).last_dir(),
            r.is_some() ==> final(self).status() == old(self).status(),
            r.is_none() ==> final(self).status() == "No log folder is available yet."@,
    {
        match &self.last_log_dir {
            Some(dir) => Some(dir.clone()),
            None => {
                self.status_text = string_of("No log folder is available yet.");
                None
            },
        }
    }

    /// Records the outcome of opening `path`; `error_text` tells why it failed.
    pub fn folder_opened(&mut self, path: &str, error_text: Option<&str>)
        ensures
            final(self).wf() == old(self).wf(),
            final(self).items() == old(self).items(),
            final(self).selected() == old(self).selected(),
            final(self).is_logging() == old(self).is_logging(),
            final(self).last_dir() == old(self).last_dir(),
            final(self).status() == spec_opened_status(path@, opt_str_view(error_text)),
    {
        let mut status = String::new();
        match error_text {
            None => {
                push_str(&mut status, "Opened log folder: ");
                push_str(&mut status, path);
            },
            Some(e) => {
                push_str(&mut status, "Failed to open folder: ");
                push_str(&mut status, e);
            },
        }
        self.status_text = status;
    }

    /// The selected position as the list widget takes it: `-1` for none.
    pub fn selected_index_for_ui(&self) -> (r: i32)
        ensures
            match self.selected() {
                Some(i) => if i <= i32::MAX { r == i } else { r == -1 },
                None => r == -1,
            },
    {
        match self.selected_index {
            Some(i) => if i <= 0x7fff_ffff {
                i as i32
            } else {
                -1
            },
            None => -1,
        }
    }

    /// The title, process name and process id shown for the selection, or
    /// `-` for each when nothing is selected.
    pub fn selected_details(&self) -> (r: (String, String, String))
        requires
            self.wf(),
        ensures
            match self.selected() {
                None => r.0@ == "-"@ && r.1@ == "-"@ && r.2@ == "-"@,
                Some(i) => {
                    let app = self.items()[i as int].app;
                    &&& r.0@ == app.title@
                    &&& r.1@ == label_process_name(app)
                    &&& r.2@ == dec(app.process_id as nat)
                },
            },
    {
        match self.selected_index {
            None => (string_of("-"), string_of("-"), string_of("-")),
            Some(i) => {
                let app = &self.apps[i].app;
                let name = match &app.process_name {
                    Some(n) => n.clone(),
                    None => string_of("(unknown)"),
                };
                let mut pid = String::new();
                push_dec(&mut pid, app.process_id as u64);
                (app.title.clone(), name, pid)
            },
        }
    }
}

} // verus!
