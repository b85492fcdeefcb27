//! The interactive state machine of the terminal interface.  Each input
//! (key, mouse action, finished background task) moves the state to its
//! next value and may ask the application for one effect: to start a task
//! in the background, or to load the registry file.

use vstd::prelude::*;
use crate::layout::{ScreenGeometry, SidebarHit, sidebar_hit_in, sidebar_hit_in_spec, update_row_at, update_row_spec};
use crate::model::{Registry, Snapshot, UpdateCandidate};
use crate::text::{decimal, decimal_text};

verus! {

/// The views of the interface, in the order the sidebar lists them.
#[derive(Clone, Copy, Debug, PartialEq, Eq, Structural)]
pub enum Screen {
    Dashboard,
    Packages,
    Registry,
    Updates,
    Activity,
}

/// The view at a position of the sidebar.
pub open spec fn screen_at(i: int) -> Screen {
    if i == 0 {
        Screen::Dashboard
    } else if i == 1 {
        Screen::Packages
    } else if i == 2 {
        Screen::Registry
    } else if i == 3 {
        Screen::Updates
    } else {
        Screen::Activity
    }
}

/// The position of a view in the sidebar.
pub open spec fn screen_index(s: Screen) -> usize {
    match s {
        Screen::Dashboard => 0,
        Screen::Packages => 1,
        Screen::Registry => 2,
        Screen::Updates => 3,
        Screen::Activity => 4,
    }
}

/// The title the sidebar shows for a view.
pub open spec fn screen_title(s: Screen) -> Seq<char> {
    match s {
        Screen::Dashboard => "Dashboard"@,
        Screen::Packages => "Installed packages"@,
        Screen::Registry => "Registry"@,
        Screen::Updates => "Updates"@,
        Screen::Activity => "Activity"@,
    }
}

impl Screen {
    /// The view at a position of the sidebar.
    pub fn at(i: usize) -> (r: Screen)
        requires
            i < 5,
        ensures
            r == screen_at(i as int),
    {
        if i == 0 {
            Screen::Dashboard
        } else if i == 1 {
            Screen::Packages
        } else if i == 2 {
            Screen::Registry
        } else if i == 3 {
            Screen::Updates
        } else {
            Screen::Activity
        }
    }

    /// The position of the view in the sidebar.
    pub fn index(self) -> (r: usize)
        ensures
            r == screen_index(self),
    {
        match self {
            Screen::Dashboard => 0,
            Screen::Packages => 1,
            Screen::Registry => 2,
            Screen::Updates => 3,
            Screen::Activity => 4,
        }
    }

    /// The title of the view.
    pub fn title(self) -> (r: &'static str)
        ensures
            r@ == screen_title(self),
    {
        match self {
            Screen::Dashboard => "Dashboard",
            Screen::Packages => "Installed packages",
            Screen::Registry => "Registry",
            Screen::Updates => "Updates",
            Screen::Activity => "Activity",
        }
    }
}

/// The work that runs in the background.
#[derive(Debug)]
pub enum Task {
    Refresh,
    SyncRegistry,
    InstallLts,
    RestoreRegistry,
    CheckUpdates,
    UpdatePackage(UpdateCandidate),
}

impl Task {
    /// A copy of the task.
    pub fn duplicate(&self) -> (r: Task)
        ensures
            r == *self,
    {
        match self {
            Task::Refresh => Task::Refresh,
            Task::SyncRegistry => Task::SyncRegistry,
            Task::InstallLts => Task::InstallLts,
            Task::RestoreRegistry => Task::RestoreRegistry,
            Task::CheckUpdates => Task::CheckUpdates,
            Task::UpdatePackage(c) => Task::UpdatePackage(c.duplicate()),
        }
    }
}

/// The tasks that change the machine, which run only after the user
/// confirms them.
pub open spec fn is_mutating(t: Task) -> bool {
    match t {
        Task::InstallLts | Task::RestoreRegistry | Task::UpdatePackage(_) => true,
        _ => false,
    }
}

/// The name under which a task is reported.
pub open spec fn task_label_spec(t: Task) -> Seq<char> {
    match t {
        Task::Refresh => "Refresh"@,
        Task::SyncRegistry => "Registry sync"@,
        Task::InstallLts => "Latest LTS installation"@,
        Task::RestoreRegistry => "Registry restore"@,
        Task::CheckUpdates => "Update check"@,
        Task::UpdatePackage(_) => "Package update"@,
    }
}

/// The name under which a task is reported.
pub fn task_label(task: &Task) -> (r: &'static str)
    ensures
        r@ == task_label_spec(*task),
{
    match task {
        Task::Refresh => "Refresh",
        Task::SyncRegistry => "Registry sync",
        Task::InstallLts => "Latest LTS installation",
        Task::RestoreRegistry => "Registry restore",
        Task::CheckUpdates => "Update check",
        Task::UpdatePackage(_) => "Package update",
    }
}

/// What a finished task produced.
#[derive(Debug)]
pub enum WorkerResult {
    Snapshot(Snapshot),
    Synced { snapshot: Snapshot, registry: Registry, message: String },
    Updates(Vec<UpdateCandidate>),
    Message { snapshot: Snapshot, message: String },
}

/// A finished task and its outcome (the error's text when it failed).
#[derive(Debug)]
pub struct WorkerEvent {
    pub task: Task,
    pub result: Result<WorkerResult, String>,
}

/// What the state machine asks the application to do.
#[derive(Debug)]
pub enum Effect {
    Nothing,
    /// Run the task in the background and report it back as a
    /// `WorkerEvent`.
    Start(Task),
    /// Read the registry file and hand it to `App::set_registry`.
    LoadRegistry,
}

/// A key press, as far as the interface tells keys apart.
#[derive(Clone, Copy, Debug, PartialEq, Eq, Structural)]
pub enum Key {
    Char(char),
    Enter,
    Esc,
    Up,
    Down,
    PageUp,
    PageDown,
    Other,
}

/// A mouse action, as far as the interface tells them apart.
#[derive(Clone, Copy, Debug, PartialEq, Eq, Structural)]
pub enum MouseAction {
    ScrollDown,
    ScrollUp,
    LeftDown,
    Other,
}

/// The state of the interface.
pub ghost struct AppModel {
    pub running: bool,
    pub busy: bool,
    pub screen: Screen,
    pub selected_view: usize,
    pub snapshot: Option<Snapshot>,
    pub registry: Option<Registry>,
    pub updates: Seq<UpdateCandidate>,
    pub selected_update: usize,
    pub scroll: u16,
    pub modal: Option<Task>,
    pub status: Seq<char>,
    pub activity: Seq<Seq<char>>,
}

/// The most activity messages kept; a running task adds one more.
pub const ACTIVITY_LIMIT: usize = 120;

/// The interface's state stays consistent: the selected view is one of
/// the five, the selected update is one of the updates (or the first), and
/// the activity log keeps at most its limit of messages, one more while a
/// task runs.
pub open spec fn model_wf(m: AppModel) -> bool {
    &&& m.selected_view < 5
    &&& (m.selected_update == 0 || m.selected_update < m.updates.len())
    &&& m.activity.len() <= ACTIVITY_LIMIT + (if m.busy { 1int } else { 0 })
}

/// The interface's state.
pub struct App {
    running: bool,
    busy: bool,
    screen: Screen,
    selected_view: usize,
    snapshot: Option<Snapshot>,
    registry: Option<Registry>,
    updates: Vec<UpdateCandidate>,
    selected_update: usize,
    scroll: u16,
    modal: Option<Task>,
    status: String,
    activity: Vec<String>,
}

impl View for App {
    type V = AppModel;

    closed spec fn view(&self) -> AppModel {
        AppModel {
            running: self.running,
            busy: self.busy,
            screen: self.screen,
            selected_view: self.selected_view,
            snapshot: self.snapshot,
            registry: self.registry,
            updates: self.updates@,
            selected_update: self.selected_update,
            scroll: self.scroll,
            modal: self.modal,
            status: self.status@,
            activity: self.activity@.map_values(|s: String| s@),
        }
    }
}

/// The state the interface starts in.
pub open spec fn initial_model() -> AppModel {
    AppModel {
        running: true,
        busy: false,
        screen: Screen::Dashboard,
        selected_view: 0,
        snapshot: None,
        registry: None,
        updates: Seq::empty(),
        selected_update: 0,
        scroll: 0,
        modal: None,
        status: "Starting nvmman..."@,
        activity: Seq::empty(),
    }
}

/// The status shown while a task runs.
pub open spec fn running_status(t: Task) -> Seq<char> {
    "Running "@ + task_label_spec(t) + "..."@
}

/// Starting a task: refused while another runs; otherwise the interface
/// turns busy and reports the task.
pub open spec fn start_spec(m: AppModel, t: Task) -> (AppModel, Option<Task>) {
    if m.busy {
        (m, None)
    } else {
        let status = running_status(t);
        (AppModel { busy: true, status, activity: m.activity.push(status), ..m }, Some(t))
    }
}

/// Asking for confirmation of a task: the dialog opens unless a task runs.
pub open spec fn confirm_spec(m: AppModel, t: Task) -> AppModel {
    if !m.busy {
        AppModel { modal: Some(t), ..m }
    } else {
        m
    }
}

/// Switching to a view; the registry view asks for the registry file when
/// none is loaded.
pub open spec fn select_spec(m: AppModel, s: Screen) -> (AppModel, Effect) {
    let n = AppModel { screen: s, selected_view: screen_index(s), scroll: 0, ..m };
    if s == Screen::Registry && m.registry is None {
        (n, Effect::LoadRegistry)
    } else {
        (n, Effect::Nothing)
    }
}

/// Whether the arrow keys move the selected update rather than the view.
pub open spec fn on_update_list(m: AppModel) -> bool {
    m.screen == Screen::Updates && m.updates.len() > 0
}

/// `usize::saturating_add`.
pub open spec fn usize_sat_add(a: usize, b: usize) -> usize {
    if a + b > usize::MAX { usize::MAX } else { (a + b) as usize }
}

/// `usize::saturating_sub`.
pub open spec fn usize_sat_sub(a: usize, b: usize) -> usize {
    if a < b { 0 } else { (a - b) as usize }
}

pub open spec fn usize_min(a: usize, b: usize) -> usize {
    if a <= b { a } else { b }
}

/// The down arrow: the next update, or the next view (wrapping around).
pub open spec fn down_spec(m: AppModel) -> (AppModel, Effect) {
    if on_update_list(m) {
        (AppModel {
            selected_update: usize_min(usize_sat_add(m.selected_update, 1), (m.updates.len() - 1) as usize),
            ..m
        }, Effect::Nothing)
    } else {
        let v = ((m.selected_view + 1) % 5) as usize;
        select_spec(AppModel { selected_view: v, ..m }, screen_at(v as int))
    }
}

/// The up arrow: the previous update, or the previous view (wrapping
/// around).
pub open spec fn up_spec(m: AppModel) -> (AppModel, Effect) {
    if on_update_list(m) {
        (AppModel { selected_update: usize_sat_sub(m.selected_update, 1), ..m }, Effect::Nothing)
    } else {
        let v = (if m.selected_view == 0 { 4 } else { m.selected_view - 1 }) as usize;
        select_spec(AppModel { selected_view: v, ..m }, screen_at(v as int))
    }
}

/// `i16::unsigned_abs`.
pub open spec fn magnitude(delta: i16) -> u16 {
    (if delta < 0 { -delta } else { delta as int }) as u16
}

/// `u16::saturating_add`.
pub open spec fn u16_sat_add(a: u16, b: u16) -> u16 {
    if a + b > u16::MAX { u16::MAX } else { (a + b) as u16 }
}

/// `u16::saturating_sub`.
pub open spec fn u16_sat_sub(a: u16, b: u16) -> u16 {
    if a < b { 0 } else { (a - b) as u16 }
}

/// Scrolling by `delta` rows: moves the selected update on the update
/// list, otherwise the content.
pub open spec fn scroll_spec(m: AppModel, delta: i16) -> AppModel {
    let d = magnitude(delta);
    if on_update_list(m) {
        if delta > 0 {
            AppModel {
                selected_update: usize_min(usize_sat_add(m.selected_update, d as usize), (m.updates.len() - 1) as usize),
                ..m
            }
        } else {
            AppModel { selected_update: usize_sat_sub(m.selected_update, d as usize), ..m }
        }
    } else if delta > 0 {
        AppModel { scroll: u16_sat_add(m.scroll, d), ..m }
    } else {
        AppModel { scroll: u16_sat_sub(m.scroll, d), ..m }
    }
}


/// The effect of a task start: run it, when it was started.
pub open spec fn start_effect(started: Option<Task>) -> Effect {
    match started {
        Some(t) => Effect::Start(t),
        None => Effect::Nothing,
    }
}

/// Starting a task, with the effect that runs it.
pub open spec fn start_step(m: AppModel, t: Task) -> (AppModel, Effect) {
    (start_spec(m, t).0, start_effect(start_spec(m, t).1))
}

/// A key while no confirmation dialog is open.
pub open spec fn plain_key_spec(m: AppModel, key: Key) -> (AppModel, Effect) {
    match key {
        Key::Esc => (AppModel { running: false, ..m }, Effect::Nothing),
        Key::Down => down_spec(m),
        Key::Up => up_spec(m),
        Key::PageDown => (scroll_spec(m, 8), Effect::Nothing),
        Key::PageUp => (scroll_spec(m, -8i16), Effect::Nothing),
        Key::Enter => if m.screen == Screen::Updates && m.selected_update < m.updates.len() {
            (confirm_spec(m, Task::UpdatePackage(m.updates[m.selected_update as int])), Effect::Nothing)
        } else {
            (m, Effect::Nothing)
        },
        Key::Char(c) => if c == 'q' {
            (AppModel { running: false, ..m }, Effect::Nothing)
        } else if c == 'r' {
            start_step(m, Task::Refresh)
        } else if c == 'g' {
            start_step(m, Task::SyncRegistry)
        } else if c == 'l' {
            (confirm_spec(m, Task::InstallLts), Effect::Nothing)
        } else if c == 'a' {
            (confirm_spec(m, Task::RestoreRegistry), Effect::Nothing)
        } else if c == 'u' {
            start_step(m, Task::CheckUpdates)
        } else if c == '1' {
            select_spec(m, Screen::Dashboard)
        } else if c == '2' {
            select_spec(m, Screen::Packages)
        } else if c == '3' {
            select_spec(m, Screen::Registry)
        } else if c == '4' {
            select_spec(m, Screen::Updates)
        } else if c == '5' {
            select_spec(m, Screen::Activity)
        } else if c == 'j' {
            (scroll_spec(m, 8), Effect::Nothing)
        } else if c == 'k' {
            (scroll_spec(m, -8i16), Effect::Nothing)
        } else {
            (m, Effect::Nothing)
        },
        Key::Other => (m, Effect::Nothing),
    }
}

/// A key press.  With the confirmation dialog open, `y` or Enter closes it
/// and starts the task, `n` or Esc closes it and cancels, and other keys do
/// nothing.
pub open spec fn key_spec(m: AppModel, key: Key) -> (AppModel, Effect) {
    match m.modal {
        Some(t) => if key == Key::Char('y') || key == Key::Enter {
            start_step(AppModel { modal: None, ..m }, t)
        } else if key == Key::Char('n') || key == Key::Esc {
            (AppModel { modal: None, status: "Action cancelled."@, ..m }, Effect::Nothing)
        } else {
            (m, Effect::Nothing)
        },
        None => plain_key_spec(m, key),
    }
}

/// A left click at `(column, row)` with no dialog open: a view or an
/// action of the sidebar, or an update of the update list, which asks for
/// confirmation of its installation.
pub open spec fn click_spec(m: AppModel, column: u16, row: u16, g: ScreenGeometry) -> (AppModel, Effect) {
    let content = g.content;
    match sidebar_hit_in_spec(g.sidebar, g.views, g.actions, column, row) {
        Some(SidebarHit::Screen(i)) => select_spec(m, screen_at(i as int)),
        Some(SidebarHit::Action(i)) => if i == 0 {
            start_step(m, Task::Refresh)
        } else if i == 1 {
            (confirm_spec(m, Task::InstallLts), Effect::Nothing)
        } else if i == 2 {
            start_step(m, Task::SyncRegistry)
        } else if i == 3 {
            (confirm_spec(m, Task::RestoreRegistry), Effect::Nothing)
        } else if i == 4 {
            start_step(m, Task::CheckUpdates)
        } else {
            (m, Effect::Nothing)
        },
        None => if m.screen == Screen::Updates && content.x <= column < content.right_spec() {
            match update_row_spec(content, row) {
                Some(index) => if index < m.updates.len() {
                    (confirm_spec(AppModel { selected_update: index, ..m }, Task::UpdatePackage(m.updates[index as int])), Effect::Nothing)
                } else {
                    (m, Effect::Nothing)
                },
                None => (m, Effect::Nothing),
            }
        } else {
            (m, Effect::Nothing)
        },
    }
}

/// A mouse action on a screen laid out as `g`.  The wheel scrolls by three
/// rows; with the dialog open, a click on its bottom rows answers it (left
/// half: yes, right half: no), and other clicks do nothing.
pub open spec fn mouse_spec(m: AppModel, action: MouseAction, column: u16, row: u16, g: ScreenGeometry) -> (AppModel, Effect) {
    match action {
        MouseAction::ScrollDown => (scroll_spec(m, 3), Effect::Nothing),
        MouseAction::ScrollUp => (scroll_spec(m, -3i16), Effect::Nothing),
        MouseAction::LeftDown => if m.modal is Some {
            let d = g.dialog;
            if row >= d.y + (if d.height < 3 { 0 } else { d.height - 3 }) {
                if column < d.x + d.width / 2 {
                    key_spec(m, Key::Enter)
                } else {
                    key_spec(m, Key::Esc)
                }
            } else {
                (m, Effect::Nothing)
            }
        } else {
            click_spec(m, column, row, g)
        },
        MouseAction::Other => (m, Effect::Nothing),
    }
}

/// The first `n` elements, as `Vec::truncate` keeps them.
pub open spec fn keep_first<T>(s: Seq<T>, n: nat) -> Seq<T> {
    if s.len() > n { s.take(n as int) } else { s }
}

/// The state after a finished task is reported: no longer busy, with the
/// task's outcome taken in and reported in the status and the activity log.
pub open spec fn event_spec(m: AppModel, ev: WorkerEvent) -> AppModel {
    let n = match ev.result {
        Ok(WorkerResult::Snapshot(s)) => AppModel { busy: false, status: "Machine state refreshed."@, snapshot: Some(s), ..m },
        Ok(WorkerResult::Synced { snapshot, registry, message }) => AppModel {
            busy: false,
            status: message@,
            snapshot: Some(snapshot),
            registry: Some(registry),
            ..m
        },
        Ok(WorkerResult::Updates(u)) => AppModel {
            busy: false,
            status: decimal(u@.len()) + " package update(s) available."@,
            updates: u@,
            selected_update: 0,
            screen: Screen::Updates,
            ..m
        },
        Ok(WorkerResult::Message { snapshot, message }) => AppModel {
            busy: false,
            status: message@,
            snapshot: Some(snapshot),
            ..m
        },
        Err(e) => AppModel { busy: false, status: task_label_spec(ev.task) + " failed: "@ + e@, ..m },
    };
    AppModel { activity: keep_first(n.activity.push(n.status), ACTIVITY_LIMIT as nat), ..n }
}

/// The state after a series of finished tasks is reported, in order.
pub open spec fn events_spec(m: AppModel, evs: Seq<WorkerEvent>) -> AppModel
    decreases evs.len(),
{
    if evs.len() == 0 {
        m
    } else {
        event_spec(events_spec(m, evs.drop_last()), evs.last())
    }
}

impl App {
    /// The interface's state, as the functions below move it.
    pub open spec fn wf(&self) -> bool {
        model_wf(self@)
    }

    /// The state the interface starts in.
    pub fn new() -> (r: App)
        ensures
            r@ == initial_model(),
            r.wf(),
    {
        let r = App {
            running: true,
            busy: false,
            screen: Screen::Dashboard,
            selected_view: 0,
            snapshot: None,
            registry: None,
            updates: Vec::new(),
            selected_update: 0,
            scroll: 0,
            modal: None,
            status: "Starting nvmman...".to_owned(),
            activity: Vec::new(),
        };
        proof {
            assert(r@.activity =~= Seq::<Seq<char>>::empty());
            assert(r@.updates =~= Seq::<UpdateCandidate>::empty());
        }
        r
    }

    /// Starts a task unless one is running; the task to run is handed back.
    pub fn start_task(&mut self, task: Task) -> (r: Option<Task>)
        requires
            old(self).wf(),
        ensures
            (final(self)@, r) == start_spec(old(self)@, task),
            final(self).wf(),
    {
        if self.busy {
            return None;
        }
        self.busy = true;
        let mut status = "Running ".to_owned();
        status.append(task_label(&task));
        status.append("...");
        self.activity.push(status.clone());
        self.status = status;
        proof {
            assert(self@.activity =~= old(self)@.activity.push(self.status@));
        }
        Some(task)
    }

    /// Opens the confirmation dialog for a task, unless a task runs.
    pub fn confirm(&mut self, task: Task)
        requires
            old(self).wf(),
        ensures
            final(self)@ == confirm_spec(old(self)@, task),
            final(self).wf(),
    {
        if !self.busy {
            self.modal = Some(task);
        }
    }

    /// Switches to a view.
    pub fn select_screen(&mut self, screen: Screen) -> (r: Effect)
        requires
            old(self).wf(),
        ensures
            (final(self)@, r) == select_spec(old(self)@, screen),
            final(self).wf(),
    {
        self.screen = screen;
        self.selected_view = screen.index();
        self.scroll = 0;
        if screen == Screen::Registry && self.registry.is_none() {
            Effect::LoadRegistry
        } else {
            Effect::Nothing
        }
    }

    /// The down arrow.
    pub fn navigate_down(&mut self) -> (r: Effect)
        requires
            old(self).wf(),
        ensures
            (final(self)@, r) == down_spec(old(self)@),
            final(self).wf(),
    {
        if self.screen == Screen::Updates && self.updates.len() > 0 {
            self.selected_update = self.selected_update.saturating_add(1);
            if self.selected_update > self.updates.len() - 1 {
                self.selected_update = self.updates.len() - 1;
            }
            Effect::Nothing
        } else {
            self.selected_view = (self.selected_view + 1) % 5;
            self.select_screen(Screen::at(self.selected_view))
        }
    }

    /// The up arrow.
    pub fn navigate_up(&mut self) -> (r: Effect)
        requires
            old(self).wf(),
        ensures
            (final(self)@, r) == up_spec(old(self)@),
            final(self).wf(),
    {
        if self.screen == Screen::Updates && self.updates.len() > 0 {
            self.selected_update = self.selected_update.saturating_sub(1);
            Effect::Nothing
        } else {
            self.selected_view = if self.selected_view == 0 { 4 } else { self.selected_view - 1 };
            self.select_screen(Screen::at(self.selected_view))
        }
    }

    /// Scrolls by `delta` rows (negative: up).
    pub fn scroll_content(&mut self, delta: i16)
        requires
            old(self).wf(),
        ensures
            final(self)@ == scroll_spec(old(self)@, delta),
            final(self).wf(),
    {
        let d: u16 = if delta < 0 { (0 - (delta as i32)) as u16 } else { delta as u16 };
        if self.screen == Screen::Updates && self.updates.len() > 0 {
            if delta > 0 {
                self.selected_update = self.selected_update.saturating_add(d as usize);
                if self.selected_update > self.updates.len() - 1 {
                    self.selected_update = self.updates.len() - 1;
                }
            } else {
                self.selected_update = self.selected_update.saturating_sub(d as usize);
            }
        } else if delta > 0 {
            self.scroll = self.scroll.saturating_add(d);
        } else {
            self.scroll = self.scroll.saturating_sub(d);
        }
    }
    fn started(&mut self, task: Task) -> (r: Effect)
        requires
            old(self).wf(),
        ensures
            (final(self)@, r) == start_step(old(self)@, task),
            final(self).wf(),
    {
        match self.start_task(task) {
            Some(t) => Effect::Start(t),
            None => Effect::Nothing,
        }
    }

    fn plain_key(&mut self, key: Key) -> (r: Effect)
        requires
            old(self).wf(),
        ensures
            (final(self)@, r) == plain_key_spec(old(self)@, key),
            final(self).wf(),
    {
        match key {
            Key::Char('q') | Key::Esc => {
                self.running = false;
                Effect::Nothing
            },
            Key::Char('r') => self.started(Task::Refresh),
            Key::Char('g') => self.started(Task::SyncRegistry),
            Key::Char('l') => {
                self.confirm(Task::InstallLts);
                Effect::Nothing
            },
            Key::Char('a') => {
                self.confirm(Task::RestoreRegistry);
                Effect::Nothing
            },
            Key::Char('u') => self.started(Task::CheckUpdates),
            Key::Char('1') => self.select_screen(Screen::Dashboard),
            Key::Char('2') => self.select_screen(Screen::Packages),
            Key::Char('3') => self.select_screen(Screen::Registry),
            Key::Char('4') => self.select_screen(Screen::Updates),
            Key::Char('5') => self.select_screen(Screen::Activity),
            Key::Down => self.navigate_down(),
            Key::Up => self.navigate_up(),
            Key::Char('j') | Key::PageDown => {
                self.scroll_content(8);
                Effect::Nothing
            },
            Key::Char('k') | Key::PageUp => {
                self.scroll_content(-8);
                Effect::Nothing
            },
            Key::Enter => {
                if self.screen == Screen::Updates && self.selected_update < self.updates.len() {
                    let candidate = self.updates[self.selected_update].duplicate();
                    self.confirm(Task::UpdatePackage(candidate));
                }
                Effect::Nothing
            },
            _ => Effect::Nothing,
        }
    }

    /// Handles a key press.
    pub fn handle_key(&mut self, key: Key) -> (r: Effect)
        requires
            old(self).wf(),
        ensures
            (final(self)@, r) == key_spec(old(self)@, key),
            final(self).wf(),
    {
        match self.modal.take() {
            Some(task) => match key {
                Key::Char('y') | Key::Enter => self.started(task),
                Key::Char('n') | Key::Esc => {
                    self.status = "Action cancelled.".to_owned();
                    Effect::Nothing
                },
                _ => {
                    self.modal = Some(task);
                    Effect::Nothing
                },
            },
            None => self.plain_key(key),
        }
    }

    /// Handles a left click with no dialog open.
    pub fn handle_click(&mut self, column: u16, row: u16, geometry: &ScreenGeometry) -> (r: Effect)
        requires
            old(self).wf(),
        ensures
            (final(self)@, r) == click_spec(old(self)@, column, row, *geometry),
            final(self).wf(),
    {
        let content = geometry.content;
        match sidebar_hit_in(geometry.sidebar, geometry.views, geometry.actions, column, row) {
            Some(SidebarHit::Screen(index)) => self.select_screen(Screen::at(index)),
            Some(SidebarHit::Action(0)) => self.started(Task::Refresh),
            Some(SidebarHit::Action(1)) => {
                self.confirm(Task::InstallLts);
                Effect::Nothing
            },
            Some(SidebarHit::Action(2)) => self.started(Task::SyncRegistry),
            Some(SidebarHit::Action(3)) => {
                self.confirm(Task::RestoreRegistry);
                Effect::Nothing
            },
            Some(SidebarHit::Action(4)) => self.started(Task::CheckUpdates),
            Some(SidebarHit::Action(_)) => Effect::Nothing,
            None => {
                if self.screen == Screen::Updates && column >= content.x && column < content.right() {
                    match update_row_at(content, row) {
                        Some(index) => {
                            if index < self.updates.len() {
                                let candidate = self.updates[index].duplicate();
                                self.selected_update = index;
                                self.confirm(Task::UpdatePackage(candidate));
                            }
                        },
                        None => {},
                    }
                }
                Effect::Nothing
            },
        }
    }

    /// Handles a mouse action on a screen laid out as `geometry`.
    pub fn handle_mouse(&mut self, action: MouseAction, column: u16, row: u16, geometry: &ScreenGeometry) -> (r: Effect)
        requires
            old(self).wf(),
        ensures
            (final(self)@, r) == mouse_spec(old(self)@, action, column, row, *geometry),
            final(self).wf(),
    {
        match action {
            MouseAction::ScrollDown => {
                self.scroll_content(3);
                Effect::Nothing
            },
            MouseAction::ScrollUp => {
                self.scroll_content(-3);
                Effect::Nothing
            },
            MouseAction::LeftDown => {
                if self.modal.is_some() {
                    let dialog = geometry.dialog;
                    let bottom = dialog.y as u32 + dialog.height.saturating_sub(3) as u32;
                    if row as u32 >= bottom {
                        if (column as u32) < dialog.x as u32 + (dialog.width / 2) as u32 {
                            self.handle_key(Key::Enter)
                        } else {
                            self.handle_key(Key::Esc)
                        }
                    } else {
                        Effect::Nothing
                    }
                } else {
                    self.handle_click(column, row, geometry)
                }
            },
            MouseAction::Other => Effect::Nothing,
        }
    }

    fn receive_worker_event(&mut self, event: WorkerEvent)
        requires
            old(self).wf(),
        ensures
            final(self)@ == event_spec(old(self)@, event),
            final(self).wf(),
    {
        self.busy = false;
        let label = task_label(&event.task);
        match event.result {
            Ok(WorkerResult::Snapshot(snapshot)) => {
                self.status = "Machine state refreshed.".to_owned();
                self.snapshot = Some(snapshot);
            },
            Ok(WorkerResult::Synced { snapshot, registry, message }) => {
                self.status = message;
                self.snapshot = Some(snapshot);
                self.registry = Some(registry);
            },
            Ok(WorkerResult::Updates(updates)) => {
                let mut status = decimal_text(updates.len() as u64);
                status.append(" package update(s) available.");
                self.status = status;
                self.updates = updates;
                self.selected_update = 0;
                self.screen = Screen::Updates;
            },
            Ok(WorkerResult::Message { snapshot, message }) => {
                self.status = message;
                self.snapshot = Some(snapshot);
            },
            Err(error) => {
                let mut status = label.to_owned();
                status.append(" failed: ");
                status.append(error.as_str());
                self.status = status;
            },
        }
        let ghost before = self.activity@;
        self.activity.push(self.status.clone());
        self.activity.truncate(ACTIVITY_LIMIT);
        proof {
            let pushed = before.push(self.status);
            assert(self@.activity =~= keep_first(pushed, ACTIVITY_LIMIT as nat).map_values(|s: String| s@));
            assert(pushed.map_values(|s: String| s@) =~= before.map_values(|s: String| s@).push(self.status@));
            assert(keep_first(pushed, ACTIVITY_LIMIT as nat).map_values(|s: String| s@) =~= keep_first(
                pushed.map_values(|s: String| s@),
                ACTIVITY_LIMIT as nat,
            ));
        }
    }

    /// Takes in the outcomes of finished tasks, in the order they finished.
    pub fn receive_worker_events(&mut self, events: Vec<WorkerEvent>)
        requires
            old(self).wf(),
        ensures
            final(self)@ == events_spec(old(self)@, events@),
            final(self).wf(),
    {
        let ghost all = events@;
        let mut rest = events;
        let n = rest.len();
        let mut k: usize = 0;
        while rest.len() > 0
            invariant
                k + rest.len() == all.len(),
                all.len() == n,
                rest@ == all.skip(k as int),
                self@ == events_spec(old(self)@, all.take(k as int)),
                self.wf(),
            decreases rest.len(),
        {
            let ghost old_rest = rest@;
            let event = rest.remove(0);
            proof {
                assert(all.take(k + 1).drop_last() =~= all.take(k as int));
                assert(all.take(k + 1).last() == event);
                assert(rest@ =~= all.skip(k + 1));
            }
            self.receive_worker_event(event);
            k = k + 1;
        }
        proof {
            assert(all.take(k as int) =~= all);
        }
    }

    /// Takes in the registry read from the registry file (none when it
    /// could not be read).
    pub fn set_registry(&mut self, registry: Option<Registry>)
        requires
            old(self).wf(),
        ensures
            final(self)@ == (AppModel { registry, ..old(self)@ }),
            final(self).wf(),
    {
        self.registry = registry;
    }

    pub fn running(&self) -> (r: bool)
        ensures
            r == self@.running,
    {
        self.running
    }

    pub fn busy(&self) -> (r: bool)
        ensures
            r == self@.busy,
    {
        self.busy
    }

    pub fn screen(&self) -> (r: Screen)
        ensures
            r == self@.screen,
    {
        self.screen
    }

    pub fn selected_view(&self) -> (r: usize)
        ensures
            r == self@.selected_view,
    {
        self.selected_view
    }

    pub fn snapshot(&self) -> (r: &Option<Snapshot>)
        ensures
            *r == self@.snapshot,
    {
        &self.snapshot
    }

    pub fn registry(&self) -> (r: &Option<Registry>)
        ensures
            *r == self@.registry,
    {
        &self.registry
    }

    pub fn updates(&self) -> (r: &Vec<UpdateCandidate>)
        ensures
            r@ == self@.updates,
    {
        &self.updates
    }

    pub fn selected_update(&self) -> (r: usize)
        ensures
            r == self@.selected_update,
    {
        self.selected_update
    }

    pub fn scroll(&self) -> (r: u16)
        ensures
            r == self@.scroll,
    {
        self.scroll
    }

    pub fn modal(&self) -> (r: &Option<Task>)
        ensures
            *r == self@.modal,
    {
        &self.modal
    }

    pub fn status(&self) -> (r: &str)
        ensures
            r@ == self@.status,
    {
        self.status.as_str()
    }

    pub fn activity(&self) -> (r: &Vec<String>)
        ensures
            r@.map_values(|s: String| s@) == self@.activity,
    {
        &self.activity
    }
}

} // verus!

verus! {

proof fn lemma_plain_key_starts_only_safe_tasks(m: AppModel, key: Key)
    ensures
        plain_key_spec(m, key).1 matches Effect::Start(t) ==> !is_mutating(t) && !m.busy && plain_key_spec(m, key).0.busy,
{
}

proof fn lemma_click_starts_only_safe_tasks(m: AppModel, column: u16, row: u16, g: ScreenGeometry)
    ensures
        click_spec(m, column, row, g).1 matches Effect::Start(t) ==> !is_mutating(t) && !m.busy && click_spec(
            m,
            column,
            row,
            g,
        ).0.busy,
{
}

/// Every task that changes the machine (installing the LTS, restoring the
/// registry, updating a package) starts only from its open confirmation
/// dialog: a key press starts such a task only when the dialog asked for
/// exactly that task.  And a task starts only while none runs, after which
/// the interface is busy.
pub proof fn law_key_confirms_mutations(m: AppModel, key: Key)
    ensures
        key_spec(m, key).1 matches Effect::Start(t) ==> {
            &&& is_mutating(t) ==> m.modal == Some(t)
            &&& !m.busy
            &&& key_spec(m, key).0.busy
            &&& key_spec(m, key).0.modal is None
        },
{
    lemma_plain_key_starts_only_safe_tasks(m, key);
}

/// The same holds of mouse actions, whatever the screen's layout: a click
/// starts a task that changes the machine only by answering that task's
/// confirmation dialog.
pub proof fn law_mouse_confirms_mutations(m: AppModel, action: MouseAction, column: u16, row: u16, g: ScreenGeometry)
    ensures
        mouse_spec(m, action, column, row, g).1 matches Effect::Start(t) ==> {
            &&& is_mutating(t) ==> m.modal == Some(t)
            &&& !m.busy
            &&& mouse_spec(m, action, column, row, g).0.busy
        },
{
    lemma_plain_key_starts_only_safe_tasks(m, Key::Enter);
    lemma_plain_key_starts_only_safe_tasks(m, Key::Esc);
    law_key_confirms_mutations(m, Key::Enter);
    law_key_confirms_mutations(m, Key::Esc);
    lemma_click_starts_only_safe_tasks(m, column, row, g);
}

/// Moving down through the views and back up returns to the view one
/// started on, when neither view is the update list with updates in it.
pub proof fn law_navigation_round_trip(m: AppModel)
    requires
        model_wf(m),
        !on_update_list(m),
        !on_update_list(down_spec(m).0),
    ensures
        up_spec(down_spec(m).0).0.selected_view == m.selected_view,
        up_spec(down_spec(m).0).0.screen == screen_at(m.selected_view as int),
{
}

/// A finished task always frees the interface for the next one.
pub proof fn law_report_frees_interface(m: AppModel, ev: WorkerEvent)
    ensures
        !event_spec(m, ev).busy,
        model_wf(m) ==> model_wf(event_spec(m, ev)),
{
}

/// The digit keys 1 to 5 select the views in the order the sidebar lists
/// them: with no dialog open, the digit `k` shows the `k`-th listed view
/// and marks it as the selected entry.
pub proof fn law_digit_keys_select_listed_views(m: AppModel, c: char)
    requires
        m.modal is None,
        '1' as int <= c as int <= '5' as int,
    ensures
        key_spec(m, Key::Char(c)).0.screen == screen_at(c as int - '1' as int),
        key_spec(m, Key::Char(c)).0.selected_view == c as int - '1' as int,
{
}

/// The Actions box of the sidebar, row by row: the key shown on the row
/// and the task it stands for (r Refresh state, l Install latest LTS,
/// g Sync registry, a Restore registry, u Check updates).
pub open spec fn sidebar_action(i: int) -> (char, Task) {
    if i == 0 {
        ('r', Task::Refresh)
    } else if i == 1 {
        ('l', Task::InstallLts)
    } else if i == 2 {
        ('g', Task::SyncRegistry)
    } else if i == 3 {
        ('a', Task::RestoreRegistry)
    } else {
        ('u', Task::CheckUpdates)
    }
}

/// Whether `r` triggers task `t` from an idle interface: a task that
/// changes the machine opens its confirmation dialog, any other starts,
/// leaving the interface busy with the task reported as running.
pub open spec fn triggers(t: Task, r: (AppModel, Effect)) -> bool {
    if is_mutating(t) {
        r.0.modal == Some(t) && r.1 == Effect::Nothing
    } else {
        r.1 == Effect::Start(t) && r.0.busy && r.0.status == running_status(t)
    }
}

/// A click on the `i`-th row of the Actions box does what the key shown on
/// that row does, and both trigger the task the row names.
pub proof fn law_action_rows_trigger_listed_tasks(m: AppModel, column: u16, row: u16, g: ScreenGeometry, i: int)
    requires
        m.modal is None,
        !m.busy,
        0 <= i < 5,
        sidebar_hit_in_spec(g.sidebar, g.views, g.actions, column, row) == Some(SidebarHit::Action(i as usize)),
    ensures
        click_spec(m, column, row, g) == key_spec(m, Key::Char(sidebar_action(i).0)),
        triggers(sidebar_action(i).1, click_spec(m, column, row, g)),
        triggers(sidebar_action(i).1, key_spec(m, Key::Char(sidebar_action(i).0))),
{
}

/// The snapshot a finished task reports, if it reports one.
pub open spec fn reported_snapshot(r: Result<WorkerResult, String>) -> Option<Snapshot> {
    match r {
        Ok(WorkerResult::Snapshot(s)) => Some(s),
        Ok(WorkerResult::Synced { snapshot, .. }) => Some(snapshot),
        Ok(WorkerResult::Message { snapshot, .. }) => Some(snapshot),
        _ => None,
    }
}

/// What a finished task reports is what the interface shows next: a
/// reported snapshot replaces the shown machine state (otherwise it is
/// kept), a reported registry replaces the shown registry, and reported
/// updates become the update list, shown from its first entry.
pub proof fn law_reports_are_shown(m: AppModel, ev: WorkerEvent)
    ensures
        reported_snapshot(ev.result) matches Some(s) ==> event_spec(m, ev).snapshot == Some(s),
        reported_snapshot(ev.result) is None ==> event_spec(m, ev).snapshot == m.snapshot,
        ev.result matches Ok(WorkerResult::Synced { registry, .. }) ==> event_spec(m, ev).registry == Some(registry),
        ev.result matches Ok(WorkerResult::Updates(u)) ==> event_spec(m, ev).updates == u@
            && event_spec(m, ev).selected_update == 0 && event_spec(m, ev).screen == Screen::Updates,
{
}

} // verus!
