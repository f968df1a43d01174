//! State of the interactive interface and how events change it.
use vstd::prelude::*;

use super::events::AppEvent;
use super::tree_state::TreeState;
use crate::text::push_str;
use crate::tree::DepTree;
use crate::AnalysisResult;

verus! {

/// The screen on display.
#[derive(Debug, Clone, Copy, PartialEq, Eq, Structural)]
pub enum Screen {
    Menu,
    Scanning,
    Results,
    Settings,
    Tree,
}

/// The entries of the main menu.
#[derive(Debug, Clone, Copy, PartialEq, Eq, Structural)]
pub enum MenuItem {
    FullScan,
    Unused,
    Audit,
    Fix,
    Tree,
    Outdated,
    SupplyChain,
    Settings,
    Exit,
}

/// The menu entries, in display order.
pub open spec fn menu_items() -> Seq<MenuItem> {
    seq![
        MenuItem::FullScan,
        MenuItem::Unused,
        MenuItem::Audit,
        MenuItem::Fix,
        MenuItem::Tree,
        MenuItem::Outdated,
        MenuItem::SupplyChain,
        MenuItem::Settings,
        MenuItem::Exit
    ]
}

/// The number of menu entries.
pub const MENU_LEN: usize = 9;

impl MenuItem {
    /// The menu entries, in display order.
    pub fn all() -> (v: Vec<Self>)
        ensures
            v@ == menu_items(),
    {
        let v = vec![
            Self::FullScan,
            Self::Unused,
            Self::Audit,
            Self::Fix,
            Self::Tree,
            Self::Outdated,
            Self::SupplyChain,
            Self::Settings,
            Self::Exit,
        ];
        assert(v@ =~= menu_items());
        v
    }

    /// The entry's icon.
    pub fn icon(&self) -> (s: &'static str)
        ensures
            s@ == match *self {
                MenuItem::FullScan => "🔍"@,
                MenuItem::Unused => "📦"@,
                MenuItem::Audit => "🛡️"@,
                MenuItem::Fix => "🔧"@,
                MenuItem::Tree => "🌲"@,
                MenuItem::Outdated => "📊"@,
                MenuItem::SupplyChain => "🔗"@,
                MenuItem::Settings => "⚙️"@,
                MenuItem::Exit => "❌"@,
            },
    {
        match self {
            Self::FullScan => "🔍",
            Self::Unused => "📦",
            Self::Audit => "🛡️",
            Self::Fix => "🔧",
            Self::Tree => "🌲",
            Self::Outdated => "📊",
            Self::SupplyChain => "🔗",
            Self::Settings => "⚙️",
            Self::Exit => "❌",
        }
    }

    /// The entry's label.
    pub fn label(&self) -> (s: &'static str)
        ensures
            s@ == match *self {
                MenuItem::FullScan => "Full Scan"@,
                MenuItem::Unused => "Unused Deps"@,
                MenuItem::Audit => "Security Audit"@,
                MenuItem::Fix => "Auto Fix"@,
                MenuItem::Tree => "Dependency Tree"@,
                MenuItem::Outdated => "Outdated Check"@,
                MenuItem::SupplyChain => "Supply Chain"@,
                MenuItem::Settings => "Settings"@,
                MenuItem::Exit => "Exit"@,
            },
    {
        match self {
            Self::FullScan => "Full Scan",
            Self::Unused => "Unused Deps",
            Self::Audit => "Security Audit",
            Self::Fix => "Auto Fix",
            Self::Tree => "Dependency Tree",
            Self::Outdated => "Outdated Check",
            Self::SupplyChain => "Supply Chain",
            Self::Settings => "Settings",
            Self::Exit => "Exit",
        }
    }

    /// The entry's one-line description.
    pub fn description(&self) -> (s: &'static str)
        ensures
            s@ == match *self {
                MenuItem::FullScan => "Analyze all dependencies"@,
                MenuItem::Unused => "Find unused packages"@,
                MenuItem::Audit => "Check vulnerabilities"@,
                MenuItem::Fix => "Remove unused deps"@,
                MenuItem::Tree => "Visualize relationships"@,
                MenuItem::Outdated => "Find outdated packages"@,
                MenuItem::SupplyChain => "Security analysis"@,
                MenuItem::Settings => "Configure options"@,
                MenuItem::Exit => ""@,
            },
    {
        match self {
            Self::FullScan => "Analyze all dependencies",
            Self::Unused => "Find unused packages",
            Self::Audit => "Check vulnerabilities",
            Self::Fix => "Remove unused deps",
            Self::Tree => "Visualize relationships",
            Self::Outdated => "Find outdated packages",
            Self::SupplyChain => "Security analysis",
            Self::Settings => "Configure options",
            Self::Exit => "",
        }
    }
}

/// The work a menu choice asks the caller to do.
#[derive(Debug, Clone, Copy, PartialEq, Eq, Structural)]
pub enum Task {
    /// Unused detection and vulnerability audit.
    FullScan,
    /// Unused detection only.
    Unused,
    /// Vulnerability audit only.
    Audit,
    /// Removal of unused dependencies.
    Fix,
    /// Outdated check.
    Outdated,
    /// Supply chain analysis.
    SupplyChain,
}

/// The state of the interactive interface.
#[derive(Debug)]
pub struct App {
    pub screen: Screen,
    pub selected_menu: usize,
    pub should_quit: bool,
    pub result: Option<AnalysisResult>,
    pub scan_status: String,
    pub scan_progress: u16,
    pub tree_state: Option<TreeState>,
    pub tree_data: Option<DepTree>,
    pub results_selected: usize,
    pub results_expanded: Vec<usize>,
    pub results_scroll: usize,
    pub results_auto_scroll: bool,
}

/// The status line shown while a task runs.
pub open spec fn task_status(t: Task) -> Seq<char> {
    match t {
        Task::FullScan => "正在分析依赖..."@,
        Task::Unused => "检测未使用依赖..."@,
        Task::Audit => "扫描漏洞..."@,
        Task::Fix => "自动修复中..."@,
        Task::Outdated => "检查过时依赖..."@,
        Task::SupplyChain => "供应链安全分析..."@,
    }
}

/// The task a menu entry starts, if any.
pub open spec fn item_task(item: MenuItem) -> Option<Task> {
    match item {
        MenuItem::FullScan => Some(Task::FullScan),
        MenuItem::Unused => Some(Task::Unused),
        MenuItem::Audit => Some(Task::Audit),
        MenuItem::Fix => Some(Task::Fix),
        MenuItem::Outdated => Some(Task::Outdated),
        MenuItem::SupplyChain => Some(Task::SupplyChain),
        _ => None,
    }
}

impl App {
    /// The menu position is a menu entry.
    pub open spec fn wf(&self) -> bool {
        self.selected_menu < MENU_LEN
    }

    /// The interface at start: the menu, first entry selected, nothing
    /// scanned.
    pub fn new() -> (app: Self)
        ensures
            app.wf(),
            app.screen == Screen::Menu,
            app.selected_menu == 0,
            !app.should_quit,
            app.result is None,
            app.scan_status@.len() == 0,
            app.scan_progress == 0,
            app.tree_state is None,
            app.tree_data is None,
            app.results_selected == 0,
            app.results_expanded@.len() == 0,
            app.results_scroll == 0,
            app.results_auto_scroll,
    {
        App {
            screen: Screen::Menu,
            selected_menu: 0,
            should_quit: false,
            result: None,
            scan_status: String::new(),
            scan_progress: 0,
            tree_state: None,
            tree_data: None,
            results_selected: 0,
            results_expanded: Vec::new(),
            results_scroll: 0,
            results_auto_scroll: true,
        }
    }

    /// The fields no menu action touches are the same in both states: the
    /// result, the tree screen's state and data, and the results cursor.
    pub open spec fn keeps_views(&self, other: &App) -> bool {
        &&& self.result == other.result
        &&& self.tree_state == other.tree_state
        &&& self.tree_data == other.tree_data
        &&& self.results_selected == other.results_selected
        &&& self.results_expanded == other.results_expanded
        &&& self.results_scroll == other.results_scroll
        &&& self.results_auto_scroll == other.results_auto_scroll
    }

    /// Moves the selection to the next menu entry, wrapping around.
    pub fn next_menu(&mut self)
        requires
            old(self).wf(),
        ensures
            final(self).wf(),
            final(self).selected_menu == (old(self).selected_menu + 1) % (MENU_LEN as int),
            final(self).screen == old(self).screen,
            final(self).should_quit == old(self).should_quit,
            final(self).scan_status == old(self).scan_status,
            final(self).scan_progress == old(self).scan_progress,
            final(self).keeps_views(&*old(self)),
    {
        let items = MenuItem::all();
        self.selected_menu = (self.selected_menu + 1) % items.len();
    }

    /// Moves the selection to the previous menu entry, wrapping around.
    pub fn prev_menu(&mut self)
        requires
            old(self).wf(),
        ensures
            final(self).wf(),
            final(self).selected_menu == if old(self).selected_menu == 0 {
                MENU_LEN - 1
            } else {
                old(self).selected_menu - 1
            },
            final(self).screen == old(self).screen,
            final(self).should_quit == old(self).should_quit,
            final(self).scan_status == old(self).scan_status,
            final(self).scan_progress == old(self).scan_progress,
            final(self).keeps_views(&*old(self)),
    {
        let items = MenuItem::all();
        self.selected_menu = if self.selected_menu == 0 {
            items.len() - 1
        } else {
            self.selected_menu - 1
        };
    }

    /// The selected menu entry.
    pub fn selected_item(&self) -> (item: MenuItem)
        requires
            self.wf(),
        ensures
            item == menu_items()[self.selected_menu as int],
    {
        let items = MenuItem::all();
        items[self.selected_menu]
    }

    /// Acts on the selected menu entry: Exit quits, Settings opens the
    /// settings; a task entry shows the scanning screen with its status and
    /// returns the task for the caller to run; the tree entry returns to the
    /// menu.
    pub fn handle_selection(&mut self) -> (task: Option<Task>)
        requires
            old(self).wf(),
        ensures
            final(self).wf(),
            final(self).selected_menu == old(self).selected_menu,
            task == item_task(menu_items()[old(self).selected_menu as int]),
            final(self).keeps_views(&*old(self)),
            match menu_items()[old(self).selected_menu as int] {
                MenuItem::Exit => final(self).should_quit && final(self).screen == old(self).screen
                    && final(self).scan_status == old(self).scan_status && final(self).scan_progress
                    == old(self).scan_progress,
                MenuItem::Settings => final(self).screen == Screen::Settings && final(self).should_quit
                    == old(self).should_quit && final(self).scan_status == old(self).scan_status
                    && final(self).scan_progress == old(self).scan_progress,
                MenuItem::Tree => final(self).screen == Screen::Menu && final(self).scan_status@
                    == "生成依赖树..."@ && final(self).scan_progress == 50 && final(self).should_quit
                    == old(self).should_quit,
                _ => final(self).screen == Screen::Scanning && final(self).scan_status@
                    == task_status(task->0) && final(self).scan_progress == 0 && final(self).should_quit
                    == old(self).should_quit,
            },
    {
        let item = self.selected_item();
        let task = match item {
            MenuItem::Exit => {
                self.should_quit = true;
                return None;
            },
            MenuItem::Settings => {
                self.screen = Screen::Settings;
                return None;
            },
            MenuItem::Tree => {
                self.screen = Screen::Scanning;
                self.scan_status = status_text("生成依赖树...");
                self.scan_progress = 50;
                self.screen = Screen::Menu;
                return None;
            },
            MenuItem::FullScan => Task::FullScan,
            MenuItem::Unused => Task::Unused,
            MenuItem::Audit => Task::Audit,
            MenuItem::Fix => Task::Fix,
            MenuItem::Outdated => Task::Outdated,
            MenuItem::SupplyChain => Task::SupplyChain,
        };
        self.screen = Screen::Scanning;
        self.scan_status = match task {
            Task::FullScan => status_text("正在分析依赖..."),
            Task::Unused => status_text("检测未使用依赖..."),
            Task::Audit => status_text("扫描漏洞..."),
            Task::Fix => status_text("自动修复中..."),
            Task::Outdated => status_text("检查过时依赖..."),
            Task::SupplyChain => status_text("供应链安全分析..."),
        };
        self.scan_progress = 0;
        Some(task)
    }

    /// Records the outcome of a task: its result and the results screen
    /// when it succeeded, the menu when it failed.
    pub fn finish_task(&mut self, outcome: Option<AnalysisResult>)
        requires
            old(self).wf(),
        ensures
            final(self).wf(),
            final(self).selected_menu == old(self).selected_menu,
            final(self).should_quit == old(self).should_quit,
            outcome is Some ==> final(self).screen == Screen::Results && final(self).result
                == outcome,
            outcome is None ==> final(self).screen == Screen::Menu && final(self).result == old(
                self,
            ).result,
    {
        match outcome {
            Some(r) => {
                self.result = Some(r);
                self.screen = Screen::Results;
            },
            None => {
                self.screen = Screen::Menu;
            },
        }
    }

    /// Applies an event: `Quit` quits; on the menu `Up`/`Down` move and
    /// `Select` acts on the entry (returning the task to run, if any); on the
    /// results `Select` returns to the menu; `Back` leaves the results or
    /// settings for the menu; everything else is ignored.
    pub fn apply_event(&mut self, event: AppEvent) -> (task: Option<Task>)
        requires
            old(self).wf(),
        ensures
            final(self).wf(),
            event == AppEvent::Quit ==> final(self).should_quit && final(self).screen == old(
                self,
            ).screen && task is None,
            event == AppEvent::Up && old(self).screen == Screen::Menu ==> final(self).selected_menu
                == if old(self).selected_menu == 0 {
                MENU_LEN - 1
            } else {
                old(self).selected_menu - 1
            } && task is None,
            event == AppEvent::Down && old(self).screen == Screen::Menu ==> final(self).selected_menu
                == (old(self).selected_menu + 1) % (MENU_LEN as int) && task is None,
            event == AppEvent::Select && old(self).screen == Screen::Menu ==> task == item_task(
                menu_items()[old(self).selected_menu as int],
            ),
            event == AppEvent::Select && old(self).screen == Screen::Results ==> final(self).screen
                == Screen::Menu && task is None,
            event == AppEvent::Back && (old(self).screen == Screen::Results || old(self).screen
                == Screen::Settings) ==> final(self).screen == Screen::Menu && task is None,
            event != AppEvent::Quit && !(event == AppEvent::Select && old(self).screen
                == Screen::Menu) ==> final(self).should_quit == old(self).should_quit,
            (event == AppEvent::Left || event == AppEvent::Right || event == AppEvent::ScrollUp
                || event == AppEvent::ScrollDown || event == AppEvent::Nothing) ==> final(self).screen
                == old(self).screen && final(self).selected_menu == old(self).selected_menu
                && task is None,
    {
        match event {
            AppEvent::Quit => {
                self.should_quit = true;
                None
            },
            AppEvent::Up => {
                if self.screen == Screen::Menu {
                    self.prev_menu();
                }
                None
            },
            AppEvent::Down => {
                if self.screen == Screen::Menu {
                    self.next_menu();
                }
                None
            },
            AppEvent::Select => {
                if self.screen == Screen::Menu {
                    self.handle_selection()
                } else {
                    if self.screen == Screen::Results {
                        self.screen = Screen::Menu;
                    }
                    None
                }
            },
            AppEvent::Back => {
                if self.screen == Screen::Results || self.screen == Screen::Settings {
                    self.screen = Screen::Menu;
                }
                None
            },
            _ => None,
        }
    }
}

/// A status line as an owned string.
fn status_text(s: &str) -> (r: String)
    ensures
        r@ == s@,
{
    let mut r = String::new();
    push_str(&mut r, s);
    r
}

} // verus!
