//! The terminal UI as a state machine: the screen layout chosen for a
//! terminal size, the alias list with its selection and scroll window, the
//! control surfaces of the selected alias, and what each key press does.
//! Drawing, reading keys and launching editors stay with the caller.
use crate::journal_validation::opt_string_view;
use crate::text::{chars_of, concat3, push_char, to_owned, views};
use vstd::prelude::*;

verus! {

/// Below this width the list and inspector do not fit side by side.
pub const SPLIT_MIN_WIDTH: u16 = 100;

/// Below this height the list and inspector do not fit side by side.
pub const SPLIT_MIN_HEIGHT: u16 = 24;

/// The widest the alias list column gets in the split layout.
pub const SPLIT_MAX_LEFT_WIDTH: u16 = 60;

/// Options of `--tui` (it takes none).
#[derive(Debug, Clone, Copy, PartialEq, Eq)]
pub struct TuiOptions;

#[derive(Debug, Clone, Copy, PartialEq, Eq)]
pub enum LayoutKind {
    /// List and inspector side by side.
    Split,
    /// One column: selection, tabs, hint, then the list.
    Modal,
}

#[derive(Debug, Clone, Copy, PartialEq, Eq)]
pub enum PaneFocus {
    List,
    Inspector,
}

/// What Enter opens for the selected alias.
#[derive(Debug, Clone, Copy, PartialEq, Eq, Structural)]
pub enum ControlSurface {
    Summary,
    Toml,
    Legacy,
    Reconcile,
}

/// What the event loop does after a key.
#[derive(Debug, Clone, Copy, PartialEq, Eq)]
pub enum LoopAction {
    Continue,
    Refresh,
    ActivateCurrentSurface,
    ActivateReconcileQuick,
    Quit,
}

/// The keys the UI tells apart.
#[derive(Debug, Clone, Copy, PartialEq, Eq)]
pub enum KeyCode {
    Char(char),
    Esc,
    Up,
    Down,
    Home,
    End,
    Left,
    Right,
    Tab,
    BackTab,
    Enter,
    Other,
}

#[derive(Debug, Clone, Copy, PartialEq, Eq)]
pub enum KeyEventKind {
    Press,
    Repeat,
    Release,
}

#[derive(Debug, Clone, Copy, PartialEq, Eq)]
pub struct KeyEvent {
    pub code: KeyCode,
    pub kind: KeyEventKind,
}

pub open spec fn label_of(s: ControlSurface) -> Seq<char> {
    match s {
        ControlSurface::Summary => "summary"@,
        ControlSurface::Toml => "toml"@,
        ControlSurface::Legacy => "legacy"@,
        ControlSurface::Reconcile => "reconcile"@,
    }
}

/// The surfaces in tab order.
pub open spec fn surface_at(i: int) -> ControlSurface {
    if i == 0 {
        ControlSurface::Summary
    } else if i == 1 {
        ControlSurface::Toml
    } else if i == 2 {
        ControlSurface::Legacy
    } else {
        ControlSurface::Reconcile
    }
}

pub open spec fn surface_pos(s: ControlSurface) -> int {
    match s {
        ControlSurface::Summary => 0,
        ControlSurface::Toml => 1,
        ControlSurface::Legacy => 2,
        ControlSurface::Reconcile => 3,
    }
}

impl ControlSurface {
    pub fn label(self) -> (r: &'static str)
        ensures
            r@ == label_of(self),
    {
        match self {
            ControlSurface::Summary => "summary",
            ControlSurface::Toml => "toml",
            ControlSurface::Legacy => "legacy",
            ControlSurface::Reconcile => "reconcile",
        }
    }

    /// The surfaces in tab order.
    pub fn all() -> (r: [ControlSurface; 4])
        ensures
            forall|i: int| 0 <= i < 4 ==> #[trigger] r@[i] == surface_at(i),
    {
        [ControlSurface::Summary, ControlSurface::Toml, ControlSurface::Legacy, ControlSurface::Reconcile]
    }
}

/// The files behind the selected alias's surfaces.
#[derive(Debug, PartialEq, Eq)]
pub struct AliasArtifacts {
    pub selected_alias: Option<String>,
    pub resolved_config_path: Option<String>,
    pub toml_path: Option<String>,
    pub legacy_path: Option<String>,
    pub reconcile_script_path: Option<String>,
}

impl AliasArtifacts {
    /// No alias selected and no files.
    pub fn empty() -> (r: AliasArtifacts)
        ensures
            r.selected_alias is None,
            r.resolved_config_path is None,
            r.toml_path is None,
            r.legacy_path is None,
            r.reconcile_script_path is None,
    {
        AliasArtifacts {
            selected_alias: None,
            resolved_config_path: None,
            toml_path: None,
            legacy_path: None,
            reconcile_script_path: None,
        }
    }
}

impl Default for AliasArtifacts {
    fn default() -> (r: AliasArtifacts)
        ensures
            r.selected_alias is None,
            r.resolved_config_path is None,
            r.toml_path is None,
            r.legacy_path is None,
            r.reconcile_script_path is None,
    {
        AliasArtifacts::empty()
    }
}

/// A surface can be opened when its file exists; the summary always can.
pub open spec fn available(a: AliasArtifacts, s: ControlSurface) -> bool {
    match s {
        ControlSurface::Summary => true,
        ControlSurface::Toml => a.toml_path is Some,
        ControlSurface::Legacy => a.legacy_path is Some,
        ControlSurface::Reconcile => a.reconcile_script_path is Some,
    }
}

pub fn surface_available(artifacts: &AliasArtifacts, surface: ControlSurface) -> (r: bool)
    ensures
        r == available(*artifacts, surface),
{
    match surface {
        ControlSurface::Summary => true,
        ControlSurface::Toml => artifacts.toml_path.is_some(),
        ControlSurface::Legacy => artifacts.legacy_path.is_some(),
        ControlSurface::Reconcile => artifacts.reconcile_script_path.is_some(),
    }
}

// ---------------------------------------------------------------------------
// Layout
// ---------------------------------------------------------------------------

/// Split when the terminal is at least 100 wide and 24 high.
pub fn layout_for_size(width: u16, height: u16) -> (r: LayoutKind)
    ensures
        r == (if width >= SPLIT_MIN_WIDTH && height >= SPLIT_MIN_HEIGHT {
            LayoutKind::Split
        } else {
            LayoutKind::Modal
        }),
{
    if width >= SPLIT_MIN_WIDTH && height >= SPLIT_MIN_HEIGHT {
        LayoutKind::Split
    } else {
        LayoutKind::Modal
    }
}

/// Rows left for content below the banner row and, when shown, the alert
/// row.
pub fn content_height(height: u16, alert_visible: bool) -> (r: usize)
    ensures
        r == (if alert_visible {
            if height >= 2 {
                height - 2
            } else {
                0
            }
        } else {
            if height >= 1 {
                height - 1
            } else {
                0
            }
        }),
{
    let reserved: u16 = if alert_visible {
        2
    } else {
        1
    };
    if height >= reserved {
        (height - reserved) as usize
    } else {
        0
    }
}

/// Rows of the alias list: all content rows in the split layout; the modal
/// layout keeps three for the selection, tabs and hint.
pub fn alias_viewport_rows(layout: LayoutKind, content_rows: usize) -> (r: usize)
    ensures
        r == match layout {
            LayoutKind::Split => content_rows as int,
            LayoutKind::Modal => if content_rows >= 3 {
                content_rows - 3
            } else {
                0
            },
        },
{
    match layout {
        LayoutKind::Split => content_rows,
        LayoutKind::Modal => if content_rows >= 3 {
            content_rows - 3
        } else {
            0
        },
    }
}

pub open spec fn spec_split_left_width(width: int) -> int {
    let base = if width / 3 >= 24 {
        width / 3
    } else {
        24
    };
    let room = if width >= 30 {
        width - 30
    } else {
        0
    };
    let bounded = if base <= room {
        base
    } else {
        room
    };
    if bounded <= SPLIT_MAX_LEFT_WIDTH {
        bounded
    } else {
        SPLIT_MAX_LEFT_WIDTH as int
    }
}

/// Width of the alias list column: a third of the terminal, at least 24,
/// leaving 30 columns for the inspector, and at most 60.
pub fn split_left_width(width: u16) -> (r: u16)
    ensures
        r == spec_split_left_width(width as int),
        r <= SPLIT_MAX_LEFT_WIDTH,
{
    let third = width / 3;
    let base: u16 = if third >= 24 {
        third
    } else {
        24
    };
    let room: u16 = if width >= 30 {
        width - 30
    } else {
        0
    };
    let bounded = if base <= room {
        base
    } else {
        room
    };
    if bounded <= SPLIT_MAX_LEFT_WIDTH {
        bounded
    } else {
        SPLIT_MAX_LEFT_WIDTH
    }
}

// ---------------------------------------------------------------------------
// State
// ---------------------------------------------------------------------------

/// Everything the UI shows and remembers between key presses.
#[derive(Debug)]
pub struct AppState {
    pub aliases: Vec<String>,
    pub selected: usize,
    pub scroll: usize,
    pub focus: PaneFocus,
    pub layout: LayoutKind,
    pub active_surface: ControlSurface,
    pub artifacts: AliasArtifacts,
    pub alert_message: Option<String>,
}

/// An [`AppState`] with its strings taken as character sequences.
#[verifier::ext_equal]
pub struct TuiModel {
    pub aliases: Seq<Seq<char>>,
    pub selected: int,
    pub scroll: int,
    pub focus: PaneFocus,
    pub layout: LayoutKind,
    pub active_surface: ControlSurface,
    pub artifacts: AliasArtifacts,
    pub alert: Option<Seq<char>>,
}

impl View for AppState {
    type V = TuiModel;

    open spec fn view(&self) -> TuiModel {
        TuiModel {
            aliases: views(self.aliases@),
            selected: self.selected as int,
            scroll: self.scroll as int,
            focus: self.focus,
            layout: self.layout,
            active_surface: self.active_surface,
            artifacts: self.artifacts,
            alert: opt_string_view(self.alert_message),
        }
    }
}

impl AppState {
    /// The state the UI starts in: first alias selected, list focused,
    /// modal layout, summary surface, nothing collected yet.
    pub fn new(aliases: Vec<String>) -> (r: AppState)
        ensures
            r.aliases@ == aliases@,
            r.selected == 0,
            r.scroll == 0,
            r.focus == PaneFocus::List,
            r.layout == LayoutKind::Modal,
            r.active_surface == ControlSurface::Summary,
            r.artifacts.selected_alias is None,
            r.artifacts.toml_path is None,
            r.artifacts.legacy_path is None,
            r.artifacts.reconcile_script_path is None,
            r.alert_message is None,
    {
        AppState {
            aliases,
            selected: 0,
            scroll: 0,
            focus: PaneFocus::List,
            layout: LayoutKind::Modal,
            active_surface: ControlSurface::Summary,
            artifacts: AliasArtifacts::empty(),
            alert_message: None,
        }
    }
}

/// The selection clamped into the list, and the scroll offset moved as
/// little as needed for a window of `h` rows to show it (with no rows the
/// window starts at the selection).
pub open spec fn make_visible(m: TuiModel, h: int) -> TuiModel {
    if m.aliases.len() == 0 {
        TuiModel { selected: 0, scroll: 0, ..m }
    } else {
        let sel = if m.selected >= m.aliases.len() {
            m.aliases.len() - 1
        } else {
            m.selected
        };
        let scroll = if h == 0 {
            sel
        } else if sel < m.scroll {
            sel
        } else if sel >= m.scroll + h {
            sel + 1 - h
        } else {
            m.scroll
        };
        TuiModel { selected: sel, scroll: scroll, ..m }
    }
}

/// Keeps the selection inside the list and inside a window of
/// `list_height` rows starting at the scroll offset.
pub fn ensure_selection_visible(state: &mut AppState, list_height: usize)
    ensures
        final(state)@ == make_visible(old(state)@, list_height as int),
{
    if state.aliases.len() == 0 {
        state.selected = 0;
        state.scroll = 0;
        return;
    }
    if state.selected >= state.aliases.len() {
        state.selected = state.aliases.len() - 1;
    }
    if list_height == 0 {
        state.scroll = state.selected;
        return;
    }
    if state.selected < state.scroll {
        state.scroll = state.selected;
    } else if state.selected - state.scroll >= list_height {
        state.scroll = state.selected + 1 - list_height;
    }
}

/// The text shown when a surface cannot be opened.
pub open spec fn unavailable_alert(s: ControlSurface) -> Seq<char> {
    "`"@ + label_of(s) + "` surface is unavailable"@
}

/// Selecting surface `s`: taken when available, otherwise an alert.
pub open spec fn with_surface(m: TuiModel, s: ControlSurface) -> TuiModel {
    if available(m.artifacts, s) {
        TuiModel { active_surface: s, ..m }
    } else {
        TuiModel { alert: Some(unavailable_alert(s)), ..m }
    }
}

pub fn set_active_surface(state: &mut AppState, surface: ControlSurface)
    ensures
        final(state)@ == with_surface(old(state)@, surface),
{
    if surface_available(&state.artifacts, surface) {
        state.active_surface = surface;
    } else {
        state.alert_message = Some(concat3("`", surface.label(), "` surface is unavailable"));
    }
}

/// The next position in tab order, forwards or backwards, wrapping.
pub open spec fn next_pos(i: int, forward: bool) -> int {
    if forward {
        (i + 1) % 4
    } else {
        (i + 3) % 4
    }
}

/// The first available surface after position `i` within `steps` moves.
pub open spec fn cycle_pick(a: AliasArtifacts, i: int, forward: bool, steps: nat) -> Option<
    ControlSurface,
>
    decreases steps,
{
    if steps == 0 {
        None
    } else {
        let j = next_pos(i, forward);
        if available(a, surface_at(j)) {
            Some(surface_at(j))
        } else {
            cycle_pick(a, j, forward, (steps - 1) as nat)
        }
    }
}

/// Tab / Shift-Tab: the next available surface in that direction.
pub open spec fn cycled(m: TuiModel, forward: bool) -> TuiModel {
    match cycle_pick(m.artifacts, surface_pos(m.active_surface), forward, 4) {
        Some(s) => TuiModel { active_surface: s, ..m },
        None => m,
    }
}

pub fn cycle_surface(state: &mut AppState, forward: bool)
    ensures
        final(state)@ == cycled(old(state)@, forward),
{
    let all = ControlSurface::all();
    let mut idx: usize = match state.active_surface {
        ControlSurface::Summary => 0,
        ControlSurface::Toml => 1,
        ControlSurface::Legacy => 2,
        ControlSurface::Reconcile => 3,
    };
    let ghost a = state.artifacts;
    let ghost start = state@;
    let ghost pos0 = surface_pos(state.active_surface);
    let mut k: usize = 0;
    while k < 4
        invariant
            0 <= k <= 4,
            0 <= idx < 4,
            a == state.artifacts,
            state@ == start,
            start == old(state)@,
            pos0 == surface_pos(start.active_surface),
            forall|i: int| 0 <= i < 4 ==> #[trigger] all@[i] == surface_at(i),
            cycle_pick(a, pos0, forward, 4) == cycle_pick(a, idx as int, forward, (4 - k) as nat),
        decreases 4 - k,
    {
        let ghost prev = idx as int;
        idx = if forward {
            (idx + 1) % 4
        } else {
            (idx + 3) % 4
        };
        assert(idx as int == next_pos(prev, forward));
        let candidate = all[idx];
        assert(candidate == surface_at(idx as int));
        if surface_available(&state.artifacts, candidate) {
            assert(cycle_pick(a, prev, forward, (4 - k) as nat) == Some(candidate));
            state.active_surface = candidate;
            assert(state@ =~= TuiModel { active_surface: candidate, ..start });
            return;
        }
        k = k + 1;
    }
}

/// The selection moved by one of the list keys, then kept visible.
pub open spec fn select(m: TuiModel, sel: int, h: int) -> TuiModel {
    make_visible(TuiModel { selected: sel, ..m }, h)
}

/// What a key press does: releases are ignored; any other key clears the
/// alert first.
pub open spec fn key_step(m: TuiModel, key: KeyEvent, h: int) -> (TuiModel, LoopAction) {
    if key.kind == KeyEventKind::Release {
        (m, LoopAction::Continue)
    } else {
        let m0 = TuiModel { alert: None, ..m };
        let len = m0.aliases.len() as int;
        let up = select(m0, if m0.selected > 0 { m0.selected - 1 } else { m0.selected }, h);
        let down = select(m0, if m0.selected + 1 < len { m0.selected + 1 } else { m0.selected }, h);
        let home = select(m0, 0, h);
        let end = select(m0, if len > 0 { len - 1 } else { 0 }, h);
        let left = TuiModel { focus: PaneFocus::List, ..m0 };
        let right = if m0.layout == LayoutKind::Split && m0.focus == PaneFocus::List {
            TuiModel { focus: PaneFocus::Inspector, ..m0 }
        } else {
            cycled(m0, true)
        };
        match key.code {
            KeyCode::Esc => (m0, LoopAction::Quit),
            KeyCode::Up => (up, LoopAction::Continue),
            KeyCode::Down => (down, LoopAction::Continue),
            KeyCode::Home => (home, LoopAction::Continue),
            KeyCode::End => (end, LoopAction::Continue),
            KeyCode::Left => (left, LoopAction::Continue),
            KeyCode::Right => (right, LoopAction::Continue),
            KeyCode::Tab => (cycled(m0, true), LoopAction::Continue),
            KeyCode::BackTab => (cycled(m0, false), LoopAction::Continue),
            KeyCode::Enter => (m0, LoopAction::ActivateCurrentSurface),
            KeyCode::Other => (m0, LoopAction::Continue),
            KeyCode::Char(c) => if c == 'q' {
                (m0, LoopAction::Quit)
            } else if c == 'k' {
                (up, LoopAction::Continue)
            } else if c == 'j' {
                (down, LoopAction::Continue)
            } else if c == 'g' {
                (home, LoopAction::Continue)
            } else if c == 'G' {
                (end, LoopAction::Continue)
            } else if c == 'h' {
                (left, LoopAction::Continue)
            } else if c == 'l' {
                (right, LoopAction::Continue)
            } else if c == '1' {
                (with_surface(m0, ControlSurface::Summary), LoopAction::Continue)
            } else if c == '2' {
                (with_surface(m0, ControlSurface::Toml), LoopAction::Continue)
            } else if c == '3' {
                (with_surface(m0, ControlSurface::Legacy), LoopAction::Continue)
            } else if c == '4' {
                (with_surface(m0, ControlSurface::Reconcile), LoopAction::Continue)
            } else if c == 'r' {
                (m0, LoopAction::Refresh)
            } else if c == 'e' {
                (m0, LoopAction::ActivateReconcileQuick)
            } else {
                (m0, LoopAction::Continue)
            },
        }
    }
}

fn move_selection(state: &mut AppState, sel: usize, list_height: usize)
    ensures
        final(state)@ == select(old(state)@, sel as int, list_height as int),
{
    state.selected = sel;
    ensure_selection_visible(state, list_height);
}

fn focus_right(state: &mut AppState)
    ensures
        final(state)@ == (if old(state)@.layout == LayoutKind::Split && old(state)@.focus
            == PaneFocus::List {
            TuiModel { focus: PaneFocus::Inspector, ..old(state)@ }
        } else {
            cycled(old(state)@, true)
        }),
{
    if matches!(state.layout, LayoutKind::Split) && matches!(state.focus, PaneFocus::List) {
        state.focus = PaneFocus::Inspector;
    } else {
        cycle_surface(state, true);
    }
}

/// Applies one key press to the state and says what the loop does next.
pub fn handle_key_event(state: &mut AppState, key: KeyEvent, list_height: usize) -> (r: LoopAction)
    ensures
        (final(state)@, r) == key_step(old(state)@, key, list_height as int),
{
    if matches!(key.kind, KeyEventKind::Release) {
        return LoopAction::Continue;
    }
    state.alert_message = None;
    let len = state.aliases.len();
    let up = if state.selected > 0 {
        state.selected - 1
    } else {
        state.selected
    };
    let down = if state.selected < len && len - state.selected > 1 {
        state.selected + 1
    } else {
        state.selected
    };
    let end = if len > 0 {
        len - 1
    } else {
        0
    };
    match key.code {
        KeyCode::Esc => LoopAction::Quit,
        KeyCode::Up => {
            move_selection(state, up, list_height);
            LoopAction::Continue
        },
        KeyCode::Down => {
            move_selection(state, down, list_height);
            LoopAction::Continue
        },
        KeyCode::Home => {
            move_selection(state, 0, list_height);
            LoopAction::Continue
        },
        KeyCode::End => {
            move_selection(state, end, list_height);
            LoopAction::Continue
        },
        KeyCode::Left => {
            state.focus = PaneFocus::List;
            LoopAction::Continue
        },
        KeyCode::Right => {
            focus_right(state);
            LoopAction::Continue
        },
        KeyCode::Tab => {
            cycle_surface(state, true);
            LoopAction::Continue
        },
        KeyCode::BackTab => {
            cycle_surface(state, false);
            LoopAction::Continue
        },
        KeyCode::Enter => LoopAction::ActivateCurrentSurface,
        KeyCode::Other => LoopAction::Continue,
        KeyCode::Char(c) => {
            if c == 'q' {
                LoopAction::Quit
            } else if c == 'k' {
                move_selection(state, up, list_height);
                LoopAction::Continue
            } else if c == 'j' {
                move_selection(state, down, list_height);
                LoopAction::Continue
            } else if c == 'g' {
                move_selection(state, 0, list_height);
                LoopAction::Continue
            } else if c == 'G' {
                move_selection(state, end, list_height);
                LoopAction::Continue
            } else if c == 'h' {
                state.focus = PaneFocus::List;
                LoopAction::Continue
            } else if c == 'l' {
                focus_right(state);
                LoopAction::Continue
            } else if c == '1' {
                set_active_surface(state, ControlSurface::Summary);
                LoopAction::Continue
            } else if c == '2' {
                set_active_surface(state, ControlSurface::Toml);
                LoopAction::Continue
            } else if c == '3' {
                set_active_surface(state, ControlSurface::Legacy);
                LoopAction::Continue
            } else if c == '4' {
                set_active_surface(state, ControlSurface::Reconcile);
                LoopAction::Continue
            } else if c == 'r' {
                LoopAction::Refresh
            } else if c == 'e' {
                LoopAction::ActivateReconcileQuick
            } else {
                LoopAction::Continue
            }
        },
    }
}

// ---------------------------------------------------------------------------
// What every key keeps
// ---------------------------------------------------------------------------

/// After `ensure_selection_visible` the selection lies in the list and in
/// the window of `h` rows below the scroll offset (at the offset, with no
/// rows).
pub proof fn lemma_selection_visible(m: TuiModel, h: int)
    requires
        m.selected >= 0,
        m.scroll >= 0,
        h >= 0,
    ensures
        ({
            let r = make_visible(m, h);
            &&& r.aliases == m.aliases
            &&& r.selected >= 0 && r.scroll >= 0
            &&& m.aliases.len() == 0 ==> r.selected == 0 && r.scroll == 0
            &&& m.aliases.len() > 0 ==> r.selected < m.aliases.len()
            &&& m.aliases.len() > 0 && h > 0 ==> r.scroll <= r.selected < r.scroll + h
            &&& m.aliases.len() > 0 && h == 0 ==> r.scroll == r.selected
        }),
{
}

/// Keeping the selection visible twice changes nothing the second time.
pub proof fn lemma_selection_visible_idempotent(m: TuiModel, h: int)
    requires
        m.selected >= 0,
        m.scroll >= 0,
        h >= 0,
    ensures
        make_visible(make_visible(m, h), h) == make_visible(m, h),
{
    lemma_selection_visible(m, h);
}

/// Tab and Shift-Tab always find an available surface: the summary is
/// always available.
pub proof fn lemma_cycle_finds_available(a: AliasArtifacts, i: int, forward: bool)
    requires
        0 <= i < 4,
    ensures
        cycle_pick(a, i, forward, 4) is Some,
        available(a, cycle_pick(a, i, forward, 4)->Some_0),
{
    reveal_with_fuel(cycle_pick, 5);
}

/// A state the UI can be in: the selection inside the (possibly empty)
/// list and the active surface available.
pub open spec fn state_ok(m: TuiModel) -> bool {
    &&& m.selected >= 0
    &&& m.scroll >= 0
    &&& m.aliases.len() == 0 ==> m.selected == 0
    &&& m.aliases.len() > 0 ==> m.selected < m.aliases.len()
    &&& available(m.artifacts, m.active_surface)
}

proof fn lemma_select_ok(m: TuiModel, sel: int, h: int)
    requires
        state_ok(m),
        sel >= 0,
        h >= 0,
    ensures
        state_ok(select(m, sel, h)),
{
    lemma_selection_visible(TuiModel { selected: sel, ..m }, h);
}

proof fn lemma_cycled_ok(m: TuiModel, forward: bool)
    requires
        state_ok(m),
    ensures
        state_ok(cycled(m, forward)),
{
    lemma_cycle_finds_available(m.artifacts, surface_pos(m.active_surface), forward);
}

/// No key press leaves the selection outside the list or makes an
/// unavailable surface active.
pub proof fn lemma_key_step_keeps_state_ok(m: TuiModel, key: KeyEvent, h: int)
    requires
        state_ok(m),
        h >= 0,
    ensures
        state_ok(key_step(m, key, h).0),
{
    let m0 = TuiModel { alert: None, ..m };
    assert(state_ok(m0));
    let len = m0.aliases.len() as int;
    if key.kind != KeyEventKind::Release {
        match key.code {
            KeyCode::Up => lemma_select_ok(m0, if m0.selected > 0 { m0.selected - 1 } else { m0.selected }, h),
            KeyCode::Down => lemma_select_ok(m0, if m0.selected + 1 < len { m0.selected + 1 } else { m0.selected }, h),
            KeyCode::Home => lemma_select_ok(m0, 0, h),
            KeyCode::End => lemma_select_ok(m0, if len > 0 { len - 1 } else { 0 }, h),
            KeyCode::Right => lemma_cycled_ok(m0, true),
            KeyCode::Tab => lemma_cycled_ok(m0, true),
            KeyCode::BackTab => lemma_cycled_ok(m0, false),
            KeyCode::Char(c) => {
                if c == 'k' {
                    lemma_select_ok(m0, if m0.selected > 0 { m0.selected - 1 } else { m0.selected }, h);
                } else if c == 'j' {
                    lemma_select_ok(m0, if m0.selected + 1 < len { m0.selected + 1 } else { m0.selected }, h);
                } else if c == 'g' {
                    lemma_select_ok(m0, 0, h);
                } else if c == 'G' {
                    lemma_select_ok(m0, if len > 0 { len - 1 } else { 0 }, h);
                } else if c == 'l' {
                    lemma_cycled_ok(m0, true);
                }
            },
            _ => {},
        }
    }
}

// ---------------------------------------------------------------------------
// Refreshing and opening
// ---------------------------------------------------------------------------

/// Position of the first `x` in `s`, or -1.
pub open spec fn first_index(s: Seq<Seq<char>>, x: Seq<char>) -> int
    decreases s.len(),
{
    if s.len() == 0 {
        -1
    } else if s.last() == x && first_index(s.drop_last(), x) < 0 {
        s.len() - 1
    } else {
        first_index(s.drop_last(), x)
    }
}

/// The selected alias, if the selection is inside the list.
pub open spec fn selected_alias(m: TuiModel) -> Option<Seq<char>> {
    if 0 <= m.selected < m.aliases.len() {
        Some(m.aliases[m.selected])
    } else {
        None
    }
}

/// After the alias list is read again the same alias stays selected when it
/// is still there (else the first), and the list scrolls to the top.
pub open spec fn refreshed(m: TuiModel, aliases: Seq<Seq<char>>) -> TuiModel {
    let sel = match selected_alias(m) {
        Some(a) => if first_index(aliases, a) >= 0 {
            first_index(aliases, a)
        } else {
            0
        },
        None => 0,
    };
    TuiModel { aliases: aliases, selected: sel, scroll: 0, ..m }
}

proof fn lemma_first_index(s: Seq<Seq<char>>, x: Seq<char>)
    ensures
        s.contains(x) ==> 0 <= first_index(s, x) < s.len() && s[first_index(s, x)] == x && forall|j: int|
            0 <= j < first_index(s, x) ==> #[trigger] s[j] != x,
        !s.contains(x) ==> first_index(s, x) < 0,
    decreases s.len(),
{
    if s.len() > 0 {
        let t = s.drop_last();
        lemma_first_index(t, x);
        if t.contains(x) {
            let k = choose|k: int| 0 <= k < t.len() && t[k] == x;
            assert(t[k] == s[k]);
            assert(s.contains(x));
            assert forall|j: int| 0 <= j < first_index(s, x) implies #[trigger] s[j] != x by {
                assert(s[j] == t[j]);
            }
        } else {
            if s.last() == x {
                assert(s[s.len() - 1] == x);
                assert forall|j: int| 0 <= j < s.len() - 1 implies #[trigger] s[j] != x by {
                    assert(s[j] == t[j]);
                }
            } else {
                assert forall|k: int| 0 <= k < s.len() implies s[k] != x by {
                    if k < s.len() - 1 {
                        assert(s[k] == t[k]);
                    }
                }
            }
        }
    }
}

/// Reading the alias list again keeps the selected alias selected when the
/// new list still holds it (at its first place there), and selects the
/// first alias otherwise; the list becomes the new one and scrolls to the
/// top, and nothing else changes.
pub proof fn lemma_refresh_keeps_selected_alias(m: TuiModel, aliases: Seq<Seq<char>>)
    ensures
        ({
            let r = refreshed(m, aliases);
            &&& r.aliases == aliases
            &&& r.scroll == 0
            &&& match selected_alias(m) {
                Some(a) => if aliases.contains(a) {
                    selected_alias(r) == Some(a) && forall|j: int|
                        0 <= j < r.selected ==> #[trigger] aliases[j] != a
                } else {
                    r.selected == 0
                },
                None => r.selected == 0,
            }
            &&& r.focus == m.focus && r.layout == m.layout && r.active_surface == m.active_surface
            &&& r.artifacts == m.artifacts && r.alert == m.alert
        }),
{
    match selected_alias(m) {
        Some(a) => lemma_first_index(aliases, a),
        None => {},
    }
}

fn position_of(v: &Vec<String>, x: &str) -> (r: Option<usize>)
    ensures
        match r {
            Some(i) => i as int == first_index(views(v@), x@),
            None => first_index(views(v@), x@) < 0,
        },
{
    let ghost s = views(v@);
    let mut i: usize = 0;
    while i < v.len()
        invariant
            0 <= i <= v.len(),
            s == views(v@),
            first_index(s.take(i as int), x@) < 0,
        decreases v.len() - i,
    {
        assert(s.take(i + 1).drop_last() =~= s.take(i as int));
        if crate::text::str_eq(v[i].as_str(), x) {
            proof {
                lemma_first_index_prefix(s, x@, i + 1);
            }
            return Some(i);
        }
        i = i + 1;
    }
    assert(s.take(v.len() as int) =~= s);
    None
}

proof fn lemma_first_index_prefix(s: Seq<Seq<char>>, x: Seq<char>, k: int)
    requires
        0 <= k <= s.len(),
        first_index(s.take(k), x) >= 0,
    ensures
        first_index(s, x) == first_index(s.take(k), x),
    decreases s.len() - k,
{
    if k < s.len() {
        assert(s.take(k + 1).drop_last() =~= s.take(k));
        lemma_first_index_prefix(s, x, k + 1);
    } else {
        assert(s.take(k) =~= s);
    }
}

/// Installs a freshly read alias list, keeping the selected alias when it
/// is still listed.
pub fn apply_refreshed_aliases(state: &mut AppState, aliases: Vec<String>)
    ensures
        final(state)@ == refreshed(old(state)@, views(aliases@)),
{
    let sel = if state.selected < state.aliases.len() {
        match position_of(&aliases, state.aliases[state.selected].as_str()) {
            Some(i) => i,
            None => 0,
        }
    } else {
        0
    };
    state.aliases = aliases;
    state.selected = sel;
    state.scroll = 0;
}

/// The alias whose files the inspector should show, when it differs from
/// the one they were collected for: `Some(None)` when nothing is selected.
pub fn artifacts_to_collect(state: &AppState) -> (r: Option<Option<String>>)
    ensures
        ({
            let want = selected_alias(state@);
            let have = opt_string_view(state.artifacts.selected_alias);
            &&& want == have ==> r is None
            &&& want != have ==> r is Some && opt_string_view(r->Some_0) == want
        }),
{
    let want: Option<String> = if state.selected < state.aliases.len() {
        Some(state.aliases[state.selected].clone())
    } else {
        None
    };
    let same = match (&want, &state.artifacts.selected_alias) {
        (Some(a), Some(b)) => crate::text::str_eq(a.as_str(), b.as_str()),
        (None, None) => true,
        _ => false,
    };
    if same {
        None
    } else {
        Some(want)
    }
}

/// Shows newly collected files; an active surface that lost its file falls
/// back to the summary.
pub fn install_artifacts(state: &mut AppState, artifacts: AliasArtifacts)
    ensures
        final(state).artifacts == artifacts,
        final(state).active_surface == (if available(artifacts, old(state).active_surface) {
            old(state).active_surface
        } else {
            ControlSurface::Summary
        }),
        final(state).aliases == old(state).aliases,
        final(state).selected == old(state).selected,
        final(state).scroll == old(state).scroll,
        final(state).focus == old(state).focus,
        final(state).layout == old(state).layout,
        final(state).alert_message == old(state).alert_message,
{
    state.artifacts = artifacts;
    if !surface_available(&state.artifacts, state.active_surface) {
        state.active_surface = ControlSurface::Summary;
    }
}

/// The file that Enter opens on surface `s`, or the alert shown instead.
pub open spec fn activation(m: TuiModel, s: ControlSurface) -> Result<(Seq<char>, Seq<char>), Seq<char>> {
    match selected_alias(m) {
        None => Err("No alias selected"@),
        Some(alias) => match s {
            ControlSurface::Summary => match m.artifacts.resolved_config_path {
                Some(p) => Ok((alias, p@)),
                None => Err("No config file found for alias `"@ + alias + "`"@),
            },
            ControlSurface::Toml => match m.artifacts.toml_path {
                Some(p) => Ok((alias, p@)),
                None => Err("Alias `"@ + alias + "` has no TOML config file"@),
            },
            ControlSurface::Legacy => match m.artifacts.legacy_path {
                Some(p) => Ok((alias, p@)),
                None => Err("Alias `"@ + alias + "` has no legacy config file"@),
            },
            ControlSurface::Reconcile => match m.artifacts.reconcile_script_path {
                Some(p) => Ok((alias, p@)),
                None => Err("Alias `"@ + alias + "` has no extant reconcile script file"@),
            },
        },
    }
}

/// The selected alias and the file to open for surface `surface`, or the
/// alert to show when there is none.
pub fn activation_target(state: &AppState, surface: ControlSurface) -> (r: Result<(String, String), String>)
    ensures
        match activation(state@, surface) {
            Ok((alias, path)) => r is Ok && r->Ok_0.0@ == alias && r->Ok_0.1@ == path,
            Err(msg) => r is Err && r->Err_0@ == msg,
        },
{
    if state.selected >= state.aliases.len() {
        return Err(to_owned("No alias selected"));
    }
    let alias = state.aliases[state.selected].as_str();
    let path = match surface {
        ControlSurface::Summary => &state.artifacts.resolved_config_path,
        ControlSurface::Toml => &state.artifacts.toml_path,
        ControlSurface::Legacy => &state.artifacts.legacy_path,
        ControlSurface::Reconcile => &state.artifacts.reconcile_script_path,
    };
    match path {
        Some(p) => Ok((to_owned(alias), p.clone())),
        None => Err(
            match surface {
                ControlSurface::Summary => concat3("No config file found for alias `", alias, "`"),
                ControlSurface::Toml => concat3("Alias `", alias, "` has no TOML config file"),
                ControlSurface::Legacy => concat3("Alias `", alias, "` has no legacy config file"),
                ControlSurface::Reconcile => concat3(
                    "Alias `",
                    alias,
                    "` has no extant reconcile script file",
                ),
            },
        ),
    }
}

// ---------------------------------------------------------------------------
// Text on screen
// ---------------------------------------------------------------------------

/// `input` cut to `width` characters, the last replaced by `…` when cut.
pub open spec fn truncated(input: Seq<char>, width: int) -> Seq<char> {
    if width == 0 {
        Seq::empty()
    } else if input.len() <= width {
        input
    } else if width <= 1 {
        Seq::empty()
    } else {
        input.take(width - 1).push('…')
    }
}

/// Fits a line into `width` columns (one per character).
pub fn truncate_line(input: &str, width: usize) -> (r: String)
    ensures
        r@ == truncated(input@, width as int),
{
    if width == 0 {
        return String::new();
    }
    let chars = chars_of(input);
    if chars.len() <= width {
        return to_owned(input);
    }
    if width <= 1 {
        return String::new();
    }
    let mut out = crate::text::string_from_range(&chars, 0, width - 1);
    push_char(&mut out, '…');
    out
}

pub open spec fn alias_or_none(a: AliasArtifacts) -> Seq<char> {
    match a.selected_alias {
        Some(s) => s@,
        None => "<none>"@,
    }
}

fn alias_or_none_text(a: &AliasArtifacts) -> (r: String)
    ensures
        r@ == alias_or_none(*a),
{
    match &a.selected_alias {
        Some(s) => s.clone(),
        None => to_owned("<none>"),
    }
}

/// The banner text after the program name.
pub open spec fn guidance(m: TuiModel) -> Seq<char> {
    "alias list active (`"@ + alias_or_none(m.artifacts) + "` selected): [Enter] open "@
        + label_of(m.active_surface)
        + " surface, [Tab] switch surfaces, editor save `:wq`, abort `:q!`"@
}

pub fn banner_guidance(state: &AppState) -> (r: String)
    ensures
        r@ == guidance(state@),
{
    let alias = alias_or_none_text(&state.artifacts);
    let mut r = concat3("alias list active (`", alias.as_str(), "` selected): [Enter] open ");
    r.append(state.active_surface.label());
    r.append(" surface, [Tab] switch surfaces, editor save `:wq`, abort `:q!`");
    r
}

/// A surface tab: bracketed when active, padded otherwise.
pub open spec fn tab_text(active: ControlSurface, surface: ControlSurface) -> Seq<char> {
    if active == surface {
        "["@ + label_of(surface) + "]"@
    } else {
        " "@ + label_of(surface) + " "@
    }
}

/// The tab line: every surface's tab followed by a space, in surface order.
pub open spec fn tabs_text(active: ControlSurface) -> Seq<char> {
    tab_text(active, ControlSurface::Summary) + " "@ + tab_text(active, ControlSurface::Toml) + " "@
        + tab_text(active, ControlSurface::Legacy) + " "@ + tab_text(
        active,
        ControlSurface::Reconcile,
    ) + " "@
}

pub fn surface_tab_label(active: ControlSurface, surface: ControlSurface) -> (r: String)
    ensures
        r@ == tab_text(active, surface),
{
    if active == surface {
        concat3("[", surface.label(), "]")
    } else {
        concat3(" ", surface.label(), " ")
    }
}

/// Row `idx` of the alias column in the split layout, before truncation.
pub open spec fn left_line(m: TuiModel, idx: int) -> Seq<char> {
    let row = m.scroll + idx;
    if m.aliases.len() == 0 {
        if idx == 0 {
            "  aliases"@
        } else if idx == 1 {
            "  (empty)"@
        } else {
            Seq::empty()
        }
    } else if row < m.aliases.len() {
        (if row == m.selected {
            ">"@
        } else {
            " "@
        }) + (if row == m.selected && m.focus == PaneFocus::List {
            "*"@
        } else {
            " "@
        }) + " "@ + m.aliases[row]
    } else {
        Seq::empty()
    }
}

/// The alias column of the split layout: `rows` lines cut to `width`.
pub fn split_left_lines(state: &AppState, rows: usize, width: usize) -> (r: Vec<String>)
    ensures
        r@.len() == rows,
        forall|i: int| 0 <= i < rows ==> #[trigger] r@[i]@ == truncated(left_line(state@, i), width as int),
{
    let mut out: Vec<String> = Vec::new();
    let len = state.aliases.len();
    let mut idx: usize = 0;
    while idx < rows
        invariant
            0 <= idx <= rows,
            len == state.aliases.len(),
            out@.len() == idx,
            forall|i: int| 0 <= i < idx ==> #[trigger] out@[i]@ == truncated(left_line(state@, i), width as int),
        decreases rows - idx,
    {
        let raw: String = if len == 0 {
            if idx == 0 {
                to_owned("  aliases")
            } else if idx == 1 {
                to_owned("  (empty)")
            } else {
                String::new()
            }
        } else if state.scroll < len && idx < len - state.scroll {
            let row = state.scroll + idx;
            let selected = row == state.selected;
            let pointer = if selected {
                ">"
            } else {
                " "
            };
            let focus = if selected && matches!(state.focus, PaneFocus::List) {
                "*"
            } else {
                " "
            };
            let mut line = concat3(pointer, focus, " ");
            line.append(state.aliases[row].as_str());
            line
        } else {
            String::new()
        };
        assert(raw@ == left_line(state@, idx as int));
        out.push(truncate_line(raw.as_str(), width));
        idx = idx + 1;
    }
    out
}

/// Row `idx` of the alias list in the modal layout, before truncation.
pub open spec fn modal_line(m: TuiModel, idx: int) -> Seq<char> {
    let row = m.scroll + idx;
    if row < m.aliases.len() {
        (if row == m.selected {
            ">"@
        } else {
            " "@
        }) + " "@ + m.aliases[row]
    } else {
        Seq::empty()
    }
}

/// The alias list of the modal layout: `rows` lines cut to `width`.
pub fn modal_list_lines(state: &AppState, rows: usize, width: usize) -> (r: Vec<String>)
    ensures
        r@.len() == rows,
        forall|i: int| 0 <= i < rows ==> #[trigger] r@[i]@ == truncated(modal_line(state@, i), width as int),
{
    let mut out: Vec<String> = Vec::new();
    let len = state.aliases.len();
    let mut idx: usize = 0;
    while idx < rows
        invariant
            0 <= idx <= rows,
            len == state.aliases.len(),
            out@.len() == idx,
            forall|i: int| 0 <= i < idx ==> #[trigger] out@[i]@ == truncated(modal_line(state@, i), width as int),
        decreases rows - idx,
    {
        let raw: String = if state.scroll < len && idx < len - state.scroll {
            let row = state.scroll + idx;
            let pointer = if row == state.selected {
                ">"
            } else {
                " "
            };
            concat3(pointer, " ", state.aliases[row].as_str())
        } else {
            String::new()
        };
        assert(raw@ == modal_line(state@, idx as int));
        out.push(truncate_line(raw.as_str(), width));
        idx = idx + 1;
    }
    out
}

pub fn surface_tabs_text(active: ControlSurface) -> (r: String)
    ensures
        r@ == tabs_text(active),
{
    let mut r = surface_tab_label(active, ControlSurface::Summary);
    r.append(" ");
    let t = surface_tab_label(active, ControlSurface::Toml);
    r.append(t.as_str());
    r.append(" ");
    let t = surface_tab_label(active, ControlSurface::Legacy);
    r.append(t.as_str());
    r.append(" ");
    let t = surface_tab_label(active, ControlSurface::Reconcile);
    r.append(t.as_str());
    r.append(" ");
    r
}

/// The lines above the alias list in the modal layout: the selected alias,
/// the tab line and the key hint (the first and last cut to `width`), or
/// only a notice when no alias is configured.
pub open spec fn modal_header(m: TuiModel, width: int) -> Seq<Seq<char>> {
    if m.aliases.len() == 0 {
        seq!["No aliases configured."@]
    } else {
        seq![
            truncated("selected: "@ + alias_or_none(m.artifacts), width),
            tabs_text(m.active_surface),
            truncated(
                "[Enter] open "@ + label_of(m.active_surface) + " surface  [Tab] switch surfaces"@,
                width,
            ),
        ]
    }
}

pub fn modal_header_lines(state: &AppState, width: usize) -> (r: Vec<String>)
    ensures
        views(r@) == modal_header(state@, width as int),
{
    let mut r: Vec<String> = Vec::new();
    if state.aliases.len() == 0 {
        r.push(to_owned("No aliases configured."));
        proof {
            assert(views(r@) =~= modal_header(state@, width as int));
        }
        return r;
    }
    let alias = alias_or_none_text(&state.artifacts);
    let selected = crate::text::concat2("selected: ", alias.as_str());
    r.push(truncate_line(selected.as_str(), width));
    r.push(surface_tabs_text(state.active_surface));
    let hint = concat3(
        "[Enter] open ",
        state.active_surface.label(),
        " surface  [Tab] switch surfaces",
    );
    r.push(truncate_line(hint.as_str(), width));
    proof {
        assert(views(r@) =~= modal_header(state@, width as int));
    }
    r
}

/// The first line of the inspector: the selected alias, cut to `width`.
pub open spec fn inspector_alias(m: TuiModel, width: int) -> Seq<char> {
    truncated("alias: "@ + alias_or_none(m.artifacts), width)
}

pub fn inspector_alias_line(state: &AppState, width: usize) -> (r: String)
    ensures
        r@ == inspector_alias(state@, width as int),
{
    let alias = alias_or_none_text(&state.artifacts);
    let line = crate::text::concat2("alias: ", alias.as_str());
    truncate_line(line.as_str(), width)
}

/// What the inspector says about the active surface, before truncation.
pub open spec fn detail_lines(a: AliasArtifacts, s: ControlSurface) -> Seq<Seq<char>> {
    match s {
        ControlSurface::Summary => seq![
            "`"@ + alias_or_none(a) + "` overview: choose a surface tab, then press Enter."@,
            match a.resolved_config_path {
                Some(p) => "preferred config: "@ + p@,
                None => "preferred config: <missing>"@,
            },
            "quick keys: Tab/Shift-Tab, 1..4, Enter, e, r"@,
        ],
        ControlSurface::Toml => match a.toml_path {
            Some(p) => seq!["TOML surface"@, "file: "@ + p@, "Enter: edit TOML config"@],
            None => seq!["TOML surface unavailable (no extant TOML file)."@],
        },
        ControlSurface::Legacy => match a.legacy_path {
            Some(p) => seq!["Legacy surface"@, "file: "@ + p@, "Enter: edit legacy config"@],
            None => seq!["Legacy surface unavailable (no extant legacy file)."@],
        },
        ControlSurface::Reconcile => match a.reconcile_script_path {
            Some(p) => seq!["Reconcile surface"@, "script: "@ + p@, "Enter/e: edit reconcile script"@],
            None => seq![
                "Reconcile surface unavailable (no extant reconcile script file)."@,
                "Configure `reconcile.script` in TOML, ensure file exists, then refresh."@,
            ],
        },
    }
}

fn raw_detail_lines(a: &AliasArtifacts, s: ControlSurface) -> (r: Vec<String>)
    ensures
        views(r@) == detail_lines(*a, s),
{
    let mut lines: Vec<String> = Vec::new();
    match s {
        ControlSurface::Summary => {
            let alias = alias_or_none_text(a);
            lines.push(concat3("`", alias.as_str(), "` overview: choose a surface tab, then press Enter."));
            match &a.resolved_config_path {
                Some(p) => lines.push(crate::text::concat2("preferred config: ", p.as_str())),
                None => lines.push(to_owned("preferred config: <missing>")),
            }
            lines.push(to_owned("quick keys: Tab/Shift-Tab, 1..4, Enter, e, r"));
        },
        ControlSurface::Toml => match &a.toml_path {
            Some(p) => {
                lines.push(to_owned("TOML surface"));
                lines.push(crate::text::concat2("file: ", p.as_str()));
                lines.push(to_owned("Enter: edit TOML config"));
            },
            None => lines.push(to_owned("TOML surface unavailable (no extant TOML file).")),
        },
        ControlSurface::Legacy => match &a.legacy_path {
            Some(p) => {
                lines.push(to_owned("Legacy surface"));
                lines.push(crate::text::concat2("file: ", p.as_str()));
                lines.push(to_owned("Enter: edit legacy config"));
            },
            None => lines.push(to_owned("Legacy surface unavailable (no extant legacy file).")),
        },
        ControlSurface::Reconcile => match &a.reconcile_script_path {
            Some(p) => {
                lines.push(to_owned("Reconcile surface"));
                lines.push(crate::text::concat2("script: ", p.as_str()));
                lines.push(to_owned("Enter/e: edit reconcile script"));
            },
            None => {
                lines.push(to_owned("Reconcile surface unavailable (no extant reconcile script file)."));
                lines.push(to_owned("Configure `reconcile.script` in TOML, ensure file exists, then refresh."));
            },
        },
    }
    assert(views(lines@) =~= detail_lines(*a, s));
    lines
}

/// The inspector text for the active surface: at most `max(rows, 1)` lines,
/// each cut to `width`.
pub fn surface_detail_lines(state: &AppState, width: usize, rows: usize) -> (r: Vec<String>)
    ensures
        ({
            let d = detail_lines(state.artifacts, state.active_surface);
            let n = if rows as int >= 1 { rows as int } else { 1 };
            &&& r@.len() == (if d.len() <= n { d.len() as int } else { n })
            &&& forall|i: int| 0 <= i < r@.len() ==> #[trigger] r@[i]@ == truncated(d[i], width as int)
        }),
{
    let lines = raw_detail_lines(&state.artifacts, state.active_surface);
    let limit: usize = if rows >= 1 {
        rows
    } else {
        1
    };
    let mut out: Vec<String> = Vec::new();
    let mut i: usize = 0;
    while i < lines.len() && i < limit
        invariant
            0 <= i <= lines.len(),
            i <= limit,
            out@.len() == i,
            views(lines@) == detail_lines(state.artifacts, state.active_surface),
            forall|j: int| 0 <= j < i ==> #[trigger] out@[j]@ == truncated(views(lines@)[j], width as int),
        decreases lines.len() - i,
    {
        out.push(truncate_line(lines[i].as_str(), width));
        i = i + 1;
    }
    out
}

} // verus!
