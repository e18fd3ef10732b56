//! Keyboard handling: what each key does to the application state in each
//! input mode, and the commands of the command bar. Work that has to leave
//! the library (sending a write, writing a file, reading a floating-point
//! number) comes back as an `Action`.
use std::collections::BTreeMap;
use vstd::prelude::*;
use vstd::string::*;
use vstd::utf8::encode_utf8;
use crate::config::{addr_text, AddrFormat, AppConfig, Mode, PollRange};
use crate::format::{NumFormat, WordSwap};
use crate::state::{
    after_push, key_at, AppState, FocusPane, InputMode, LogLevel, PaneState, RegisterValue,
    UiState, WriteRequest,
};
use crate::text::{
    concat, dec_chars, drop_last_char, hex4, hex4_text, hex_list, hex_list_text, num_error_text,
    parse_u64, push_char, split_words, to_decimal, trim, trim_chars, u64_parse_spec, without_last,
    words,
};

verus! {

broadcast use {vstd::std_specs::btree::group_btree_axioms, vstd::laws_cmp::group_laws_cmp};

/// A key as the application sees it.
#[derive(Clone, Copy, Debug, PartialEq, Eq, Structural)]
pub enum KeyCode {
    Char(char),
    F(u8),
    Esc,
    Tab,
    BackTab,
    Enter,
    Backspace,
    Up,
    Down,
    PageUp,
    PageDown,
    Home,
    End,
    Other,
}

/// A key press: the key and whether Control was held.
#[derive(Clone, Copy, Debug, PartialEq, Eq, Structural)]
pub struct KeyPress {
    pub code: KeyCode,
    pub ctrl: bool,
}

/// One register in an export: its address, the address as `0x{:04X}`,
/// and its raw value.
#[derive(Clone, Debug)]
pub struct ExportEntry {
    pub addr: u16,
    pub name: String,
    pub raw: u16,
}

/// The registers of one tab in an export, under the tab's label.
#[derive(Clone, Debug)]
pub struct ExportSection {
    pub title: String,
    pub entries: Vec<ExportEntry>,
}

/// Work a key asks of the application around the library.
#[derive(Clone, Debug)]
pub enum Action {
    Nothing,
    /// Send the request to the client task; once sent, log `note`.
    SendWrite { request: WriteRequest, note: String },
    /// Read `input` as a value of the floating-point `format` and hand the
    /// outcome to `AppState::complete_write`.
    ParseFloat { format: NumFormat, input: String },
    /// Write the sections as JSON to `path`, then report with
    /// `AppState::finish_export`.
    Export { path: String, sections: Vec<ExportSection> },
    /// Write the configuration as JSON to `path`, then report with
    /// `AppState::finish_save`.
    Save { path: String, config: AppConfig },
}

// ---------------------------------------------------------------------------
// State updates used by the specifications
// ---------------------------------------------------------------------------

/// `s` with another input mode.
pub open spec fn with_mode(s: AppState, m: InputMode) -> AppState {
    AppState { ui: UiState { input_mode: m, ..s.ui }, ..s }
}

/// `t` is `s` with a line added to the log.
pub open spec fn logged(s: AppState, t: AppState, level: LogLevel, line: Seq<char>) -> bool {
    &&& t == AppState { log: t.log, ..s }
    &&& t.log.lines() == after_push(s.log.lines(), level, line)
}

/// `t` is `s` but for the panes, which are `panes`.
pub open spec fn panes_now(s: AppState, t: AppState, panes: Seq<PaneState>) -> bool {
    &&& t == AppState { ui: UiState { panes: t.ui.panes, ..s.ui }, ..s }
    &&& t.ui.panes@ == panes
}

/// The panes with the active one replaced by `f(active)`, if it exists.
pub open spec fn update_active(s: AppState, p: PaneState) -> Seq<PaneState> {
    if s.ui.active_tab < s.ui.panes@.len() {
        s.ui.panes@.update(s.ui.active_tab as int, p)
    } else {
        s.ui.panes@
    }
}

/// Every pane showing addresses in `fmt`.
pub open spec fn all_addr(panes: Seq<PaneState>, fmt: AddrFormat) -> Seq<PaneState> {
    panes.map_values(|p: PaneState| PaneState { addr_format: fmt, ..p })
}

/// `a - b`, or zero.
pub open spec fn sat_sub(a: usize, b: usize) -> usize {
    if a >= b {
        (a - b) as usize
    } else {
        0
    }
}

/// `a + b`, or the largest `usize`.
pub open spec fn sat_add(a: usize, b: usize) -> usize {
    if a + b <= usize::MAX {
        (a + b) as usize
    } else {
        usize::MAX
    }
}

fn saturating_sub(a: usize, b: usize) -> (r: usize)
    ensures
        r == sat_sub(a, b),
{
    if a >= b {
        a - b
    } else {
        0
    }
}

fn saturating_add(a: usize, b: usize) -> (r: usize)
    ensures
        r == sat_add(a, b),
{
    if a <= usize::MAX - b {
        a + b
    } else {
        usize::MAX
    }
}

// ---------------------------------------------------------------------------
// Normal mode
// ---------------------------------------------------------------------------

/// What a key does in normal mode.
#[derive(Clone, Copy, Debug, PartialEq, Eq, Structural)]
pub enum NormalCommand {
    Quit,
    NextTab,
    PrevTab,
    ToggleFocus,
    OpenWrite,
    OpenHelp,
    OpenCommandBar,
    DecimalActive,
    DecimalAll,
    HexActive,
    HexAll,
    OpenFormat,
    OpenLabel,
    /// Move the selection up (or the log back) by this many rows.
    Up(usize),
    /// Move the selection down (or the log forward) by this many rows.
    Down(usize),
    Home,
    End,
    Ignore,
}

/// The normal-mode meaning of a key, given the tab count.
pub open spec fn normal_command(key: KeyPress, tabs: nat) -> NormalCommand {
    match key.code {
        KeyCode::Char(c) => if c == 'q' || (c == 'c' && key.ctrl) {
            NormalCommand::Quit
        } else if c == 'w' {
            NormalCommand::OpenWrite
        } else if c == ':' {
            NormalCommand::OpenCommandBar
        } else if c == 'd' {
            NormalCommand::DecimalActive
        } else if c == 'D' {
            NormalCommand::DecimalAll
        } else if c == 'h' {
            NormalCommand::HexActive
        } else if c == 'H' {
            NormalCommand::HexAll
        } else if c == 'f' {
            NormalCommand::OpenFormat
        } else if c == 'l' {
            NormalCommand::OpenLabel
        } else if c == 'k' {
            NormalCommand::Up(1)
        } else if c == 'j' {
            NormalCommand::Down(1)
        } else {
            NormalCommand::Ignore
        },
        KeyCode::Esc => NormalCommand::Quit,
        KeyCode::Tab => if tabs > 0 {
            NormalCommand::NextTab
        } else {
            NormalCommand::Ignore
        },
        KeyCode::BackTab => if tabs > 0 {
            NormalCommand::PrevTab
        } else {
            NormalCommand::Ignore
        },
        KeyCode::F(n) => if n == 2 {
            NormalCommand::ToggleFocus
        } else if n == 1 {
            NormalCommand::OpenHelp
        } else {
            NormalCommand::Ignore
        },
        KeyCode::Up => NormalCommand::Up(1),
        KeyCode::Down => NormalCommand::Down(1),
        KeyCode::PageUp => NormalCommand::Up(20),
        KeyCode::PageDown => NormalCommand::Down(20),
        KeyCode::Home => NormalCommand::Home,
        KeyCode::End => NormalCommand::End,
        _ => NormalCommand::Ignore,
    }
}

fn normal_command_of(key: KeyPress, tabs: usize) -> (r: NormalCommand)
    ensures
        r == normal_command(key, tabs as nat),
{
    match key.code {
        KeyCode::Char(c) => if c == 'q' || (c == 'c' && key.ctrl) {
            NormalCommand::Quit
        } else if c == 'w' {
            NormalCommand::OpenWrite
        } else if c == ':' {
            NormalCommand::OpenCommandBar
        } else if c == 'd' {
            NormalCommand::DecimalActive
        } else if c == 'D' {
            NormalCommand::DecimalAll
        } else if c == 'h' {
            NormalCommand::HexActive
        } else if c == 'H' {
            NormalCommand::HexAll
        } else if c == 'f' {
            NormalCommand::OpenFormat
        } else if c == 'l' {
            NormalCommand::OpenLabel
        } else if c == 'k' {
            NormalCommand::Up(1)
        } else if c == 'j' {
            NormalCommand::Down(1)
        } else {
            NormalCommand::Ignore
        },
        KeyCode::Esc => NormalCommand::Quit,
        KeyCode::Tab => if tabs > 0 {
            NormalCommand::NextTab
        } else {
            NormalCommand::Ignore
        },
        KeyCode::BackTab => if tabs > 0 {
            NormalCommand::PrevTab
        } else {
            NormalCommand::Ignore
        },
        KeyCode::F(n) => if n == 2 {
            NormalCommand::ToggleFocus
        } else if n == 1 {
            NormalCommand::OpenHelp
        } else {
            NormalCommand::Ignore
        },
        KeyCode::Up => NormalCommand::Up(1),
        KeyCode::Down => NormalCommand::Down(1),
        KeyCode::PageUp => NormalCommand::Up(20),
        KeyCode::PageDown => NormalCommand::Down(20),
        KeyCode::Home => NormalCommand::Home,
        KeyCode::End => NormalCommand::End,
        _ => NormalCommand::Ignore,
    }
}

/// The last row of the active pane: its registers grouped by the row width,
/// a shorter row last.
pub open spec fn last_row(s: AppState) -> usize {
    let n = s.registers@[s.ui.active_tab as int]@.dom().len();
    let rows = (n + s.row_width() - 1) / (s.row_width() as int);
    if rows == 0 {
        0
    } else {
        (rows - 1) as usize
    }
}

/// The format the format chooser starts on: the active pane's.
pub open spec fn current_format(s: AppState) -> NumFormat {
    if s.ui.active_tab < s.ui.panes@.len() {
        s.ui.panes@[s.ui.active_tab as int].num_format
    } else {
        NumFormat::Int16
    }
}

/// The label text the label editor starts with: the register's label, or
/// nothing.
pub open spec fn existing_label(s: AppState, addr: u16) -> Seq<char> {
    let m = s.registers@[s.ui.active_tab as int]@;
    if m.contains_key(addr) && m[addr].label is Some {
        m[addr].label->0@
    } else {
        Seq::empty()
    }
}

/// What a normal-mode command does to the state.
pub open spec fn normal_effect(s: AppState, t: AppState, cmd: NormalCommand) -> bool {
    let n = s.config.ranges@.len();
    let a = s.ui.active_tab;
    let pane = s.ui.panes@[a as int];
    match cmd {
        NormalCommand::Quit => t == AppState { running: false, ..s },
        NormalCommand::NextTab => t == AppState {
            ui: UiState { active_tab: ((a + 1) % (n as int)) as usize, ..s.ui },
            ..s
        },
        NormalCommand::PrevTab => t == AppState {
            ui: UiState { active_tab: ((a + n - 1) % (n as int)) as usize, ..s.ui },
            ..s
        },
        NormalCommand::ToggleFocus => t == AppState {
            ui: UiState {
                focus: if s.ui.focus == FocusPane::Registers {
                    FocusPane::Log
                } else {
                    FocusPane::Registers
                },
                ..s.ui
            },
            ..s
        },
        NormalCommand::OpenHelp => t == with_mode(s, InputMode::HelpDialog),
        NormalCommand::OpenCommandBar => {
            &&& t == with_mode(s, t.ui.input_mode)
            &&& t.ui.input_mode matches InputMode::CommandBar { input, error } && input@.len() == 0
                && error is None
        },
        NormalCommand::OpenWrite => match (if s.active_writable() {
            s.selected_addr_spec()
        } else {
            None
        }) {
            Some(addr) => {
                &&& t == with_mode(s, t.ui.input_mode)
                &&& t.ui.input_mode matches InputMode::WriteDialog {
                    addr: w,
                    tab_index,
                    input,
                    error,
                } && w == addr && tab_index == a && input@.len() == 0 && error is None
            },
            None => t == s,
        },
        NormalCommand::DecimalActive => panes_now(
            s,
            t,
            update_active(s, PaneState { addr_format: AddrFormat::Decimal, ..pane }),
        ),
        NormalCommand::HexActive => panes_now(
            s,
            t,
            update_active(s, PaneState { addr_format: AddrFormat::Hex, ..pane }),
        ),
        NormalCommand::DecimalAll => panes_now(
            s,
            t,
            all_addr(s.ui.panes@, AddrFormat::Decimal),
        ),
        NormalCommand::HexAll => panes_now(s, t, all_addr(s.ui.panes@, AddrFormat::Hex)),
        NormalCommand::OpenFormat => if !s.active_coils() && n > 0 {
            t == with_mode(
                s,
                InputMode::FormatDialog { selected: current_format(s).position_spec() as usize },
            )
        } else {
            t == s
        },
        NormalCommand::OpenLabel => match (if n > 0 {
            s.selected_addr_spec()
        } else {
            None
        }) {
            Some(addr) => {
                &&& t == with_mode(s, t.ui.input_mode)
                &&& t.ui.input_mode matches InputMode::LabelDialog { addr: w, tab_index, input }
                    && w == addr && tab_index == a && input@ == existing_label(s, addr)
            },
            None => t == s,
        },
        NormalCommand::Up(k) => if s.ui.focus == FocusPane::Registers {
            panes_now(
                s,
                t,
                update_active(s, PaneState { selected_row: sat_sub(pane.selected_row, k), ..pane }),
            )
        } else {
            t == AppState { ui: UiState { log_scroll: sat_add(s.ui.log_scroll, k), ..s.ui }, ..s }
        },
        NormalCommand::Down(k) => if s.ui.focus == FocusPane::Registers {
            panes_now(
                s,
                t,
                update_active(s, PaneState { selected_row: sat_add(pane.selected_row, k), ..pane }),
            )
        } else {
            t == AppState { ui: UiState { log_scroll: sat_sub(s.ui.log_scroll, k), ..s.ui }, ..s }
        },
        NormalCommand::Home => if s.ui.focus == FocusPane::Registers {
            panes_now(
                s,
                t,
                update_active(s, PaneState { selected_row: 0, scroll_offset: 0, ..pane }),
            )
        } else {
            t == AppState {
                ui: UiState { log_scroll: s.log.entries@.len() as usize, ..s.ui },
                ..s
            }
        },
        NormalCommand::End => if s.ui.focus == FocusPane::Registers {
            panes_now(
                s,
                t,
                update_active(s, PaneState { selected_row: last_row(s), ..pane }),
            )
        } else {
            t == AppState { ui: UiState { log_scroll: 0, ..s.ui }, ..s }
        },
        NormalCommand::Ignore => t == s,
    }
}

fn set_active_pane(state: &mut AppState, p: PaneState)
    ensures
        panes_now(*old(state), *final(state), update_active(*old(state), p)),
{
    let a = state.ui.active_tab;
    if a < state.ui.panes.len() {
        state.ui.panes.set(a, p);
    }
}

fn set_all_addr(state: &mut AppState, fmt: AddrFormat)
    ensures
        panes_now(*old(state), *final(state), all_addr(old(state).ui.panes@, fmt)),
{
    let n = state.ui.panes.len();
    let mut i: usize = 0;
    while i < n
        invariant
            i <= n,
            n == old(state).ui.panes@.len(),
            *state == (AppState { ui: UiState { panes: state.ui.panes, ..old(state).ui }, ..*old(state) }),
            state.ui.panes@.len() == n,
            forall|j: int|
                0 <= j < n ==> #[trigger] state.ui.panes@[j] == if j < i {
                    PaneState { addr_format: fmt, ..old(state).ui.panes@[j] }
                } else {
                    old(state).ui.panes@[j]
                },
        decreases n - i,
    {
        let mut p = state.ui.panes[i];
        p.addr_format = fmt;
        state.ui.panes.set(i, p);
        i += 1;
    }
    assert(state.ui.panes@ =~= all_addr(old(state).ui.panes@, fmt));
}

/// The last row of the active pane (the active tab must have a pane).
fn last_row_of(state: &AppState) -> (r: usize)
    requires
        state.wf(),
        state.ui.active_tab < state.ui.panes@.len(),
    ensures
        r == last_row(*state),
{
    let a = state.ui.active_tab;
    let width: usize = if state.active_tab_is_coils() {
        1
    } else {
        state.ui.panes[a].num_format.width()
    };
    let len = state.registers[a].len();
    assert(len % width > 0 ==> len / width + 1 <= usize::MAX) by (nonlinear_arith)
        requires
            width >= 1,
            len <= usize::MAX,
    ;
    let rows = len / width + if len % width > 0 {
        1
    } else {
        0
    };
    proof {
        assert(rows == (len + width - 1) / (width as int)) by (nonlinear_arith)
            requires
                rows == (len as int) / (width as int) + if (len as int) % (width as int) > 0 {
                    1int
                } else {
                    0int
                },
                width >= 1,
        ;
    }
    if rows == 0 {
        0
    } else {
        rows - 1
    }
}

fn handle_normal(state: &mut AppState, key: KeyPress)
    requires
        old(state).wf(),
    ensures
        normal_effect(
            *old(state),
            *final(state),
            normal_command(key, old(state).config.ranges@.len()),
        ),
{
    let tab_count = state.tab_count();
    let cmd = normal_command_of(key, tab_count);
    let a = state.ui.active_tab;
    match cmd {
        NormalCommand::Quit => {
            state.running = false;
        },
        NormalCommand::NextTab => {
            state.ui.active_tab = (a + 1) % tab_count;
        },
        NormalCommand::PrevTab => {
            let prev = if a == 0 {
                tab_count - 1
            } else {
                a - 1
            };
            assert(prev == (a + tab_count - 1) % (tab_count as int)) by (nonlinear_arith)
                requires
                    a < tab_count,
                    prev == if a == 0 {
                        tab_count - 1
                    } else {
                        a - 1
                    },
            ;
            state.ui.active_tab = prev;
        },
        NormalCommand::ToggleFocus => {
            state.ui.focus = match state.ui.focus {
                FocusPane::Registers => FocusPane::Log,
                FocusPane::Log => FocusPane::Registers,
            };
        },
        NormalCommand::OpenWrite => {
            if state.active_tab_is_writable() {
                match state.selected_addr() {
                    Some(addr) => {
                        state.ui.input_mode = InputMode::WriteDialog {
                            addr,
                            tab_index: a,
                            input: String::new(),
                            error: None,
                        };
                    },
                    None => {},
                }
            }
        },
        NormalCommand::OpenHelp => {
            state.ui.input_mode = InputMode::HelpDialog;
        },
        NormalCommand::OpenCommandBar => {
            state.ui.input_mode = InputMode::CommandBar { input: String::new(), error: None };
        },
        NormalCommand::DecimalActive => {
            if a < state.ui.panes.len() {
                let mut p = state.ui.panes[a];
                p.addr_format = AddrFormat::Decimal;
                set_active_pane(state, p);
            }
        },
        NormalCommand::HexActive => {
            if a < state.ui.panes.len() {
                let mut p = state.ui.panes[a];
                p.addr_format = AddrFormat::Hex;
                set_active_pane(state, p);
            }
        },
        NormalCommand::DecimalAll => {
            set_all_addr(state, AddrFormat::Decimal);
        },
        NormalCommand::HexAll => {
            set_all_addr(state, AddrFormat::Hex);
        },
        NormalCommand::OpenFormat => {
            if !state.active_tab_is_coils() && tab_count > 0 {
                let current = if a < state.ui.panes.len() {
                    state.ui.panes[a].num_format
                } else {
                    NumFormat::Int16
                };
                state.ui.input_mode = InputMode::FormatDialog { selected: current.position() };
            }
        },
        NormalCommand::OpenLabel => {
            if tab_count > 0 {
                match state.selected_addr() {
                    Some(addr) => {
                        let existing = match state.registers[a].get(&addr) {
                            Some(rv) => match &rv.label {
                                Some(l) => l.clone(),
                                None => String::new(),
                            },
                            None => String::new(),
                        };
                        state.ui.input_mode = InputMode::LabelDialog {
                            addr,
                            tab_index: a,
                            input: existing,
                        };
                    },
                    None => {},
                }
            }
        },
        NormalCommand::Up(k) => {
            if state.ui.focus == FocusPane::Registers {
                if a < state.ui.panes.len() {
                    let mut p = state.ui.panes[a];
                    p.selected_row = saturating_sub(p.selected_row, k);
                    set_active_pane(state, p);
                }
            } else {
                state.ui.log_scroll = saturating_add(state.ui.log_scroll, k);
            }
        },
        NormalCommand::Down(k) => {
            if state.ui.focus == FocusPane::Registers {
                if a < state.ui.panes.len() {
                    let mut p = state.ui.panes[a];
                    p.selected_row = saturating_add(p.selected_row, k);
                    set_active_pane(state, p);
                }
            } else {
                state.ui.log_scroll = saturating_sub(state.ui.log_scroll, k);
            }
        },
        NormalCommand::Home => {
            if state.ui.focus == FocusPane::Registers {
                if a < state.ui.panes.len() {
                    let mut p = state.ui.panes[a];
                    p.selected_row = 0;
                    p.scroll_offset = 0;
                    set_active_pane(state, p);
                }
            } else {
                state.ui.log_scroll = state.log.entries.len();
            }
        },
        NormalCommand::End => {
            if state.ui.focus == FocusPane::Registers {
                if a < state.ui.panes.len() {
                    let mut p = state.ui.panes[a];
                    p.selected_row = last_row_of(state);
                    set_active_pane(state, p);
                }
            } else {
                state.ui.log_scroll = 0;
            }
        },
        NormalCommand::Ignore => {},
    }
}

// ---------------------------------------------------------------------------
// Help and format dialogs
// ---------------------------------------------------------------------------

/// The format at position `i` of the format list.
pub open spec fn format_at(i: nat) -> NumFormat {
    choose|f: NumFormat| f.position_spec() == i
}

fn nth_format(i: usize) -> (r: NumFormat)
    requires
        i < NumFormat::COUNT,
    ensures
        r == format_at(i as nat),
{
    let r = NumFormat::nth(i);
    proof {
        crate::format::lemma_position_nth(r, i as nat);
    }
    r
}

/// What a key does in the format chooser highlighting `sel`.
pub open spec fn format_effect(s: AppState, t: AppState, key: KeyPress, sel: usize) -> bool {
    let count = NumFormat::COUNT as int;
    let pane = s.ui.panes@[s.ui.active_tab as int];
    match key.code {
        KeyCode::Esc => t == with_mode(s, InputMode::Normal),
        KeyCode::Up => t == with_mode(
            s,
            InputMode::FormatDialog { selected: ((sel + count - 1) % count) as usize },
        ),
        KeyCode::Down => t == with_mode(
            s,
            InputMode::FormatDialog { selected: ((sel + 1) % count) as usize },
        ),
        KeyCode::Char(c) => if c == 'k' {
            t == with_mode(
                s,
                InputMode::FormatDialog { selected: ((sel + count - 1) % count) as usize },
            )
        } else if c == 'j' {
            t == with_mode(s, InputMode::FormatDialog { selected: ((sel + 1) % count) as usize })
        } else {
            t == s
        },
        KeyCode::Enter => t == AppState {
            ui: UiState {
                panes: t.ui.panes,
                input_mode: InputMode::Normal,
                ..s.ui
            },
            ..s
        } && t.ui.panes@ == update_active(
            s,
            PaneState { num_format: format_at(sel as nat), selected_row: 0, ..pane },
        ),
        _ => t == s,
    }
}

fn handle_format_dialog(state: &mut AppState, key: KeyPress, sel: usize)
    requires
        sel < NumFormat::COUNT,
    ensures
        format_effect(*old(state), *final(state), key, sel),
{
    let count = NumFormat::COUNT;
    let up = (sel + count - 1) % count;
    let down = (sel + 1) % count;
    match key.code {
        KeyCode::Esc => {
            state.ui.input_mode = InputMode::Normal;
        },
        KeyCode::Up => {
            state.ui.input_mode = InputMode::FormatDialog { selected: up };
        },
        KeyCode::Down => {
            state.ui.input_mode = InputMode::FormatDialog { selected: down };
        },
        KeyCode::Char(c) => {
            if c == 'k' {
                state.ui.input_mode = InputMode::FormatDialog { selected: up };
            } else if c == 'j' {
                state.ui.input_mode = InputMode::FormatDialog { selected: down };
            }
        },
        KeyCode::Enter => {
            let a = state.ui.active_tab;
            if a < state.ui.panes.len() {
                let mut p = state.ui.panes[a];
                p.num_format = nth_format(sel);
                p.selected_row = 0;
                state.ui.panes.set(a, p);
            }
            state.ui.input_mode = InputMode::Normal;
        },
        _ => {},
    }
}

// ---------------------------------------------------------------------------
// Label dialog
// ---------------------------------------------------------------------------

/// `after` is `before` with the label of `addr` in tab `tab` set to
/// `label`, when that tab has that register.
pub open spec fn label_set(
    before: Seq<BTreeMap<u16, RegisterValue>>,
    after: Seq<BTreeMap<u16, RegisterValue>>,
    tab: usize,
    addr: u16,
    label: Option<String>,
) -> bool {
    &&& after.len() == before.len()
    &&& forall|j: int| 0 <= j < before.len() && j != tab ==> #[trigger] after[j] == before[j]
    &&& tab < before.len() ==> after[tab as int]@ == if before[tab as int]@.contains_key(addr) {
        before[tab as int]@.insert(addr, RegisterValue { label, ..before[tab as int]@[addr] })
    } else {
        before[tab as int]@
    }
}

/// What a key does in the label editor for `addr` in tab `tab`.
pub open spec fn label_effect(
    s: AppState,
    t: AppState,
    key: KeyPress,
    addr: u16,
    tab: usize,
    input: String,
) -> bool {
    match key.code {
        KeyCode::Esc => t == with_mode(s, InputMode::Normal),
        KeyCode::Enter => {
            &&& t == AppState {
                registers: t.registers,
                ui: UiState { input_mode: InputMode::Normal, ..s.ui },
                ..s
            }
            &&& label_set(
                s.registers@,
                t.registers@,
                tab,
                addr,
                if input@.len() == 0 {
                    None
                } else {
                    Some(input)
                },
            )
        },
        KeyCode::Backspace => {
            &&& t == with_mode(s, t.ui.input_mode)
            &&& t.ui.input_mode matches InputMode::LabelDialog { addr: a2, tab_index, input: i2 }
                && a2 == addr && tab_index == tab && i2@ == without_last(input@)
        },
        KeyCode::Char(c) => {
            &&& t == with_mode(s, t.ui.input_mode)
            &&& t.ui.input_mode matches InputMode::LabelDialog { addr: a2, tab_index, input: i2 }
                && a2 == addr && tab_index == tab && i2@ == input@.push(c)
        },
        _ => t == s,
    }
}

fn set_label(
    regs: &mut Vec<BTreeMap<u16, RegisterValue>>,
    tab: usize,
    addr: u16,
    label: Option<String>,
)
    ensures
        label_set(old(regs)@, final(regs)@, tab, addr, label),
{
    if tab < regs.len() {
        let ghost before = regs@;
        let mut m = regs.remove(tab);
        let ghost m0 = m@;
        assert(m == before[tab as int]);
        match m.remove(&addr) {
            Some(mut rv) => {
                assert(rv == m0[addr]);
                rv.label = label;
                m.insert(addr, rv);
                assert(m@ =~= m0.insert(addr, RegisterValue { label, ..m0[addr] }));
            },
            None => {
                assert(m@ =~= m0);
            },
        }
        regs.insert(tab, m);
        assert forall|j: int| 0 <= j < before.len() && j != tab implies #[trigger] regs@[j]
            == before[j] by {
            if j < tab {
            } else {
            }
        }
    }
}

fn handle_label_dialog(state: &mut AppState, key: KeyPress, addr: u16, tab: usize, input: String)
    ensures
        label_effect(*old(state), *final(state), key, addr, tab, input),
{
    match key.code {
        KeyCode::Esc => {
            state.ui.input_mode = InputMode::Normal;
        },
        KeyCode::Enter => {
            let label = if input.unicode_len() == 0 {
                None
            } else {
                Some(input)
            };
            set_label(&mut state.registers, tab, addr, label);
            state.ui.input_mode = InputMode::Normal;
        },
        KeyCode::Backspace => {
            let shorter = drop_last_char(input.as_str());
            state.ui.input_mode = InputMode::LabelDialog { addr, tab_index: tab, input: shorter };
        },
        KeyCode::Char(c) => {
            let mut longer = input;
            push_char(&mut longer, c);
            state.ui.input_mode = InputMode::LabelDialog { addr, tab_index: tab, input: longer };
        },
        _ => {},
    }
}

// ---------------------------------------------------------------------------
// Write dialog
// ---------------------------------------------------------------------------

/// The swap settings a write is encoded with.
pub open spec fn write_swap(c: AppConfig) -> WordSwap {
    WordSwap { ints: c.swap_ints, floats: c.swap_floats, words: false, bytes: c.swap_bytes }
}

/// The format a write dialog reads its input in: unsigned 16-bit on coil
/// tabs, otherwise the pane's format.
pub open spec fn write_format(s: AppState, tab: usize) -> NumFormat {
    if s.active_coils() {
        NumFormat::Uint16
    } else if tab < s.ui.panes@.len() {
        s.ui.panes@[tab as int].num_format
    } else {
        NumFormat::Int16
    }
}

/// The log line for a write request.
pub open spec fn write_note(addr: u16, input: Seq<char>, vals: Seq<u16>) -> Seq<char> {
    "write request: addr="@ + hex4_text(addr) + " ["@ + trim_chars(input) + "] ("@
        + hex_list_text(vals) + ")"@
}

/// A parse outcome seen as values and text.
pub open spec fn outcome_view(r: Result<Vec<u16>, String>) -> Result<Seq<u16>, Seq<char>> {
    match r {
        Ok(v) => Ok(v@),
        Err(e) => Err(e@),
    }
}

/// What the outcome of reading the input does to a write dialog: the
/// values go out as a request and the dialog closes, or the dialog stays
/// open showing the error.
pub open spec fn write_completed(
    s: AppState,
    t: AppState,
    r: Action,
    addr: u16,
    tab: usize,
    input: String,
    parsed: Result<Seq<u16>, Seq<char>>,
) -> bool {
    match parsed {
        Ok(vals) => {
            &&& t == with_mode(s, InputMode::Normal)
            &&& r matches Action::SendWrite { request, note } && request.tab_index == tab
                && request.addr == addr && request.values@ == vals && note@ == write_note(
                addr,
                input@,
                vals,
            )
        },
        Err(e) => {
            &&& t == with_mode(s, t.ui.input_mode)
            &&& t.ui.input_mode matches InputMode::WriteDialog {
                addr: a2,
                tab_index: t2,
                input: i2,
                error: Some(e2),
            } && a2 == addr && t2 == tab && i2 == input && e2@ == e
            &&& r is Nothing
        },
    }
}

fn finish_write(
    state: &mut AppState,
    addr: u16,
    tab: usize,
    input: String,
    parsed: Result<Vec<u16>, String>,
) -> (r: Action)
    ensures
        write_completed(*old(state), *final(state), r, addr, tab, input, outcome_view(parsed)),
{
    match parsed {
        Ok(values) => {
            let mut note = concat("write request: addr=", hex4(addr).as_str());
            note.append(" [");
            note.append(trim(input.as_str()));
            note.append("] (");
            note.append(hex_list(values.as_slice()).as_str());
            note.append(")");
            state.ui.input_mode = InputMode::Normal;
            Action::SendWrite { request: WriteRequest { tab_index: tab, addr, values }, note }
        },
        Err(e) => {
            state.ui.input_mode = InputMode::WriteDialog {
                addr,
                tab_index: tab,
                input,
                error: Some(e),
            };
            Action::Nothing
        },
    }
}

impl AppState {
    /// Takes the outcome of reading a write dialog's input (for the
    /// floating-point formats, read outside the library): the values go out
    /// as a request and the dialog closes, or the dialog shows the error.
    /// Outside a write dialog nothing happens.
    pub fn complete_write(&mut self, parsed: Result<Vec<u16>, String>) -> (r: Action)
        ensures
            match old(self).ui.input_mode {
                InputMode::WriteDialog { addr, tab_index, input, error } => write_completed(
                    *old(self),
                    *final(self),
                    r,
                    addr,
                    tab_index,
                    input,
                    outcome_view(parsed),
                ),
                _ => *final(self) == *old(self) && r is Nothing,
            },
    {
        let (addr, tab, input) = match &self.ui.input_mode {
            InputMode::WriteDialog { addr, tab_index, input, error } => (
                *addr,
                *tab_index,
                input.clone(),
            ),
            _ => {
                return Action::Nothing;
            },
        };
        finish_write(self, addr, tab, input, parsed)
    }
}

/// What a key does in the write dialog for `addr` in tab `tab`.
pub open spec fn write_effect(
    s: AppState,
    t: AppState,
    r: Action,
    key: KeyPress,
    addr: u16,
    tab: usize,
    input: String,
) -> bool {
    let nf = write_format(s, tab);
    match key.code {
        KeyCode::Esc => t == with_mode(s, InputMode::Normal) && r is Nothing,
        KeyCode::Enter => if nf.is_float() {
            &&& t == s
            &&& r matches Action::ParseFloat { format, input: i2 } && format == nf && i2 == input
        } else {
            write_completed(s, t, r, addr, tab, input, nf.parse_outcome(input@, write_swap(s.config)))
        },
        KeyCode::Backspace => {
            &&& r is Nothing
            &&& t == with_mode(s, t.ui.input_mode)
            &&& t.ui.input_mode matches InputMode::WriteDialog {
                addr: a2,
                tab_index: t2,
                input: i2,
                error,
            } && a2 == addr && t2 == tab && i2@ == without_last(input@) && error is None
        },
        KeyCode::Char(c) => {
            &&& r is Nothing
            &&& t == with_mode(s, t.ui.input_mode)
            &&& t.ui.input_mode matches InputMode::WriteDialog {
                addr: a2,
                tab_index: t2,
                input: i2,
                error,
            } && a2 == addr && t2 == tab && i2@ == input@.push(c) && error is None
        },
        _ => t == s && r is Nothing,
    }
}

fn handle_write_dialog(state: &mut AppState, key: KeyPress, addr: u16, tab: usize, input: String) -> (r:
    Action)
    ensures
        write_effect(*old(state), *final(state), r, key, addr, tab, input),
{
    let nf = if state.active_tab_is_coils() {
        NumFormat::Uint16
    } else if tab < state.ui.panes.len() {
        state.ui.panes[tab].num_format
    } else {
        NumFormat::Int16
    };
    match key.code {
        KeyCode::Esc => {
            state.ui.input_mode = InputMode::Normal;
            Action::Nothing
        },
        KeyCode::Enter => {
            if nf.is_float_format() {
                Action::ParseFloat { format: nf, input }
            } else {
                let ws = state.config.word_swap();
                let parsed = nf.parse_value(input.as_str(), &ws);
                finish_write(state, addr, tab, input, parsed)
            }
        },
        KeyCode::Backspace => {
            let shorter = drop_last_char(input.as_str());
            state.ui.input_mode = InputMode::WriteDialog {
                addr,
                tab_index: tab,
                input: shorter,
                error: None,
            };
            Action::Nothing
        },
        KeyCode::Char(c) => {
            let mut longer = input;
            push_char(&mut longer, c);
            state.ui.input_mode = InputMode::WriteDialog {
                addr,
                tab_index: tab,
                input: longer,
                error: None,
            };
            Action::Nothing
        },
        _ => Action::Nothing,
    }
}

// ---------------------------------------------------------------------------
// Commands
// ---------------------------------------------------------------------------

/// `e` lists every register of `m` in address order, each with its
/// address as `0x{:04X}` and its raw value.
pub open spec fn entries_listed(m: Map<u16, RegisterValue>, e: Seq<ExportEntry>) -> bool {
    &&& forall|i: int, j: int| 0 <= i < j < e.len() ==> e[i].addr < e[j].addr
    &&& forall|i: int|
        0 <= i < e.len() ==> m.contains_key(#[trigger] e[i].addr) && e[i].name@ == hex4_text(
            e[i].addr,
        ) && e[i].raw == m[e[i].addr].raw
    &&& forall|k: u16| #[trigger] m.contains_key(k) ==> exists|i: int| 0 <= i < e.len() && e[i].addr == k
}

/// The tabs among the first `n` that hold registers, in order.
pub open spec fn exported_tabs(s: AppState, n: int) -> Seq<int>
    decreases n,
{
    if n <= 0 {
        Seq::empty()
    } else {
        let prev = exported_tabs(s, n - 1);
        if s.registers@[n - 1]@.dom().len() > 0 {
            prev.push(n - 1)
        } else {
            prev
        }
    }
}

/// The address format a tab's label is exported in.
pub open spec fn tab_addr_format(s: AppState, i: int) -> AddrFormat {
    if i < s.ui.panes@.len() {
        s.ui.panes@[i].addr_format
    } else {
        AddrFormat::Hex
    }
}

/// `sec` is the export of tab `i`: its label and its registers.
pub open spec fn section_of(s: AppState, i: int, sec: ExportSection) -> bool {
    &&& sec.title@ == s.config.ranges@[i].label_text(s.config.start_reference, tab_addr_format(s, i))
    &&& entries_listed(s.registers@[i]@, sec.entries@)
}

/// The export of every tab that holds registers, in tab order.
pub open spec fn export_ok(s: AppState, secs: Seq<ExportSection>) -> bool {
    let tabs = exported_tabs(s, s.config.ranges@.len() as int);
    &&& secs.len() == tabs.len()
    &&& forall|j: int| 0 <= j < secs.len() ==> section_of(s, tabs[j], #[trigger] secs[j])
}

/// What a command does; its words are those of `cmd`.
pub open spec fn command_effect(s: AppState, t: AppState, r: Action, cmd: Seq<char>) -> bool {
    let w = words(cmd);
    if w.len() == 0 {
        t == s && r is Nothing
    } else if w[0] == "poll"@ {
        &&& r is Nothing
        &&& if w.len() < 2 {
            logged(s, t, LogLevel::Error, "usage: poll <interval_ms>"@)
        } else {
            match u64_parse_spec(encode_utf8(w[1])) {
                Ok(ms) => if 10 <= ms <= 60_000 {
                    &&& t == AppState {
                        config: AppConfig { poll_interval_ms: ms as u64, ..s.config },
                        log: t.log,
                        ..s
                    }
                    &&& t.log.lines() == after_push(
                        s.log.lines(),
                        LogLevel::Info,
                        "poll interval changed to "@ + dec_chars(ms as nat) + " ms"@,
                    )
                } else {
                    logged(
                        s,
                        t,
                        LogLevel::Error,
                        "poll interval "@ + dec_chars(ms as nat) + " out of range (10..60000)"@,
                    )
                },
                Err(e) => logged(s, t, LogLevel::Error, "invalid poll interval: "@ + num_error_text(e)),
            }
        }
    } else if w[0] == "export"@ {
        &&& t == s
        &&& r matches Action::Export { path, sections } && path@ == (if w.len() > 1 {
            w[1]
        } else {
            "registers.json"@
        }) && export_ok(s, sections@)
    } else if w[0] == "save"@ {
        &&& t == s
        &&& r matches Action::Save { path, config } && path@ == (if w.len() > 1 {
            w[1]
        } else {
            "config.json"@
        }) && crate::state::is_saved_config(s, config)
    } else {
        &&& r is Nothing
        &&& logged(s, t, LogLevel::Warn, "unknown command: "@ + w[0])
    }
}

fn export_entries(m: &BTreeMap<u16, RegisterValue>) -> (r: Vec<ExportEntry>)
    ensures
        entries_listed(m@, r@),
{
    let keys = crate::state::sorted_keys(m);
    let n = keys.len();
    let mut out: Vec<ExportEntry> = Vec::new();
    let mut i: usize = 0;
    while i < n
        invariant
            i <= n,
            n == keys@.len(),
            keys@.to_set() == m@.dom(),
            out@.len() == i,
            forall|j: int|
                0 <= j < i ==> (#[trigger] out@[j]).addr == keys@[j] && out@[j].name@ == hex4_text(
                    keys@[j],
                ) && m@.contains_key(keys@[j]) && out@[j].raw == m@[keys@[j]].raw,
        decreases n - i,
    {
        let k = keys[i];
        assert(keys@.contains(k));
        let raw = match m.get(&k) {
            Some(rv) => rv.raw,
            None => 0,
        };
        out.push(ExportEntry { addr: k, name: hex4(k), raw });
        i += 1;
    }
    assert forall|k: u16| #[trigger] m@.contains_key(k) implies exists|j: int|
        0 <= j < out@.len() && out@[j].addr == k by {
        assert(keys@.to_set().contains(k));
        assert(keys@.contains(k));
        let a = choose|a: int| 0 <= a < keys@.len() && keys@[a] == k;
        assert(out@[a].addr == k);
    }
    out
}

fn export_sections(s: &AppState) -> (r: Vec<ExportSection>)
    requires
        s.wf(),
    ensures
        export_ok(*s, r@),
{
    let n = s.config.ranges.len();
    let mut out: Vec<ExportSection> = Vec::new();
    let mut i: usize = 0;
    while i < n
        invariant
            i <= n,
            n == s.config.ranges@.len(),
            s.wf(),
            out@.len() == exported_tabs(*s, i as int).len(),
            forall|j: int|
                0 <= j < out@.len() ==> section_of(
                    *s,
                    exported_tabs(*s, i as int)[j],
                    #[trigger] out@[j],
                ),
        decreases n - i,
    {
        let ghost prev = exported_tabs(*s, i as int);
        if s.registers[i].len() > 0 {
            let fmt = if i < s.ui.panes.len() {
                s.ui.panes[i].addr_format
            } else {
                AddrFormat::Hex
            };
            assert(s.config.keys()[i as int] == s.config.ranges@[i as int].key());
            assert(s.config.keys()[i as int].1 + s.config.start_reference <= 0xFFFF);
            let title = s.config.ranges[i].tab_label(s.config.start_reference, fmt);
            let entries = export_entries(&s.registers[i]);
            out.push(ExportSection { title, entries });
            assert(exported_tabs(*s, i + 1) == prev.push(i as int));
        } else {
            assert(exported_tabs(*s, i + 1) == prev);
        }
        i += 1;
    }
    out
}

/// How writing a file for `:export` or `:save` went.
#[derive(Clone, Debug)]
pub enum FileOutcome {
    Written,
    /// Writing the file failed with this message.
    WriteFailed(String),
    /// Turning the data into JSON failed with this message.
    EncodeFailed(String),
}

impl AppState {
    /// Reports how writing the export to `path` went.
    pub fn finish_export(&mut self, path: &str, outcome: FileOutcome)
        ensures
            match outcome {
                FileOutcome::Written => logged(
                    *old(self),
                    *final(self),
                    LogLevel::Info,
                    "exported registers to "@ + path@,
                ),
                FileOutcome::WriteFailed(e) => logged(
                    *old(self),
                    *final(self),
                    LogLevel::Error,
                    "export failed: "@ + e@,
                ),
                FileOutcome::EncodeFailed(e) => logged(
                    *old(self),
                    *final(self),
                    LogLevel::Error,
                    "export serialization failed: "@ + e@,
                ),
            },
    {
        match outcome {
            FileOutcome::Written => {
                let line = concat("exported registers to ", path);
                self.log.info(line.as_str());
            },
            FileOutcome::WriteFailed(e) => {
                let line = concat("export failed: ", e.as_str());
                self.log.error(line.as_str());
            },
            FileOutcome::EncodeFailed(e) => {
                let line = concat("export serialization failed: ", e.as_str());
                self.log.error(line.as_str());
            },
        }
    }

    /// Reports how saving the configuration to `path` went.
    pub fn finish_save(&mut self, path: &str, outcome: FileOutcome)
        ensures
            match outcome {
                FileOutcome::Written => logged(
                    *old(self),
                    *final(self),
                    LogLevel::Info,
                    "saved config to "@ + path@,
                ),
                FileOutcome::WriteFailed(e) => logged(
                    *old(self),
                    *final(self),
                    LogLevel::Error,
                    "save failed: "@ + e@,
                ),
                FileOutcome::EncodeFailed(e) => logged(
                    *old(self),
                    *final(self),
                    LogLevel::Error,
                    "save serialization failed: "@ + e@,
                ),
            },
    {
        match outcome {
            FileOutcome::Written => {
                let line = concat("saved config to ", path);
                self.log.info(line.as_str());
            },
            FileOutcome::WriteFailed(e) => {
                let line = concat("save failed: ", e.as_str());
                self.log.error(line.as_str());
            },
            FileOutcome::EncodeFailed(e) => {
                let line = concat("save serialization failed: ", e.as_str());
                self.log.error(line.as_str());
            },
        }
    }

    /// Runs a command-bar command (`poll <ms>`, `export [path]`,
    /// `save [path]`); anything else is logged as unknown.
    pub fn execute_command(&mut self, cmd: &str) -> (r: Action)
        requires
            old(self).wf(),
        ensures
            command_effect(*old(self), *final(self), r, cmd@),
    {
        let parts = split_words(cmd);
        if parts.len() == 0 {
            return Action::Nothing;
        }
        let head = parts[0].as_str();
        if crate::text::str_eq(head, "poll") {
            if parts.len() < 2 {
                self.log.error("usage: poll <interval_ms>");
                return Action::Nothing;
            }
            match parse_u64(parts[1].as_str()) {
                Ok(ms) => {
                    if 10 <= ms && ms <= 60_000 {
                        self.config.poll_interval_ms = ms;
                        let mut line = concat("poll interval changed to ", to_decimal(ms).as_str());
                        line.append(" ms");
                        self.log.info(line.as_str());
                    } else {
                        let mut line = concat("poll interval ", to_decimal(ms).as_str());
                        line.append(" out of range (10..60000)");
                        self.log.error(line.as_str());
                    }
                },
                Err(e) => {
                    let line = concat("invalid poll interval: ", e.message().as_str());
                    self.log.error(line.as_str());
                },
            }
            Action::Nothing
        } else if crate::text::str_eq(head, "export") {
            let path = if parts.len() > 1 {
                String::from_str(parts[1].as_str())
            } else {
                String::from_str("registers.json")
            };
            let sections = export_sections(self);
            Action::Export { path, sections }
        } else if crate::text::str_eq(head, "save") {
            let path = if parts.len() > 1 {
                String::from_str(parts[1].as_str())
            } else {
                String::from_str("config.json")
            };
            let config = self.build_saved_config();
            Action::Save { path, config }
        } else {
            let line = concat("unknown command: ", head);
            self.log.warn(line.as_str());
            Action::Nothing
        }
    }
}

/// What a key does in the command bar.
pub open spec fn command_bar_effect(
    s: AppState,
    t: AppState,
    r: Action,
    key: KeyPress,
    input: String,
) -> bool {
    match key.code {
        KeyCode::Esc => t == with_mode(s, InputMode::Normal) && r is Nothing,
        KeyCode::Enter => command_effect(with_mode(s, InputMode::Normal), t, r, trim_chars(input@)),
        KeyCode::Backspace => {
            &&& r is Nothing
            &&& t == with_mode(s, t.ui.input_mode)
            &&& t.ui.input_mode matches InputMode::CommandBar { input: i2, error } && i2@
                == without_last(input@) && error is None
        },
        KeyCode::Char(c) => {
            &&& r is Nothing
            &&& t == with_mode(s, t.ui.input_mode)
            &&& t.ui.input_mode matches InputMode::CommandBar { input: i2, error } && i2@
                == input@.push(c) && error is None
        },
        _ => t == s && r is Nothing,
    }
}

fn handle_command_bar(state: &mut AppState, key: KeyPress, input: String) -> (r: Action)
    requires
        old(state).wf(),
    ensures
        command_bar_effect(*old(state), *final(state), r, key, input),
{
    match key.code {
        KeyCode::Esc => {
            state.ui.input_mode = InputMode::Normal;
            Action::Nothing
        },
        KeyCode::Enter => {
            state.ui.input_mode = InputMode::Normal;
            let cmd = trim(input.as_str());
            state.execute_command(cmd)
        },
        KeyCode::Backspace => {
            let shorter = drop_last_char(input.as_str());
            state.ui.input_mode = InputMode::CommandBar { input: shorter, error: None };
            Action::Nothing
        },
        KeyCode::Char(c) => {
            let mut longer = input;
            push_char(&mut longer, c);
            state.ui.input_mode = InputMode::CommandBar { input: longer, error: None };
            Action::Nothing
        },
        _ => Action::Nothing,
    }
}

// ---------------------------------------------------------------------------
// Dispatch
// ---------------------------------------------------------------------------

/// What a key does, by input mode: normal keys move around and open
/// dialogs, any key closes the help, and each dialog edits its input until
/// Enter or Esc.
pub open spec fn key_effect(s: AppState, t: AppState, r: Action, key: KeyPress) -> bool {
    match s.ui.input_mode {
        InputMode::Normal => normal_effect(
            s,
            t,
            normal_command(key, s.config.ranges@.len()),
        ) && r is Nothing,
        InputMode::HelpDialog => t == with_mode(s, InputMode::Normal) && r is Nothing,
        InputMode::FormatDialog { selected } => format_effect(s, t, key, selected) && r is Nothing,
        InputMode::WriteDialog { addr, tab_index, input, error } => write_effect(
            s,
            t,
            r,
            key,
            addr,
            tab_index,
            input,
        ),
        InputMode::LabelDialog { addr, tab_index, input } => label_effect(
            s,
            t,
            key,
            addr,
            tab_index,
            input,
        ) && r is Nothing,
        InputMode::CommandBar { input, error } => command_bar_effect(s, t, r, key, input),
    }
}

/// Handles one key press; returns the work it leaves to the caller.
pub fn handle_key(state: &mut AppState, key: KeyPress) -> (r: Action)
    requires
        old(state).wf(),
    ensures
        final(state).wf(),
        key_effect(*old(state), *final(state), r, key),
{
    let r = match &state.ui.input_mode {
        InputMode::Normal => {
            handle_normal(state, key);
            Action::Nothing
        },
        InputMode::HelpDialog => {
            state.ui.input_mode = InputMode::Normal;
            Action::Nothing
        },
        InputMode::FormatDialog { selected } => {
            let sel = *selected;
            handle_format_dialog(state, key, sel);
            Action::Nothing
        },
        InputMode::WriteDialog { addr, tab_index, input, error } => {
            let (a, t, i) = (*addr, *tab_index, input.clone());
            handle_write_dialog(state, key, a, t, i)
        },
        InputMode::LabelDialog { addr, tab_index, input } => {
            let (a, t, i) = (*addr, *tab_index, input.clone());
            handle_label_dialog(state, key, a, t, i);
            Action::Nothing
        },
        InputMode::CommandBar { input, error } => {
            let i = input.clone();
            handle_command_bar(state, key, i)
        },
    };
    proof {
        assert(state.config.keys() == old(state).config.keys());
    }
    r
}

/// The address format key `c` sets: `d`/`D` decimal, `h`/`H` hex.
pub open spec fn format_of_key(c: char) -> AddrFormat {
    if c == 'd' || c == 'D' {
        AddrFormat::Decimal
    } else {
        AddrFormat::Hex
    }
}

/// In normal mode the lower-case keys `d` and `h` switch the address format
/// of the active pane alone (to decimal and to hex), and the upper-case `D`
/// and `H` that of every pane; nothing else of any pane, and nothing outside
/// the panes, changes.
pub proof fn lemma_address_format_keys(s: AppState, t: AppState, r: Action, c: char, ctrl: bool)
    requires
        s.ui.input_mode is Normal,
        c == 'd' || c == 'h' || c == 'D' || c == 'H',
        key_effect(s, t, r, KeyPress { code: KeyCode::Char(c), ctrl }),
    ensures
        r is Nothing,
        t.config == s.config,
        t.registers == s.registers,
        t.log == s.log,
        t.ui.active_tab == s.ui.active_tab,
        t.ui.input_mode == s.ui.input_mode,
        t.ui.panes@.len() == s.ui.panes@.len(),
        forall|i: int|
            0 <= i < s.ui.panes@.len() ==> {
                let before = s.ui.panes@[i];
                let after = #[trigger] t.ui.panes@[i];
                &&& after.scroll_offset == before.scroll_offset
                &&& after.selected_row == before.selected_row
                &&& after.num_format == before.num_format
                &&& after.addr_format == if (c == 'd' || c == 'h') && i != s.ui.active_tab {
                    before.addr_format
                } else {
                    format_of_key(c)
                }
            },
{
}

/// Whether `key` is one of the quit keys: `q`, Esc, or Ctrl+C.
pub open spec fn is_quit_key(key: KeyPress) -> bool {
    ||| key.code == KeyCode::Char('q')
    ||| key.code == KeyCode::Esc
    ||| key.code == KeyCode::Char('c') && key.ctrl
}

/// How far a movement key moves the selection: down (positive) or up
/// (negative) one row for the arrows and `j` / `k`, twenty rows for the
/// page keys; zero for any other key.
pub open spec fn row_step(key: KeyPress) -> int {
    if key.code == KeyCode::Down || key.code == KeyCode::Char('j') {
        1
    } else if key.code == KeyCode::Up || key.code == KeyCode::Char('k') {
        -1
    } else if key.code == KeyCode::PageDown {
        20
    } else if key.code == KeyCode::PageUp {
        -20
    } else {
        0
    }
}

/// In normal mode: exactly the quit keys stop the application, and they
/// change nothing else; Tab and Shift+Tab move to the next and the previous
/// tab (round the end); F1 opens the help, `:` an empty command bar; F2
/// moves the focus between the registers and the log; with the registers
/// focused, a movement key moves the active pane's selection by its step
/// (not above the top), Home to the first row, and nothing else of any pane
/// changes.
pub proof fn lemma_normal_keys(s: AppState, t: AppState, r: Action, key: KeyPress)
    requires
        s.running,
        s.ui.input_mode is Normal,
        s.config.ranges@.len() <= usize::MAX,
        key_effect(s, t, r, key),
    ensures
        !t.running <==> is_quit_key(key),
        is_quit_key(key) ==> t == (AppState { running: false, ..s }),
        key.code == KeyCode::Tab && s.config.ranges@.len() > 0 ==> t.ui.active_tab == (
        s.ui.active_tab + 1) % (s.config.ranges@.len() as int),
        key.code == KeyCode::BackTab && s.config.ranges@.len() > 0 ==> t.ui.active_tab == (
        s.ui.active_tab + s.config.ranges@.len() - 1) % (s.config.ranges@.len() as int),
        key.code == KeyCode::F(1) ==> t.ui.input_mode is HelpDialog,
        key.code == KeyCode::Char(':') ==> (t.ui.input_mode matches InputMode::CommandBar {
            input,
            error,
        } && input@.len() == 0 && error is None),
        key.code == KeyCode::F(2) ==> t.ui.focus != s.ui.focus,
        row_step(key) != 0 && s.ui.focus == FocusPane::Registers && s.ui.active_tab
            < s.ui.panes@.len() ==> {
            let before = s.ui.panes@[s.ui.active_tab as int].selected_row;
            let after = t.ui.panes@[s.ui.active_tab as int].selected_row;
            &&& after == if before + row_step(key) < 0 {
                0
            } else if before + row_step(key) > usize::MAX {
                usize::MAX as int
            } else {
                before + row_step(key)
            }
            &&& t.ui.panes@.len() == s.ui.panes@.len()
            &&& forall|i: int|
                0 <= i < s.ui.panes@.len() && i != s.ui.active_tab ==> #[trigger] t.ui.panes@[i]
                    == s.ui.panes@[i]
        },
        key.code == KeyCode::Home && s.ui.focus == FocusPane::Registers && s.ui.active_tab
            < s.ui.panes@.len() ==> t.ui.panes@[s.ui.active_tab as int].selected_row == 0,
{
    let n = s.config.ranges@.len() as int;
    if n > 0 {
        assert(0 <= (s.ui.active_tab + 1) % n < n);
        assert(0 <= (s.ui.active_tab + n - 1) % n < n);
    }
}

} // verus!
