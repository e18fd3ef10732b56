//! Application state: register values with change tracking, the event log,
//! pane and dialog state, server counters, and the state of the whole
//! application with its tabs.
use std::collections::{BTreeMap, VecDeque};
use std::time::{Duration, Instant};
use vstd::prelude::*;
use vstd::string::*;
use vstd::std_specs::iter::IteratorSpec;
use vstd::std_specs::cmp::OrdSpec;
use crate::config::{labels_fit, AddrFormat, AppConfig, Mode, PollRange};
use crate::format::NumFormat;
use crate::store::ServerEvent;
use crate::text::concat;

verus! {

broadcast use {vstd::std_specs::btree::group_btree_axioms, vstd::laws_cmp::group_laws_cmp};

// ---------------------------------------------------------------------------
// Clocks
// ---------------------------------------------------------------------------

#[verifier::external_type_specification]
#[verifier::external_body]
pub struct ExInstant(Instant);

/// `Instant::now`: the current reading of the monotonic clock. Nothing is
/// stated of the reading.
#[verifier::external_body]
fn monotonic_now() -> Instant {
    Instant::now()
}

/// `Instant::elapsed`: the time since `t`. It depends on the clock, so
/// nothing is stated of it.
#[verifier::external_body]
fn elapsed_since(t: &Instant) -> Duration {
    t.elapsed()
}

/// `Duration::as_millis`: the whole milliseconds of a duration, as a
/// `u64`. The duration is opaque here, so nothing is stated of the result.
#[verifier::external_body]
fn whole_millis(d: &Duration) -> u64 {
    d.as_millis() as u64
}

/// Milliseconds since `origin` on the monotonic clock. It depends on the
/// clock, so nothing is stated of the reading.
fn millis_since(origin: &Instant) -> u64 {
    let d = elapsed_since(origin);
    whole_millis(&d)
}

/// chrono's `Local::now`, rendered with `DateTime::format` in the given
/// pattern. It depends on the clock and the time zone, so nothing is stated
/// of the text. A malformed pattern makes the rendering fail and
/// `to_string` panic, so only the two well-formed patterns this library
/// uses are admitted.
#[verifier::external_body]
fn local_time_text(pattern: &str) -> String
    requires
        pattern@ == "%Y-%m-%d %H:%M:%S%.3f"@ || pattern@ == "%H:%M:%S%.3f"@,
{
    chrono::Local::now().format(pattern).to_string()
}

// ---------------------------------------------------------------------------
// Register value with change tracking
// ---------------------------------------------------------------------------

/// How long (in seconds) a value stays highlighted after it stopped changing.
pub const CHANGE_HIGHLIGHT_SECS: u64 = 3;

/// One register as last read, with its label and change history. Times
/// are milliseconds on the application clock (see `AppState::clock_millis`).
#[derive(Debug)]
pub struct RegisterValue {
    pub raw: u16,
    pub last_read: u64,
    pub label: Option<String>,
    pub changed_at: Option<u64>,
    pub prev_raw: Option<u16>,
    pub changed_wall: String,
    /// Set when the value stops changing (first read that gives the same
    /// value). While `None` a changed value is still changing.
    pub stable_since: Option<u64>,
}

impl RegisterValue {
    /// A value just read at `now`: unlabelled, with no change history.
    pub open spec fn is_fresh(self, raw: u16, now: u64) -> bool {
        &&& self.raw == raw
        &&& self.last_read == now
        &&& self.label is None
        &&& self.changed_at is None
        &&& self.prev_raw is None
        &&& self.stable_since is None
    }

    /// `self` is `before` after a reading of `raw` at `now`: a different
    /// value is a change at `now` (the old value kept in `prev_raw`, the
    /// fade-out cleared); the first equal reading after a change starts the
    /// fade-out at `now`; the label stays.
    pub open spec fn updated_from(self, before: RegisterValue, raw: u16, now: u64) -> bool {
        &&& self.raw == raw
        &&& self.last_read == now
        &&& self.label == before.label
        &&& raw != before.raw ==> {
            &&& self.prev_raw == Some(before.raw)
            &&& self.changed_at == Some(now)
            &&& self.stable_since is None
        }
        &&& raw == before.raw ==> {
            &&& self.prev_raw == before.prev_raw
            &&& self.changed_at == before.changed_at
            &&& self.changed_wall == before.changed_wall
            &&& self.stable_since == if before.changed_at is Some && before.stable_since is None {
                Some(now)
            } else {
                before.stable_since
            }
        }
    }

    /// Whether the value is highlighted at `now`: while it keeps changing,
    /// and for `CHANGE_HIGHLIGHT_SECS` whole seconds after it became stable.
    pub open spec fn highlighted_at(self, now: u64) -> bool {
        match self.changed_at {
            None => false,
            Some(_) => match self.stable_since {
                None => true,
                Some(t) => (if now >= t {
                    (now - t) / 1000
                } else {
                    0
                }) < CHANGE_HIGHLIGHT_SECS,
            },
        }
    }

    /// A value read at `now` (the time of day of the reading is kept as
    /// text).
    pub fn new(raw: u16, now: u64) -> (r: RegisterValue)
        ensures
            r.is_fresh(raw, now),
    {
        RegisterValue {
            raw,
            last_read: now,
            label: None,
            changed_at: None,
            prev_raw: None,
            changed_wall: local_time_text("%Y-%m-%d %H:%M:%S%.3f"),
            stable_since: None,
        }
    }

    /// Records a reading of `raw` at `now`. A different value is remembered
    /// as a change at `now` (the old value kept in `prev_raw`, the time of
    /// day kept as text); the first equal reading after a change starts the
    /// fade-out at `now`.
    pub fn update(&mut self, raw: u16, now: u64)
        ensures
            final(self).updated_from(*old(self), raw, now),
    {
        if raw != self.raw {
            self.prev_raw = Some(self.raw);
            self.changed_at = Some(now);
            self.changed_wall = local_time_text("%Y-%m-%d %H:%M:%S%.3f");
            self.stable_since = None;
        } else if self.changed_at.is_some() && self.stable_since.is_none() {
            self.stable_since = Some(now);
        }
        self.raw = raw;
        self.last_read = now;
    }

    /// Whether the value is highlighted as changed at `now`: while it keeps
    /// changing, and for `CHANGE_HIGHLIGHT_SECS` after it became stable.
    pub fn recently_changed(&self, now: u64) -> (r: bool)
        ensures
            r == self.highlighted_at(now),
    {
        match self.changed_at {
            None => false,
            Some(_) => match self.stable_since {
                None => true,
                Some(t) => {
                    let stable_ms: u64 = if now >= t {
                        now - t
                    } else {
                        0
                    };
                    still_highlighted(stable_ms / 1000)
                },
            },
        }
    }
}

/// Whether a value that has been stable for `stable_secs` whole seconds is
/// still highlighted.
pub fn still_highlighted(stable_secs: u64) -> (r: bool)
    ensures
        r == (stable_secs < CHANGE_HIGHLIGHT_SECS),
{
    stable_secs < CHANGE_HIGHLIGHT_SECS
}

// ---------------------------------------------------------------------------
// Connection status
// ---------------------------------------------------------------------------

/// State of the Modbus connection (client) or listener (server).
#[derive(Clone, Debug, PartialEq, Eq)]
pub enum ConnectionStatus {
    Disconnected,
    Connecting,
    Connected,
    Error(String),
}

impl ConnectionStatus {
    /// The status as shown in the status bar.
    pub open spec fn text_spec(self) -> Seq<char> {
        match self {
            ConnectionStatus::Disconnected => "Disconnected"@,
            ConnectionStatus::Connecting => "Connecting…"@,
            ConnectionStatus::Connected => "Connected"@,
            ConnectionStatus::Error(e) => "Error: "@ + e@,
        }
    }

    /// The status as shown in the status bar.
    pub fn text(&self) -> (r: String)
        ensures
            r@ == self.text_spec(),
    {
        match self {
            ConnectionStatus::Disconnected => String::from_str("Disconnected"),
            ConnectionStatus::Connecting => String::from_str("Connecting…"),
            ConnectionStatus::Connected => String::from_str("Connected"),
            ConnectionStatus::Error(e) => concat("Error: ", e.as_str()),
        }
    }
}

// ---------------------------------------------------------------------------
// Event log
// ---------------------------------------------------------------------------

/// The most entries the log keeps; older ones are dropped first.
pub const LOG_CAPACITY: usize = 500;

/// Severity or direction of a log entry.
#[derive(Clone, Copy, Debug, PartialEq, Eq, Structural)]
pub enum LogLevel {
    Info,
    Warn,
    Error,
    PacketTx,
    PacketRx,
}

impl LogLevel {
    /// The four-character tag shown before a log line.
    pub open spec fn tag_spec(self) -> Seq<char> {
        match self {
            LogLevel::Info => "INFO"@,
            LogLevel::Warn => "WARN"@,
            LogLevel::Error => "ERR "@,
            LogLevel::PacketTx => "TX>>"@,
            LogLevel::PacketRx => "RX<<"@,
        }
    }

    /// The four-character tag shown before a log line.
    pub fn tag(self) -> (r: &'static str)
        ensures
            r@ == self.tag_spec(),
    {
        match self {
            LogLevel::Info => "INFO",
            LogLevel::Warn => "WARN",
            LogLevel::Error => "ERR ",
            LogLevel::PacketTx => "TX>>",
            LogLevel::PacketRx => "RX<<",
        }
    }
}

/// One log line with the local time it was written.
#[derive(Clone, Debug)]
pub struct LogEntry {
    pub level: LogLevel,
    pub message: String,
    pub wall_clock: String,
}

/// The event log, oldest entry first, at most `LOG_CAPACITY` entries.
#[derive(Debug)]
pub struct LogBuffer {
    pub entries: VecDeque<LogEntry>,
}

/// Level and text of each entry.
pub open spec fn entry_lines(entries: Seq<LogEntry>) -> Seq<(LogLevel, Seq<char>)> {
    entries.map_values(|e: LogEntry| (e.level, e.message@))
}

/// The log after adding one line: the oldest line is dropped first when
/// the log is full.
pub open spec fn after_push(
    lines: Seq<(LogLevel, Seq<char>)>,
    level: LogLevel,
    message: Seq<char>,
) -> Seq<(LogLevel, Seq<char>)> {
    (if lines.len() == LOG_CAPACITY {
        lines.drop_first()
    } else {
        lines
    }).push((level, message))
}

/// The entries a push keeps: all of them, or all but the oldest when the
/// log is full.
pub open spec fn kept_entries(entries: Seq<LogEntry>) -> Seq<LogEntry> {
    if entries.len() == LOG_CAPACITY {
        entries.drop_first()
    } else {
        entries
    }
}

impl LogBuffer {
    /// Level and text of each entry, oldest first.
    pub open spec fn lines(&self) -> Seq<(LogLevel, Seq<char>)> {
        entry_lines(self.entries@)
    }

    pub fn new() -> (r: LogBuffer)
        ensures
            r.entries@.len() == 0,
    {
        LogBuffer { entries: VecDeque::with_capacity(LOG_CAPACITY) }
    }

    /// Appends a line stamped with the local time, dropping the oldest
    /// line when the log is full.
    pub fn push(&mut self, level: LogLevel, message: &str)
        ensures
            final(self).lines() == after_push(old(self).lines(), level, message@),
            final(self).entries@.drop_last() == kept_entries(old(self).entries@),
    {
        let ghost before = self.entries@;
        if self.entries.len() == LOG_CAPACITY {
            self.entries.pop_front();
            assert(entry_lines(self.entries@) =~= entry_lines(before).drop_first());
        }
        let ghost mid = self.entries@;
        let entry = LogEntry {
            level,
            message: String::from_str(message),
            wall_clock: local_time_text("%H:%M:%S%.3f"),
        };
        self.entries.push_back(entry);
        assert(entry_lines(self.entries@) =~= entry_lines(mid).push((level, message@)));
    }

    pub fn info(&mut self, message: &str)
        ensures
            final(self).lines() == after_push(old(self).lines(), LogLevel::Info, message@),
            final(self).entries@.drop_last() == kept_entries(old(self).entries@),
    {
        self.push(LogLevel::Info, message);
    }

    pub fn warn(&mut self, message: &str)
        ensures
            final(self).lines() == after_push(old(self).lines(), LogLevel::Warn, message@),
            final(self).entries@.drop_last() == kept_entries(old(self).entries@),
    {
        self.push(LogLevel::Warn, message);
    }

    pub fn error(&mut self, message: &str)
        ensures
            final(self).lines() == after_push(old(self).lines(), LogLevel::Error, message@),
            final(self).entries@.drop_last() == kept_entries(old(self).entries@),
    {
        self.push(LogLevel::Error, message);
    }
}

/// A log that holds at most `LOG_CAPACITY` entries keeps that bound after
/// any line is added.
pub proof fn lemma_log_stays_bounded(
    lines: Seq<(LogLevel, Seq<char>)>,
    level: LogLevel,
    message: Seq<char>,
)
    requires
        lines.len() <= LOG_CAPACITY,
    ensures
        after_push(lines, level, message).len() <= LOG_CAPACITY,
        after_push(lines, level, message).last() == (level, message),
{
}

} // verus!

verus! {

/// The number of keys of `d` below `k`.
pub open spec fn key_rank(d: Set<u16>, k: u16) -> nat {
    d.filter(|j: u16| j < k).len()
}

proof fn lemma_increasing_keys(s: Seq<&u16>)
    requires
        vstd::std_specs::btree::increasing_seq(s),
    ensures
        forall|i: int, j: int| 0 <= i < j < s.len() ==> *s[i] < *s[j],
{
    assert(vstd::laws_cmp::obeys_cmp::<u16>());
    assert(vstd::laws_cmp::obeys_cmp::<&u16>());
    vstd::std_specs::btree::axiom_increasing_seq_meaning::<&u16>(s);
    assert forall|i: int, j: int| 0 <= i < j < s.len() implies *s[i] < *s[j] by {
        assert(OrdSpec::cmp_spec(&s[i], &s[j]) is Less);
    }
}

pub(crate) fn sorted_keys<V>(m: &BTreeMap<u16, V>) -> (r: Vec<u16>)
    ensures
        r@.to_set() == m@.dom(),
        r@.len() == m@.dom().len(),
        forall|i: int, j: int| 0 <= i < j < r@.len() ==> r@[i] < r@[j],
{
    let mut addrs: Vec<u16> = Vec::new();
    let keys = m.keys();
    let ghost s = keys.remaining();
    for k in it: keys
        invariant
            it.seq() == s,
            addrs@ == it.seq().take(it.index() as int).map_values(|r: &u16| *r),
    {
        addrs.push(*k);
    }
    assert(addrs@ =~= s.map_values(|r: &u16| *r));
    assert(s == vstd::std_specs::btree::spec_keys_iter(m).remaining());
    assert(s.unref() =~= addrs@);
    proof {
        lemma_increasing_keys(s);
    }
    addrs
}

} // verus!

verus! {

/// The `i`-th smallest key of `d` is `k`.
pub open spec fn key_at(d: Set<u16>, i: int, k: u16) -> bool {
    d.contains(k) && key_rank(d, k) == i
}

/// In a strictly increasing sequence whose elements make up `d`, the
/// element at `i` is the `i`-th smallest key of `d`.
pub proof fn lemma_sorted_rank(r: Seq<u16>, d: Set<u16>, i: int)
    requires
        r.to_set() == d,
        forall|a: int, b: int| 0 <= a < b < r.len() ==> r[a] < r[b],
        0 <= i < r.len(),
    ensures
        key_at(d, i, r[i]),
{
    let t = r.take(i);
    assert(d.filter(|j: u16| j < r[i]) =~= t.to_set()) by {
        assert forall|j: u16| d.filter(|j: u16| j < r[i]).contains(j) implies t.to_set().contains(
            j,
        ) by {
            assert(r.contains(j));
            let a = choose|a: int| 0 <= a < r.len() && r[a] == j;
            if a >= i {
                if a > i {
                    assert(r[i] < r[a]);
                }
                assert(false);
            }
            assert(t[a] == j);
        }
        assert forall|j: u16| t.to_set().contains(j) implies d.filter(|j: u16| j < r[i]).contains(
            j,
        ) by {
            assert(t.contains(j));
            let a = choose|a: int| 0 <= a < t.len() && t[a] == j;
            assert(r[a] == j);
            assert(r.contains(j));
        }
    }
    assert(t.no_duplicates()) by {
        assert forall|a: int, b: int| 0 <= a < t.len() && 0 <= b < t.len() && a != b implies t[a]
            != t[b] by {
            if a < b {
                assert(r[a] < r[b]);
            } else {
                assert(r[b] < r[a]);
            }
        }
    }
    t.unique_seq_to_set();
    assert(r.contains(r[i]));
}

} // verus!

verus! {

// ---------------------------------------------------------------------------
// UI state
// ---------------------------------------------------------------------------

/// Which part of the screen takes the arrow keys.
#[derive(Clone, Copy, Debug, PartialEq, Eq, Structural)]
pub enum FocusPane {
    Registers,
    Log,
}

/// What the keyboard is currently driving.
#[derive(Clone, Debug)]
pub enum InputMode {
    Normal,
    HelpDialog,
    FormatDialog {
        /// Currently highlighted position in the format list.
        selected: usize,
    },
    WriteDialog { addr: u16, tab_index: usize, input: String, error: Option<String> },
    LabelDialog { addr: u16, tab_index: usize, input: String },
    CommandBar { input: String, error: Option<String> },
}

/// Scroll position, selection and display formats of one register pane.
#[derive(Clone, Copy, Debug, PartialEq, Eq, Structural)]
pub struct PaneState {
    pub scroll_offset: usize,
    pub selected_row: usize,
    pub addr_format: AddrFormat,
    pub num_format: NumFormat,
}

/// A pane at the top, showing hex addresses and `Int16` values.
pub open spec fn initial_pane() -> PaneState {
    PaneState {
        scroll_offset: 0,
        selected_row: 0,
        addr_format: AddrFormat::Hex,
        num_format: NumFormat::Int16,
    }
}

impl Default for PaneState {
    fn default() -> (r: Self)
        ensures
            r == initial_pane(),
    {
        PaneState {
            scroll_offset: 0,
            selected_row: 0,
            addr_format: AddrFormat::Hex,
            num_format: NumFormat::Int16,
        }
    }
}

/// State of the user interface.
#[derive(Debug)]
pub struct UiState {
    /// Which pane (index into the configured ranges) has the keyboard.
    pub active_tab: usize,
    pub focus: FocusPane,
    /// Per-pane state, parallel to the configured ranges.
    pub panes: Vec<PaneState>,
    pub log_scroll: usize,
    pub input_mode: InputMode,
}

impl UiState {
    pub fn new(num_panes: usize) -> (r: UiState)
        ensures
            r.active_tab == 0,
            r.focus == FocusPane::Registers,
            r.panes@ == Seq::new(num_panes as nat, |i: int| initial_pane()),
            r.log_scroll == 0,
            r.input_mode is Normal,
    {
        let mut panes: Vec<PaneState> = Vec::new();
        let mut i: usize = 0;
        while i < num_panes
            invariant
                i <= num_panes,
                panes@ == Seq::new(i as nat, |j: int| initial_pane()),
            decreases num_panes - i,
        {
            panes.push(PaneState::default());
            i += 1;
        }
        UiState {
            active_tab: 0,
            focus: FocusPane::Registers,
            panes,
            log_scroll: 0,
            input_mode: InputMode::Normal,
        }
    }
}

/// A write the UI asks the client task to perform.
#[derive(Clone, Debug)]
pub struct WriteRequest {
    /// Index into the configured ranges / register tabs.
    pub tab_index: usize,
    pub addr: u16,
    /// One or more register values, in the order they go on the wire.
    pub values: Vec<u16>,
}

/// Connection and request counters of the server.
#[derive(Clone, Copy, Debug, PartialEq, Eq, Structural)]
pub struct ServerStats {
    pub active_connections: usize,
    pub total_connections: u64,
    pub requests_coils: u64,
    pub requests_discrete_inputs: u64,
    pub requests_holding_registers: u64,
    pub requests_input_registers: u64,
    pub requests_write: u64,
    pub requests_other: u64,
}

/// All counters at zero.
pub open spec fn zero_stats() -> ServerStats {
    ServerStats {
        active_connections: 0,
        total_connections: 0,
        requests_coils: 0,
        requests_discrete_inputs: 0,
        requests_holding_registers: 0,
        requests_input_registers: 0,
        requests_write: 0,
        requests_other: 0,
    }
}

impl Default for ServerStats {
    fn default() -> (r: Self)
        ensures
            r == zero_stats(),
    {
        ServerStats {
            active_connections: 0,
            total_connections: 0,
            requests_coils: 0,
            requests_discrete_inputs: 0,
            requests_holding_registers: 0,
            requests_input_registers: 0,
            requests_write: 0,
            requests_other: 0,
        }
    }
}

// ---------------------------------------------------------------------------
// Application state
// ---------------------------------------------------------------------------

/// The state the UI draws and the Modbus tasks update.
#[derive(Debug)]
pub struct AppState {
    pub running: bool,
    pub config: AppConfig,
    pub connection: ConnectionStatus,
    /// One register map per configured range, in the same order.
    pub registers: Vec<BTreeMap<u16, RegisterValue>>,
    pub log: LogBuffer,
    pub ui: UiState,
    pub server: ServerStats,
    /// Client only: spinner position, advanced on each successful poll cycle.
    pub spinner_tick: u8,
    /// Start of the application clock; register times count milliseconds
    /// from it.
    pub clock: Instant,
}

/// `r` is the state the application starts in with configuration `c`:
/// running, disconnected, an empty map and a fresh pane per range, an empty
/// log, zero counters.
pub open spec fn fresh_state(c: AppConfig, r: AppState) -> bool {
    &&& r.running
    &&& r.config == c
    &&& r.connection is Disconnected
    &&& r.registers@.len() == c.ranges@.len()
    &&& forall|i: int| 0 <= i < r.registers@.len() ==> #[trigger] r.registers@[i]@ == Map::<
        u16,
        RegisterValue,
    >::empty()
    &&& r.log.entries@.len() == 0
    &&& r.ui.active_tab == 0
    &&& r.ui.focus == FocusPane::Registers
    &&& r.ui.panes@ == Seq::new(c.ranges@.len(), |i: int| initial_pane())
    &&& r.ui.log_scroll == 0
    &&& r.ui.input_mode is Normal
    &&& r.server == zero_stats()
    &&& r.spinner_tick == 0
}

impl AppState {
    pub fn new(config: AppConfig) -> (r: AppState)
        ensures
            fresh_state(config, r),
            labels_fit(config.keys(), config.start_reference) ==> r.wf(),
    {
        let n = config.ranges.len();
        let mut registers: Vec<BTreeMap<u16, RegisterValue>> = Vec::new();
        let mut i: usize = 0;
        while i < n
            invariant
                i <= n,
                registers@.len() == i,
                forall|j: int| 0 <= j < i ==> #[trigger] registers@[j]@ == Map::<
                    u16,
                    RegisterValue,
                >::empty(),
            decreases n - i,
        {
            registers.push(BTreeMap::new());
            i += 1;
        }
        AppState {
            running: true,
            registers,
            connection: ConnectionStatus::Disconnected,
            log: LogBuffer::new(),
            ui: UiState::new(n),
            server: ServerStats::default(),
            spinner_tick: 0,
            config,
            clock: monotonic_now(),
        }
    }

    /// The current reading of the application clock, in milliseconds. It
    /// depends on the clock, so nothing is stated of it.
    pub fn clock_millis(&self) -> u64 {
        millis_since(&self.clock)
    }

    /// Number of tabs (= number of configured ranges).
    pub fn tab_count(&self) -> (r: usize)
        ensures
            r == self.config.ranges@.len(),
    {
        self.config.ranges.len()
    }

    /// The active tab shows a coil-type table.
    pub open spec fn active_coils(self) -> bool {
        self.ui.active_tab < self.config.ranges@.len()
            && self.config.ranges@[self.ui.active_tab as int].reg_type.coil_like()
    }

    /// The active tab may be written: any table in server mode, coils and
    /// holding registers in client mode.
    pub open spec fn active_writable(self) -> bool {
        self.ui.active_tab < self.config.ranges@.len() && (self.config.mode == Mode::Server
            || self.config.ranges@[self.ui.active_tab as int].reg_type.client_writable())
    }

    /// Whether the currently active tab shows a coil-type register.
    pub fn active_tab_is_coils(&self) -> (r: bool)
        ensures
            r == self.active_coils(),
    {
        if self.ui.active_tab < self.config.ranges.len() {
            self.config.ranges[self.ui.active_tab].reg_type.is_coil_type()
        } else {
            false
        }
    }

    /// Whether the currently active tab is writable. In server mode every
    /// register type is writable (for testing).
    pub fn active_tab_is_writable(&self) -> (r: bool)
        ensures
            r == self.active_writable(),
    {
        if self.ui.active_tab < self.config.ranges.len() {
            self.config.mode == Mode::Server
                || self.config.ranges[self.ui.active_tab].reg_type.is_writable()
        } else {
            false
        }
    }

    /// Register map of the currently active tab.
    pub fn registers_for_tab(&self) -> (r: &BTreeMap<u16, RegisterValue>)
        requires
            self.ui.active_tab < self.registers@.len(),
        ensures
            *r == self.registers@[self.ui.active_tab as int],
    {
        &self.registers[self.ui.active_tab]
    }

    /// Registers per row of the active pane: one on coil tabs, the width
    /// of the pane's format otherwise.
    pub open spec fn row_width(self) -> nat {
        if self.active_coils() {
            1
        } else {
            self.ui.panes@[self.ui.active_tab as int].num_format.regs()
        }
    }

    /// Position among the active tab's addresses of the first register of
    /// the selected row (the selection is clamped to the last row shown,
    /// which may be shorter than the others).
    pub open spec fn selected_position(self) -> int {
        let n = self.registers@[self.ui.active_tab as int]@.dom().len();
        let w = self.row_width();
        let rows = (n + w - 1) / (w as int);
        let last = if rows == 0 {
            0
        } else {
            rows - 1
        };
        let row = if self.ui.panes@[self.ui.active_tab as int].selected_row < last {
            self.ui.panes@[self.ui.active_tab as int].selected_row as int
        } else {
            last as int
        };
        row * w
    }

    /// Protocol address of the selected row in the active pane, counting
    /// rows of `row_width` registers in address order.
    pub fn selected_addr(&self) -> (r: Option<u16>)
        requires
            self.ui.active_tab < self.registers@.len(),
        ensures
            self.ui.active_tab >= self.ui.panes@.len() ==> r is None,
            self.ui.active_tab < self.ui.panes@.len() ==> match r {
                Some(k) => key_at(
                    self.registers@[self.ui.active_tab as int]@.dom(),
                    self.selected_position(),
                    k,
                ),
                None => self.selected_position() >= self.registers@[self.ui.active_tab as int]@.dom().len(),
            },
            self.ui.active_tab < self.ui.panes@.len() ==> r == self.selected_addr_spec(),
    {
        let regs = self.registers_for_tab();
        if self.ui.active_tab >= self.ui.panes.len() {
            return None;
        }
        let pane = self.ui.panes[self.ui.active_tab];
        let width: usize = if self.active_tab_is_coils() {
            1
        } else {
            pane.num_format.width()
        };
        let addrs = sorted_keys(regs);
        let n = addrs.len();
        assert(n % width > 0 ==> n / width + 1 <= usize::MAX) by (nonlinear_arith)
            requires
                width >= 1,
                n <= usize::MAX,
        ;
        let grouped_count = addrs.len() / width + if addrs.len() % width > 0 {
            1
        } else {
            0
        };
        proof {
            assert(grouped_count == (addrs@.len() + width - 1) / (width as int)) by (nonlinear_arith)
                requires
                    grouped_count == (addrs@.len() as int) / (width as int) + if (addrs@.len() as int) % (width as int) > 0 {
                        1int
                    } else {
                        0int
                    },
                    width >= 1,
            ;
        }
        let last = if grouped_count == 0 {
            0
        } else {
            grouped_count - 1
        };
        let row = if pane.selected_row < last {
            pane.selected_row
        } else {
            last
        };
        proof {
            assert(row * width <= addrs@.len()) by (nonlinear_arith)
                requires
                    grouped_count == (addrs@.len() + width - 1) / (width as int),
                    width >= 1,
                    grouped_count == 0 ==> row == 0,
                    grouped_count > 0 ==> row <= grouped_count - 1,
            ;
        }
        let idx = row * width;
        let r = if idx < addrs.len() {
            proof {
                lemma_sorted_rank(addrs@, regs@.dom(), idx as int);
            }
            Some(addrs[idx])
        } else {
            None
        };
        proof {
            lemma_selected_addr(*self, r);
        }
        r
    }
}

} // verus!

verus! {

// ---------------------------------------------------------------------------
// Range defaults
// ---------------------------------------------------------------------------

/// The label the configuration gives `addr`, if any.
pub open spec fn label_for(labels: Map<u16, String>, addr: u16) -> Option<String> {
    if labels.contains_key(addr) {
        Some(labels[addr])
    } else {
        None
    }
}

/// `k` lies in `start .. start + count`.
pub open spec fn in_span(start: u16, count: u16, k: u16) -> bool {
    start <= k < start + count
}

/// Two values hold the same reading and history (labels aside).
pub open spec fn same_reading(a: RegisterValue, b: RegisterValue) -> bool {
    &&& a.raw == b.raw
    &&& a.last_read == b.last_read
    &&& a.changed_at == b.changed_at
    &&& a.prev_raw == b.prev_raw
    &&& a.changed_wall == b.changed_wall
    &&& a.stable_since == b.stable_since
}

/// `new_m` is `old_m` with every address of the range present (new ones
/// as fresh zero readings) and the range's labels applied.
pub open spec fn defaults_applied(
    old_m: Map<u16, RegisterValue>,
    new_m: Map<u16, RegisterValue>,
    r: PollRange,
) -> bool {
    &&& new_m.dom() == old_m.dom().union(Set::new(|k: u16| in_span(r.start, r.count, k)))
    &&& forall|k: u16| #[trigger]
        new_m.contains_key(k) ==> {
            &&& old_m.contains_key(k) ==> same_reading(new_m[k], old_m[k])
            &&& !old_m.contains_key(k) ==> new_m[k].raw == 0 && new_m[k].changed_at is None
                && new_m[k].prev_raw is None && new_m[k].stable_since is None
            &&& new_m[k].label == match label_for(r.labels@, k) {
                Some(l) => Some(l),
                None => if old_m.contains_key(k) {
                    old_m[k].label
                } else {
                    None
                },
            }
        }
}

/// Every configured range stays inside the 16-bit address space.
pub open spec fn ranges_fit(ranges: Seq<PollRange>) -> bool {
    forall|i: int| 0 <= i < ranges.len() ==> #[trigger] ranges[i].start + ranges[i].count <= 0x10000
}

/// A pane after the configured defaults: decimal addresses when the
/// configuration asks for them, and the range's initial format.
pub open spec fn pane_with_defaults(p: PaneState, decimal: bool, fmt: Option<NumFormat>) -> PaneState {
    PaneState {
        addr_format: if decimal {
            AddrFormat::Decimal
        } else {
            p.addr_format
        },
        num_format: match fmt {
            Some(nf) => nf,
            None => p.num_format,
        },
        ..p
    }
}

/// Every address of the range present (new ones read zero), then the
/// range's labels applied to the addresses present.
fn fill_tab(m: &mut BTreeMap<u16, RegisterValue>, r: &PollRange, now: u64)
    requires
        r.start + r.count <= 0x10000,
    ensures
        defaults_applied(old(m)@, final(m)@, *r),
{
    let ghost old_m = m@;
    let mut offset: u16 = 0;
    while offset < r.count
        invariant
            offset <= r.count,
            r.start + r.count <= 0x10000,
            m@.dom() == old_m.dom().union(Set::new(|k: u16| in_span(r.start, offset, k))),
            forall|k: u16| #[trigger]
                m@.contains_key(k) ==> {
                    &&& old_m.contains_key(k) ==> m@[k] == old_m[k]
                    &&& !old_m.contains_key(k) ==> m@[k].is_fresh(0, now)
                },
        decreases r.count - offset,
    {
        let addr: u16 = r.start + offset;
        if !m.contains_key(&addr) {
            m.insert(addr, RegisterValue::new(0, now));
        }
        offset += 1;
        assert(m@.dom() =~= old_m.dom().union(Set::new(|k: u16| in_span(r.start, offset, k))));
    }
    let ghost mid = m@;
    let keys = sorted_keys(m);
    let n = keys.len();
    let mut j: usize = 0;
    while j < n
        invariant
            j <= n,
            n == keys@.len(),
            keys@.to_set() == mid.dom(),
            m@.dom() == mid.dom(),
            forall|k: u16| #[trigger]
                m@.contains_key(k) ==> {
                    &&& same_reading(m@[k], mid[k])
                    &&& m@[k].label == if keys@.take(j as int).contains(k) {
                        match label_for(r.labels@, k) {
                            Some(l) => Some(l),
                            None => mid[k].label,
                        }
                    } else {
                        mid[k].label
                    }
                },
        decreases n - j,
    {
        let addr = keys[j];
        let ghost before = m@;
        assert(keys@.take(j + 1) =~= keys@.take(j as int).push(addr));
        match r.labels.get(&addr) {
            Some(l) => match m.remove(&addr) {
                Some(mut rv) => {
                    rv.label = Some(l.clone());
                    m.insert(addr, rv);
                    assert(m@.dom() =~= mid.dom());
                },
                None => {},
            },
            None => {},
        }
        assert forall|k: u16| #[trigger] m@.contains_key(k) implies {
            &&& same_reading(m@[k], mid[k])
            &&& m@[k].label == if keys@.take(j + 1).contains(k) {
                match label_for(r.labels@, k) {
                    Some(l) => Some(l),
                    None => mid[k].label,
                }
            } else {
                mid[k].label
            }
        } by {
            assert(before.contains_key(k));
            if k != addr {
                assert(keys@.take(j + 1).contains(k) == keys@.take(j as int).contains(k));
            } else {
                assert(keys@.take(j + 1).contains(k)) by {
                    assert(keys@.take(j + 1)[j as int] == k);
                }
            }
        }
        j += 1;
    }
    assert(keys@.take(n as int) =~= keys@);
    assert forall|k: u16| mid.contains_key(k) implies keys@.contains(k) by {
        assert(keys@.to_set().contains(k));
    }
}

/// `t` is `s` with the configured defaults applied: decimal addresses in
/// every pane when asked for, each range's initial format in its pane, and
/// each range's registers present and labelled; nothing else changes.
pub open spec fn defaults_done(s: AppState, t: AppState) -> bool {
    &&& t.running == s.running
    &&& t.config == s.config
    &&& t.connection == s.connection
    &&& t.log == s.log
    &&& t.server == s.server
    &&& t.spinner_tick == s.spinner_tick
    &&& t.clock == s.clock
    &&& t.ui.active_tab == s.ui.active_tab
    &&& t.ui.focus == s.ui.focus
    &&& t.ui.log_scroll == s.ui.log_scroll
    &&& t.ui.input_mode == s.ui.input_mode
    &&& t.ui.panes@.len() == s.ui.panes@.len()
    &&& forall|p: int|
        0 <= p < s.ui.panes@.len() ==> #[trigger] t.ui.panes@[p]
            == pane_with_defaults(
            s.ui.panes@[p],
            s.config.decimal_addresses,
            if p < s.config.ranges@.len() {
                s.config.ranges@[p].initial_format
            } else {
                None
            },
        )
    &&& t.registers@.len() == s.registers@.len()
    &&& forall|i: int|
        0 <= i < s.registers@.len() ==> if i < s.config.ranges@.len() {
            defaults_applied(
                s.registers@[i]@,
                #[trigger] t.registers@[i]@,
                s.config.ranges@[i],
            )
        } else {
            t.registers@[i]@ == s.registers@[i]@
        }
}

impl AppState {
    /// Applies the configured defaults: decimal addresses in every pane
    /// when asked for, each range's initial format in its pane, and every
    /// address of each range present in its register map (so labels have
    /// a row and rows divide evenly), labelled as configured.
    pub fn apply_range_defaults(&mut self)
        requires
            ranges_fit(old(self).config.ranges@),
            old(self).registers@.len() >= old(self).config.ranges@.len(),
        ensures
            defaults_done(*old(self), *final(self)),
            old(self).wf() ==> final(self).wf(),
    {
        let decimal = self.config.decimal_addresses;
        let np = self.ui.panes.len();
        let nr = self.config.ranges.len();
        let mut p: usize = 0;
        while p < np
            invariant
                p <= np,
                np == self.ui.panes@.len(),
                nr == self.config.ranges@.len(),
                decimal == self.config.decimal_addresses,
                self.config == old(self).config,
                self.ui.panes@.len() == old(self).ui.panes@.len(),
                self.running == old(self).running,
                self.connection == old(self).connection,
                self.log == old(self).log,
                self.server == old(self).server,
                self.spinner_tick == old(self).spinner_tick,
                self.clock == old(self).clock,
                self.ui.active_tab == old(self).ui.active_tab,
                self.ui.focus == old(self).ui.focus,
                self.ui.log_scroll == old(self).ui.log_scroll,
                self.ui.input_mode == old(self).ui.input_mode,
                self.registers == old(self).registers,
                forall|q: int|
                    0 <= q < np ==> #[trigger] self.ui.panes@[q] == if q < p {
                        pane_with_defaults(
                            old(self).ui.panes@[q],
                            decimal,
                            if q < nr {
                                old(self).config.ranges@[q].initial_format
                            } else {
                                None
                            },
                        )
                    } else {
                        old(self).ui.panes@[q]
                    },
            decreases np - p,
        {
            let mut pane = self.ui.panes[p];
            if decimal {
                pane.addr_format = AddrFormat::Decimal;
            }
            if p < nr {
                match self.config.ranges[p].initial_format {
                    Some(nf) => {
                        pane.num_format = nf;
                    },
                    None => {},
                }
            }
            self.ui.panes.set(p, pane);
            p += 1;
        }
        let now = self.clock_millis();
        let mut regs: Vec<BTreeMap<u16, RegisterValue>> = Vec::new();
        std::mem::swap(&mut regs, &mut self.registers);
        let ghost taken = regs@;
        let total = regs.len();
        let mut filled: Vec<BTreeMap<u16, RegisterValue>> = Vec::new();
        let mut i: usize = 0;
        while i < total
            invariant
                i <= total,
                total == taken.len(),
                regs@ == taken.skip(i as int),
                filled@.len() == i,
                nr == self.config.ranges@.len(),
                nr <= total,
                self.config == old(self).config,
                ranges_fit(self.config.ranges@),
                forall|j: int|
                    0 <= j < i ==> if j < nr {
                        defaults_applied(
                            taken[j]@,
                            #[trigger] filled@[j]@,
                            self.config.ranges@[j],
                        )
                    } else {
                        filled@[j]@ == taken[j]@
                    },
            decreases total - i,
        {
            let mut m = regs.remove(0);
            assert(m == taken[i as int]);
            if i < nr {
                fill_tab(&mut m, &self.config.ranges[i], now);
            }
            filled.push(m);
            i += 1;
            assert(regs@ =~= taken.skip(i as int));
        }
        self.registers = filled;
    }
}

} // verus!

verus! {

// ---------------------------------------------------------------------------
// Saving the configuration
// ---------------------------------------------------------------------------

/// The labels of the labelled registers of `m`, by address.
pub open spec fn labels_of(m: Map<u16, RegisterValue>) -> Map<u16, String> {
    Map::new(|k: u16| m.contains_key(k) && m[k].label is Some, |k: u16| m[k].label->0)
}

/// The labels of the labelled registers of `m` among the addresses `ks`.
pub open spec fn labels_among(m: Map<u16, RegisterValue>, ks: Seq<u16>) -> Map<u16, String> {
    Map::new(
        |k: u16| ks.contains(k) && m.contains_key(k) && m[k].label is Some,
        |k: u16| m[k].label->0,
    )
}

/// The labelled registers of a tab, by address.
fn saved_labels(m: &BTreeMap<u16, RegisterValue>) -> (r: BTreeMap<u16, String>)
    ensures
        r@ == labels_of(m@),
{
    let keys = sorted_keys(m);
    let n = keys.len();
    let mut out: BTreeMap<u16, String> = BTreeMap::new();
    let mut idx: usize = 0;
    assert(out@ =~= labels_among(m@, keys@.take(0)));
    while idx < n
        invariant
            idx <= n,
            n == keys@.len(),
            keys@.to_set() == m@.dom(),
            out@ == labels_among(m@, keys@.take(idx as int)),
        decreases n - idx,
    {
        let k = keys[idx];
        assert(keys@.take(idx + 1) =~= keys@.take(idx as int).push(k));
        assert(keys@.contains(k));
        assert(m@.contains_key(k));
        let ghost before = out@;
        match m.get(&k) {
            Some(rv) => match &rv.label {
                Some(l) => {
                    out.insert(k, l.clone());
                },
                None => {},
            },
            None => {},
        }
        idx += 1;
        assert forall|a: u16| #[trigger] keys@.take(idx as int).contains(a) <==> (keys@.take(
            idx - 1,
        ).contains(a) || a == k) by {
            if a == k {
                assert(keys@.take(idx as int)[idx - 1] == a);
            }
        }
        assert(out@ =~= labels_among(m@, keys@.take(idx as int)));
    }
    assert(keys@.take(n as int) =~= keys@);
    assert forall|k: u16| m@.contains_key(k) implies keys@.contains(k) by {
        assert(keys@.to_set().contains(k));
    }
    assert(out@ =~= labels_of(m@));
    out
}

/// A copy of the initial values.
fn copy_values(v: &Vec<(String, u16)>) -> (r: Vec<(String, u16)>)
    ensures
        r@ == v@,
{
    let mut out: Vec<(String, u16)> = Vec::new();
    let mut i: usize = 0;
    while i < v.len()
        invariant
            i <= v@.len(),
            out@ == v@.take(i as int),
        decreases v@.len() - i,
    {
        out.push((v[i].0.clone(), v[i].1));
        i += 1;
        assert(out@ =~= v@.take(i as int));
    }
    assert(v@.take(v@.len() as int) =~= v@);
    out
}

/// The range as saved: register ranges take the pane's format; the labels
/// are those of the pane's registers (none when the tab has no map).
pub open spec fn range_saved(
    orig: PollRange,
    saved: PollRange,
    pane: PaneState,
    regs: Option<Map<u16, RegisterValue>>,
) -> bool {
    &&& saved.reg_type == orig.reg_type
    &&& saved.start == orig.start
    &&& saved.count == orig.count
    &&& saved.initial_format == if orig.reg_type.coil_like() {
        orig.initial_format
    } else {
        Some(pane.num_format)
    }
    &&& match regs {
        Some(m) => saved.labels@ == labels_of(m),
        None => saved.labels@ == Map::<u16, String>::empty(),
    }
}

/// `r` is the configuration `s` saves: each range with its pane's format
/// and its registers' labels, decimal addresses when every pane shows
/// them, everything else as configured.
pub open spec fn is_saved_config(s: AppState, r: AppConfig) -> bool {
    &&& r.mode == s.config.mode
    &&& r.host == s.config.host
    &&& r.port == s.config.port
    &&& r.unit == s.config.unit
    &&& r.poll_interval_ms == s.config.poll_interval_ms
    &&& r.start_reference == s.config.start_reference
    &&& r.swap_ints == s.config.swap_ints
    &&& r.swap_floats == s.config.swap_floats
    &&& r.swap_bytes == s.config.swap_bytes
    &&& r.hide_hex == s.config.hide_hex
    &&& r.initial_values@ == s.config.initial_values@
    &&& r.decimal_addresses == forall|p: int|
        0 <= p < s.ui.panes@.len() ==> #[trigger] s.ui.panes@[p].addr_format
            == AddrFormat::Decimal
    &&& r.ranges@.len() == s.config.ranges@.len()
    &&& forall|i: int|
        0 <= i < r.ranges@.len() ==> if i < s.ui.panes@.len() {
            range_saved(
                s.config.ranges@[i],
                #[trigger] r.ranges@[i],
                s.ui.panes@[i],
                if i < s.registers@.len() {
                    Some(s.registers@[i]@)
                } else {
                    None
                },
            )
        } else {
            &&& r.ranges@[i].reg_type == s.config.ranges@[i].reg_type
            &&& r.ranges@[i].start == s.config.ranges@[i].start
            &&& r.ranges@[i].count == s.config.ranges@[i].count
            &&& r.ranges@[i].initial_format == s.config.ranges@[i].initial_format
            &&& r.ranges@[i].labels@ == s.config.ranges@[i].labels@
        }
}

impl AppState {
    /// The configuration as it stands in the UI, for saving: each range
    /// with its pane's format and its registers' labels, and decimal
    /// addresses when every pane shows them. Changes nothing.
    pub fn build_saved_config(&self) -> (r: AppConfig)
        ensures
            is_saved_config(*self, r),
    {
        let nr = self.config.ranges.len();
        let np = self.ui.panes.len();
        let mut ranges: Vec<PollRange> = Vec::new();
        let mut i: usize = 0;
        while i < nr
            invariant
                i <= nr,
                nr == self.config.ranges@.len(),
                np == self.ui.panes@.len(),
                ranges@.len() == i,
                forall|j: int|
                    0 <= j < i ==> if j < np {
                        range_saved(
                            self.config.ranges@[j],
                            #[trigger] ranges@[j],
                            self.ui.panes@[j],
                            if j < self.registers@.len() {
                                Some(self.registers@[j]@)
                            } else {
                                None
                            },
                        )
                    } else {
                        &&& ranges@[j].reg_type == self.config.ranges@[j].reg_type
                        &&& ranges@[j].start == self.config.ranges@[j].start
                        &&& ranges@[j].count == self.config.ranges@[j].count
                        &&& ranges@[j].initial_format == self.config.ranges@[j].initial_format
                        &&& ranges@[j].labels@ == self.config.ranges@[j].labels@
                    },
            decreases nr - i,
        {
            let src = &self.config.ranges[i];
            let mut fmt = src.initial_format;
            let labels = if i < np {
                if !src.reg_type.is_coil_type() {
                    fmt = Some(self.ui.panes[i].num_format);
                }
                if i < self.registers.len() {
                    saved_labels(&self.registers[i])
                } else {
                    BTreeMap::new()
                }
            } else {
                src.labels.clone()
            };
            ranges.push(
                PollRange {
                    reg_type: src.reg_type,
                    start: src.start,
                    count: src.count,
                    initial_format: fmt,
                    labels,
                },
            );
            i += 1;
        }
        let mut all_decimal = true;
        let mut p: usize = 0;
        while p < np
            invariant
                p <= np,
                np == self.ui.panes@.len(),
                all_decimal == forall|q: int|
                    0 <= q < p ==> #[trigger] self.ui.panes@[q].addr_format == AddrFormat::Decimal,
            decreases np - p,
        {
            if self.ui.panes[p].addr_format != AddrFormat::Decimal {
                all_decimal = false;
            }
            p += 1;
        }
        AppConfig {
            mode: self.config.mode,
            host: self.config.host.clone(),
            port: self.config.port,
            unit: self.config.unit,
            ranges,
            poll_interval_ms: self.config.poll_interval_ms,
            start_reference: self.config.start_reference,
            swap_ints: self.config.swap_ints,
            swap_floats: self.config.swap_floats,
            swap_bytes: self.config.swap_bytes,
            hide_hex: self.config.hide_hex,
            decimal_addresses: all_decimal,
            initial_values: copy_values(&self.config.initial_values),
        }
    }
}

} // verus!

verus! {

// ---------------------------------------------------------------------------
// Server events
// ---------------------------------------------------------------------------

/// The counters can take the event without overflowing.
pub open spec fn countable(st: ServerStats, e: ServerEvent) -> bool {
    match e {
        ServerEvent::ClientConnected(_) => st.active_connections < usize::MAX
            && st.total_connections < u64::MAX,
        ServerEvent::RequestCoils => st.requests_coils < u64::MAX,
        ServerEvent::RequestDiscreteInputs => st.requests_discrete_inputs < u64::MAX,
        ServerEvent::RequestHoldingRegisters => st.requests_holding_registers < u64::MAX,
        ServerEvent::RequestInputRegisters => st.requests_input_registers < u64::MAX,
        ServerEvent::RequestWrite => st.requests_write < u64::MAX,
        ServerEvent::RequestOther => st.requests_other < u64::MAX,
        _ => true,
    }
}

/// The counters after an event: a connection counts as active and in the
/// total, a disconnection leaves the active ones (never below zero), a
/// request counts in its kind.
pub open spec fn stats_after(st: ServerStats, e: ServerEvent) -> ServerStats {
    match e {
        ServerEvent::ClientConnected(_) => ServerStats {
            active_connections: (st.active_connections + 1) as usize,
            total_connections: (st.total_connections + 1) as u64,
            ..st
        },
        ServerEvent::ClientDisconnected(_) => ServerStats {
            active_connections: if st.active_connections == 0 {
                0
            } else {
                (st.active_connections - 1) as usize
            },
            ..st
        },
        ServerEvent::RequestCoils => ServerStats {
            requests_coils: (st.requests_coils + 1) as u64,
            ..st
        },
        ServerEvent::RequestDiscreteInputs => ServerStats {
            requests_discrete_inputs: (st.requests_discrete_inputs + 1) as u64,
            ..st
        },
        ServerEvent::RequestHoldingRegisters => ServerStats {
            requests_holding_registers: (st.requests_holding_registers + 1) as u64,
            ..st
        },
        ServerEvent::RequestInputRegisters => ServerStats {
            requests_input_registers: (st.requests_input_registers + 1) as u64,
            ..st
        },
        ServerEvent::RequestWrite => ServerStats { requests_write: (st.requests_write + 1) as u64, ..st },
        ServerEvent::RequestOther => ServerStats { requests_other: (st.requests_other + 1) as u64, ..st },
        ServerEvent::Log(_) => st,
    }
}

/// Whether `e` is a request a client made.
pub open spec fn is_request(e: ServerEvent) -> bool {
    ||| e is RequestCoils
    ||| e is RequestDiscreteInputs
    ||| e is RequestHoldingRegisters
    ||| e is RequestInputRegisters
    ||| e is RequestWrite
    ||| e is RequestOther
}

/// The counter that requests of the kind of `e` are counted in (0 for an
/// event that is no request).
pub open spec fn kind_count(st: ServerStats, e: ServerEvent) -> int {
    match e {
        ServerEvent::RequestCoils => st.requests_coils as int,
        ServerEvent::RequestDiscreteInputs => st.requests_discrete_inputs as int,
        ServerEvent::RequestHoldingRegisters => st.requests_holding_registers as int,
        ServerEvent::RequestInputRegisters => st.requests_input_registers as int,
        ServerEvent::RequestWrite => st.requests_write as int,
        ServerEvent::RequestOther => st.requests_other as int,
        _ => 0,
    }
}

/// All requests counted, of every kind.
pub open spec fn requests_total(st: ServerStats) -> int {
    st.requests_coils + st.requests_discrete_inputs + st.requests_holding_registers
        + st.requests_input_registers + st.requests_write + st.requests_other
}

/// Every request is counted once, in its own kind: the total grows by one,
/// the counter of its kind by one, every other kind and the connection
/// counts stay. A connection counts one more active and one more in all; a
/// disconnection one fewer active (never below zero); neither, nor a log
/// line, counts a request.
pub proof fn lemma_each_request_counted_once(st: ServerStats, e: ServerEvent, k: ServerEvent)
    requires
        countable(st, e),
    ensures
        is_request(e) ==> {
            let after = stats_after(st, e);
            &&& requests_total(after) == requests_total(st) + 1
            &&& kind_count(after, e) == kind_count(st, e) + 1
            &&& is_request(k) && k != e ==> kind_count(after, k) == kind_count(st, k)
            &&& after.active_connections == st.active_connections
            &&& after.total_connections == st.total_connections
        },
        !is_request(e) ==> requests_total(stats_after(st, e)) == requests_total(st),
        e is ClientConnected ==> stats_after(st, e).active_connections == st.active_connections + 1
            && stats_after(st, e).total_connections == st.total_connections + 1,
        e is ClientDisconnected ==> stats_after(st, e).total_connections == st.total_connections
            && stats_after(st, e).active_connections == if st.active_connections == 0 {
            0
        } else {
            st.active_connections - 1
        },
        e is Log ==> stats_after(st, e) == st,
{
}

/// The line an event adds to the log, if any.
pub open spec fn event_log_line(e: ServerEvent) -> Option<Seq<char>> {
    match e {
        ServerEvent::Log(m) => Some(m@),
        ServerEvent::ClientConnected(a) => Some("client connected: "@ + a@),
        ServerEvent::ClientDisconnected(a) => Some("client disconnected: "@ + a@),
        _ => None,
    }
}

impl AppState {
    /// Whether the counters can take `event`.
    pub fn can_record(&self, event: &ServerEvent) -> (r: bool)
        ensures
            r == countable(self.server, *event),
    {
        let st = &self.server;
        match event {
            ServerEvent::ClientConnected(_) => st.active_connections < usize::MAX
                && st.total_connections < u64::MAX,
            ServerEvent::RequestCoils => st.requests_coils < u64::MAX,
            ServerEvent::RequestDiscreteInputs => st.requests_discrete_inputs < u64::MAX,
            ServerEvent::RequestHoldingRegisters => st.requests_holding_registers < u64::MAX,
            ServerEvent::RequestInputRegisters => st.requests_input_registers < u64::MAX,
            ServerEvent::RequestWrite => st.requests_write < u64::MAX,
            ServerEvent::RequestOther => st.requests_other < u64::MAX,
            _ => true,
        }
    }

    /// Takes one event from the server into the counters and the log.
    pub fn apply_server_event(&mut self, event: ServerEvent)
        requires
            countable(old(self).server, event),
        ensures
            final(self).server == stats_after(old(self).server, event),
            final(self).log.lines() == match event_log_line(event) {
                Some(m) => after_push(old(self).log.lines(), LogLevel::Info, m),
                None => old(self).log.lines(),
            },
            final(self).running == old(self).running,
            final(self).config == old(self).config,
            final(self).connection == old(self).connection,
            final(self).registers == old(self).registers,
            final(self).ui == old(self).ui,
            final(self).spinner_tick == old(self).spinner_tick,
    {
        match event {
            ServerEvent::Log(msg) => {
                self.log.info(msg.as_str());
            },
            ServerEvent::ClientConnected(addr) => {
                self.server.active_connections = self.server.active_connections + 1;
                self.server.total_connections = self.server.total_connections + 1;
                let line = concat("client connected: ", addr.as_str());
                self.log.info(line.as_str());
            },
            ServerEvent::ClientDisconnected(addr) => {
                if self.server.active_connections > 0 {
                    self.server.active_connections = self.server.active_connections - 1;
                }
                let line = concat("client disconnected: ", addr.as_str());
                self.log.info(line.as_str());
            },
            ServerEvent::RequestCoils => {
                self.server.requests_coils = self.server.requests_coils + 1;
            },
            ServerEvent::RequestDiscreteInputs => {
                self.server.requests_discrete_inputs = self.server.requests_discrete_inputs + 1;
            },
            ServerEvent::RequestHoldingRegisters => {
                self.server.requests_holding_registers = self.server.requests_holding_registers
                    + 1;
            },
            ServerEvent::RequestInputRegisters => {
                self.server.requests_input_registers = self.server.requests_input_registers + 1;
            },
            ServerEvent::RequestWrite => {
                self.server.requests_write = self.server.requests_write + 1;
            },
            ServerEvent::RequestOther => {
                self.server.requests_other = self.server.requests_other + 1;
            },
        }
    }
}

} // verus!

verus! {

/// A finite set has at most one `i`-th smallest key.
pub proof fn lemma_key_at_unique(d: Set<u16>, i: int, k1: u16, k2: u16)
    requires
        d.finite(),
        key_at(d, i, k1),
        key_at(d, i, k2),
    ensures
        k1 == k2,
{
    if k1 != k2 {
        let (lo, hi) = if k1 < k2 {
            (k1, k2)
        } else {
            (k2, k1)
        };
        let a = d.filter(|j: u16| j < lo);
        let b = d.filter(|j: u16| j < hi);
        d.lemma_len_filter(|j: u16| j < lo);
        d.lemma_len_filter(|j: u16| j < hi);
        assert(a.insert(lo).subset_of(b));
        vstd::set_lib::lemma_len_subset(a.insert(lo), b);
        vstd::set::axiom_set_insert_len(a, lo);
        assert(!a.contains(lo));
    }
}

impl AppState {
    /// The tabs, panes and register maps line up, the active tab is one of
    /// them (when there is any), and a format dialog highlights a format.
    pub open spec fn wf(self) -> bool {
        &&& self.registers@.len() == self.config.ranges@.len()
        &&& self.ui.panes@.len() == self.config.ranges@.len()
        &&& self.config.ranges@.len() > 0 ==> self.ui.active_tab < self.config.ranges@.len()
        &&& self.ui.input_mode matches InputMode::FormatDialog { selected } ==> selected
            < NumFormat::COUNT
        &&& labels_fit(self.config.keys(), self.config.start_reference)
    }

    /// Protocol address of the selected row of the active pane, if the
    /// active tab has a register there.
    pub open spec fn selected_addr_spec(self) -> Option<u16> {
        let d = self.registers@[self.ui.active_tab as int]@.dom();
        let i = self.selected_position();
        if exists|k: u16| key_at(d, i, k) {
            Some(choose|k: u16| key_at(d, i, k))
        } else {
            None
        }
    }
}

/// What `selected_addr` gives is the selected address.
proof fn lemma_selected_addr(s: AppState, r: Option<u16>)
    requires
        s.ui.active_tab < s.registers@.len(),
        s.ui.active_tab < s.ui.panes@.len(),
        match r {
            Some(k) => key_at(
                s.registers@[s.ui.active_tab as int]@.dom(),
                s.selected_position(),
                k,
            ),
            None => s.selected_position() >= s.registers@[s.ui.active_tab as int]@.dom().len(),
        },
    ensures
        r == s.selected_addr_spec(),
{
    let d = s.registers@[s.ui.active_tab as int]@.dom();
    let i = s.selected_position();
    vstd::std_specs::btree::axiom_btree_map_view_finite_dom(s.registers@[s.ui.active_tab as int]);
    match r {
        Some(k) => {
            let c = choose|k: u16| key_at(d, i, k);
            lemma_key_at_unique(d, i, k, c);
        },
        None => {
            if exists|k: u16| key_at(d, i, k) {
                let k = choose|k: u16| key_at(d, i, k);
                d.lemma_len_filter(|j: u16| j < k);
                let f = d.filter(|j: u16| j < k);
                assert(f.subset_of(d));
                assert(!f.contains(k));
                vstd::set_lib::lemma_len_subset(f.insert(k), d);
                vstd::set::axiom_set_insert_len(f, k);
            }
        },
    }
}

// ---------------------------------------------------------------------------
// Laws of the application state
// ---------------------------------------------------------------------------

/// The addresses `start .. start + count`.
pub open spec fn span(start: u16, count: u16) -> Set<u16> {
    Set::new(|k: u16| in_span(start, count, k))
}

proof fn lemma_span_len(start: u16, count: u16)
    requires
        start + count <= 0x10000,
    ensures
        span(start, count).finite(),
        span(start, count).len() == count,
    decreases count,
{
    if count == 0 {
        assert(span(start, count) =~= Set::<u16>::empty());
    } else {
        let prev = (count - 1) as u16;
        lemma_span_len(start, prev);
        let top = (start + prev) as u16;
        assert(span(start, count) =~= span(start, prev).insert(top));
        assert(!span(start, prev).contains(top));
    }
}

/// Applying the defaults to an empty register map gives exactly the
/// addresses of the range, `count` of them, each reading zero and carrying
/// its configured label.
pub proof fn lemma_prepopulated(r: PollRange, m: Map<u16, RegisterValue>)
    requires
        r.start + r.count <= 0x10000,
        defaults_applied(Map::empty(), m, r),
    ensures
        m.dom() == span(r.start, r.count),
        m.dom().len() == r.count,
        forall|k: u16| #[trigger]
            m.contains_key(k) ==> m[k].raw == 0 && m[k].label == label_for(r.labels@, k),
{
    assert(m.dom() =~= span(r.start, r.count));
    lemma_span_len(r.start, r.count);
    assert forall|k: u16| #[trigger] m.contains_key(k) implies m[k].raw == 0 && m[k].label
        == label_for(r.labels@, k) by {
        match label_for(r.labels@, k) {
            Some(l) => {},
            None => {},
        }
    }
}

/// A configuration whose save gives it back: ranges inside the address
/// space with their labels inside the range, an initial format on every
/// register range, and decimal addresses only asked for when there is a
/// pane to show them.
pub open spec fn save_ready(c: AppConfig) -> bool {
    &&& ranges_fit(c.ranges@)
    &&& forall|i: int|
        0 <= i < c.ranges@.len() ==> {
            let r = #[trigger] c.ranges@[i];
            &&& forall|k: u16| #[trigger]
                r.labels@.contains_key(k) ==> in_span(r.start, r.count, k)
            &&& !r.reg_type.coil_like() ==> r.initial_format is Some
        }
    &&& c.ranges@.len() > 0 || c.decimal_addresses
}

/// The labels saved for a range after its defaults were applied to an
/// empty map are the configured ones.
proof fn lemma_labels_roundtrip(r: PollRange, m: Map<u16, RegisterValue>)
    requires
        r.start + r.count <= 0x10000,
        forall|k: u16| #[trigger] r.labels@.contains_key(k) ==> in_span(r.start, r.count, k),
        defaults_applied(Map::empty(), m, r),
    ensures
        labels_of(m) == r.labels@,
{
    assert(m.dom() =~= span(r.start, r.count));
    assert forall|k: u16| labels_of(m).contains_key(k) <==> r.labels@.contains_key(k) by {
        if r.labels@.contains_key(k) {
            assert(in_span(r.start, r.count, k));
            assert(m.contains_key(k));
        }
    }
    assert(labels_of(m) =~= r.labels@);
}

/// Saving right after start-up gives the configuration back: a state
/// freshly made from `c`, with the defaults applied, saves a configuration
/// with the same settings, the same ranges, formats and labels.
pub proof fn lemma_save_roundtrip(c: AppConfig, s0: AppState, s1: AppState, out: AppConfig)
    requires
        save_ready(c),
        fresh_state(c, s0),
        defaults_done(s0, s1),
        is_saved_config(s1, out),
    ensures
        out.mode == c.mode,
        out.host == c.host,
        out.port == c.port,
        out.unit == c.unit,
        out.poll_interval_ms == c.poll_interval_ms,
        out.start_reference == c.start_reference,
        out.swap_ints == c.swap_ints,
        out.swap_floats == c.swap_floats,
        out.swap_bytes == c.swap_bytes,
        out.hide_hex == c.hide_hex,
        out.decimal_addresses == c.decimal_addresses,
        out.initial_values@ == c.initial_values@,
        out.ranges@.len() == c.ranges@.len(),
        forall|i: int|
            0 <= i < c.ranges@.len() ==> {
                &&& (#[trigger] out.ranges@[i]).reg_type == c.ranges@[i].reg_type
                &&& out.ranges@[i].start == c.ranges@[i].start
                &&& out.ranges@[i].count == c.ranges@[i].count
                &&& out.ranges@[i].initial_format == c.ranges@[i].initial_format
                &&& out.ranges@[i].labels@ == c.ranges@[i].labels@
            },
{
    let n = c.ranges@.len();
    assert forall|i: int| 0 <= i < n implies {
        &&& (#[trigger] out.ranges@[i]).reg_type == c.ranges@[i].reg_type
        &&& out.ranges@[i].start == c.ranges@[i].start
        &&& out.ranges@[i].count == c.ranges@[i].count
        &&& out.ranges@[i].initial_format == c.ranges@[i].initial_format
        &&& out.ranges@[i].labels@ == c.ranges@[i].labels@
    } by {
        let r = c.ranges@[i];
        assert(s0.ui.panes@[i] == initial_pane());
        assert(s1.ui.panes@[i] == pane_with_defaults(initial_pane(), c.decimal_addresses, r.initial_format));
        assert(s0.registers@[i]@ == Map::<u16, RegisterValue>::empty());
        assert(defaults_applied(Map::empty(), s1.registers@[i]@, r));
        assert(range_saved(r, out.ranges@[i], s1.ui.panes@[i], Some(s1.registers@[i]@)));
        assert(r.start + r.count <= 0x10000);
        lemma_labels_roundtrip(r, s1.registers@[i]@);
    }
    if n > 0 {
        if !c.decimal_addresses {
            assert(s1.ui.panes@[0].addr_format == AddrFormat::Hex);
        }
    }
}

/// Tab then Shift+Tab (or the other way round) returns to the same pane.
pub proof fn lemma_tab_back_and_forth(a: int, n: int)
    requires
        0 <= a < n,
    ensures
        (((a + 1) % n) + n - 1) % n == a,
        (((a + n - 1) % n) + 1) % n == a,
{
    assert((((a + 1) % n) + n - 1) % n == a) by (nonlinear_arith)
        requires
            0 <= a < n,
    ;
    assert((((a + n - 1) % n) + 1) % n == a) by (nonlinear_arith)
        requires
            0 <= a < n,
    ;
}

} // verus!
