//! The decisions of the Modbus client and server tasks: how read values are
//! stored, how long to wait before reconnecting, which function a write
//! uses, and what the connection status and the log say at each step. The
//! tasks themselves (sockets, timers) live outside the library.
use std::collections::BTreeMap;
use vstd::prelude::*;
use vstd::string::*;
use crate::config::{AddrFormat, RegisterType};
use crate::state::{after_push, AppState, ConnectionStatus, LogLevel, RegisterValue, WriteRequest};
use crate::text::{concat, dec_chars, hex4, hex4_text, hex_chars, hex_list, hex_list_text, push_hex, to_decimal};
use crate::store::{bool_text, words_on, words_to_bits};

verus! {

broadcast use {vstd::std_specs::btree::group_btree_axioms, vstd::laws_cmp::group_laws_cmp};

// ---------------------------------------------------------------------------
// Storing read values
// ---------------------------------------------------------------------------

/// `new_m` is `old_m` after reading `vals` from `start` upwards at `now`:
/// every address read is present, a known register took the reading (see
/// `RegisterValue::updated_from`), a new one holds it fresh; other
/// registers are untouched.
pub open spec fn stored(
    old_m: Map<u16, RegisterValue>,
    new_m: Map<u16, RegisterValue>,
    start: u16,
    vals: Seq<u16>,
    now: u64,
) -> bool {
    &&& new_m.dom() == old_m.dom().union(
        Set::new(|k: u16| start <= k < start + vals.len()),
    )
    &&& forall|k: u16| #[trigger]
        new_m.contains_key(k) ==> if start <= k < start + vals.len() {
            if old_m.contains_key(k) {
                new_m[k].updated_from(old_m[k], vals[k - start], now)
            } else {
                new_m[k].is_fresh(vals[k - start], now)
            }
        } else {
            new_m[k] == old_m[k]
        }
}

/// After storing a reading, each address read holds the value read there.
pub proof fn lemma_stored_read_back(
    old_m: Map<u16, RegisterValue>,
    new_m: Map<u16, RegisterValue>,
    start: u16,
    vals: Seq<u16>,
    now: u64,
)
    requires
        start + vals.len() <= 0x10000,
        stored(old_m, new_m, start, vals, now),
    ensures
        forall|i: int|
            0 <= i < vals.len() ==> new_m.contains_key((start + i) as u16) && #[trigger] new_m[(
            start + i) as u16].raw == vals[i],
{
    assert forall|i: int| 0 <= i < vals.len() implies new_m.contains_key((start + i) as u16)
        && #[trigger] new_m[(start + i) as u16].raw == vals[i] by {
        let k = (start + i) as u16;
        assert(new_m.dom().contains(k));
        assert(k - start == i);
    }
}

/// The values a tab shows after a write of `vals`: on a coil tab each as
/// on (1) or off (0).
pub open spec fn shown_words(coils: bool, vals: Seq<u16>) -> Seq<u16> {
    if coils {
        bits_as_words(words_on(vals))
    } else {
        vals
    }
}

/// Coil states as register values: 1 for on, 0 for off.
pub open spec fn bits_as_words(bits: Seq<bool>) -> Seq<u16> {
    bits.map_values(|b: bool|
        if b {
            1u16
        } else {
            0u16
        })
}

/// Stores one reading at `addr`.
fn store_one(map: &mut BTreeMap<u16, RegisterValue>, addr: u16, val: u16, now: u64)
    ensures
        final(map)@.dom() == old(map)@.dom().insert(addr),
        old(map)@.contains_key(addr) ==> final(map)@[addr].updated_from(old(map)@[addr], val, now),
        !old(map)@.contains_key(addr) ==> final(map)@[addr].is_fresh(val, now),
        forall|k: u16| k != addr && #[trigger] old(map)@.contains_key(k) ==> final(map)@[k] == old(
            map,
        )@[k],
{
    match map.remove(&addr) {
        Some(mut rv) => {
            rv.update(val, now);
            map.insert(addr, rv);
        },
        None => {
            map.insert(addr, RegisterValue::new(val, now));
        },
    }
}

/// Stores register values read from `start` upwards at `now`.
pub fn store_word_values(map: &mut BTreeMap<u16, RegisterValue>, start: u16, values: &[u16], now: u64)
    requires
        start + values@.len() <= 0x10000,
    ensures
        stored(old(map)@, final(map)@, start, values@, now),
{
    let ghost m0 = old(map)@;
    let n = values.len();
    let mut i: usize = 0;
    assert(map@.dom() =~= m0.dom().union(
        Set::new(|k: u16| start <= k < start + values@.take(0).len()),
    ));
    while i < n
        invariant
            i <= n,
            n == values@.len(),
            start + n <= 0x10000,
            stored(m0, map@, start, values@.take(i as int), now),
        decreases n - i,
    {
        let addr: u16 = start + i as u16;
        let ghost before = map@;
        store_one(map, addr, values[i], now);
        proof {
            let t = values@.take(i + 1);
            assert(map@.dom() =~= m0.dom().union(Set::new(|k: u16| start <= k < start + t.len())));
            assert forall|k: u16| #[trigger] map@.contains_key(k) implies if start <= k < start
                + t.len() {
                if m0.contains_key(k) {
                    map@[k].updated_from(m0[k], t[k - start], now)
                } else {
                    map@[k].is_fresh(t[k - start], now)
                }
            } else {
                map@[k] == m0[k]
            } by {
                if k != addr {
                    assert(before.contains_key(k));
                }
            }
        }
        i += 1;
    }
    assert(values@.take(n as int) =~= values@);
}

/// Stores coil or discrete input states read from `start` upwards at `now`.
pub fn store_bool_values(map: &mut BTreeMap<u16, RegisterValue>, start: u16, values: &[bool], now: u64)
    requires
        start + values@.len() <= 0x10000,
    ensures
        stored(old(map)@, final(map)@, start, bits_as_words(values@), now),
{
    let ghost m0 = old(map)@;
    let ghost words = bits_as_words(values@);
    let n = values.len();
    let mut i: usize = 0;
    assert(map@.dom() =~= m0.dom().union(
        Set::new(|k: u16| start <= k < start + words.take(0).len()),
    ));
    while i < n
        invariant
            i <= n,
            n == values@.len(),
            words == bits_as_words(values@),
            start + n <= 0x10000,
            stored(m0, map@, start, words.take(i as int), now),
        decreases n - i,
    {
        let addr: u16 = start + i as u16;
        let raw: u16 = if values[i] {
            1
        } else {
            0
        };
        let ghost before = map@;
        store_one(map, addr, raw, now);
        proof {
            let t = words.take(i + 1);
            assert(t[i as int] == raw);
            assert(map@.dom() =~= m0.dom().union(Set::new(|k: u16| start <= k < start + t.len())));
            assert forall|k: u16| #[trigger] map@.contains_key(k) implies if start <= k < start
                + t.len() {
                if m0.contains_key(k) {
                    map@[k].updated_from(m0[k], t[k - start], now)
                } else {
                    map@[k].is_fresh(t[k - start], now)
                }
            } else {
                map@[k] == m0[k]
            } by {
                if k != addr {
                    assert(before.contains_key(k));
                }
            }
        }
        i += 1;
    }
    assert(words.take(n as int) =~= words);
}

// ---------------------------------------------------------------------------
// Reconnect backoff
// ---------------------------------------------------------------------------

/// Seconds waited after the first failure.
pub const INITIAL_BACKOFF_SECS: u64 = 1;

/// The longest wait between reconnection attempts, in seconds.
pub const MAX_BACKOFF_SECS: u64 = 10;

/// The smaller of two numbers.
pub open spec fn min_u64(a: int, b: int) -> int {
    if a <= b {
        a
    } else {
        b
    }
}

/// After a failed connection attempt the wait grows by one second, up to
/// the maximum.
pub fn backoff_after_connect_failure(secs: u64) -> (r: u64)
    requires
        secs < u64::MAX,
    ensures
        r == min_u64(secs + 1, MAX_BACKOFF_SECS as int),
{
    if secs + 1 < MAX_BACKOFF_SECS {
        secs + 1
    } else {
        MAX_BACKOFF_SECS
    }
}

/// After a read error the wait doubles, up to the maximum.
pub fn backoff_after_read_error(secs: u64) -> (r: u64)
    requires
        secs * 2 <= u64::MAX,
    ensures
        r == min_u64(secs * 2, MAX_BACKOFF_SECS as int),
{
    if secs * 2 < MAX_BACKOFF_SECS {
        secs * 2
    } else {
        MAX_BACKOFF_SECS
    }
}

/// How a step of the client session ended, as far as the wait before the
/// next connection attempt is concerned.
#[derive(Clone, Copy, Debug, PartialEq, Eq, Structural)]
pub enum SessionOutcome {
    /// The connection was made.
    Connected,
    /// The connection attempt failed.
    ConnectFailed,
    /// A read failed; the connection is dropped and made again.
    ReadFailed,
}

/// The wait before the next connection attempt after `outcome`, given the
/// current wait `secs`: a connection resets it to the initial wait, a
/// failed attempt adds one second, a read error doubles it, never above
/// the maximum.
pub open spec fn next_backoff_spec(secs: u64, outcome: SessionOutcome) -> int {
    match outcome {
        SessionOutcome::Connected => INITIAL_BACKOFF_SECS as int,
        SessionOutcome::ConnectFailed => min_u64(secs + 1, MAX_BACKOFF_SECS as int),
        SessionOutcome::ReadFailed => min_u64(secs * 2, MAX_BACKOFF_SECS as int),
    }
}

/// The wait before the next connection attempt after `outcome`.
pub fn next_backoff(secs: u64, outcome: SessionOutcome) -> (r: u64)
    ensures
        r == next_backoff_spec(secs, outcome),
{
    match outcome {
        SessionOutcome::Connected => INITIAL_BACKOFF_SECS,
        SessionOutcome::ConnectFailed => if secs >= MAX_BACKOFF_SECS {
            MAX_BACKOFF_SECS
        } else {
            backoff_after_connect_failure(secs)
        },
        SessionOutcome::ReadFailed => if secs >= MAX_BACKOFF_SECS {
            MAX_BACKOFF_SECS
        } else {
            backoff_after_read_error(secs)
        },
    }
}

/// Starting from the initial wait, the wait stays between the initial and
/// the maximum wait whatever happens: a successful connection resets it,
/// and both kinds of failure keep it within the bound.
pub proof fn lemma_backoff_bounded(secs: u64)
    requires
        INITIAL_BACKOFF_SECS <= secs <= MAX_BACKOFF_SECS,
    ensures
        INITIAL_BACKOFF_SECS <= min_u64(secs + 1, MAX_BACKOFF_SECS as int) <= MAX_BACKOFF_SECS,
        INITIAL_BACKOFF_SECS <= min_u64(secs * 2, MAX_BACKOFF_SECS as int) <= MAX_BACKOFF_SECS,
        min_u64(secs + 1, MAX_BACKOFF_SECS as int) >= secs,
        min_u64(secs * 2, MAX_BACKOFF_SECS as int) >= secs,
        forall|o: SessionOutcome|
            INITIAL_BACKOFF_SECS <= #[trigger] next_backoff_spec(secs, o) <= MAX_BACKOFF_SECS,
{
}

// ---------------------------------------------------------------------------
// Writes
// ---------------------------------------------------------------------------

/// The Modbus function a write goes out as.
#[derive(Clone, Debug)]
pub enum WriteCall {
    /// Function 6, preset single register.
    SingleRegister(u16, u16),
    /// Function 16, preset multiple registers.
    MultipleRegisters(u16, Vec<u16>),
    /// Function 5, force single coil.
    SingleCoil(u16, bool),
}

/// The function a write of `values` to `addr` in a table of type `t` goes
/// out as, or why it cannot: holding registers take one or several
/// registers, a coil is set by the first value (non-zero is on), and the
/// read-only tables are refused.
pub open spec fn write_plan(t: RegisterType, addr: u16, values: Seq<u16>) -> Result<
    (u8, u16, Seq<u16>),
    Seq<char>,
> {
    if values.len() == 0 {
        Err("no values to write"@)
    } else {
        match t {
            RegisterType::HoldingRegisters => if values.len() == 1 {
                Ok((6, addr, values))
            } else {
                Ok((16, addr, values))
            },
            RegisterType::Coils => Ok(
                (
                    5,
                    addr,
                    seq![
                        if values[0] != 0 {
                            1u16
                        } else {
                            0u16
                        },
                    ],
                ),
            ),
            _ => Err("cannot write to read-only register type"@),
        }
    }
}

impl WriteCall {
    /// Function code, address and the register values of the call (a coil
    /// as 1 or 0).
    pub open spec fn shape(self) -> (u8, u16, Seq<u16>) {
        match self {
            WriteCall::SingleRegister(a, v) => (6, a, seq![v]),
            WriteCall::MultipleRegisters(a, v) => (16, a, v@),
            WriteCall::SingleCoil(a, b) => (
                5,
                a,
                seq![
                    if b {
                        1u16
                    } else {
                        0u16
                    },
                ],
            ),
        }
    }

    /// The log line after the write went through.
    pub open spec fn done_text(self) -> Seq<char> {
        match self {
            WriteCall::SingleRegister(a, v) => "wrote register "@ + hex4_text(a) + " = "@
                + dec_chars(v as nat) + " ("@ + hex4_text(v) + ")"@,
            WriteCall::MultipleRegisters(a, v) => "wrote "@ + dec_chars(v@.len()) + " registers at "@
                + hex4_text(a) + ": ["@ + hex_list_text(v@) + "]"@,
            WriteCall::SingleCoil(a, b) => "wrote coil "@ + hex4_text(a) + " = "@ + bool_text(b),
        }
    }
}

/// The function a write goes out as, or why it cannot.
pub fn plan_write(t: RegisterType, addr: u16, values: &[u16]) -> (r: Result<WriteCall, String>)
    ensures
        match r {
            Ok(call) => write_plan(t, addr, values@) == Ok::<(u8, u16, Seq<u16>), Seq<char>>(
                call.shape(),
            ) && (t is Coils ==> call == WriteCall::SingleCoil(addr, values@[0] != 0)),
            Err(e) => write_plan(t, addr, values@) == Err::<(u8, u16, Seq<u16>), Seq<char>>(e@),
        },
{
    if values.len() == 0 {
        return Err(String::from_str("no values to write"));
    }
    match t {
        RegisterType::HoldingRegisters => {
            if values.len() == 1 {
                assert(seq![values[0]] =~= values@);
                Ok(WriteCall::SingleRegister(addr, values[0]))
            } else {
                let mut v: Vec<u16> = Vec::new();
                let mut i: usize = 0;
                while i < values.len()
                    invariant
                        i <= values@.len(),
                        v@ == values@.take(i as int),
                    decreases values@.len() - i,
                {
                    v.push(values[i]);
                    i += 1;
                    assert(v@ =~= values@.take(i as int));
                }
                assert(values@.take(values@.len() as int) =~= values@);
                Ok(WriteCall::MultipleRegisters(addr, v))
            }
        },
        RegisterType::Coils => {
            Ok(WriteCall::SingleCoil(addr, values[0] != 0))
        },
        _ => Err(String::from_str("cannot write to read-only register type")),
    }
}

impl WriteCall {
    /// The log line after the write went through.
    pub fn done_message(&self) -> (r: String)
        ensures
            r@ == self.done_text(),
    {
        match self {
            WriteCall::SingleRegister(a, v) => {
                let mut s = concat("wrote register ", hex4(*a).as_str());
                s.append(" = ");
                s.append(to_decimal(*v as u64).as_str());
                s.append(" (");
                s.append(hex4(*v).as_str());
                s.append(")");
                s
            },
            WriteCall::MultipleRegisters(a, v) => {
                let mut s = concat("wrote ", to_decimal(v.len() as u64).as_str());
                s.append(" registers at ");
                s.append(hex4(*a).as_str());
                s.append(": [");
                s.append(hex_list(v.as_slice()).as_str());
                s.append("]");
                s
            },
            WriteCall::SingleCoil(a, b) => {
                let mut s = concat("wrote coil ", hex4(*a).as_str());
                s.append(" = ");
                s.append(if *b {
                    "true"
                } else {
                    "false"
                });
                assert(s@ =~= self.done_text());
                s
            },
        }
    }
}

// ---------------------------------------------------------------------------
// Packet log
// ---------------------------------------------------------------------------

/// The bytes as two upper-case hex digits each, separated by spaces.
pub open spec fn packet_text(data: Seq<u8>) -> Seq<char>
    decreases data.len(),
{
    if data.len() == 0 {
        Seq::empty()
    } else if data.len() == 1 {
        hex_chars(data[0] as nat, 2)
    } else {
        packet_text(data.drop_last()) + " "@ + hex_chars(data.last() as nat, 2)
    }
}

/// Renders the bytes of a packet as `{:02X}` separated by spaces.
pub fn packet_hex(data: &[u8]) -> (r: String)
    ensures
        r@ == packet_text(data@),
{
    let mut s = String::new();
    let mut i: usize = 0;
    assert(data@.take(0) =~= Seq::<u8>::empty());
    while i < data.len()
        invariant
            i <= data@.len(),
            s@ == packet_text(data@.take(i as int)),
        decreases data@.len() - i,
    {
        assert(data@.take(i + 1).drop_last() =~= data@.take(i as int));
        if i > 0 {
            s.append(" ");
        }
        push_hex(&mut s, data[i] as u64, 2);
        i += 1;
    }
    assert(data@.take(data@.len() as int) =~= data@);
    s
}

// ---------------------------------------------------------------------------
// Session steps
// ---------------------------------------------------------------------------

/// `t` is `s` with the connection status `c` and a line added to the log.
pub open spec fn status_logged(
    s: AppState,
    t: AppState,
    c: ConnectionStatus,
    level: LogLevel,
    line: Seq<char>,
) -> bool {
    &&& t == AppState { connection: c, log: t.log, ..s }
    &&& t.log.lines() == after_push(s.log.lines(), level, line)
}

/// What came back from reading one range.
#[derive(Clone, Debug)]
pub enum ReadData {
    Words(Vec<u16>),
    Bits(Vec<bool>),
}

impl ReadData {
    /// The values as registers (coils as 1 or 0).
    pub open spec fn words(self) -> Seq<u16> {
        match self {
            ReadData::Words(v) => v@,
            ReadData::Bits(b) => bits_as_words(b@),
        }
    }

    /// How many values came back.
    pub fn len(&self) -> (r: usize)
        ensures
            r == self.words().len(),
    {
        match self {
            ReadData::Words(v) => v.len(),
            ReadData::Bits(b) => b.len(),
        }
    }
}

/// The status after a failed connection attempt.
pub open spec fn connect_failed_text(err: Seq<char>) -> Seq<char> {
    "connect failed: "@ + err
}

impl AppState {
    /// Logs the start of the program and its target.
    pub fn log_startup(&mut self)
        ensures
            *final(self) == (AppState { log: final(self).log, ..*old(self) }),
            final(self).log.lines() == after_push(
                after_push(old(self).log.lines(), LogLevel::Info, "modbus-tui started"@),
                LogLevel::Info,
                "target "@ + old(self).config.host@ + ":"@ + dec_chars(
                    old(self).config.port as nat,
                ) + " unit="@ + dec_chars(old(self).config.unit as nat),
            ),
    {
        self.log.info("modbus-tui started");
        let mut line = concat("target ", self.config.host.as_str());
        line.append(":");
        line.append(to_decimal(self.config.port as u64).as_str());
        line.append(" unit=");
        line.append(to_decimal(self.config.unit as u64).as_str());
        self.log.info(line.as_str());
    }

    /// A connection attempt to `target` starts.
    pub fn begin_connect(&mut self, target: &str)
        ensures
            status_logged(
                *old(self),
                *final(self),
                ConnectionStatus::Connecting,
                LogLevel::Info,
                "connecting to "@ + target@ + " slave="@ + dec_chars(old(self).config.unit as nat),
            ),
    {
        self.connection = ConnectionStatus::Connecting;
        let mut line = concat("connecting to ", target);
        line.append(" slave=");
        line.append(to_decimal(self.config.unit as u64).as_str());
        self.log.info(line.as_str());
    }

    /// The connection is up.
    pub fn connected(&mut self)
        ensures
            status_logged(
                *old(self),
                *final(self),
                ConnectionStatus::Connected,
                LogLevel::Info,
                "connected"@,
            ),
    {
        self.connection = ConnectionStatus::Connected;
        self.log.info("connected");
    }

    /// The connection attempt failed with `err`.
    pub fn connect_failed(&mut self, err: &str)
        ensures
            final(self).connection matches ConnectionStatus::Error(m) && m@ == connect_failed_text(
                err@,
            ),
            status_logged(
                *old(self),
                *final(self),
                final(self).connection,
                LogLevel::Error,
                connect_failed_text(err@),
            ),
    {
        let msg = concat("connect failed: ", err);
        self.log.error(msg.as_str());
        self.connection = ConnectionStatus::Error(msg);
    }

    /// The target address `addr` could not be used (`err` says why).
    pub fn address_invalid(&mut self, addr: &str, err: &str)
        ensures
            final(self).connection matches ConnectionStatus::Error(m) && m@ == "invalid address \""@
                + addr@ + "\": "@ + err@,
            status_logged(
                *old(self),
                *final(self),
                final(self).connection,
                LogLevel::Error,
                "invalid address \""@ + addr@ + "\": "@ + err@,
            ),
    {
        let mut msg = concat("invalid address \"", addr);
        msg.append("\": ");
        msg.append(err);
        self.log.error(msg.as_str());
        self.connection = ConnectionStatus::Error(msg);
    }

    /// Stores what was read for tab `index` at its range's start address,
    /// at the current reading of the application clock.
    pub fn store_read(&mut self, index: usize, data: &ReadData)
        requires
            index < old(self).registers@.len(),
            index < old(self).config.ranges@.len(),
            old(self).config.ranges@[index as int].start + data.words().len() <= 0x10000,
        ensures
            *final(self) == (AppState { registers: final(self).registers, ..*old(self) }),
            final(self).registers@.len() == old(self).registers@.len(),
            forall|j: int|
                0 <= j < old(self).registers@.len() && j != index ==> #[trigger] final(self).registers@[j]
                    == old(self).registers@[j],
            exists|now: u64|
                #[trigger] stored(
                    old(self).registers@[index as int]@,
                    final(self).registers@[index as int]@,
                    old(self).config.ranges@[index as int].start,
                    data.words(),
                    now,
                ),
    {
        let now = self.clock_millis();
        let start = self.config.ranges[index].start;
        let ghost before = self.registers@;
        let mut m = self.registers.remove(index);
        match data {
            ReadData::Words(v) => store_word_values(&mut m, start, v.as_slice(), now),
            ReadData::Bits(b) => store_bool_values(&mut m, start, b.as_slice(), now),
        }
        let ghost m1 = m@;
        self.registers.insert(index, m);
        assert forall|j: int| 0 <= j < before.len() && j != index implies #[trigger] self.registers@[j]
            == before[j] by {
            if j < index {
            } else {
            }
        }
        assert(self.registers@[index as int]@ == m1);
        assert(stored(before[index as int]@, self.registers@[index as int]@, start, data.words(), now));
    }

    /// Shows a write that the server's own user made: tab `req.tab_index`
    /// holds the written values from `req.addr` upwards, a coil tab each as
    /// on (1) or off (0), read at the current reading of the application
    /// clock.
    pub fn show_local_write(&mut self, req: &WriteRequest)
        requires
            req.tab_index < old(self).registers@.len(),
            req.tab_index < old(self).config.ranges@.len(),
            req.addr + req.values@.len() <= 0x10000,
        ensures
            *final(self) == (AppState { registers: final(self).registers, ..*old(self) }),
            final(self).registers@.len() == old(self).registers@.len(),
            forall|j: int|
                0 <= j < old(self).registers@.len() && j != req.tab_index
                    ==> #[trigger] final(self).registers@[j] == old(self).registers@[j],
            exists|now: u64|
                #[trigger] stored(
                    old(self).registers@[req.tab_index as int]@,
                    final(self).registers@[req.tab_index as int]@,
                    req.addr,
                    shown_words(
                        old(self).config.ranges@[req.tab_index as int].reg_type.coil_like(),
                        req.values@,
                    ),
                    now,
                ),
    {
        let now = self.clock_millis();
        let index = req.tab_index;
        let coils = self.config.ranges[index].reg_type.is_coil_type();
        let ghost before = self.registers@;
        let mut m = self.registers.remove(index);
        if coils {
            let bits = words_to_bits(&req.values);
            store_bool_values(&mut m, req.addr, bits.as_slice(), now);
        } else {
            store_word_values(&mut m, req.addr, req.values.as_slice(), now);
        }
        let ghost m1 = m@;
        self.registers.insert(index, m);
        assert forall|j: int| 0 <= j < before.len() && j != index implies #[trigger] self.registers@[j]
            == before[j] by {
            if j < index {
            } else {
            }
        }
        assert(self.registers@[index as int]@ == m1);
        assert(stored(
            before[index as int]@,
            self.registers@[index as int]@,
            req.addr,
            shown_words(self.config.ranges@[index as int].reg_type.coil_like(), req.values@),
            now,
        ));
    }

    /// Reading tab `index` failed with `msg`.
    pub fn read_failed(&mut self, index: usize, msg: &str)
        requires
            old(self).wf(),
            index < old(self).config.ranges@.len(),
        ensures
            crate::event::logged(
                *old(self),
                *final(self),
                LogLevel::Error,
                old(self).config.ranges@[index as int].label_text(
                    old(self).config.start_reference,
                    AddrFormat::Hex,
                ) + ": "@ + msg@,
            ),
    {
        assert(self.config.keys()[index as int] == self.config.ranges@[index as int].key());
        assert(self.config.keys()[index as int].1 + self.config.start_reference <= 0xFFFF);
        let mut line = self.config.ranges[index].tab_label(self.config.start_reference, AddrFormat::Hex);
        line.append(": ");
        line.append(msg);
        self.log.error(line.as_str());
    }

    /// After a read error the connection is dropped and will be retried.
    pub fn connection_lost(&mut self)
        ensures
            *final(self) == (AppState { connection: final(self).connection, ..*old(self) }),
            final(self).connection matches ConnectionStatus::Error(m) && m@
                == "read error — will reconnect"@,
    {
        self.connection = ConnectionStatus::Error(String::from_str("read error — will reconnect"));
    }

    /// The table type a write request for tab `tab_index` goes to.
    pub fn write_target(&self, tab_index: usize) -> (r: Option<RegisterType>)
        ensures
            r == (if tab_index < self.config.ranges@.len() {
                Some(self.config.ranges@[tab_index as int].reg_type)
            } else {
                None
            }),
    {
        if tab_index < self.config.ranges.len() {
            Some(self.config.ranges[tab_index].reg_type)
        } else {
            None
        }
    }

    /// A write went through.
    pub fn write_done(&mut self, call: &WriteCall)
        ensures
            crate::event::logged(*old(self), *final(self), LogLevel::Info, call.done_text()),
    {
        let line = call.done_message();
        self.log.info(line.as_str());
    }

    /// A write failed with `msg`.
    pub fn write_failed(&mut self, msg: &str)
        ensures
            crate::event::logged(*old(self), *final(self), LogLevel::Error, "write failed: "@ + msg@),
    {
        let line = concat("write failed: ", msg);
        self.log.error(line.as_str());
    }

    /// The server listens on `addr`.
    pub fn server_listening(&mut self, addr: &str)
        ensures
            status_logged(
                *old(self),
                *final(self),
                ConnectionStatus::Connected,
                LogLevel::Info,
                "server listening on "@ + addr@,
            ),
    {
        self.connection = ConnectionStatus::Connected;
        let line = concat("server listening on ", addr);
        self.log.info(line.as_str());
    }

    /// The server's bind address `addr` could not be used (`err` says why).
    pub fn bind_address_invalid(&mut self, addr: &str, err: &str)
        ensures
            final(self).connection matches ConnectionStatus::Error(m) && m@
                == "invalid bind address \""@ + addr@ + "\": "@ + err@,
            status_logged(
                *old(self),
                *final(self),
                final(self).connection,
                LogLevel::Error,
                "invalid bind address \""@ + addr@ + "\": "@ + err@,
            ),
    {
        let mut msg = concat("invalid bind address \"", addr);
        msg.append("\": ");
        msg.append(err);
        self.log.error(msg.as_str());
        self.connection = ConnectionStatus::Error(msg);
    }

    /// Binding the server socket failed with `err`.
    pub fn bind_failed(&mut self, err: &str)
        ensures
            final(self).connection matches ConnectionStatus::Error(m) && m@ == "bind failed: "@
                + err@,
            status_logged(
                *old(self),
                *final(self),
                final(self).connection,
                LogLevel::Error,
                "bind failed: "@ + err@,
            ),
    {
        let msg = concat("bind failed: ", err);
        self.log.error(msg.as_str());
        self.connection = ConnectionStatus::Error(msg);
    }

    /// Logs the bytes of a packet sent (`outgoing`) or received.
    pub fn log_packet(&mut self, outgoing: bool, data: &[u8])
        ensures
            crate::event::logged(
                *old(self),
                *final(self),
                if outgoing {
                    LogLevel::PacketTx
                } else {
                    LogLevel::PacketRx
                },
                packet_text(data@),
            ),
    {
        let level = if outgoing {
            LogLevel::PacketTx
        } else {
            LogLevel::PacketRx
        };
        let line = packet_hex(data);
        self.log.push(level, line.as_str());
    }
}

} // verus!
