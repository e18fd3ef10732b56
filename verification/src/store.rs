//! The server's register store and its answers to Modbus requests.
use std::collections::HashMap;
use vstd::prelude::*;
use vstd::string::*;
use vstd::utf8::encode_utf8;
use crate::text::{
    concat, dec_chars, hex4, hex4_text, parse_u16, split_on, split_on_char, str_eq, to_decimal,
    u16_parse_spec,
};

verus! {

broadcast use vstd::std_specs::hash::group_hash_axioms;

/// Register data of the server.
#[derive(Debug, Clone)]
pub struct RegisterStore {
    pub coils: HashMap<u16, bool>,
    pub discrete_inputs: HashMap<u16, bool>,
    pub holding_registers: HashMap<u16, u16>,
    pub input_registers: HashMap<u16, u16>,
}

/// The value at `addr`, or `default` where nothing was stored.
pub open spec fn stored_or<V>(m: Map<u16, V>, addr: int, default: V) -> V {
    if m.contains_key(addr as u16) {
        m[addr as u16]
    } else {
        default
    }
}

/// `count` values read from `addr` upwards, missing ones as `default`.
pub open spec fn read_span<V>(m: Map<u16, V>, addr: u16, count: nat, default: V) -> Seq<V> {
    Seq::new(count, |i: int| stored_or(m, addr + i, default))
}

/// `m` with `vals` written from `addr` upwards.
pub open spec fn write_span<V>(m: Map<u16, V>, addr: u16, vals: Seq<V>) -> Map<u16, V>
    decreases vals.len(),
{
    if vals.len() == 0 {
        m
    } else {
        write_span(m, addr, vals.drop_last()).insert(
            (addr + vals.len() - 1) as u16,
            vals.last(),
        )
    }
}

/// The table and address a key of the initial values names ("hr:0",
/// "ir:100", "co:5", "di:0"), if it names one.
pub open spec fn initial_key(key: Seq<char>) -> Option<(crate::config::RegisterType, u16)> {
    let parts = split_on(key, ':');
    if parts.len() != 2 {
        None
    } else {
        match u16_parse_spec(encode_utf8(parts[1])) {
            Err(_) => None,
            Ok(addr) => if parts[0] == "hr"@ {
                Some((crate::config::RegisterType::HoldingRegisters, addr as u16))
            } else if parts[0] == "ir"@ {
                Some((crate::config::RegisterType::InputRegisters, addr as u16))
            } else if parts[0] == "co"@ {
                Some((crate::config::RegisterType::Coils, addr as u16))
            } else if parts[0] == "di"@ {
                Some((crate::config::RegisterType::DiscreteInputs, addr as u16))
            } else {
                None
            },
        }
    }
}

/// The initial contents of table `t`: for each entry in order whose key
/// names `t`, the value is stored at that address (a later entry for the
/// same address wins); entries with other keys are skipped.
pub open spec fn initial_table(values: Seq<(Seq<char>, u16)>, t: crate::config::RegisterType) -> Map<
    u16,
    u16,
>
    decreases values.len(),
{
    if values.len() == 0 {
        Map::empty()
    } else {
        let m = initial_table(values.drop_last(), t);
        match initial_key(values.last().0) {
            Some((kt, addr)) => if kt == t {
                m.insert(addr, values.last().1)
            } else {
                m
            },
            None => m,
        }
    }
}

/// The initial values as character sequences.
pub open spec fn initial_texts(values: Seq<(String, u16)>) -> Seq<(Seq<char>, u16)> {
    values.map_values(|e: (String, u16)| (e.0@, e.1))
}

/// A bit table holds `true` where the initial value is non-zero.
pub open spec fn as_bits(m: Map<u16, u16>) -> Map<u16, bool> {
    m.map_values(|v: u16| v != 0)
}

impl RegisterStore {
    /// An empty store.
    pub fn new() -> (r: RegisterStore)
        ensures
            r.coils@ == Map::<u16, bool>::empty(),
            r.discrete_inputs@ == Map::<u16, bool>::empty(),
            r.holding_registers@ == Map::<u16, u16>::empty(),
            r.input_registers@ == Map::<u16, u16>::empty(),
    {
        RegisterStore {
            coils: HashMap::new(),
            discrete_inputs: HashMap::new(),
            holding_registers: HashMap::new(),
            input_registers: HashMap::new(),
        }
    }

    /// Populate from the configuration's initial values. Keys are
    /// "type:address", e.g. "hr:0", "co:5", "ir:100", "di:0"; coils and
    /// discrete inputs are on when the value is non-zero.
    pub fn from_initial_values(values: &Vec<(String, u16)>) -> (r: RegisterStore)
        ensures
            r.holding_registers@ == initial_table(
                initial_texts(values@),
                crate::config::RegisterType::HoldingRegisters,
            ),
            r.input_registers@ == initial_table(
                initial_texts(values@),
                crate::config::RegisterType::InputRegisters,
            ),
            r.coils@ == as_bits(
                initial_table(initial_texts(values@), crate::config::RegisterType::Coils),
            ),
            r.discrete_inputs@ == as_bits(
                initial_table(initial_texts(values@), crate::config::RegisterType::DiscreteInputs),
            ),
    {
        let mut store = RegisterStore::new();
        let ghost texts = initial_texts(values@);
        let n = values.len();
        let mut i: usize = 0;
        assert(texts.take(0) =~= Seq::<(Seq<char>, u16)>::empty());
        assert(store.coils@ =~= as_bits(Map::<u16, u16>::empty()));
        assert(store.discrete_inputs@ =~= as_bits(Map::<u16, u16>::empty()));
        while i < n
            invariant
                i <= n,
                n == values@.len(),
                texts == initial_texts(values@),
                store.holding_registers@ == initial_table(
                    texts.take(i as int),
                    crate::config::RegisterType::HoldingRegisters,
                ),
                store.input_registers@ == initial_table(
                    texts.take(i as int),
                    crate::config::RegisterType::InputRegisters,
                ),
                store.coils@ == as_bits(
                    initial_table(texts.take(i as int), crate::config::RegisterType::Coils),
                ),
                store.discrete_inputs@ == as_bits(
                    initial_table(
                        texts.take(i as int),
                        crate::config::RegisterType::DiscreteInputs,
                    ),
                ),
            decreases n - i,
        {
            let key = values[i].0.as_str();
            let val = values[i].1;
            assert(texts.take(i + 1).drop_last() =~= texts.take(i as int));
            assert(texts.take(i + 1).last() == (key@, val));
            let parts = split_on_char(key, ':');
            if parts.len() == 2 {
                match parse_u16(parts[1].as_str()) {
                    Ok(addr) => {
                        let kind = parts[0].as_str();
                        if str_eq(kind, "hr") {
                            self::insert_u16(&mut store.holding_registers, addr, val);
                        } else if str_eq(kind, "ir") {
                            self::insert_u16(&mut store.input_registers, addr, val);
                        } else if str_eq(kind, "co") {
                            let ghost before = initial_table(
                                texts.take(i as int),
                                crate::config::RegisterType::Coils,
                            );
                            self::insert_bool(&mut store.coils, addr, val != 0);
                            assert(store.coils@ =~= as_bits(before.insert(addr, val)));
                        } else if str_eq(kind, "di") {
                            let ghost before = initial_table(
                                texts.take(i as int),
                                crate::config::RegisterType::DiscreteInputs,
                            );
                            self::insert_bool(&mut store.discrete_inputs, addr, val != 0);
                            assert(store.discrete_inputs@ =~= as_bits(before.insert(addr, val)));
                        }
                    },
                    Err(_) => {},
                }
            }
            i += 1;
        }
        assert(texts.take(n as int) =~= texts);
        store
    }
}

/// `count` values from `addr` upwards; addresses never written read as `default`.
fn read_table<V: Copy>(m: &HashMap<u16, V>, addr: u16, count: u16, default: V) -> (r: Vec<V>)
    requires
        addr + count <= 0x10000,
    ensures
        r@ == read_span(m@, addr, count as nat, default),
{
    let mut out: Vec<V> = Vec::new();
    let mut i: u16 = 0;
    while i < count
        invariant
            i <= count,
            addr + count <= 0x10000,
            out@ =~= read_span(m@, addr, i as nat, default),
        decreases count - i,
    {
        let a: u16 = addr + i;
        let v = match m.get(&a) {
            Some(x) => *x,
            None => default,
        };
        out.push(v);
        i += 1;
    }
    out
}

/// Writes `vals` from `addr` upwards.
fn write_table<V: Copy>(m: &mut HashMap<u16, V>, addr: u16, vals: &Vec<V>)
    requires
        addr + vals@.len() <= 0x10000,
    ensures
        final(m)@ == write_span(old(m)@, addr, vals@),
{
    let n = vals.len();
    let mut i: usize = 0;
    assert(vals@.take(0) =~= Seq::<V>::empty());
    while i < n
        invariant
            i <= n,
            n == vals@.len(),
            addr + n <= 0x10000,
            m@ == write_span(old(m)@, addr, vals@.take(i as int)),
        decreases n - i,
    {
        let a: u16 = addr + i as u16;
        assert(vals@.take(i + 1).drop_last() =~= vals@.take(i as int));
        m.insert(a, vals[i]);
        i += 1;
    }
    assert(vals@.take(n as int) =~= vals@);
}

impl RegisterStore {
    /// Coils from `addr` upwards; unset coils are off.
    pub fn read_coils(&self, addr: u16, count: u16) -> (r: Vec<bool>)
        requires
            addr + count <= 0x10000,
        ensures
            r@ == read_span(self.coils@, addr, count as nat, false),
    {
        read_table(&self.coils, addr, count, false)
    }

    /// Discrete inputs from `addr` upwards; unset inputs are off.
    pub fn read_discrete_inputs(&self, addr: u16, count: u16) -> (r: Vec<bool>)
        requires
            addr + count <= 0x10000,
        ensures
            r@ == read_span(self.discrete_inputs@, addr, count as nat, false),
    {
        read_table(&self.discrete_inputs, addr, count, false)
    }

    /// Holding registers from `addr` upwards; unset registers read 0.
    pub fn read_holding_registers(&self, addr: u16, count: u16) -> (r: Vec<u16>)
        requires
            addr + count <= 0x10000,
        ensures
            r@ == read_span(self.holding_registers@, addr, count as nat, 0u16),
    {
        read_table(&self.holding_registers, addr, count, 0u16)
    }

    /// Input registers from `addr` upwards; unset registers read 0.
    pub fn read_input_registers(&self, addr: u16, count: u16) -> (r: Vec<u16>)
        requires
            addr + count <= 0x10000,
        ensures
            r@ == read_span(self.input_registers@, addr, count as nat, 0u16),
    {
        read_table(&self.input_registers, addr, count, 0u16)
    }

    /// Writes `values` from `addr` upwards into the table of type `t`, as
    /// the server's own user does: a coil or input is on where its value
    /// is not 0.
    pub fn apply_write(&mut self, t: crate::config::RegisterType, addr: u16, values: &Vec<u16>)
        requires
            addr + values@.len() <= 0x10000,
        ensures
            final(self).coils@ == (if t == crate::config::RegisterType::Coils {
                write_span(old(self).coils@, addr, words_on(values@))
            } else {
                old(self).coils@
            }),
            final(self).discrete_inputs@ == (if t == crate::config::RegisterType::DiscreteInputs {
                write_span(old(self).discrete_inputs@, addr, words_on(values@))
            } else {
                old(self).discrete_inputs@
            }),
            final(self).holding_registers@ == (if t
                == crate::config::RegisterType::HoldingRegisters {
                write_span(old(self).holding_registers@, addr, values@)
            } else {
                old(self).holding_registers@
            }),
            final(self).input_registers@ == (if t == crate::config::RegisterType::InputRegisters {
                write_span(old(self).input_registers@, addr, values@)
            } else {
                old(self).input_registers@
            }),
    {
        match t {
            crate::config::RegisterType::Coils => {
                let bits = words_to_bits(values);
                write_table(&mut self.coils, addr, &bits);
            },
            crate::config::RegisterType::DiscreteInputs => {
                let bits = words_to_bits(values);
                write_table(&mut self.discrete_inputs, addr, &bits);
            },
            crate::config::RegisterType::HoldingRegisters => {
                write_table(&mut self.holding_registers, addr, values);
            },
            crate::config::RegisterType::InputRegisters => {
                write_table(&mut self.input_registers, addr, values);
            },
        }
    }
}

/// Each value as on (not 0) or off.
pub open spec fn words_on(vals: Seq<u16>) -> Seq<bool> {
    vals.map_values(|v: u16| v != 0)
}

/// Each value as on (not 0) or off.
pub fn words_to_bits(values: &Vec<u16>) -> (r: Vec<bool>)
    ensures
        r@ == words_on(values@),
{
    let mut out: Vec<bool> = Vec::new();
    let mut i: usize = 0;
    while i < values.len()
        invariant
            i <= values@.len(),
            out@ == words_on(values@.take(i as int)),
        decreases values@.len() - i,
    {
        out.push(values[i] != 0);
        assert(values@.take(i + 1) =~= values@.take(i as int).push(values@[i as int]));
        i += 1;
    }
    assert(values@.take(values@.len() as int) =~= values@);
    out
}

/// Reading back a span that was just written gives the written values.
pub proof fn lemma_read_after_write<V>(m: Map<u16, V>, addr: u16, vals: Seq<V>, default: V)
    requires
        addr + vals.len() <= 0x10000,
    ensures
        read_span(write_span(m, addr, vals), addr, vals.len(), default) == vals,
{
    lemma_write_span_contents(m, addr, vals);
    assert(read_span(write_span(m, addr, vals), addr, vals.len(), default) =~= vals);
}

/// What a written span holds: the written values inside it, the old
/// contents everywhere else.
pub proof fn lemma_write_span_contents<V>(m: Map<u16, V>, addr: u16, vals: Seq<V>)
    requires
        addr + vals.len() <= 0x10000,
    ensures
        forall|i: int|
            0 <= i < vals.len() ==> #[trigger] write_span(m, addr, vals).contains_key(
                (addr + i) as u16,
            ) && write_span(m, addr, vals)[(addr + i) as u16] == vals[i],
        forall|k: u16|
            !(addr <= k < addr + vals.len()) ==> (#[trigger] write_span(m, addr, vals).contains_key(
                k,
            ) == m.contains_key(k) && (m.contains_key(k) ==> write_span(m, addr, vals)[k]
                == m[k])),
    decreases vals.len(),
{
    if vals.len() > 0 {
        let prev = vals.drop_last();
        lemma_write_span_contents(m, addr, prev);
        assert forall|i: int| 0 <= i < vals.len() implies #[trigger] write_span(
            m,
            addr,
            vals,
        ).contains_key((addr + i) as u16) && write_span(m, addr, vals)[(addr + i) as u16]
            == vals[i] by {
            if i < prev.len() {
                assert(write_span(m, addr, prev).contains_key((addr + i) as u16));
                assert(prev[i] == vals[i]);
            }
        }
        assert forall|k: u16| !(addr <= k < addr + vals.len()) implies (#[trigger] write_span(
            m,
            addr,
            vals,
        ).contains_key(k) == m.contains_key(k) && (m.contains_key(k) ==> write_span(m, addr, vals)[k]
            == m[k])) by {
            assert(k != (addr + vals.len() - 1) as u16);
            assert(!(addr <= k < addr + prev.len()));
            assert(write_span(m, addr, prev).contains_key(k) == m.contains_key(k));
            assert(write_span(m, addr, vals) == write_span(m, addr, prev).insert(
                (addr + vals.len() - 1) as u16,
                vals.last(),
            ));
        }
    }
}

/// Reading a span leaves the store unchanged, and a write outside a read
/// span does not change what that read gives.
pub proof fn lemma_write_elsewhere<V>(
    m: Map<u16, V>,
    waddr: u16,
    vals: Seq<V>,
    raddr: u16,
    count: nat,
    default: V,
)
    requires
        waddr + vals.len() <= 0x10000,
        raddr + count <= 0x10000,
        raddr + count <= waddr || waddr + vals.len() <= raddr,
    ensures
        read_span(write_span(m, waddr, vals), raddr, count, default) == read_span(
            m,
            raddr,
            count,
            default,
        ),
{
    lemma_write_span_contents(m, waddr, vals);
    let a = read_span(write_span(m, waddr, vals), raddr, count, default);
    let b = read_span(m, raddr, count, default);
    assert forall|i: int| 0 <= i < count implies a[i] == b[i] by {
        let k = (raddr + i) as u16;
        assert(!(waddr <= k < waddr + vals.len()));
    }
    assert(a =~= b);
}

// ---------------------------------------------------------------------------
// Requests
// ---------------------------------------------------------------------------

/// A Modbus request as the server sees it.
#[derive(Clone, Debug)]
pub enum ModbusRequest {
    ReadCoils(u16, u16),
    ReadDiscreteInputs(u16, u16),
    ReadHoldingRegisters(u16, u16),
    ReadInputRegisters(u16, u16),
    WriteSingleCoil(u16, bool),
    WriteSingleRegister(u16, u16),
    WriteMultipleCoils(u16, Vec<bool>),
    WriteMultipleRegisters(u16, Vec<u16>),
    /// Any other function; the text names its function code.
    Other(String),
}

/// The server's answer to a request it serves.
#[derive(Clone, Debug)]
pub enum ModbusResponse {
    ReadCoils(Vec<bool>),
    ReadDiscreteInputs(Vec<bool>),
    ReadHoldingRegisters(Vec<u16>),
    ReadInputRegisters(Vec<u16>),
    WriteSingleCoil(u16, bool),
    WriteSingleRegister(u16, u16),
    WriteMultipleCoils(u16, u16),
    WriteMultipleRegisters(u16, u16),
}

/// The exception the server answers with.
#[derive(Clone, Copy, Debug, PartialEq, Eq, Structural)]
pub enum ServerException {
    IllegalFunction,
}

/// What the server reports to the application while serving.
#[derive(Clone, Debug)]
pub enum ServerEvent {
    Log(String),
    ClientConnected(String),
    ClientDisconnected(String),
    RequestCoils,
    RequestDiscreteInputs,
    RequestHoldingRegisters,
    RequestInputRegisters,
    RequestWrite,
    RequestOther,
}

/// Serves the requests of one connected client.
#[derive(Clone, Debug)]
pub struct ModbusService {
    /// The client's address as text.
    pub peer: String,
}

/// A request whose addresses stay inside the 16-bit address space.
pub open spec fn request_in_range(req: ModbusRequest) -> bool {
    match req {
        ModbusRequest::ReadCoils(a, c) => a + c <= 0x10000,
        ModbusRequest::ReadDiscreteInputs(a, c) => a + c <= 0x10000,
        ModbusRequest::ReadHoldingRegisters(a, c) => a + c <= 0x10000,
        ModbusRequest::ReadInputRegisters(a, c) => a + c <= 0x10000,
        ModbusRequest::WriteMultipleCoils(a, v) => a + v@.len() <= 0x10000,
        ModbusRequest::WriteMultipleRegisters(a, v) => a + v@.len() <= 0x10000,
        _ => true,
    }
}

/// The text of a `bool` (`true` / `false`).
pub open spec fn bool_text(b: bool) -> Seq<char> {
    if b {
        "true"@
    } else {
        "false"@
    }
}

/// One log line for a request: `[peer] OP addr=0x{:04X} KEY=VALUE`.
pub open spec fn request_line(
    peer: Seq<char>,
    op: Seq<char>,
    addr: u16,
    key: Seq<char>,
    value: Seq<char>,
) -> Seq<char> {
    "["@ + peer + "] "@ + op + " addr="@ + hex4_text(addr) + " "@ + key + "="@ + value
}

/// The log line the server writes for a request.
pub open spec fn request_log_text(peer: Seq<char>, req: ModbusRequest) -> Seq<char> {
    match req {
        ModbusRequest::ReadCoils(a, c) => request_line(
            peer,
            "ReadCoils"@,
            a,
            "count"@,
            dec_chars(c as nat),
        ),
        ModbusRequest::ReadDiscreteInputs(a, c) => request_line(
            peer,
            "ReadDiscreteInputs"@,
            a,
            "count"@,
            dec_chars(c as nat),
        ),
        ModbusRequest::ReadHoldingRegisters(a, c) => request_line(
            peer,
            "ReadHoldingRegisters"@,
            a,
            "count"@,
            dec_chars(c as nat),
        ),
        ModbusRequest::ReadInputRegisters(a, c) => request_line(
            peer,
            "ReadInputRegisters"@,
            a,
            "count"@,
            dec_chars(c as nat),
        ),
        ModbusRequest::WriteSingleCoil(a, v) => request_line(
            peer,
            "WriteSingleCoil"@,
            a,
            "value"@,
            bool_text(v),
        ),
        ModbusRequest::WriteSingleRegister(a, v) => request_line(
            peer,
            "WriteSingleRegister"@,
            a,
            "value"@,
            dec_chars(v as nat),
        ),
        ModbusRequest::WriteMultipleCoils(a, v) => request_line(
            peer,
            "WriteMultipleCoils"@,
            a,
            "count"@,
            dec_chars((v@.len() as u16) as nat),
        ),
        ModbusRequest::WriteMultipleRegisters(a, v) => request_line(
            peer,
            "WriteMultipleRegisters"@,
            a,
            "count"@,
            dec_chars((v@.len() as u16) as nat),
        ),
        ModbusRequest::Other(code) => "["@ + peer + "] unsupported function code "@ + code@,
    }
}

/// The counter event a request raises.
pub open spec fn request_kind(req: ModbusRequest) -> ServerEvent {
    match req {
        ModbusRequest::ReadCoils(..) => ServerEvent::RequestCoils,
        ModbusRequest::ReadDiscreteInputs(..) => ServerEvent::RequestDiscreteInputs,
        ModbusRequest::ReadHoldingRegisters(..) => ServerEvent::RequestHoldingRegisters,
        ModbusRequest::ReadInputRegisters(..) => ServerEvent::RequestInputRegisters,
        ModbusRequest::Other(..) => ServerEvent::RequestOther,
        _ => ServerEvent::RequestWrite,
    }
}

fn bool_str(b: bool) -> (r: &'static str)
    ensures
        r@ == bool_text(b),
{
    if b {
        "true"
    } else {
        "false"
    }
}

fn request_log(peer: &str, op: &str, addr: u16, key: &str, value: &str) -> (r: String)
    ensures
        r@ == request_line(peer@, op@, addr, key@, value@),
{
    let mut s = concat("[", peer);
    s.append("] ");
    s.append(op);
    s.append(" addr=");
    let a = hex4(addr);
    s.append(a.as_str());
    s.append(" ");
    s.append(key);
    s.append("=");
    s.append(value);
    s
}

impl ModbusService {
    /// Serves one request against the store. Returns the answer and the
    /// events to report: first the request's counter, then its log line.
    /// Writes change the addressed table only; reads change nothing; any
    /// other function is answered with `IllegalFunction`.
    pub fn handle_request(&self, store: &mut RegisterStore, req: ModbusRequest) -> (r: (
        Result<ModbusResponse, ServerException>,
        Vec<ServerEvent>,
    ))
        requires
            request_in_range(req),
        ensures
            r.1@.len() == 2,
            r.1@[0] == request_kind(req),
            r.1@[1] matches ServerEvent::Log(m) && m@ == request_log_text(self.peer@, req),
            match req {
                ModbusRequest::ReadCoils(a, c) => {
                    &&& r.0 matches Ok(ModbusResponse::ReadCoils(v))
                    &&& v@ == read_span(old(store).coils@, a, c as nat, false)
                    &&& *final(store) == *old(store)
                },
                ModbusRequest::ReadDiscreteInputs(a, c) => {
                    &&& r.0 matches Ok(ModbusResponse::ReadDiscreteInputs(v))
                    &&& v@ == read_span(old(store).discrete_inputs@, a, c as nat, false)
                    &&& *final(store) == *old(store)
                },
                ModbusRequest::ReadHoldingRegisters(a, c) => {
                    &&& r.0 matches Ok(ModbusResponse::ReadHoldingRegisters(v))
                    &&& v@ == read_span(old(store).holding_registers@, a, c as nat, 0u16)
                    &&& *final(store) == *old(store)
                },
                ModbusRequest::ReadInputRegisters(a, c) => {
                    &&& r.0 matches Ok(ModbusResponse::ReadInputRegisters(v))
                    &&& v@ == read_span(old(store).input_registers@, a, c as nat, 0u16)
                    &&& *final(store) == *old(store)
                },
                ModbusRequest::WriteSingleCoil(a, b) => {
                    &&& r.0 == Ok::<ModbusResponse, ServerException>(
                        ModbusResponse::WriteSingleCoil(a, b),
                    )
                    &&& final(store).coils@ == old(store).coils@.insert(a, b)
                    &&& final(store).discrete_inputs@ == old(store).discrete_inputs@
                    &&& final(store).holding_registers@ == old(store).holding_registers@
                    &&& final(store).input_registers@ == old(store).input_registers@
                },
                ModbusRequest::WriteSingleRegister(a, v) => {
                    &&& r.0 == Ok::<ModbusResponse, ServerException>(
                        ModbusResponse::WriteSingleRegister(a, v),
                    )
                    &&& final(store).holding_registers@ == old(store).holding_registers@.insert(
                        a,
                        v,
                    )
                    &&& final(store).coils@ == old(store).coils@
                    &&& final(store).discrete_inputs@ == old(store).discrete_inputs@
                    &&& final(store).input_registers@ == old(store).input_registers@
                },
                ModbusRequest::WriteMultipleCoils(a, vals) => {
                    &&& r.0 == Ok::<ModbusResponse, ServerException>(
                        ModbusResponse::WriteMultipleCoils(a, vals@.len() as u16),
                    )
                    &&& final(store).coils@ == write_span(old(store).coils@, a, vals@)
                    &&& final(store).discrete_inputs@ == old(store).discrete_inputs@
                    &&& final(store).holding_registers@ == old(store).holding_registers@
                    &&& final(store).input_registers@ == old(store).input_registers@
                },
                ModbusRequest::WriteMultipleRegisters(a, vals) => {
                    &&& r.0 == Ok::<ModbusResponse, ServerException>(
                        ModbusResponse::WriteMultipleRegisters(a, vals@.len() as u16),
                    )
                    &&& final(store).holding_registers@ == write_span(
                        old(store).holding_registers@,
                        a,
                        vals@,
                    )
                    &&& final(store).coils@ == old(store).coils@
                    &&& final(store).discrete_inputs@ == old(store).discrete_inputs@
                    &&& final(store).input_registers@ == old(store).input_registers@
                },
                ModbusRequest::Other(_) => {
                    &&& r.0 == Err::<ModbusResponse, ServerException>(
                        ServerException::IllegalFunction,
                    )
                    &&& *final(store) == *old(store)
                },
            },
    {
        let peer = self.peer.as_str();
        let mut events: Vec<ServerEvent> = Vec::new();
        match req {
            ModbusRequest::ReadCoils(addr, count) => {
                events.push(ServerEvent::RequestCoils);
                let c = to_decimal(count as u64);
                events.push(
                    ServerEvent::Log(request_log(peer, "ReadCoils", addr, "count", c.as_str())),
                );
                let values = store.read_coils(addr, count);
                (Ok(ModbusResponse::ReadCoils(values)), events)
            },
            ModbusRequest::ReadDiscreteInputs(addr, count) => {
                events.push(ServerEvent::RequestDiscreteInputs);
                let c = to_decimal(count as u64);
                events.push(
                    ServerEvent::Log(
                        request_log(peer, "ReadDiscreteInputs", addr, "count", c.as_str()),
                    ),
                );
                let values = store.read_discrete_inputs(addr, count);
                (Ok(ModbusResponse::ReadDiscreteInputs(values)), events)
            },
            ModbusRequest::ReadHoldingRegisters(addr, count) => {
                events.push(ServerEvent::RequestHoldingRegisters);
                let c = to_decimal(count as u64);
                events.push(
                    ServerEvent::Log(
                        request_log(peer, "ReadHoldingRegisters", addr, "count", c.as_str()),
                    ),
                );
                let values = store.read_holding_registers(addr, count);
                (Ok(ModbusResponse::ReadHoldingRegisters(values)), events)
            },
            ModbusRequest::ReadInputRegisters(addr, count) => {
                events.push(ServerEvent::RequestInputRegisters);
                let c = to_decimal(count as u64);
                events.push(
                    ServerEvent::Log(
                        request_log(peer, "ReadInputRegisters", addr, "count", c.as_str()),
                    ),
                );
                let values = store.read_input_registers(addr, count);
                (Ok(ModbusResponse::ReadInputRegisters(values)), events)
            },
            ModbusRequest::WriteSingleCoil(addr, value) => {
                events.push(ServerEvent::RequestWrite);
                events.push(
                    ServerEvent::Log(
                        request_log(peer, "WriteSingleCoil", addr, "value", bool_str(value)),
                    ),
                );
                self::insert_bool(&mut store.coils, addr, value);
                (Ok(ModbusResponse::WriteSingleCoil(addr, value)), events)
            },
            ModbusRequest::WriteSingleRegister(addr, value) => {
                events.push(ServerEvent::RequestWrite);
                let v = to_decimal(value as u64);
                events.push(
                    ServerEvent::Log(
                        request_log(peer, "WriteSingleRegister", addr, "value", v.as_str()),
                    ),
                );
                self::insert_u16(&mut store.holding_registers, addr, value);
                (Ok(ModbusResponse::WriteSingleRegister(addr, value)), events)
            },
            ModbusRequest::WriteMultipleCoils(addr, values) => {
                events.push(ServerEvent::RequestWrite);
                let count = values.len() as u16;
                let c = to_decimal(count as u64);
                events.push(
                    ServerEvent::Log(
                        request_log(peer, "WriteMultipleCoils", addr, "count", c.as_str()),
                    ),
                );
                write_table(&mut store.coils, addr, &values);
                (Ok(ModbusResponse::WriteMultipleCoils(addr, count)), events)
            },
            ModbusRequest::WriteMultipleRegisters(addr, values) => {
                events.push(ServerEvent::RequestWrite);
                let count = values.len() as u16;
                let c = to_decimal(count as u64);
                events.push(
                    ServerEvent::Log(
                        request_log(peer, "WriteMultipleRegisters", addr, "count", c.as_str()),
                    ),
                );
                write_table(&mut store.holding_registers, addr, &values);
                (Ok(ModbusResponse::WriteMultipleRegisters(addr, count)), events)
            },
            ModbusRequest::Other(code) => {
                events.push(ServerEvent::RequestOther);
                let mut line = concat("[", peer);
                line.append("] unsupported function code ");
                line.append(code.as_str());
                events.push(ServerEvent::Log(line));
                (Err(ServerException::IllegalFunction), events)
            },
        }
    }
}

fn insert_u16(m: &mut HashMap<u16, u16>, k: u16, v: u16)
    ensures
        final(m)@ == old(m)@.insert(k, v),
{
    m.insert(k, v);
}

fn insert_bool(m: &mut HashMap<u16, bool>, k: u16, v: bool)
    ensures
        final(m)@ == old(m)@.insert(k, v),
{
    m.insert(k, v);
}

} // verus!
