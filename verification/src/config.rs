//! Run configuration: register ranges from `START:COUNT[:FMT]` arguments,
//! command-line overrides of a loaded configuration, and validation.
use std::collections::BTreeMap;
use vstd::prelude::*;
use vstd::string::*;
use vstd::utf8::encode_utf8;
use crate::format::{format_of_code, unknown_format_text, NumFormat, WordSwap};
use crate::text::{
    concat, dec_chars, hex4, hex4_text, num_error_text, parse_u16, push_decimal, split_on,
    split_on_char, str_eq, to_decimal, u16_parse_spec, NumError,
};

verus! {

/// Run as a Modbus client (polling a device) or as a server.
#[derive(Clone, Copy, Debug, PartialEq, Eq, Structural)]
pub enum Mode {
    Client,
    Server,
}

/// The four Modbus register tables.
#[derive(Clone, Copy, Debug, PartialEq, Eq, Structural)]
pub enum RegisterType {
    Coils,
    DiscreteInputs,
    HoldingRegisters,
    InputRegisters,
}

/// How addresses are shown: `0x` hexadecimal or decimal.
#[derive(Clone, Copy, Debug, PartialEq, Eq, Structural)]
pub enum AddrFormat {
    Hex,
    Decimal,
}

impl Default for AddrFormat {
    fn default() -> (r: Self)
        ensures
            r == AddrFormat::Hex,
    {
        AddrFormat::Hex
    }
}

impl RegisterType {
    /// Single-bit tables (coils and discrete inputs).
    pub open spec fn coil_like(self) -> bool {
        self is Coils || self is DiscreteInputs
    }

    /// Tables a Modbus client may write (coils and holding registers).
    pub open spec fn client_writable(self) -> bool {
        self is Coils || self is HoldingRegisters
    }

    /// The display name of the table.
    pub open spec fn name_text(self) -> Seq<char> {
        match self {
            RegisterType::Coils => "Coils"@,
            RegisterType::DiscreteInputs => "Discrete Inputs"@,
            RegisterType::HoldingRegisters => "Holding Registers"@,
            RegisterType::InputRegisters => "Input Registers"@,
        }
    }

    pub fn is_coil_type(self) -> (r: bool)
        ensures
            r == self.coil_like(),
    {
        match self {
            RegisterType::Coils | RegisterType::DiscreteInputs => true,
            _ => false,
        }
    }

    pub fn is_writable(self) -> (r: bool)
        ensures
            r == self.client_writable(),
    {
        match self {
            RegisterType::Coils | RegisterType::HoldingRegisters => true,
            _ => false,
        }
    }

    /// The display name of the table.
    pub fn name(self) -> (r: &'static str)
        ensures
            r@ == self.name_text(),
    {
        match self {
            RegisterType::Coils => "Coils",
            RegisterType::DiscreteInputs => "Discrete Inputs",
            RegisterType::HoldingRegisters => "Holding Registers",
            RegisterType::InputRegisters => "Input Registers",
        }
    }
}

/// An address as shown: `0x{:04X}` or decimal.
pub open spec fn addr_text(addr: u16, fmt: AddrFormat) -> Seq<char> {
    match fmt {
        AddrFormat::Hex => hex4_text(addr),
        AddrFormat::Decimal => dec_chars(addr as nat),
    }
}

/// Renders an address in the given format.
pub fn format_addr(addr: u16, fmt: AddrFormat) -> (r: String)
    ensures
        r@ == addr_text(addr, fmt),
{
    match fmt {
        AddrFormat::Hex => hex4(addr),
        AddrFormat::Decimal => to_decimal(addr as u64),
    }
}

/// A register range to poll and show in one pane.
#[derive(Clone, Debug)]
pub struct PollRange {
    pub reg_type: RegisterType,
    /// Protocol (0-based) start address.
    pub start: u16,
    pub count: u16,
    /// Optional initial numeric format for the pane (word registers only).
    pub initial_format: Option<NumFormat>,
    /// Register labels by protocol address.
    pub labels: BTreeMap<u16, String>,
}

impl PollRange {
    /// Tab label: table name and the user-facing start address.
    pub open spec fn label_text(self, start_reference: u16, fmt: AddrFormat) -> Seq<char> {
        self.reg_type.name_text() + " @"@ + addr_text((self.start + start_reference) as u16, fmt)
    }

    /// Tab display label using the user-facing address (protocol address
    /// plus `start_reference`) in the given address format.
    pub fn tab_label(&self, start_reference: u16, addr_format: AddrFormat) -> (r: String)
        requires
            self.start + start_reference <= 0xFFFF,
        ensures
            r@ == self.label_text(start_reference, addr_format),
    {
        let display_start = self.start + start_reference;
        let mut s = concat(self.reg_type.name(), " @");
        let a = format_addr(display_start, addr_format);
        s.append(a.as_str());
        s
    }
}

/// Validated application configuration.
#[derive(Clone, Debug)]
pub struct AppConfig {
    pub mode: Mode,
    pub host: String,
    pub port: u16,
    pub unit: u8,
    /// Ordered register ranges to poll / show as panes; `start` is the
    /// protocol address.
    pub ranges: Vec<PollRange>,
    pub poll_interval_ms: u64,
    /// 0 = zero-based addressing, 1 = one-based addressing; user-facing
    /// addresses are protocol addresses plus this.
    pub start_reference: u16,
    /// Word-swap multi-register integers.
    pub swap_ints: bool,
    /// Word-swap multi-register floats.
    pub swap_floats: bool,
    /// Byte-swap every register.
    pub swap_bytes: bool,
    /// Hide the raw hex column.
    pub hide_hex: bool,
    /// Show addresses in decimal in every pane.
    pub decimal_addresses: bool,
    /// Server mode: initial values keyed by "type:address" (e.g. "hr:0"),
    /// each key once (see `initial_keys_distinct`).
    pub initial_values: Vec<(String, u16)>,
}

/// No two initial values have the same key, as in the configuration file's
/// map of initial values.
pub open spec fn initial_keys_distinct(values: Seq<(String, u16)>) -> bool {
    forall|i: int, j: int| 0 <= i < j < values.len() ==> values[i].0@ != values[j].0@
}

/// Command-line arguments. The `*_given` flags record which options were
/// written on the command line (the others hold their defaults).
#[derive(Clone, Debug)]
pub struct Cli {
    pub mode: Mode,
    pub host: String,
    pub port: u16,
    pub unit: u8,
    pub coils: Vec<String>,
    pub discrete_inputs: Vec<String>,
    pub holding_registers: Vec<String>,
    pub input_registers: Vec<String>,
    pub start_reference: u16,
    pub swap_ints: bool,
    pub swap_floats: bool,
    pub swap_bytes: bool,
    pub no_hex: bool,
    pub poll_interval: u64,
    pub decimal_addresses: bool,
    pub config: Option<String>,
    pub mode_given: bool,
    pub host_given: bool,
    pub port_given: bool,
    pub unit_given: bool,
    pub poll_interval_given: bool,
}

// ---------------------------------------------------------------------------
// Range arguments
// ---------------------------------------------------------------------------

/// An error in the configuration: what went wrong, and, where a lower-level
/// error caused it, the text of that error.
#[derive(Clone, Debug, PartialEq, Eq)]
pub struct ConfigError {
    pub message: String,
    pub cause: Option<String>,
}

/// The text of an error: its message and the text of its cause, if any.
pub type ErrorText = (Seq<char>, Option<Seq<char>>);

impl ConfigError {
    /// Message and cause as text.
    pub open spec fn text(self) -> ErrorText {
        (
            self.message@,
            match self.cause {
                Some(c) => Some(c@),
                None => None,
            },
        )
    }
}

/// An error of its own, with no cause.
fn plain_error(message: String) -> (r: ConfigError)
    ensures
        r.text() == (message@, None::<Seq<char>>),
{
    ConfigError { message, cause: None }
}

/// Start and count from the two fields of a range argument.
pub open spec fn range_fields_spec(p0: Seq<char>, p1: Seq<char>, name: Seq<char>) -> Result<
    (u16, u16),
    ErrorText,
> {
    match u16_parse_spec(encode_utf8(p0)) {
        Err(e) => Err((name + ": invalid start address \""@ + p0 + "\""@, Some(num_error_text(e)))),
        Ok(start) => match u16_parse_spec(encode_utf8(p1)) {
            Err(e) => Err((name + ": invalid count \""@ + p1 + "\""@, Some(num_error_text(e)))),
            Ok(count) => Ok((start as u16, count as u16)),
        },
    }
}

/// "START:COUNT" read as (start, count); start is the user-facing address.
pub open spec fn parse_range_spec(s: Seq<char>, name: Seq<char>) -> Result<(u16, u16), ErrorText> {
    let parts = split_on(s, ':');
    if parts.len() != 2 {
        Err((name + ": expected format START:COUNT, got \""@ + s + "\""@, None))
    } else {
        range_fields_spec(parts[0], parts[1], name)
    }
}

/// "START:COUNT" or "START:COUNT:FMT" read as (start, count, format).
pub open spec fn parse_range_with_format_spec(s: Seq<char>, name: Seq<char>) -> Result<
    (u16, u16, Option<NumFormat>),
    ErrorText,
> {
    let parts = split_on(s, ':');
    if parts.len() == 2 {
        match range_fields_spec(parts[0], parts[1], name) {
            Ok((a, c)) => Ok((a, c, None)),
            Err(e) => Err(e),
        }
    } else if parts.len() == 3 {
        match range_fields_spec(parts[0], parts[1], name) {
            Err(e) => Err(e),
            Ok((a, c)) => match format_of_code(parts[2]) {
                Some(nf) => Ok((a, c, Some(nf))),
                None => Err((name + ": "@ + unknown_format_text(parts[2]), None)),
            },
        }
    } else {
        Err((name + ": expected format START:COUNT[:FMT], got \""@ + s + "\""@, None))
    }
}

/// The user-facing address converted to a protocol address.
pub open spec fn user_to_protocol_spec(user_addr: u16, start_reference: u16, name: Seq<char>) -> Result<
    u16,
    Seq<char>,
> {
    if user_addr < start_reference {
        Err(
            name + ": address "@ + dec_chars(user_addr as nat) + " is below start reference "@
                + dec_chars(start_reference as nat),
        )
    } else {
        Ok((user_addr - start_reference) as u16)
    }
}

fn range_fields(p0: &str, p1: &str, name: &str) -> (r: Result<(u16, u16), ConfigError>)
    ensures
        match r {
            Ok(v) => range_fields_spec(p0@, p1@, name@) == Ok::<(u16, u16), ErrorText>(v),
            Err(e) => range_fields_spec(p0@, p1@, name@) == Err::<(u16, u16), ErrorText>(e.text()),
        },
{
    let start = match parse_u16(p0) {
        Ok(v) => v,
        Err(e) => {
            let mut m = concat(name, ": invalid start address \"");
            m.append(p0);
            m.append("\"");
            return Err(ConfigError { message: m, cause: Some(e.message()) });
        },
    };
    let count = match parse_u16(p1) {
        Ok(v) => v,
        Err(e) => {
            let mut m = concat(name, ": invalid count \"");
            m.append(p1);
            m.append("\"");
            return Err(ConfigError { message: m, cause: Some(e.message()) });
        },
    };
    Ok((start, count))
}

/// Parse "START:COUNT" into (start, count). Start is the user-facing address.
pub fn parse_range(s: &str, name: &str) -> (r: Result<(u16, u16), ConfigError>)
    ensures
        match r {
            Ok(v) => parse_range_spec(s@, name@) == Ok::<(u16, u16), ErrorText>(v),
            Err(e) => parse_range_spec(s@, name@) == Err::<(u16, u16), ErrorText>(e.text()),
        },
{
    let parts = split_on_char(s, ':');
    if parts.len() != 2 {
        let mut m = concat(name, ": expected format START:COUNT, got \"");
        m.append(s);
        m.append("\"");
        return Err(plain_error(m));
    }
    range_fields(parts[0].as_str(), parts[1].as_str(), name)
}

/// Parse "START:COUNT" or "START:COUNT:FMT" where FMT is a format code.
pub fn parse_range_with_format(s: &str, name: &str) -> (r: Result<
    (u16, u16, Option<NumFormat>),
    ConfigError,
>)
    ensures
        match r {
            Ok(v) => parse_range_with_format_spec(s@, name@) == Ok::<
                (u16, u16, Option<NumFormat>),
                ErrorText,
            >(v),
            Err(e) => parse_range_with_format_spec(s@, name@) == Err::<
                (u16, u16, Option<NumFormat>),
                ErrorText,
            >(e.text()),
        },
{
    let parts = split_on_char(s, ':');
    if parts.len() == 2 {
        match range_fields(parts[0].as_str(), parts[1].as_str(), name) {
            Ok((a, c)) => Ok((a, c, None)),
            Err(e) => Err(e),
        }
    } else if parts.len() == 3 {
        let (a, c) = match range_fields(parts[0].as_str(), parts[1].as_str(), name) {
            Ok(v) => v,
            Err(e) => {
                return Err(e);
            },
        };
        match NumFormat::from_code(parts[2].as_str()) {
            Ok(nf) => Ok((a, c, Some(nf))),
            Err(e) => {
                let mut m = concat(name, ": ");
                m.append(e.as_str());
                Err(plain_error(m))
            },
        }
    } else {
        let mut m = concat(name, ": expected format START:COUNT[:FMT], got \"");
        m.append(s);
        m.append("\"");
        Err(plain_error(m))
    }
}

/// Convert a user-facing address to a protocol address by subtracting
/// `start_reference`.
pub fn user_to_protocol(user_addr: u16, start_reference: u16, name: &str) -> (r: Result<
    u16,
    String,
>)
    ensures
        match r {
            Ok(v) => user_to_protocol_spec(user_addr, start_reference, name@) == Ok::<
                u16,
                Seq<char>,
            >(v),
            Err(e) => user_to_protocol_spec(user_addr, start_reference, name@) == Err::<
                u16,
                Seq<char>,
            >(e@),
        },
{
    if user_addr < start_reference {
        let mut m = concat(name, ": address ");
        push_decimal(&mut m, user_addr as u64);
        m.append(" is below start reference ");
        push_decimal(&mut m, start_reference as u64);
        return Err(m);
    }
    Ok(user_addr - start_reference)
}


// ---------------------------------------------------------------------------
// Validation
// ---------------------------------------------------------------------------

/// What validation reads of a range: table, start, count, initial format.
pub type RangeKey = (RegisterType, u16, u16, Option<NumFormat>);

impl PollRange {
    /// Table, start, count and initial format of this range.
    pub open spec fn key(self) -> RangeKey {
        (self.reg_type, self.start, self.count, self.initial_format)
    }
}

/// Tab label of a range given by its key.
pub open spec fn key_label_text(k: RangeKey, start_reference: u16, fmt: AddrFormat) -> Seq<char> {
    k.0.name_text() + " @"@ + addr_text((k.1 + start_reference) as u16, fmt)
}

/// The problem with range `i`, if any: an empty range, or one that runs past
/// the 65536-address space.
pub open spec fn range_error(i: nat, k: RangeKey, start_reference: u16) -> Option<Seq<char>> {
    let label = "range["@ + dec_chars(i) + "] ("@ + key_label_text(k, start_reference, AddrFormat::Hex)
        + ")"@;
    if k.2 == 0 {
        Some(label + ": count must be > 0"@)
    } else if k.1 + k.2 > 65536 {
        Some(
            label + ": start ("@ + dec_chars(k.1 as nat) + ") + count ("@ + dec_chars(k.2 as nat)
                + ") exceeds address space (max 65536)"@,
        )
    } else {
        None
    }
}

/// The first problem among the first `n` ranges, if any.
pub open spec fn first_range_error(keys: Seq<RangeKey>, start_reference: u16, n: nat) -> Option<
    Seq<char>,
>
    decreases n,
{
    if n == 0 {
        None
    } else {
        match first_range_error(keys, start_reference, (n - 1) as nat) {
            Some(e) => Some(e),
            None => range_error((n - 1) as nat, keys[n - 1], start_reference),
        }
    }
}

/// The first problem with a configuration, if any: port 0, a unit id above
/// 247, a poll interval outside 10..=60000 ms, then the ranges in order.
pub open spec fn validation_error(
    port: u16,
    unit: u8,
    poll_interval_ms: u64,
    keys: Seq<RangeKey>,
    start_reference: u16,
) -> Option<Seq<char>> {
    if port == 0 {
        Some("port must be in range 1..65535"@)
    } else if unit > 247 {
        Some("unit id must be in range 0..247, got "@ + dec_chars(unit as nat))
    } else if poll_interval_ms < 10 || poll_interval_ms > 60_000 {
        Some(
            "poll interval must be between 10 and 60000 ms, got "@ + dec_chars(
                poll_interval_ms as nat,
            ),
        )
    } else {
        first_range_error(keys, start_reference, keys.len())
    }
}

/// Whether every range's user-facing start address fits in 16 bits.
pub open spec fn labels_fit(keys: Seq<RangeKey>, start_reference: u16) -> bool {
    forall|i: int| 0 <= i < keys.len() ==> #[trigger] keys[i].1 + start_reference <= 0xFFFF
}

impl AppConfig {
    /// Keys of the configured ranges, in order.
    pub open spec fn keys(self) -> Seq<RangeKey> {
        self.ranges@.map_values(|r: PollRange| r.key())
    }

    /// The first problem with this configuration, if any.
    pub open spec fn problem(self) -> Option<Seq<char>> {
        validation_error(
            self.port,
            self.unit,
            self.poll_interval_ms,
            self.keys(),
            self.start_reference,
        )
    }

    /// Whether every range's user-facing start address (protocol start plus
    /// the start reference) is a 16-bit address, so that its tab can be
    /// labelled.
    pub fn tab_labels_fit(&self) -> (r: bool)
        ensures
            r == labels_fit(self.keys(), self.start_reference),
    {
        let n = self.ranges.len();
        let mut i: usize = 0;
        while i < n
            invariant
                i <= n,
                n == self.ranges@.len(),
                forall|j: int| 0 <= j < i ==> #[trigger] self.keys()[j].1 + self.start_reference
                    <= 0xFFFF,
            decreases n - i,
        {
            assert(self.keys()[i as int] == self.ranges@[i as int].key());
            if self.ranges[i].start > 0xFFFF - self.start_reference {
                assert(!(self.keys()[i as int].1 + self.start_reference <= 0xFFFF));
                return false;
            }
            i += 1;
        }
        true
    }

    /// The swap settings for register conversions.
    pub fn word_swap(&self) -> (r: WordSwap)
        ensures
            r == (WordSwap {
                ints: self.swap_ints,
                floats: self.swap_floats,
                words: false,
                bytes: self.swap_bytes,
            }),
    {
        WordSwap { ints: self.swap_ints, floats: self.swap_floats, words: false, bytes: self.swap_bytes }
    }

    /// Checks the port, unit id, poll interval and every range; the error
    /// is the message for the first problem found.
    pub fn validate(&self) -> (r: Result<(), String>)
        requires
            labels_fit(self.keys(), self.start_reference),
        ensures
            match r {
                Ok(()) => self.problem() is None,
                Err(e) => self.problem() == Some(e@),
            },
    {
        if self.port == 0 {
            return Err(String::from_str("port must be in range 1..65535"));
        }
        if self.unit > 247 {
            let mut m = String::from_str("unit id must be in range 0..247, got ");
            push_decimal(&mut m, self.unit as u64);
            return Err(m);
        }
        if self.poll_interval_ms < 10 || self.poll_interval_ms > 60_000 {
            let mut m = String::from_str("poll interval must be between 10 and 60000 ms, got ");
            push_decimal(&mut m, self.poll_interval_ms);
            return Err(m);
        }
        let ghost keys = self.keys();
        let n = self.ranges.len();
        let mut i: usize = 0;
        while i < n
            invariant
                i <= n,
                n == self.ranges@.len(),
                keys == self.keys(),
                keys.len() == n,
                self.port != 0 && self.unit <= 247 && 10 <= self.poll_interval_ms <= 60_000,
                labels_fit(keys, self.start_reference),
                first_range_error(keys, self.start_reference, i as nat) is None,
            decreases n - i,
        {
            let r = &self.ranges[i];
            assert(keys[i as int] == r.key());
            if r.count == 0 || (r.start as u32) + (r.count as u32) > 65536 {
                let mut m = String::from_str("range[");
                push_decimal(&mut m, i as u64);
                m.append("] (");
                let label = r.tab_label(self.start_reference, AddrFormat::Hex);
                m.append(label.as_str());
                m.append(")");
                if r.count == 0 {
                    m.append(": count must be > 0");
                } else {
                    m.append(": start (");
                    push_decimal(&mut m, r.start as u64);
                    m.append(") + count (");
                    push_decimal(&mut m, r.count as u64);
                    m.append(") exceeds address space (max 65536)");
                }
                assert(first_range_error(keys, self.start_reference, (i + 1) as nat) == Some(m@));
                proof {
                    lemma_first_error_stays(keys, self.start_reference, (i + 1) as nat, n as nat);
                }
                return Err(m);
            }
            i += 1;
        }
        Ok(())
    }
}

/// Once a problem is found among the first `a` ranges, it stays the first
/// problem among any longer prefix.
proof fn lemma_first_error_stays(keys: Seq<RangeKey>, start_reference: u16, a: nat, b: nat)
    requires
        a <= b,
        first_range_error(keys, start_reference, a) is Some,
    ensures
        first_range_error(keys, start_reference, b) == first_range_error(keys, start_reference, a),
    decreases b - a,
{
    if a < b {
        lemma_first_error_stays(keys, start_reference, a, (b - 1) as nat);
    }
}

// ---------------------------------------------------------------------------
// Building a configuration from the command line
// ---------------------------------------------------------------------------

/// The register table a command-line flag names, if it names one.
pub open spec fn flag_kind(a: Seq<char>) -> Option<RegisterType> {
    if a == "--coils"@ || a == "--co"@ {
        Some(RegisterType::Coils)
    } else if a == "--discrete-inputs"@ || a == "--di"@ {
        Some(RegisterType::DiscreteInputs)
    } else if a == "--holding-registers"@ || a == "--hr"@ {
        Some(RegisterType::HoldingRegisters)
    } else if a == "--input-registers"@ || a == "--ir"@ {
        Some(RegisterType::InputRegisters)
    } else {
        None
    }
}

/// How many of `args` are flags naming table `t`.
pub open spec fn count_kind(args: Seq<Seq<char>>, t: RegisterType) -> nat
    decreases args.len(),
{
    if args.len() == 0 {
        0
    } else {
        count_kind(args.drop_last(), t) + if flag_kind(args.last()) == Some(t) {
            1nat
        } else {
            0nat
        }
    }
}

/// The name of a table in messages about its range arguments.
pub open spec fn flag_name(t: RegisterType) -> Seq<char> {
    match t {
        RegisterType::Coils => "coils"@,
        RegisterType::DiscreteInputs => "discrete-inputs"@,
        RegisterType::HoldingRegisters => "holding-registers"@,
        RegisterType::InputRegisters => "input-registers"@,
    }
}

/// The short flag of a table: two letters after `--`.
pub open spec fn short_flag(t: RegisterType) -> Seq<char> {
    match t {
        RegisterType::Coils => "--co"@,
        RegisterType::DiscreteInputs => "--di"@,
        RegisterType::HoldingRegisters => "--hr"@,
        RegisterType::InputRegisters => "--ir"@,
    }
}

/// Every table is named on the command line by its long flag (`--` and the
/// name its messages use) and by its short flag, and by nothing else.
pub proof fn lemma_flags_name_their_tables(t: RegisterType, a: Seq<char>)
    ensures
        flag_kind("--"@ + flag_name(t)) == Some(t),
        flag_kind(short_flag(t)) == Some(t),
        flag_kind(a) == Some(t) <==> (a == "--"@ + flag_name(t) || a == short_flag(t)),
{
    reveal_strlit("--");
    reveal_strlit("coils");
    reveal_strlit("discrete-inputs");
    reveal_strlit("holding-registers");
    reveal_strlit("input-registers");
    reveal_strlit("--coils");
    reveal_strlit("--discrete-inputs");
    reveal_strlit("--holding-registers");
    reveal_strlit("--input-registers");
    reveal_strlit("--co");
    reveal_strlit("--di");
    reveal_strlit("--hr");
    reveal_strlit("--ir");
    assert("--"@ + "coils"@ =~= "--coils"@);
    assert("--"@ + "discrete-inputs"@ =~= "--discrete-inputs"@);
    assert("--"@ + "holding-registers"@ =~= "--holding-registers"@);
    assert("--"@ + "input-registers"@ =~= "--input-registers"@);
    let flags = seq![
        "--coils"@,
        "--co"@,
        "--discrete-inputs"@,
        "--di"@,
        "--holding-registers"@,
        "--hr"@,
        "--input-registers"@,
        "--ir"@,
    ];
    assert forall|i: int, j: int| 0 <= i < j < 8 implies flags[i] != flags[j] by {
        if flags[i].len() == flags[j].len() {
            assert(flags[i][2] != flags[j][2] || flags[i][3] != flags[j][3]);
        }
    }
}

/// The range that argument `text` of table `t` describes: coils and discrete
/// inputs take "START:COUNT", register tables also ":FMT"; the start is
/// converted from a user-facing to a protocol address.
pub open spec fn range_entry_spec(t: RegisterType, text: Seq<char>, start_reference: u16) -> Result<
    RangeKey,
    ErrorText,
> {
    if t.coil_like() {
        match parse_range_spec(text, flag_name(t)) {
            Err(e) => Err(e),
            Ok((u, c)) => match user_to_protocol_spec(u, start_reference, flag_name(t)) {
                Err(e) => Err((e, None)),
                Ok(st) => Ok((t, st, c, None)),
            },
        }
    } else {
        match parse_range_with_format_spec(text, flag_name(t)) {
            Err(e) => Err(e),
            Ok((u, c, f)) => match user_to_protocol_spec(u, start_reference, flag_name(t)) {
                Err(e) => Err((e, None)),
                Ok(st) => Ok((t, st, c, f)),
            },
        }
    }
}

impl Cli {
    /// The range arguments given for table `t`.
    pub open spec fn args_for(self, t: RegisterType) -> Seq<String> {
        match t {
            RegisterType::Coils => self.coils@,
            RegisterType::DiscreteInputs => self.discrete_inputs@,
            RegisterType::HoldingRegisters => self.holding_registers@,
            RegisterType::InputRegisters => self.input_registers@,
        }
    }
}

/// The ranges in command-line order: the raw arguments are scanned, and the
/// n-th flag naming a table takes that table's n-th range argument (if
/// there is one). The first bad range argument stops the scan.
pub open spec fn scan_ranges(args: Seq<Seq<char>>, cli: Cli) -> Result<Seq<RangeKey>, ErrorText>
    decreases args.len(),
{
    if args.len() == 0 {
        Ok(Seq::empty())
    } else {
        match scan_ranges(args.drop_last(), cli) {
            Err(e) => Err(e),
            Ok(prev) => match flag_kind(args.last()) {
                None => Ok(prev),
                Some(t) => {
                    let idx = count_kind(args.drop_last(), t);
                    if idx < cli.args_for(t).len() {
                        match range_entry_spec(t, cli.args_for(t)[idx as int]@, cli.start_reference) {
                            Ok(k) => Ok(prev.push(k)),
                            Err(e) => Err(e),
                        }
                    } else {
                        Ok(prev)
                    }
                },
            },
        }
    }
}

fn flag_kind_of(a: &str) -> (r: Option<RegisterType>)
    ensures
        r == flag_kind(a@),
{
    if str_eq(a, "--coils") || str_eq(a, "--co") {
        Some(RegisterType::Coils)
    } else if str_eq(a, "--discrete-inputs") || str_eq(a, "--di") {
        Some(RegisterType::DiscreteInputs)
    } else if str_eq(a, "--holding-registers") || str_eq(a, "--hr") {
        Some(RegisterType::HoldingRegisters)
    } else if str_eq(a, "--input-registers") || str_eq(a, "--ir") {
        Some(RegisterType::InputRegisters)
    } else {
        None
    }
}

fn flag_name_of(t: RegisterType) -> (r: &'static str)
    ensures
        r@ == flag_name(t),
{
    match t {
        RegisterType::Coils => "coils",
        RegisterType::DiscreteInputs => "discrete-inputs",
        RegisterType::HoldingRegisters => "holding-registers",
        RegisterType::InputRegisters => "input-registers",
    }
}

/// The range that one range argument of table `t` describes.
fn range_entry(t: RegisterType, text: &str, start_reference: u16) -> (r: Result<PollRange, ConfigError>)
    ensures
        match r {
            Ok(p) => range_entry_spec(t, text@, start_reference) == Ok::<RangeKey, ErrorText>(
                p.key(),
            ) && p.labels@ == Map::<u16, String>::empty() && p.start + start_reference <= 0xFFFF,
            Err(e) => range_entry_spec(t, text@, start_reference) == Err::<RangeKey, ErrorText>(
                e.text(),
            ),
        },
{
    let name = flag_name_of(t);
    let (user_start, count, fmt) = if t.is_coil_type() {
        match parse_range(text, name) {
            Ok((u, c)) => (u, c, None),
            Err(e) => {
                return Err(e);
            },
        }
    } else {
        match parse_range_with_format(text, name) {
            Ok(v) => v,
            Err(e) => {
                return Err(e);
            },
        }
    };
    let start = match user_to_protocol(user_start, start_reference, name) {
        Ok(v) => v,
        Err(e) => {
            return Err(plain_error(e));
        },
    };
    Ok(PollRange { reg_type: t, start, count, initial_format: fmt, labels: BTreeMap::new() })
}

/// The arguments as character sequences.
pub open spec fn arg_texts(args: Seq<String>) -> Seq<Seq<char>> {
    args.map_values(|a: String| a@)
}

impl AppConfig {
    /// Build the configuration from command-line options when no
    /// configuration file is given (a file is read outside the library and
    /// goes through `with_cli_overrides`): ranges in the order their flags
    /// appear in `raw_args`, the other settings from `cli`; then validate it.
    pub fn from_cli(cli: &Cli, raw_args: &Vec<String>) -> (r: Result<AppConfig, ConfigError>)
        requires
            cli.config is None,
        ensures
            match r {
                Ok(cfg) => {
                    &&& scan_ranges(arg_texts(raw_args@), *cli) == Ok::<Seq<RangeKey>, ErrorText>(
                        cfg.keys(),
                    )
                    &&& forall|i: int| 0 <= i < cfg.ranges@.len() ==> (
                    #[trigger] cfg.ranges@[i]).labels@ == Map::<u16, String>::empty()
                    &&& cfg.mode == cli.mode
                    &&& cfg.host@ == cli.host@
                    &&& cfg.port == cli.port
                    &&& cfg.unit == cli.unit
                    &&& cfg.poll_interval_ms == cli.poll_interval
                    &&& cfg.start_reference == cli.start_reference
                    &&& cfg.swap_ints == cli.swap_ints
                    &&& cfg.swap_floats == cli.swap_floats
                    &&& cfg.swap_bytes == cli.swap_bytes
                    &&& cfg.hide_hex == cli.no_hex
                    &&& cfg.decimal_addresses == cli.decimal_addresses
                    &&& cfg.initial_values@.len() == 0
                    &&& initial_keys_distinct(cfg.initial_values@)
                    &&& cfg.problem() is None
                    &&& labels_fit(cfg.keys(), cfg.start_reference)
                },
                Err(e) => match scan_ranges(arg_texts(raw_args@), *cli) {
                    Err(se) => se == e.text(),
                    Ok(keys) => validation_error(
                        cli.port,
                        cli.unit,
                        cli.poll_interval,
                        keys,
                        cli.start_reference,
                    ) == Some(e.message@) && e.cause is None,
                },
            },
    {
        let sr = cli.start_reference;
        let ghost args = arg_texts(raw_args@);
        let mut ranges: Vec<PollRange> = Vec::new();
        let mut co: usize = 0;
        let mut di: usize = 0;
        let mut hr: usize = 0;
        let mut ir: usize = 0;
        let n = raw_args.len();
        let mut i: usize = 0;
        assert(args.take(0) =~= Seq::<Seq<char>>::empty());
        assert(ranges@.map_values(|r: PollRange| r.key()) =~= Seq::<RangeKey>::empty());
        while i < n
            invariant
                i <= n,
                n == raw_args@.len(),
                args == arg_texts(raw_args@),
                sr == cli.start_reference,
                scan_ranges(args.take(i as int), *cli) == Ok::<Seq<RangeKey>, ErrorText>(
                    ranges@.map_values(|r: PollRange| r.key()),
                ),
                forall|j: int| 0 <= j < ranges@.len() ==> (#[trigger] ranges@[j]).labels@ == Map::<
                    u16,
                    String,
                >::empty(),
                labels_fit(ranges@.map_values(|r: PollRange| r.key()), sr),
                co == count_kind(args.take(i as int), RegisterType::Coils),
                di == count_kind(args.take(i as int), RegisterType::DiscreteInputs),
                hr == count_kind(args.take(i as int), RegisterType::HoldingRegisters),
                ir == count_kind(args.take(i as int), RegisterType::InputRegisters),
                co <= i && di <= i && hr <= i && ir <= i,
            decreases n - i,
        {
            let ghost prev_ranges = ranges@;
            assert(args.take(i + 1).drop_last() =~= args.take(i as int));
            assert(args.take(i + 1).last() == raw_args@[i as int]@);
            match flag_kind_of(raw_args[i].as_str()) {
                None => {},
                Some(t) => {
                    let (idx, list) = match t {
                        RegisterType::Coils => (co, &cli.coils),
                        RegisterType::DiscreteInputs => (di, &cli.discrete_inputs),
                        RegisterType::HoldingRegisters => (hr, &cli.holding_registers),
                        RegisterType::InputRegisters => (ir, &cli.input_registers),
                    };
                    assert(list@ == cli.args_for(t));
                    if idx < list.len() {
                        match range_entry(t, list[idx].as_str(), sr) {
                            Ok(p) => {
                                ranges.push(p);
                                assert(ranges@.map_values(|r: PollRange| r.key()) =~= prev_ranges.map_values(
                                    |r: PollRange| r.key(),
                                ).push(p.key()));
                            },
                            Err(e) => {
                                proof {
                                    lemma_scan_error_stays(args, *cli, (i + 1) as nat, n as nat);
                                    assert(args.take(n as int) =~= args);
                                }
                                return Err(e);
                            },
                        }
                    }
                    match t {
                        RegisterType::Coils => {
                            co += 1;
                        },
                        RegisterType::DiscreteInputs => {
                            di += 1;
                        },
                        RegisterType::HoldingRegisters => {
                            hr += 1;
                        },
                        RegisterType::InputRegisters => {
                            ir += 1;
                        },
                    }
                },
            }
            i += 1;
        }
        assert(args.take(n as int) =~= args);
        let cfg = AppConfig {
            mode: cli.mode,
            host: cli.host.clone(),
            port: cli.port,
            unit: cli.unit,
            ranges,
            poll_interval_ms: cli.poll_interval,
            start_reference: sr,
            swap_ints: cli.swap_ints,
            swap_floats: cli.swap_floats,
            swap_bytes: cli.swap_bytes,
            hide_hex: cli.no_hex,
            decimal_addresses: cli.decimal_addresses,
            initial_values: Vec::new(),
        };
        assert(cfg.keys() =~= ranges@.map_values(|r: PollRange| r.key()));
        match cfg.validate() {
            Ok(()) => Ok(cfg),
            Err(e) => Err(plain_error(e)),
        }
    }

    /// A configuration loaded from a file with the command-line options
    /// that were given applied over it: mode, host, port, unit id and poll
    /// interval replace the file's values; every other field is the file's.
    pub fn with_cli_overrides(self, cli: &Cli) -> (r: AppConfig)
        ensures
            r.mode == (if cli.mode_given {
                cli.mode
            } else {
                self.mode
            }),
            r.host@ == (if cli.host_given {
                cli.host@
            } else {
                self.host@
            }),
            r.port == (if cli.port_given {
                cli.port
            } else {
                self.port
            }),
            r.unit == (if cli.unit_given {
                cli.unit
            } else {
                self.unit
            }),
            r.poll_interval_ms == (if cli.poll_interval_given {
                cli.poll_interval
            } else {
                self.poll_interval_ms
            }),
            r.decimal_addresses == self.decimal_addresses,
            r.ranges == self.ranges,
            r.start_reference == self.start_reference,
            r.swap_ints == self.swap_ints,
            r.swap_floats == self.swap_floats,
            r.swap_bytes == self.swap_bytes,
            r.hide_hex == self.hide_hex,
            r.initial_values == self.initial_values,
    {
        let mut cfg = self;
        if cli.mode_given {
            cfg.mode = cli.mode;
        }
        if cli.host_given {
            cfg.host = cli.host.clone();
        }
        if cli.port_given {
            cfg.port = cli.port;
        }
        if cli.unit_given {
            cfg.unit = cli.unit;
        }
        if cli.poll_interval_given {
            cfg.poll_interval_ms = cli.poll_interval;
        }
        cfg
    }
}

/// Once a range argument is refused, the scan of any longer argument list
/// fails with the same message.
proof fn lemma_scan_error_stays(args: Seq<Seq<char>>, cli: Cli, a: nat, b: nat)
    requires
        a <= b <= args.len(),
        scan_ranges(args.take(a as int), cli) is Err,
    ensures
        scan_ranges(args.take(b as int), cli) == scan_ranges(args.take(a as int), cli),
    decreases b - a,
{
    if a < b {
        lemma_scan_error_stays(args, cli, a, (b - 1) as nat);
        assert(args.take(b as int).drop_last() =~= args.take(b - 1));
    }
}

/// With no problem among the first `n` ranges, each of them is non-empty
/// and lies inside the address space.
proof fn lemma_no_range_error(keys: Seq<RangeKey>, start_reference: u16, n: nat)
    requires
        n <= keys.len(),
        first_range_error(keys, start_reference, n) is None,
    ensures
        forall|i: int| 0 <= i < n ==> #[trigger] keys[i].2 > 0 && keys[i].1 + keys[i].2 <= 65536,
    decreases n,
{
    if n > 0 {
        lemma_no_range_error(keys, start_reference, (n - 1) as nat);
    }
}

/// A configuration that passes validation has a port, a unit id of at most
/// 247, a poll interval within 10..=60000 ms, and ranges that are non-empty
/// and lie inside the 65536-address space.
pub proof fn lemma_valid_config(c: AppConfig)
    requires
        c.problem() is None,
    ensures
        c.port != 0,
        c.unit <= 247,
        10 <= c.poll_interval_ms <= 60_000,
        forall|i: int|
            0 <= i < c.ranges@.len() ==> (#[trigger] c.ranges@[i]).count > 0 && c.ranges@[i].start
                + c.ranges@[i].count <= 65536,
{
    lemma_no_range_error(c.keys(), c.start_reference, c.keys().len());
    assert forall|i: int| 0 <= i < c.ranges@.len() implies (#[trigger] c.ranges@[i]).count > 0
        && c.ranges@[i].start + c.ranges@[i].count <= 65536 by {
        assert(c.keys()[i] == c.ranges@[i].key());
        assert(c.keys()[i].2 > 0 && c.keys()[i].1 + c.keys()[i].2 <= 65536);
    }
}

} // verus!
