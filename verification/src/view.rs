//! What the screen shows, apart from drawing it: the layout of the panes,
//! the visible part of the log, the rows of a register pane and the texts
//! of the status bar and the dialogs.
use std::collections::BTreeMap;
use vstd::prelude::*;
use vstd::string::*;
use crate::format::NumFormat;
use crate::state::{key_at, RegisterValue};
use crate::text::{concat, dec_chars, hex_chars, push_hex, to_decimal};

verus! {

broadcast use {vstd::std_specs::btree::group_btree_axioms, vstd::laws_cmp::group_laws_cmp};

// ---------------------------------------------------------------------------
// Layout
// ---------------------------------------------------------------------------

/// Rows and columns of the pane grid for `n` panes: one column for a
/// single pane, two otherwise, and as many rows as that takes.
pub open spec fn grid_spec(n: int) -> (int, int) {
    let cols: int = if n <= 1 {
        1
    } else {
        2
    };
    ((n + cols - 1) / cols, cols)
}

/// Rows and columns of the pane grid for `n` panes.
pub fn grid_shape(n: usize) -> (r: (usize, usize))
    ensures
        (r.0 as int, r.1 as int) == grid_spec(n as int),
{
    if n <= 1 {
        (n, 1)
    } else {
        (n / 2 + n % 2, 2)
    }
}

/// The visible part `start..end` of a log of `len` entries in a window of
/// `height` lines, scrolled back `scroll` entries (at most to the top).
pub open spec fn log_window_spec(len: int, height: int, scroll: int) -> (int, int) {
    let max_scroll = if len >= height {
        len - height
    } else {
        0
    };
    let s = if scroll <= max_scroll {
        scroll
    } else {
        max_scroll
    };
    let end = len - s;
    let start = if end >= height {
        end - height
    } else {
        0
    };
    (start, end)
}

/// The visible part of the log.
pub fn log_window(len: usize, height: usize, scroll: usize) -> (r: (usize, usize))
    ensures
        (r.0 as int, r.1 as int) == log_window_spec(len as int, height as int, scroll as int),
        r.0 <= r.1 <= len,
        r.1 - r.0 <= height,
{
    let max_scroll = if len >= height {
        len - height
    } else {
        0
    };
    let s = if scroll <= max_scroll {
        scroll
    } else {
        max_scroll
    };
    let end = len - s;
    let start = if end >= height {
        end - height
    } else {
        0
    };
    (start, end)
}

/// Origin and size along one axis of a dialog of `size` centred in `total`
/// with at least `margin` left around it.
pub open spec fn centered_spec(total: int, size: int, margin: int) -> (int, int) {
    let room = if total >= margin {
        total - margin
    } else {
        0
    };
    let s = if size <= room {
        size
    } else {
        room
    };
    ((total - s) / 2, s)
}

/// Origin and size along one axis of a centred dialog.
pub fn centered(total: u16, size: u16, margin: u16) -> (r: (u16, u16))
    ensures
        (r.0 as int, r.1 as int) == centered_spec(total as int, size as int, margin as int),
        r.0 + r.1 <= total,
{
    let room = if total >= margin {
        total - margin
    } else {
        0
    };
    let s = if size <= room {
        size
    } else {
        room
    };
    ((total - s) / 2, s)
}

// ---------------------------------------------------------------------------
// Register pane rows
// ---------------------------------------------------------------------------

/// One row of a register pane: consecutive registers in address order
/// that form one value.
#[derive(Clone, Debug)]
pub struct WordRow {
    pub addrs: Vec<u16>,
    pub raws: Vec<u16>,
}

/// `rows` groups the registers of `m`, in address order, into rows of
/// `width` (the last row may be shorter), each with the raw values.
pub open spec fn rows_of(m: Map<u16, RegisterValue>, width: nat, rows: Seq<WordRow>) -> bool {
    let n = m.dom().len();
    &&& rows.len() == (n + width - 1) / (width as int)
    &&& forall|j: int|
        #![trigger rows[j]]
        0 <= j < rows.len() ==> {
            &&& rows[j].addrs@.len() == rows[j].raws@.len()
            &&& rows[j].addrs@.len() == (if (j + 1) * width <= n {
                width as int
            } else {
                n - j * width
            })
            &&& forall|i: int|
                0 <= i < rows[j].addrs@.len() ==> key_at(
                    m.dom(),
                    j * width + i,
                    #[trigger] rows[j].addrs@[i],
                ) && rows[j].raws@[i] == m[rows[j].addrs@[i]].raw
        }
}

proof fn lemma_row_count(n: int, width: int, nrows: int)
    requires
        n >= 0,
        width >= 1,
        nrows == n / width + (if n % width > 0 {
            1int
        } else {
            0
        }),
    ensures
        nrows == (n + width - 1) / width,
        forall|j: int| 0 <= j < nrows ==> #[trigger] (j * width) < n,
{
    assert(nrows == (n + width - 1) / width) by (nonlinear_arith)
        requires
            n >= 0,
            width >= 1,
            nrows == n / width + (if n % width > 0 {
                1int
            } else {
                0
            }),
    ;
    assert forall|j: int| 0 <= j < nrows implies #[trigger] (j * width) < n by {
        assert(j * width < n) by (nonlinear_arith)
            requires
                0 <= j < nrows,
                n >= 0,
                width >= 1,
                nrows == n / width + (if n % width > 0 {
                    1int
                } else {
                    0
                }),
        ;
    }
}

/// The rows of a register pane whose values span `width` registers.
pub fn word_rows(m: &BTreeMap<u16, RegisterValue>, width: usize) -> (r: Vec<WordRow>)
    requires
        width >= 1,
    ensures
        rows_of(m@, width as nat, r@),
{
    let keys = crate::state::sorted_keys(m);
    let n = keys.len();
    assert(n % width > 0 ==> n / width + 1 <= usize::MAX) by (nonlinear_arith)
        requires
            width >= 1,
            n <= usize::MAX,
    ;
    let nrows = n / width + if n % width > 0 {
        1
    } else {
        0
    };
    proof {
        lemma_row_count(n as int, width as int, nrows as int);
    }
    let mut rows: Vec<WordRow> = Vec::new();
    let mut j: usize = 0;
    while j < nrows
        invariant
            j <= nrows,
            nrows == (n + width - 1) / (width as int),
            forall|jj: int| 0 <= jj < nrows ==> #[trigger] (jj * width) < n,
            n == keys@.len(),
            n == m@.dom().len(),
            keys@.to_set() == m@.dom(),
            forall|a: int, b: int| 0 <= a < b < keys@.len() ==> keys@[a] < keys@[b],
            width >= 1,
            rows@.len() == j,
            forall|jj: int|
                #![trigger rows@[jj]]
                0 <= jj < j ==> {
                    &&& rows@[jj].addrs@.len() == rows@[jj].raws@.len()
                    &&& rows@[jj].addrs@.len() == (if (jj + 1) * width <= n {
                        width as int
                    } else {
                        n - jj * width
                    })
                    &&& forall|i: int|
                        0 <= i < rows@[jj].addrs@.len() ==> key_at(
                            m@.dom(),
                            jj * width + i,
                            #[trigger] rows@[jj].addrs@[i],
                        ) && rows@[jj].raws@[i] == m@[rows@[jj].addrs@[i]].raw
                },
        decreases nrows - j,
    {
        assert(j * width < n);
        let pos = j * width;
        let end = if n - pos >= width {
            pos + width
        } else {
            n
        };
        assert((j + 1) * width == j * width + width) by (nonlinear_arith);
        let mut addrs: Vec<u16> = Vec::new();
        let mut raws: Vec<u16> = Vec::new();
        let mut i: usize = pos;
        while i < end
            invariant
                pos <= i <= end <= n,
                n == keys@.len(),
                keys@.to_set() == m@.dom(),
                addrs@.len() == i - pos,
                raws@.len() == i - pos,
                forall|q: int|
                    0 <= q < addrs@.len() ==> #[trigger] addrs@[q] == keys@[pos + q]
                        && m@.contains_key(addrs@[q]) && raws@[q] == m@[addrs@[q]].raw,
            decreases end - i,
        {
            let k = keys[i];
            assert(keys@.contains(k));
            let raw = match m.get(&k) {
                Some(rv) => rv.raw,
                None => 0,
            };
            addrs.push(k);
            raws.push(raw);
            i += 1;
        }
        proof {
            assert forall|q: int| 0 <= q < addrs@.len() implies key_at(
                m@.dom(),
                j * width + q,
                #[trigger] addrs@[q],
            ) by {
                crate::state::lemma_sorted_rank(keys@, m@.dom(), pos + q);
            }
        }
        rows.push(WordRow { addrs, raws });
        j += 1;
    }
    rows
}

/// The raw values as four upper-case hex digits each, separated by spaces.
pub open spec fn hex_words_text(vals: Seq<u16>) -> Seq<char>
    decreases vals.len(),
{
    if vals.len() == 0 {
        Seq::empty()
    } else if vals.len() == 1 {
        hex_chars(vals[0] as nat, 4)
    } else {
        hex_words_text(vals.drop_last()) + " "@ + hex_chars(vals.last() as nat, 4)
    }
}

/// Renders raw values as `{:04X}` separated by spaces.
pub fn hex_words(vals: &[u16]) -> (r: String)
    ensures
        r@ == hex_words_text(vals@),
{
    let mut s = String::new();
    let mut i: usize = 0;
    assert(vals@.take(0) =~= Seq::<u16>::empty());
    while i < vals.len()
        invariant
            i <= vals@.len(),
            s@ == hex_words_text(vals@.take(i as int)),
        decreases vals@.len() - i,
    {
        assert(vals@.take(i + 1).drop_last() =~= vals@.take(i as int));
        if i > 0 {
            s.append(" ");
        }
        push_hex(&mut s, vals[i] as u64, 4);
        i += 1;
    }
    assert(vals@.take(vals@.len() as int) =~= vals@);
    s
}

/// A coil or discrete input as shown: `ON` or `OFF`.
pub fn coil_text(raw: u16) -> (r: &'static str)
    ensures
        r@ == (if raw != 0 {
            "ON"@
        } else {
            "OFF"@
        }),
{
    if raw != 0 {
        "ON"
    } else {
        "OFF"
    }
}

/// The addressing shown in the status bar.
pub fn addressing_text(start_reference: u16) -> (r: &'static str)
    ensures
        r@ == (if start_reference == 0 {
            "0-based addressing"@
        } else {
            "1-based addressing"@
        }),
{
    if start_reference == 0 {
        "0-based addressing"
    } else {
        "1-based addressing"
    }
}

/// The swap settings as shown in the status bar (`BS` byte swap, `WS`
/// word swap), if any is on.
pub open spec fn swap_indicator_text(bytes: bool, ints: bool, floats: bool) -> Option<Seq<char>> {
    let ws: Seq<char> = if ints && floats {
        "WS: ints+floats"@
    } else if ints {
        "WS: ints"@
    } else if floats {
        "WS: floats"@
    } else {
        Seq::empty()
    };
    if bytes && ws.len() > 0 {
        Some("swap [BS: all, "@ + ws + "]"@)
    } else if bytes {
        Some("swap [BS: all]"@)
    } else if ws.len() > 0 {
        Some("swap ["@ + ws + "]"@)
    } else {
        None
    }
}

/// The swap settings as shown in the status bar, if any is on.
pub fn swap_indicator(bytes: bool, ints: bool, floats: bool) -> (r: Option<String>)
    ensures
        match r {
            Some(t) => swap_indicator_text(bytes, ints, floats) == Some(t@),
            None => swap_indicator_text(bytes, ints, floats) is None,
        },
{
    let ws: &str = if ints && floats {
        "WS: ints+floats"
    } else if ints {
        "WS: ints"
    } else if floats {
        "WS: floats"
    } else {
        ""
    };
    let has_ws = ints || floats;
    proof {
        reveal_strlit("WS: ints+floats");
        reveal_strlit("WS: ints");
        reveal_strlit("WS: floats");
        reveal_strlit("");
    }
    if bytes && has_ws {
        let mut t = concat("swap [BS: all, ", ws);
        t.append("]");
        Some(t)
    } else if bytes {
        Some(String::from_str("swap [BS: all]"))
    } else if has_ws {
        let mut t = concat("swap [", ws);
        t.append("]");
        Some(t)
    } else {
        None
    }
}

/// What the write dialog says of the format: `0/1` for coils, otherwise
/// the format's name and how many registers it spans.
pub open spec fn format_label_text(coils: bool, nf: NumFormat) -> Seq<char> {
    if coils {
        "0/1"@
    } else {
        nf.header_text() + " ("@ + dec_chars(nf.regs()) + " reg"@ + (if nf.regs() > 1 {
            "s"@
        } else {
            Seq::empty()
        }) + ")"@
    }
}

/// What the write dialog says of the format.
pub fn format_label(coils: bool, nf: NumFormat) -> (r: String)
    ensures
        r@ == format_label_text(coils, nf),
{
    if coils {
        String::from_str("0/1")
    } else {
        let w = nf.width();
        let mut t = concat(nf.column_header(), " (");
        t.append(to_decimal(w as u64).as_str());
        t.append(" reg");
        if w > 1 {
            t.append("s");
        }
        t.append(")");
        t
    }
}

/// The `width` raw values from `addr` upwards that the write dialog shows
/// as the current value (0 where no register was read).
pub fn registers_from(m: &BTreeMap<u16, RegisterValue>, addr: u16, width: usize) -> (r: Vec<u16>)
    requires
        addr + width <= 0x10000,
    ensures
        r@.len() == width,
        forall|i: int|
            0 <= i < width ==> #[trigger] r@[i] == if m@.contains_key((addr + i) as u16) {
                m@[(addr + i) as u16].raw
            } else {
                0
            },
{
    let mut out: Vec<u16> = Vec::new();
    let mut i: usize = 0;
    while i < width
        invariant
            i <= width,
            addr + width <= 0x10000,
            out@.len() == i,
            forall|q: int|
                0 <= q < i ==> #[trigger] out@[q] == if m@.contains_key((addr + q) as u16) {
                    m@[(addr + q) as u16].raw
                } else {
                    0
                },
        decreases width - i,
    {
        let a: u16 = addr + i as u16;
        let v = match m.get(&a) {
            Some(rv) => rv.raw,
            None => 0,
        };
        out.push(v);
        i += 1;
    }
    out
}

/// The register at `addrs[i]` is present and highlighted at `now`.
pub open spec fn lights(m: Map<u16, RegisterValue>, addrs: Seq<u16>, i: int, now: u64) -> bool {
    &&& 0 <= i < addrs.len()
    &&& m.contains_key(addrs[i])
    &&& m[addrs[i]].highlighted_at(now)
}

/// When the register at `addrs[i]` last changed (0 if never).
pub open spec fn change_time(m: Map<u16, RegisterValue>, addrs: Seq<u16>, i: int) -> u64 {
    match m[addrs[i]].changed_at {
        Some(t) => t,
        None => 0,
    }
}

/// `i` is the position whose change lights a row of `addrs` at `now`: a
/// highlighted register changed no earlier than any other highlighted one,
/// and the last of those that changed latest.
pub open spec fn leads(m: Map<u16, RegisterValue>, addrs: Seq<u16>, i: int, now: u64) -> bool {
    &&& lights(m, addrs, i, now)
    &&& forall|j: int| #[trigger]
        lights(m, addrs, j, now) ==> change_time(m, addrs, j) <= change_time(m, addrs, i)
    &&& forall|j: int|
        i < j && #[trigger] lights(m, addrs, j, now) ==> change_time(m, addrs, j) < change_time(
            m,
            addrs,
            i,
        )
}

/// The register whose change lights a row of `addrs` at `now`: among the
/// highlighted ones, the last that changed latest; `None` when none is
/// highlighted.
pub fn row_lead(m: &BTreeMap<u16, RegisterValue>, addrs: &Vec<u16>, now: u64) -> (r: Option<u16>)
    ensures
        r is None <==> !exists|i: int| #[trigger] lights(m@, addrs@, i, now),
        r matches Some(a) ==> exists|i: int| #[trigger] leads(m@, addrs@, i, now) && addrs@[i] == a,
{
    let mut best: Option<usize> = None;
    let mut i: usize = 0;
    while i < addrs.len()
        invariant
            i <= addrs@.len(),
            best is None <==> !exists|j: int| 0 <= j < i && #[trigger] lights(m@, addrs@, j, now),
            best matches Some(b) ==> {
                &&& b < i
                &&& lights(m@, addrs@, b as int, now)
                &&& forall|j: int|
                    0 <= j < i && #[trigger] lights(m@, addrs@, j, now) ==> change_time(
                        m@,
                        addrs@,
                        j,
                    ) <= change_time(m@, addrs@, b as int)
                &&& forall|j: int|
                    b < j < i && #[trigger] lights(m@, addrs@, j, now) ==> change_time(
                        m@,
                        addrs@,
                        j,
                    ) < change_time(m@, addrs@, b as int)
            },
        decreases addrs@.len() - i,
    {
        match m.get(&addrs[i]) {
            Some(rv) => {
                if rv.recently_changed(now) {
                    let t: u64 = match rv.changed_at {
                        Some(t) => t,
                        None => 0,
                    };
                    assert(lights(m@, addrs@, i as int, now));
                    assert(t == change_time(m@, addrs@, i as int));
                    match best {
                        None => {
                            best = Some(i);
                        },
                        Some(b) => {
                            let bt: u64 = match m.get(&addrs[b]) {
                                Some(brv) => match brv.changed_at {
                                    Some(x) => x,
                                    None => 0,
                                },
                                None => 0,
                            };
                            assert(bt == change_time(m@, addrs@, b as int));
                            if t >= bt {
                                best = Some(i);
                            }
                        },
                    }
                }
            },
            None => {},
        }
        i += 1;
    }
    match best {
        Some(b) => {
            assert(leads(m@, addrs@, b as int, now));
            Some(addrs[b])
        },
        None => None,
    }
}

/// The address shown for protocol address `addr`: moved by the start
/// reference where that stays in range.
pub fn shown_addr(addr: u16, start_reference: u16) -> (r: u16)
    ensures
        r == (if addr + start_reference <= 0xFFFF {
            addr + start_reference
        } else {
            addr as int
        }),
{
    if addr <= 0xFFFF - start_reference {
        addr + start_reference
    } else {
        addr
    }
}

} // verus!
