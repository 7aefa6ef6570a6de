//! The stateful frame renderer: one call produces one fully formed
//! two-line frame, a stats line over a bracketed bar line.
use crate::byte_format::{byte_unit, centi_scaled, unit_index, unit_label};
use crate::clock;
use crate::text::{
    blocks, centi_digits, dec_digits, push_blocks, push_centi, push_spaces, push_u64, spaces,
};
use vstd::arithmetic::div_mod::{lemma_div_is_ordered, lemma_div_multiples_vanish};
use vstd::prelude::*;

verus! {

/// Integer percentage of `downloaded` out of `total`, truncated toward
/// zero.
pub open spec fn pct_of(downloaded: nat, total: nat) -> nat {
    downloaded * 100 / total
}

/// Law: the percentage never exceeds 100 while the download has not
/// overrun the total.
pub proof fn lemma_pct_bounded(downloaded: nat, total: nat)
    requires
        0 < total,
        downloaded <= total,
    ensures
        pct_of(downloaded, total) <= 100,
{
    assert(downloaded * 100 <= total * 100) by (nonlinear_arith)
        requires
            downloaded <= total,
    ;
    lemma_div_is_ordered(downloaded as int * 100, total as int * 100, total as int);
    lemma_div_multiples_vanish(100, total as int);
}

/// Law: a larger downloaded count never yields a smaller percentage.
pub proof fn lemma_pct_monotone(first: nat, second: nat, total: nat)
    requires
        first <= second,
        0 < total,
    ensures
        pct_of(first, total) <= pct_of(second, total),
{
    assert(first * 100 <= second * 100) by (nonlinear_arith)
        requires
            first <= second,
    ;
    lemma_div_is_ordered(first as int * 100, second as int * 100, total as int);
}

/// Integer percentage of `downloaded` out of `total`, truncated toward
/// zero.
pub fn progress_pct(downloaded: u64, total: u64) -> (pct: u64)
    requires
        0 < total,
        downloaded <= total,
    ensures
        pct == pct_of(downloaded as nat, total as nat),
        pct <= 100,
{
    proof {
        lemma_pct_bounded(downloaded as nat, total as nat);
    }
    let wide: u128 = (downloaded as u128) * 100 / (total as u128);
    wide as u64
}

/// A byte quantity as text: scaled value, a space, unit label.
pub open spec fn byte_text(bytes: nat) -> Seq<char> {
    centi_digits(centi_scaled(bytes)) + " "@ + unit_label(unit_index(bytes))
}

/// The stats line: speed, percentage and elapsed time.
pub open spec fn stats_text(speed: nat, pct: nat, elapsed_cs: nat) -> Seq<char> {
    byte_text(speed) + "/s - "@ + dec_digits(pct) + " % - elapsed: "@ + centi_digits(elapsed_cs)
        + "s "@
}

/// The size line: downloaded bytes over total bytes.
pub open spec fn size_text(downloaded: nat, total: nat) -> Seq<char> {
    byte_text(downloaded) + " / "@ + byte_text(total)
}

/// Cells available between the brackets of a bar of the given width.
pub open spec fn inner_width(width: nat) -> nat {
    if width >= 2 {
        (width - 2) as nat
    } else {
        0
    }
}

/// Number of filled cells for a percentage in a bar with `inner` cells.
pub open spec fn filled_cells(pct: nat, inner: nat) -> nat {
    pct * inner / 100
}

/// Law: the filled cells never exceed the cells available.
pub proof fn lemma_filled_cells_bounded(pct: nat, inner: nat)
    requires
        pct <= 100,
    ensures
        filled_cells(pct, inner) <= inner,
{
    assert(pct * inner <= 100 * inner) by (nonlinear_arith)
        requires
            pct <= 100,
    ;
    lemma_div_is_ordered(pct as int * inner as int, 100 * inner as int, 100);
    lemma_div_multiples_vanish(inner as int, 100);
}

/// The bar line: a bracketed row of `inner_width(width)` cells with
/// `filled_cells` of them drawn solid and the rest left blank.
pub open spec fn bar_text(pct: nat, width: nat) -> Seq<char> {
    let inner = inner_width(width);
    let filled = if filled_cells(pct, inner) <= inner {
        filled_cells(pct, inner)
    } else {
        inner
    };
    "["@ + blocks(filled) + spaces((inner - filled) as nat) + "]"@
}

/// How many solid cells a piece of text holds.
pub open spec fn block_count(s: Seq<char>) -> nat
    decreases s.len(),
{
    if s.len() == 0 {
        0
    } else {
        block_count(s.drop_last()) + (if s.last() == crate::text::block_char() {
            1nat
        } else {
            0nat
        })
    }
}

proof fn lemma_block_count_add(a: Seq<char>, b: Seq<char>)
    ensures
        block_count(a + b) == block_count(a) + block_count(b),
    decreases b.len(),
{
    if b.len() == 0 {
        assert(a + b =~= a);
    } else {
        assert((a + b).drop_last() =~= a + b.drop_last());
        assert((a + b).last() == b.last());
        lemma_block_count_add(a, b.drop_last());
    }
}

proof fn lemma_block_count_blocks(n: nat)
    ensures
        block_count(blocks(n)) == n,
    decreases n,
{
    if n == 0 {
        assert(blocks(0).len() == 0);
    } else {
        assert(blocks(n).drop_last() =~= blocks((n - 1) as nat));
        assert(blocks(n).last() == crate::text::block_char());
        lemma_block_count_blocks((n - 1) as nat);
    }
}

proof fn lemma_block_count_spaces(n: nat)
    ensures
        block_count(spaces(n)) == 0,
    decreases n,
{
    if n > 0 {
        assert(spaces(n).drop_last() =~= spaces((n - 1) as nat));
        assert(spaces(n).last() == ' ');
        lemma_block_count_spaces((n - 1) as nat);
    }
}

/// Law: the bar line holds exactly `filled_cells` solid cells, and
/// that count never exceeds the cells between the brackets.
pub proof fn lemma_bar_fill_count(pct: nat, width: nat)
    requires
        pct <= 100,
    ensures
        block_count(bar_text(pct, width)) == filled_cells(pct, inner_width(width)),
        filled_cells(pct, inner_width(width)) <= inner_width(width),
{
    let inner = inner_width(width);
    let f = filled_cells(pct, inner);
    lemma_filled_cells_bounded(pct, inner);
    reveal_strlit("[");
    reveal_strlit("]");
    assert("["@ =~= seq!['[']);
    assert("]"@ =~= seq![']']);
    assert(block_count(Seq::<char>::empty()) == 0);
    assert(seq!['['].drop_last() =~= Seq::<char>::empty());
    assert(seq![']'].drop_last() =~= Seq::<char>::empty());
    assert(block_count(seq!['[']) == 0);
    assert(block_count(seq![']']) == 0);
    lemma_block_count_blocks(f);
    lemma_block_count_spaces((inner - f) as nat);
    lemma_block_count_add("["@, blocks(f));
    lemma_block_count_add("["@ + blocks(f), spaces((inner - f) as nat));
    lemma_block_count_add("["@ + blocks(f) + spaces((inner - f) as nat), "]"@);
}

/// Spaces inserted between the stats text and the size text so the
/// first line fills the bar width; none when the texts already exceed
/// it.
pub open spec fn padding_width(width: nat, stats_len: nat, size_len: nat) -> nat {
    if stats_len + size_len <= width {
        (width - stats_len - size_len) as nat
    } else {
        0
    }
}

/// One whole frame: padded stats-and-size line, newline, bar line.
pub open spec fn frame_text(
    downloaded: nat,
    total: nat,
    speed: nat,
    elapsed_cs: nat,
    width: nat,
) -> Seq<char> {
    let pct = pct_of(downloaded, total);
    let stats = stats_text(speed, pct, elapsed_cs);
    let size = size_text(downloaded, total);
    stats + spaces(padding_width(width, stats.len(), size.len())) + size + "\n"@ + bar_text(
        pct,
        width,
    )
}

/// Renders one frame of the given width from the byte counts, the
/// throughput sample and an elapsed-time reading.
pub fn render_frame(
    downloaded: u64,
    total: u64,
    speed: u64,
    elapsed_cs: u64,
    width: usize,
) -> (frame: String)
    requires
        0 < total,
        downloaded <= total,
    ensures
        frame@ == frame_text(
            downloaded as nat,
            total as nat,
            speed as nat,
            elapsed_cs as nat,
            width as nat,
        ),
{
    let pct = progress_pct(downloaded, total);
    let (speed_c, speed_u) = byte_unit(speed);
    let (down_c, down_u) = byte_unit(downloaded);
    let (total_c, total_u) = byte_unit(total);

    let mut out = String::new();
    push_centi(&mut out, speed_c);
    out.append(" ");
    out.append(speed_u);
    out.append("/s - ");
    push_u64(&mut out, pct);
    out.append(" % - elapsed: ");
    push_centi(&mut out, elapsed_cs);
    out.append("s ");
    assert(out@ =~= stats_text(speed as nat, pct as nat, elapsed_cs as nat));

    let mut size_line = String::new();
    push_centi(&mut size_line, down_c);
    size_line.append(" ");
    size_line.append(down_u);
    size_line.append(" / ");
    push_centi(&mut size_line, total_c);
    size_line.append(" ");
    size_line.append(total_u);
    assert(size_line@ =~= size_text(downloaded as nat, total as nat));

    let stats_len = out.as_str().unicode_len();
    let size_len = size_line.as_str().unicode_len();
    let pad: usize = if width > stats_len && width - stats_len >= size_len {
        width - stats_len - size_len
    } else {
        0
    };
    assert(pad == padding_width(width as nat, out@.len(), size_line@.len()));
    push_spaces(&mut out, pad);
    out.append(size_line.as_str());
    out.append("\n");

    let inner: usize = if width >= 2 {
        width - 2
    } else {
        0
    };
    proof {
        lemma_filled_cells_bounded(pct as nat, inner as nat);
    }
    let filled_wide: u128 = (pct as u128) * (inner as u128) / 100;
    let filled: usize = filled_wide as usize;
    out.append("[");
    push_blocks(&mut out, filled);
    push_spaces(&mut out, inner - filled);
    out.append("]");
    assert(out@ =~= frame_text(
        downloaded as nat,
        total as nat,
        speed as nat,
        elapsed_cs as nat,
        width as nat,
    ));
    out
}

/// The renderer: a fixed bar width captured at construction and the
/// job's start timestamp.
pub struct ProgressBar {
    pub bar_width: usize,
    pub start_instant: std::time::Instant,
}

/// Relies on crossterm::terminal::size: the terminal's current
/// (columns, rows), or an error when no terminal can be queried;
/// nothing is assumed of the values.
#[verifier::external_body]
fn terminal_columns() -> (r: Option<u16>) {
    match crossterm::terminal::size() {
        Ok((cols, _rows)) => Some(cols),
        Err(_) => None,
    }
}

impl ProgressBar {
    /// Captures the terminal column count, clamped to `max_width` (zero
    /// when no terminal size can be determined), and the start time.
    pub fn new(max_width: usize) -> (bar: Self)
        ensures
            bar.bar_width <= max_width,
    {
        let cols: usize = match terminal_columns() {
            Some(c) => c as usize,
            None => 0,
        };
        let width: usize = if cols < max_width {
            cols
        } else {
            max_width
        };
        ProgressBar { bar_width: width, start_instant: std::time::Instant::now() }
    }

    /// Renders the frame for the given byte counts and throughput at
    /// the bar's width. The elapsed-time reading is the one quantity
    /// not fixed by the arguments: the frame is exact for some reading.
    pub fn update(&self, downloaded_len: u64, total_len: u64, speed: u64) -> (frame: String)
        requires
            0 < total_len,
            downloaded_len <= total_len,
        ensures
            exists|elapsed_cs: nat|
                frame@ == frame_text(
                    downloaded_len as nat,
                    total_len as nat,
                    speed as nat,
                    elapsed_cs,
                    self.bar_width as nat,
                ),
    {
        let elapsed_cs = clock::elapsed_centis(&self.start_instant);
        let frame = render_frame(downloaded_len, total_len, speed, elapsed_cs, self.bar_width);
        proof {
            assert(frame@ == frame_text(
                downloaded_len as nat,
                total_len as nat,
                speed as nat,
                elapsed_cs as nat,
                self.bar_width as nat,
            ));
        }
        frame
    }
}

} // verus!
