//! The matrix scanner: plans one full frame of a pattern as an exact sequence
//! of line commands. A frame visits the five rows in increasing index order;
//! for each row it drives that row's line high, drives each column line low
//! where the row's cell is lit and high where it is not, holds the lines for
//! the dwell time, and drives the row's line low again. The rows are
//! active-high and the columns active-low, so a cell lights exactly while its
//! row line is high and its column line is low; only one row is ever high at
//! a time, which the lemmas below prove of the planned sequence.

use vstd::prelude::*;

use crate::pattern::Pattern;
use crate::pattern::lit_in;
use crate::pattern::pattern_matches;
use crate::state::ButtonState;

verus! {

/// One command to the hardware lines. `Dwell` is the single suspension point
/// per row: the caller holds the current levels for that many microseconds.
#[derive(Clone, Copy, PartialEq, Eq, Structural, Debug)]
pub enum LineCmd {
    RowHigh(usize),
    RowLow(usize),
    ColLow(usize),
    ColHigh(usize),
    Dwell(u64),
}

/// The command that sets column `c` for row `r` of pattern `p`: low (lit)
/// where the cell is set, high (unlit) otherwise.
pub open spec fn col_cmd(p: Pattern, r: int, c: int) -> LineCmd {
    if p.cells[r][c] {
        LineCmd::ColLow(c as usize)
    } else {
        LineCmd::ColHigh(c as usize)
    }
}

/// The eight commands that paint row `r` of pattern `p`: activate the row,
/// set the five columns, dwell, deactivate the row.
pub open spec fn row_block(p: Pattern, r: int, dwell_us: u64) -> Seq<LineCmd> {
    seq![
        LineCmd::RowHigh(r as usize),
        col_cmd(p, r, 0),
        col_cmd(p, r, 1),
        col_cmd(p, r, 2),
        col_cmd(p, r, 3),
        col_cmd(p, r, 4),
        LineCmd::Dwell(dwell_us),
        LineCmd::RowLow(r as usize),
    ]
}

/// The blocks of the first `b` rows, in increasing row order.
pub open spec fn frame_prefix(p: Pattern, dwell_us: u64, b: int) -> Seq<LineCmd>
    decreases b,
{
    if b <= 0 {
        Seq::empty()
    } else {
        frame_prefix(p, dwell_us, b - 1) + row_block(p, b - 1, dwell_us)
    }
}

/// One full frame of pattern `p`: the blocks of rows 0 through 4. A function
/// of the pattern and the dwell alone, so two frames of the same pattern are
/// the same command sequence.
pub open spec fn frame_cmds(p: Pattern, dwell_us: u64) -> Seq<LineCmd> {
    frame_prefix(p, dwell_us, 5)
}

/// The electrical level (true = high) of row line `r` after the first `n`
/// commands of `cmds` have run, all lines starting low, as the coordinator
/// initializes them.
pub open spec fn row_level(cmds: Seq<LineCmd>, n: int, r: int) -> bool
    decreases n,
{
    if n <= 0 {
        false
    } else {
        let prev = row_level(cmds, n - 1, r);
        match cmds[n - 1] {
            LineCmd::RowHigh(k) => k as int == r || prev,
            LineCmd::RowLow(k) => k as int != r && prev,
            _ => prev,
        }
    }
}

/// The electrical level (true = high) of column line `c` after the first `n`
/// commands of `cmds` have run, all lines starting low. The column is driving
/// its LEDs exactly while its level is low.
pub open spec fn col_level(cmds: Seq<LineCmd>, n: int, c: int) -> bool
    decreases n,
{
    if n <= 0 {
        false
    } else {
        let prev = col_level(cmds, n - 1, c);
        match cmds[n - 1] {
            LineCmd::ColHigh(k) => k as int == c || prev,
            LineCmd::ColLow(k) => k as int != c && prev,
            _ => prev,
        }
    }
}

/// A frame prefix of `b` blocks holds eight commands per block.
pub proof fn lemma_prefix_len(p: Pattern, dwell_us: u64, b: int)
    requires
        0 <= b,
    ensures
        frame_prefix(p, dwell_us, b).len() == 8 * b,
    decreases b,
{
    if b > 0 {
        lemma_prefix_len(p, dwell_us, b - 1);
    }
}

/// Command `8 * b + j` of a frame prefix of more than `b` blocks is command
/// `j` of row `b`'s block.
pub proof fn lemma_prefix_index(p: Pattern, dwell_us: u64, k: int, b: int, j: int)
    requires
        0 <= b < k <= 5,
        0 <= j < 8,
    ensures
        frame_prefix(p, dwell_us, k)[8 * b + j] == row_block(p, b, dwell_us)[j],
    decreases k,
{
    lemma_prefix_len(p, dwell_us, k - 1);
    if b < k - 1 {
        lemma_prefix_index(p, dwell_us, k - 1, b, j);
    }
}

/// Command `8 * b + j` of a full frame is command `j` of row `b`'s block.
pub proof fn lemma_frame_index(p: Pattern, dwell_us: u64, b: int, j: int)
    requires
        0 <= b < 5,
        0 <= j < 8,
    ensures
        frame_cmds(p, dwell_us)[8 * b + j] == row_block(p, b, dwell_us)[j],
{
    lemma_prefix_index(p, dwell_us, 5, b, j);
}

/// Row `r`'s line is high after `n` commands of a frame exactly while the
/// scanner is inside row `r`'s block, strictly after its activation and no
/// later than the moment before its deactivation.
pub proof fn lemma_row_level_char(p: Pattern, dwell_us: u64, n: int)
    requires
        0 <= n <= 40,
    ensures
        forall|r: int|
            row_level(frame_cmds(p, dwell_us), n, r) <==> (0 <= r < 5 && 8 * r < n <= 8 * r
                + 7),
    decreases n,
{
    let f = frame_cmds(p, dwell_us);
    if n == 0 {
        assert(forall|r: int| row_level(f, 0, r) <==> (0 <= r < 5 && 8 * r < 0 <= 8 * r + 7));
    } else {
        lemma_row_level_char(p, dwell_us, n - 1);
        let i = n - 1;
        vstd::arithmetic::div_mod::lemma_fundamental_div_mod(i, 8);
        vstd::arithmetic::div_mod::lemma_mod_bound(i, 8);
        let b = i / 8;
        let j = i % 8;
        lemma_frame_index(p, dwell_us, b, j);
        if j == 0 {
            assert(f[i] == LineCmd::RowHigh(b as usize));
        } else if j == 7 {
            assert(f[i] == LineCmd::RowLow(b as usize));
        } else if j == 6 {
            assert(f[i] == LineCmd::Dwell(dwell_us));
        } else if j == 1 {
            assert(f[i] == col_cmd(p, b, 0));
        } else if j == 2 {
            assert(f[i] == col_cmd(p, b, 1));
        } else if j == 3 {
            assert(f[i] == col_cmd(p, b, 2));
        } else if j == 4 {
            assert(f[i] == col_cmd(p, b, 3));
        } else {
            assert(f[i] == col_cmd(p, b, 4));
        }
        assert forall|r: int|
            row_level(f, n, r) <==> (0 <= r < 5 && 8 * r < n <= 8 * r + 7) by {
            assert(row_level(f, i, r) <==> (0 <= r < 5 && 8 * r < i <= 8 * r + 7));
        }
    }
}

/// Command `j` of a row's block, by position: the row's activation, the five
/// column commands, the dwell, the row's deactivation.
pub proof fn lemma_block_cmd(p: Pattern, dwell_us: u64, r: int, j: int)
    requires
        0 <= j < 8,
    ensures
        row_block(p, r, dwell_us)[j] == (if j == 0 {
            LineCmd::RowHigh(r as usize)
        } else if j <= 5 {
            col_cmd(p, r, j - 1)
        } else if j == 6 {
            LineCmd::Dwell(dwell_us)
        } else {
            LineCmd::RowLow(r as usize)
        }),
{
    if j == 0 {
    } else if j == 1 {
        assert(row_block(p, r, dwell_us)[1] == col_cmd(p, r, 0));
    } else if j == 2 {
        assert(row_block(p, r, dwell_us)[2] == col_cmd(p, r, 1));
    } else if j == 3 {
        assert(row_block(p, r, dwell_us)[3] == col_cmd(p, r, 2));
    } else if j == 4 {
        assert(row_block(p, r, dwell_us)[4] == col_cmd(p, r, 3));
    } else if j == 5 {
        assert(row_block(p, r, dwell_us)[5] == col_cmd(p, r, 4));
    } else if j == 6 {
        assert(row_block(p, r, dwell_us)[6] == LineCmd::Dwell(dwell_us));
    } else {
        assert(row_block(p, r, dwell_us)[7] == LineCmd::RowLow(r as usize));
    }
}

/// From the moment row `b`'s block has set column `c` until the block's end,
/// column `c`'s level is high exactly where the cell at row `b`, column `c`
/// is unlit: the later commands of the block leave the column alone.
proof fn lemma_col_level_in_block(p: Pattern, dwell_us: u64, b: int, c: int, k: int)
    requires
        0 <= b < 5,
        0 <= c < 5,
        c + 2 <= k <= 7,
    ensures
        col_level(frame_cmds(p, dwell_us), 8 * b + k, c) == !p.cells[b][c],
    decreases k,
{
    let f = frame_cmds(p, dwell_us);
    lemma_prefix_len(p, dwell_us, 5);
    if k == c + 2 {
        lemma_frame_index(p, dwell_us, b, c + 1);
        lemma_block_cmd(p, dwell_us, b, c + 1);
        assert(f[8 * b + c + 1] == col_cmd(p, b, c));
        assert(col_level(f, 8 * b + k, c) == !p.cells[b][c]);
    } else {
        lemma_col_level_in_block(p, dwell_us, b, c, k - 1);
        lemma_frame_index(p, dwell_us, b, k - 1);
        lemma_block_cmd(p, dwell_us, b, k - 1);
        if k - 1 == 6 {
            assert(f[8 * b + k - 1] == LineCmd::Dwell(dwell_us));
        } else {
            assert(f[8 * b + k - 1] == col_cmd(p, b, k - 2));
            assert(k - 2 != c);
        }
        assert(col_level(f, 8 * b + k, c) == col_level(f, 8 * b + k - 1, c));
    }
}

/// While the scanner dwells on row `b` of a frame — the block's columns set,
/// its dwell elapsing, the row not yet released — exactly row `b`'s line is
/// high, and a column line is driven to its active low level exactly where
/// the pattern's cell at row `b` is lit.
pub proof fn lemma_dwell_drives_pattern(p: Pattern, dwell_us: u64, b: int)
    requires
        0 <= b < 5,
    ensures
        forall|r: int| #[trigger] row_level(frame_cmds(p, dwell_us), 8 * b + 7, r) <==> r == b,
        forall|c: int|
            0 <= c < 5 ==> (!(#[trigger] col_level(frame_cmds(p, dwell_us), 8 * b + 7, c)) <==> p.cells[b][c]),
{
    lemma_row_level_char(p, dwell_us, 8 * b + 7);
    assert forall|c: int|
        0 <= c < 5 implies (!(#[trigger] col_level(frame_cmds(p, dwell_us), 8 * b + 7, c))
        <==> p.cells[b][c]) by {
        lemma_col_level_in_block(p, dwell_us, b, c, 7);
    }
}

/// Whether the LED at row `r`, column `c` is illuminated after `n` commands:
/// its row line is high (active-high) and its column line low (active-low).
pub open spec fn led_on(cmds: Seq<LineCmd>, n: int, r: int, c: int) -> bool {
    row_level(cmds, n, r) && !col_level(cmds, n, c)
}

/// One frame of the bitmap for state `s` shows exactly that bitmap: during
/// the dwell on row `b`, the LEDs that light are exactly the lit cells of
/// the bitmap's row `b`. Over the frame's five dwells, every lit cell of the
/// bitmap is illuminated during its own row's dwell and no unlit cell ever
/// is — the full image the viewer retains is exactly the bitmap.
pub proof fn lemma_frame_shows_state(
    p: Pattern,
    s: ButtonState,
    dwell_us: u64,
    b: int,
    r: int,
    c: int,
)
    requires
        pattern_matches(p, s),
        0 <= b < 5,
        0 <= r < 5,
        0 <= c < 5,
    ensures
        led_on(frame_cmds(p, dwell_us), 8 * b + 7, r, c) <==> (r == b && lit_in(s, b, c)),
{
    lemma_dwell_drives_pattern(p, dwell_us, b);
}

/// At most one row line is high at any point of a frame: the scanner never
/// energizes two rows at once.
pub proof fn lemma_one_row_at_a_time(p: Pattern, dwell_us: u64, n: int, r1: int, r2: int)
    requires
        0 <= n <= frame_cmds(p, dwell_us).len(),
        row_level(frame_cmds(p, dwell_us), n, r1),
        row_level(frame_cmds(p, dwell_us), n, r2),
    ensures
        r1 == r2,
{
    lemma_prefix_len(p, dwell_us, 5);
    lemma_row_level_char(p, dwell_us, n);
}

/// The rows a command sequence activates, in order of activation.
pub open spec fn rows_activated(cmds: Seq<LineCmd>) -> Seq<int>
    decreases cmds.len(),
{
    if cmds.len() == 0 {
        Seq::empty()
    } else {
        let init = rows_activated(cmds.drop_last());
        match cmds.last() {
            LineCmd::RowHigh(k) => init.push(k as int),
            _ => init,
        }
    }
}

/// The durations a command sequence dwells for, in order.
pub open spec fn dwells_of(cmds: Seq<LineCmd>) -> Seq<u64>
    decreases cmds.len(),
{
    if cmds.len() == 0 {
        Seq::empty()
    } else {
        let init = dwells_of(cmds.drop_last());
        match cmds.last() {
            LineCmd::Dwell(d) => init.push(d),
            _ => init,
        }
    }
}

/// Activations of a concatenation are the activations of its parts, in order.
proof fn lemma_rows_activated_add(s1: Seq<LineCmd>, s2: Seq<LineCmd>)
    ensures
        rows_activated(s1 + s2) == rows_activated(s1) + rows_activated(s2),
    decreases s2.len(),
{
    if s2.len() == 0 {
        assert(s1 + s2 =~= s1);
        assert(rows_activated(s1) + rows_activated(s2) =~= rows_activated(s1));
    } else {
        lemma_rows_activated_add(s1, s2.drop_last());
        assert((s1 + s2).drop_last() =~= s1 + s2.drop_last());
        assert((s1 + s2).last() == s2.last());
        match s2.last() {
            LineCmd::RowHigh(k) => {
                assert(rows_activated(s1) + rows_activated(s2) =~= (rows_activated(s1)
                    + rows_activated(s2.drop_last())).push(k as int));
            },
            _ => {},
        }
    }
}

/// Dwells of a concatenation are the dwells of its parts, in order.
proof fn lemma_dwells_add(s1: Seq<LineCmd>, s2: Seq<LineCmd>)
    ensures
        dwells_of(s1 + s2) == dwells_of(s1) + dwells_of(s2),
    decreases s2.len(),
{
    if s2.len() == 0 {
        assert(s1 + s2 =~= s1);
        assert(dwells_of(s1) + dwells_of(s2) =~= dwells_of(s1));
    } else {
        lemma_dwells_add(s1, s2.drop_last());
        assert((s1 + s2).drop_last() =~= s1 + s2.drop_last());
        assert((s1 + s2).last() == s2.last());
        match s2.last() {
            LineCmd::Dwell(d) => {
                assert(dwells_of(s1) + dwells_of(s2) =~= (dwells_of(s1) + dwells_of(
                    s2.drop_last(),
                )).push(d));
            },
            _ => {},
        }
    }
}

/// One block activates exactly its own row and dwells exactly once, for its
/// own dwell duration.
proof fn lemma_block_activations(p: Pattern, dwell_us: u64, r: int)
    requires
        0 <= r < 5,
    ensures
        rows_activated(row_block(p, r, dwell_us)) == seq![r],
        dwells_of(row_block(p, r, dwell_us)) == seq![dwell_us],
{
    let blk = row_block(p, r, dwell_us);
    let b7 = seq![
        LineCmd::RowHigh(r as usize),
        col_cmd(p, r, 0),
        col_cmd(p, r, 1),
        col_cmd(p, r, 2),
        col_cmd(p, r, 3),
        col_cmd(p, r, 4),
        LineCmd::Dwell(dwell_us),
    ];
    let b6 = b7.drop_last();
    let b5 = b6.drop_last();
    let b4 = b5.drop_last();
    let b3 = b4.drop_last();
    let b2 = b3.drop_last();
    let b1 = b2.drop_last();
    let b0 = b1.drop_last();
    assert(blk.drop_last() =~= b7);
    assert(b0 =~= Seq::<LineCmd>::empty());
    assert(rows_activated(b0) == Seq::<int>::empty());
    assert(rows_activated(b1) =~= seq![r]);
    assert(rows_activated(b2) =~= seq![r]);
    assert(rows_activated(b3) =~= seq![r]);
    assert(rows_activated(b4) =~= seq![r]);
    assert(rows_activated(b5) =~= seq![r]);
    assert(rows_activated(b6) =~= seq![r]);
    assert(rows_activated(b7) =~= seq![r]);
    assert(rows_activated(blk) =~= seq![r]);
    assert(dwells_of(b0) == Seq::<u64>::empty());
    assert(dwells_of(b1) =~= Seq::<u64>::empty());
    assert(dwells_of(b2) =~= Seq::<u64>::empty());
    assert(dwells_of(b3) =~= Seq::<u64>::empty());
    assert(dwells_of(b4) =~= Seq::<u64>::empty());
    assert(dwells_of(b5) =~= Seq::<u64>::empty());
    assert(dwells_of(b6) =~= Seq::<u64>::empty());
    assert(dwells_of(b7) =~= seq![dwell_us]);
    assert(dwells_of(blk) =~= seq![dwell_us]);
}

/// Over one full frame, every row is activated exactly once, in increasing
/// index order, and the scanner dwells exactly once per row, each time for
/// the same duration.
pub proof fn lemma_rows_once_in_order(p: Pattern, dwell_us: u64)
    ensures
        rows_activated(frame_cmds(p, dwell_us)) == seq![0int, 1int, 2int, 3int, 4int],
        dwells_of(frame_cmds(p, dwell_us)) == seq![dwell_us, dwell_us, dwell_us, dwell_us, dwell_us],
{
    let f0 = frame_prefix(p, dwell_us, 0);
    assert(f0 == Seq::<LineCmd>::empty());
    assert(rows_activated(f0) == Seq::<int>::empty());
    assert(dwells_of(f0) == Seq::<u64>::empty());
    lemma_rows_activated_add(f0, row_block(p, 0, dwell_us));
    lemma_rows_activated_add(frame_prefix(p, dwell_us, 1), row_block(p, 1, dwell_us));
    lemma_rows_activated_add(frame_prefix(p, dwell_us, 2), row_block(p, 2, dwell_us));
    lemma_rows_activated_add(frame_prefix(p, dwell_us, 3), row_block(p, 3, dwell_us));
    lemma_rows_activated_add(frame_prefix(p, dwell_us, 4), row_block(p, 4, dwell_us));
    lemma_dwells_add(f0, row_block(p, 0, dwell_us));
    lemma_dwells_add(frame_prefix(p, dwell_us, 1), row_block(p, 1, dwell_us));
    lemma_dwells_add(frame_prefix(p, dwell_us, 2), row_block(p, 2, dwell_us));
    lemma_dwells_add(frame_prefix(p, dwell_us, 3), row_block(p, 3, dwell_us));
    lemma_dwells_add(frame_prefix(p, dwell_us, 4), row_block(p, 4, dwell_us));
    lemma_block_activations(p, dwell_us, 0);
    lemma_block_activations(p, dwell_us, 1);
    lemma_block_activations(p, dwell_us, 2);
    lemma_block_activations(p, dwell_us, 3);
    lemma_block_activations(p, dwell_us, 4);
    assert(rows_activated(frame_cmds(p, dwell_us)) =~= seq![0int, 1int, 2int, 3int, 4int]);
    assert(dwells_of(frame_cmds(p, dwell_us)) =~= seq![
        dwell_us,
        dwell_us,
        dwell_us,
        dwell_us,
        dwell_us,
    ]);
}

/// The column command for row `r`, column `c`, as `col_cmd` specifies it.
fn col_command(p: &Pattern, r: usize, c: usize) -> (cmd: LineCmd)
    requires
        r < 5,
        c < 5,
    ensures
        cmd == col_cmd(*p, r as int, c as int),
{
    if p.cells[r][c] {
        LineCmd::ColLow(c)
    } else {
        LineCmd::ColHigh(c)
    }
}

/// Appends row `r`'s block to the plan.
fn push_row_block(v: &mut Vec<LineCmd>, p: &Pattern, r: usize, dwell_us: u64)
    requires
        r < 5,
    ensures
        final(v)@ == old(v)@ + row_block(*p, r as int, dwell_us),
{
    v.push(LineCmd::RowHigh(r));
    v.push(col_command(p, r, 0));
    v.push(col_command(p, r, 1));
    v.push(col_command(p, r, 2));
    v.push(col_command(p, r, 3));
    v.push(col_command(p, r, 4));
    v.push(LineCmd::Dwell(dwell_us));
    v.push(LineCmd::RowLow(r));
    assert(v@ =~= old(v)@ + row_block(*p, r as int, dwell_us));
}

/// Plans one full frame of `p`: exactly the commands of `frame_cmds`. The
/// output depends on the pattern and the dwell alone — the scanner carries no
/// hidden state between invocations.
pub fn frame_commands(p: &Pattern, dwell_us: u64) -> (v: Vec<LineCmd>)
    ensures
        v@ == frame_cmds(*p, dwell_us),
{
    let mut v: Vec<LineCmd> = Vec::new();
    assert(v@ =~= frame_prefix(*p, dwell_us, 0));
    push_row_block(&mut v, p, 0, dwell_us);
    assert(v@ =~= frame_prefix(*p, dwell_us, 1));
    push_row_block(&mut v, p, 1, dwell_us);
    assert(v@ =~= frame_prefix(*p, dwell_us, 2));
    push_row_block(&mut v, p, 2, dwell_us);
    assert(v@ =~= frame_prefix(*p, dwell_us, 3));
    push_row_block(&mut v, p, 3, dwell_us);
    assert(v@ =~= frame_prefix(*p, dwell_us, 4));
    push_row_block(&mut v, p, 4, dwell_us);
    assert(v@ =~= frame_prefix(*p, dwell_us, 5));
    v
}

} // verus!
