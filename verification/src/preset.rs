//! Named initial patterns, resolved into coordinates centered near the
//! origin.
//!
//! A pattern is rows of characters, non-blank meaning alive. Row `i` of a
//! pattern with `n` rows becomes grid row `-(n / 2) + i`, and likewise for
//! columns within each row, so the pattern's midpoint sits near the origin.

use vstd::prelude::*;
use vstd::string::StrSliceExecFns;

verus! {

/// A named initial layout for the simulation.
#[derive(Debug, Clone, Copy, PartialEq, Eq, Structural)]
pub enum Preset {
    /// A 3-by-3 glider.
    Glider,
    /// The 9-by-37 Gosper glider gun.
    GliderGun,
}

/// The pattern rows of a preset, top to bottom.
pub open spec fn preset_rows(p: Preset) -> Seq<Seq<char>> {
    match p {
        Preset::Glider => seq![
            " x "@,
            "  x"@,
            "xxx"@,
        ],
        Preset::GliderGun => seq![
            "                        x           "@,
            "                      x x           "@,
            "            xx      xx            xx"@,
            "           x   x    xx            xx"@,
            "xx        x     x   xx              "@,
            "xx        x   x xx    x x           "@,
            "          x     x       x           "@,
            "           x   x                    "@,
            "            xx                      "@,
        ],
    }
}

/// The live coordinates contributed by the first `upto` characters of one
/// row: column `c` of a row starting at grid column `sc` is alive at
/// `(r, sc + c)` exactly when its character is not a blank.
pub open spec fn row_cells(row: Seq<char>, upto: int, r: i64, sc: int) -> Seq<(i64, i64)>
    decreases upto,
{
    if upto <= 0 {
        Seq::empty()
    } else if row[upto - 1] != ' ' {
        row_cells(row, upto - 1, r, sc).push((r, (sc + upto - 1) as i64))
    } else {
        row_cells(row, upto - 1, r, sc)
    }
}

/// The live coordinates of the first `upto` rows, each row centered on its
/// own length and placed on grid row `sr + i`.
pub open spec fn rows_cells(rows: Seq<Seq<char>>, upto: int, sr: int) -> Seq<(i64, i64)>
    decreases upto,
{
    if upto <= 0 {
        Seq::empty()
    } else {
        rows_cells(rows, upto - 1, sr) + row_cells(
            rows[upto - 1],
            rows[upto - 1].len() as int,
            (sr + upto - 1) as i64,
            -(rows[upto - 1].len() as int / 2),
        )
    }
}

/// Every live coordinate of a preset, rows top to bottom, columns left to
/// right, centered so the pattern's midpoint sits near the origin.
pub open spec fn preset_cells(p: Preset) -> Seq<(i64, i64)> {
    rows_cells(preset_rows(p), preset_rows(p).len() as int, -(preset_rows(p).len() as int / 2))
}

impl Preset {
    /// Expand the pattern into its live `(row, column)` coordinates.
    pub fn life(self) -> (r: Vec<(i64, i64)>)
        ensures
            r@ == preset_cells(self),
    {
        let rows: Vec<&str> = match self {
            Preset::Glider => {
                let v = vec![
                    " x ",
                    "  x",
                    "xxx",
                ];
                proof {
                    lemma_glider_rows(v@);
                }
                v
            },
            Preset::GliderGun => {
                let v = vec![
                    "                        x           ",
                    "                      x x           ",
                    "            xx      xx            xx",
                    "           x   x    xx            xx",
                    "xx        x     x   xx              ",
                    "xx        x   x xx    x x           ",
                    "          x     x       x           ",
                    "           x   x                    ",
                    "            xx                      ",
                ];
                proof {
                    lemma_gun_rows(v@);
                }
                v
            },
        };
        let ghost grows = preset_rows(self);
        let sr: i64 = -((rows.len() / 2) as i64);
        let mut out: Vec<(i64, i64)> = Vec::new();
        let mut i: usize = 0;
        while i < rows.len()
            invariant
                rows@.len() == grows.len(),
                grows.len() <= 16,
                forall|k: int| 0 <= k < grows.len()
                    ==> (#[trigger] rows@[k])@ == grows[k] && grows[k].len() <= 64,
                sr as int == -(grows.len() as int / 2),
                i <= rows@.len(),
                out@ == rows_cells(grows, i as int, sr as int),
            decreases rows@.len() - i,
        {
            let row: &str = rows[i];
            let n: usize = row.unicode_len();
            let sc: i64 = -((n / 2) as i64);
            let ri: i64 = sr + (i as i64);
            let mut j: usize = 0;
            while j < n
                invariant
                    rows@.len() == grows.len(),
                    grows.len() <= 16,
                    forall|k: int| 0 <= k < grows.len()
                        ==> (#[trigger] rows@[k])@ == grows[k] && grows[k].len() <= 64,
                    sr as int == -(grows.len() as int / 2),
                    i < rows@.len(),
                    row@ == grows[i as int],
                    row@.len() <= 64,
                    n == row@.len(),
                    sc as int == -(row@.len() as int / 2),
                    ri as int == sr as int + i as int,
                    j <= n,
                    out@ == rows_cells(grows, i as int, sr as int)
                        + row_cells(row@, j as int, ri, sc as int),
                decreases n - j,
            {
                let ch: char = row.get_char(j);
                proof {
                    assert(ch == row@[j as int]);
                }
                if ch != ' ' {
                    out.push((ri, sc + (j as i64)));
                }
                proof {
                    let full = rows_cells(grows, i as int, sr as int);
                    let rc1 = row_cells(row@, j as int + 1, ri, sc as int);
                    if ch != ' ' {
                        assert(rc1 == row_cells(row@, j as int, ri, sc as int).push(
                            (ri, (sc as int + j as int) as i64)));
                        assert((sc as int + j as int) as i64 == sc + (j as i64));
                        assert(out@ =~= full + rc1);
                    } else {
                        assert(rc1 == row_cells(row@, j as int, ri, sc as int));
                        assert(out@ =~= full + rc1);
                    }
                }
                j = j + 1;
            }
            proof {
                assert(out@ =~= rows_cells(grows, i as int + 1, sr as int));
            }
            i = i + 1;
        }
        out
    }
}

impl Default for Preset {
    /// The default pattern is the glider.
    fn default() -> (r: Preset)
        ensures
            r == Preset::Glider,
    {
        Preset::Glider
    }
}

/// The glider's literal rows match its pattern, and each is short.
proof fn lemma_glider_rows(v: Seq<&str>)
    requires
        v.len() == 3,
        v[0] == " x ",
        v[1] == "  x",
        v[2] == "xxx",
    ensures
        forall|k: int| 0 <= k < 3
            ==> (#[trigger] v[k])@ == preset_rows(Preset::Glider)[k]
                && preset_rows(Preset::Glider)[k].len() <= 64,
{
    reveal_strlit(" x ");
    reveal_strlit("  x");
    reveal_strlit("xxx");
    assert forall|k: int| 0 <= k < 3 implies (#[trigger] v[k])@ == preset_rows(Preset::Glider)[k]
        && preset_rows(Preset::Glider)[k].len() <= 64 by {
        if k == 0 {
        } else if k == 1 {
        } else {
        }
    }
}

/// The glider gun's literal rows match its pattern, and each is short.
proof fn lemma_gun_rows(v: Seq<&str>)
    requires
        v.len() == 9,
        v[0] == "                        x           ",
        v[1] == "                      x x           ",
        v[2] == "            xx      xx            xx",
        v[3] == "           x   x    xx            xx",
        v[4] == "xx        x     x   xx              ",
        v[5] == "xx        x   x xx    x x           ",
        v[6] == "          x     x       x           ",
        v[7] == "           x   x                    ",
        v[8] == "            xx                      ",
    ensures
        forall|k: int| 0 <= k < 9
            ==> (#[trigger] v[k])@ == preset_rows(Preset::GliderGun)[k]
                && preset_rows(Preset::GliderGun)[k].len() <= 64,
{
    reveal_strlit("                        x           ");
    reveal_strlit("                      x x           ");
    reveal_strlit("            xx      xx            xx");
    reveal_strlit("           x   x    xx            xx");
    reveal_strlit("xx        x     x   xx              ");
    reveal_strlit("xx        x   x xx    x x           ");
    reveal_strlit("          x     x       x           ");
    reveal_strlit("           x   x                    ");
    reveal_strlit("            xx                      ");
    assert forall|k: int| 0 <= k < 9 implies (#[trigger] v[k])@ == preset_rows(Preset::GliderGun)[k]
        && preset_rows(Preset::GliderGun)[k].len() <= 64 by {
    }
}

} // verus!
