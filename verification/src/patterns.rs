//! The catalog of sparse patterns that can be stamped onto the grid, the
//! run-length code they are written in, and the transform applied to them.
//!
//! A pattern is coded over its bounding box in row-major order: a byte `n`
//! above zero skips `n` cells, a zero byte marks the cell in turn and moves on
//! by one.

use vstd::prelude::*;

verus! {

/// A glider, in a 3×3 box.
pub const GLIDER: [u8; 7] = [1, 0, 3, 0, 0, 0, 0];

/// A glider gun, in a 36×9 box.
pub const GLIDER_GUN: [u8; 61] = [
    24, 0, 33, 0, 1, 0, 23, 0, 0, 6, 0, 0, 12, 0, 0, 11, 0, 3, 0, 4, 0, 0, 12, 0, 0, 0, 0, 8, 0, 5,
    0, 3, 0, 0, 14, 0, 0, 8, 0, 3, 0, 1, 0, 0, 4, 0, 1, 0, 21, 0, 5, 0, 7, 0, 22, 0, 3, 0, 32, 0, 0,
];

/// The small spaceship, in a 5×4 box.
pub const SPACESHIP_S: [u8; 12] = [3, 0, 5, 0, 0, 3, 0, 1, 0, 0, 0, 0];

/// The medium spaceship, in a 6×4 box.
pub const SPACESHIP_M: [u8; 13] = [4, 0, 6, 0, 0, 4, 0, 1, 0, 0, 0, 0, 0];

/// The large spaceship, in a 7×4 box.
pub const SPACESHIP_L: [u8; 14] = [5, 0, 7, 0, 0, 5, 0, 1, 0, 0, 0, 0, 0, 0];

/// An acorn, in a 7×3 box.
pub const ACORN: [u8; 11] = [1, 0, 8, 0, 3, 0, 0, 2, 0, 0, 0];

/// The patterns of the catalog.
#[derive(Clone, Copy, Debug, PartialEq, Eq, Structural)]
pub enum MacroKind {
    Glider,
    GliderGun,
    SpaceshipSmall,
    SpaceshipMedium,
    SpaceshipLarge,
    Acorn,
}

/// The code of a pattern of the catalog.
pub open spec fn catalog_code(kind: MacroKind) -> Seq<u8> {
    match kind {
        MacroKind::Glider => GLIDER@,
        MacroKind::GliderGun => GLIDER_GUN@,
        MacroKind::SpaceshipSmall => SPACESHIP_S@,
        MacroKind::SpaceshipMedium => SPACESHIP_M@,
        MacroKind::SpaceshipLarge => SPACESHIP_L@,
        MacroKind::Acorn => ACORN@,
    }
}

/// Width and height of the bounding box of a pattern of the catalog.
pub open spec fn catalog_box(kind: MacroKind) -> (int, int) {
    match kind {
        MacroKind::Glider => (3, 3),
        MacroKind::GliderGun => (36, 9),
        MacroKind::SpaceshipSmall => (5, 4),
        MacroKind::SpaceshipMedium => (6, 4),
        MacroKind::SpaceshipLarge => (7, 4),
        MacroKind::Acorn => (7, 3),
    }
}

/// Number of cells that the first `n` bytes of `code` move over.
pub open spec fn span(code: Seq<u8>, n: int) -> int
    decreases n,
{
    if n <= 0 {
        0
    } else if code[n - 1] == 0 {
        span(code, n - 1) + 1
    } else {
        span(code, n - 1) + code[n - 1]
    }
}

/// Flat offsets, within the bounding box, of the cells that the first `n`
/// bytes of `code` mark.
pub open spec fn marks(code: Seq<u8>, n: int) -> Seq<int>
    decreases n,
{
    if n <= 0 {
        Seq::empty()
    } else if code[n - 1] == 0 {
        marks(code, n - 1).push(span(code, n - 1))
    } else {
        marks(code, n - 1)
    }
}

/// An offset after the transform: the axes are swapped first, and each is
/// mirrored after that.
pub open spec fn transformed(x: int, y: int, swap_xy: bool, flip_x: bool, flip_y: bool) -> (
    int,
    int,
) {
    let sx = if swap_xy {
        y
    } else {
        x
    };
    let sy = if swap_xy {
        x
    } else {
        y
    };
    (if flip_x {
        -sx
    } else {
        sx
    }, if flip_y {
        -sy
    } else {
        sy
    })
}

/// Where a marked cell goes, relative to the cursor: the cell at flat offset
/// `i` of a `w × h` box, counted from the box's centre cell (column `w / 2`,
/// row `h / 2`, halves rounded down), then transformed.
pub open spec fn mark_offset(
    i: int,
    w: int,
    h: int,
    swap_xy: bool,
    flip_x: bool,
    flip_y: bool,
) -> (int, int) {
    transformed(i % w - w / 2, i / w - h / 2, swap_xy, flip_x, flip_y)
}

/// The offsets, relative to the cursor, of all cells that `code` marks.
pub open spec fn placed_offsets(
    code: Seq<u8>,
    w: int,
    h: int,
    swap_xy: bool,
    flip_x: bool,
    flip_y: bool,
) -> Seq<(int, int)> {
    let all = marks(code, code.len() as int);
    Seq::new(all.len(), |m: int| mark_offset(all[m], w, h, swap_xy, flip_x, flip_y))
}

/// Transform composition: mirroring in `x` negates the `x` offset, swapping
/// exchanges the two offsets, and with both set the swap comes first.
pub proof fn lemma_transform_composition(x: int, y: int)
    ensures
        transformed(x, y, false, true, false) == (-x, y),
        transformed(x, y, false, false, true) == (x, -y),
        transformed(x, y, true, false, false) == (y, x),
        transformed(x, y, true, true, false) == (-y, x),
        transformed(x, y, true, true, false) == ({
            let swapped = transformed(x, y, true, false, false);
            transformed(swapped.0, swapped.1, false, true, false)
        }),
        transformed(x, y, true, true, true) == ({
            let swapped = transformed(x, y, true, false, false);
            transformed(swapped.0, swapped.1, false, true, true)
        }),
{
}

proof fn lemma_span_grows(code: Seq<u8>, a: int, b: int)
    requires
        0 <= a <= b,
    ensures
        0 <= span(code, a) <= span(code, b),
    decreases b - a,
{
    if a < b {
        lemma_span_grows(code, a, b - 1);
    } else {
        lemma_span_nonnegative(code, a);
    }
}

proof fn lemma_span_nonnegative(code: Seq<u8>, n: int)
    ensures
        0 <= span(code, n),
    decreases n,
{
    if n > 0 {
        lemma_span_nonnegative(code, n - 1);
    }
}

/// A byte moves over 255 cells at most.
pub proof fn lemma_span_limit(code: Seq<u8>)
    ensures
        0 <= span(code, code.len() as int) <= 255 * code.len(),
{
    lemma_span_bound(code, code.len() as int);
    lemma_span_nonnegative(code, code.len() as int);
}

/// Every marked cell lies within the cells that the code moves over.
pub proof fn lemma_marks_range(code: Seq<u8>, n: int, m: int)
    requires
        0 <= m < marks(code, n).len(),
    ensures
        0 <= marks(code, n)[m] < span(code, n),
    decreases n,
{
    if n > 0 {
        lemma_span_nonnegative(code, n - 1);
        if m < marks(code, n - 1).len() {
            lemma_marks_range(code, n - 1, m);
        }
    }
}

/// No offset is further from the cursor than the box is large and the code
/// is long.
pub proof fn lemma_offset_range(
    code: Seq<u8>,
    w: int,
    h: int,
    swap_xy: bool,
    flip_x: bool,
    flip_y: bool,
    m: int,
)
    requires
        w > 0,
        h > 0,
        0 <= m < placed_offsets(code, w, h, swap_xy, flip_x, flip_y).len(),
    ensures
        ({
            let offset = placed_offsets(code, w, h, swap_xy, flip_x, flip_y)[m];
            let reach = w + h + span(code, code.len() as int);
            -reach <= offset.0 <= reach && -reach <= offset.1 <= reach
        }),
{
    let i = marks(code, code.len() as int)[m];
    lemma_marks_range(code, code.len() as int, m);
    vstd::arithmetic::div_mod::lemma_mod_bound(i, w);
    vstd::arithmetic::div_mod::lemma_div_pos_is_pos(i, w);
    vstd::arithmetic::div_mod::lemma_div_nonincreasing(i, w);
}

/// The code and the bounding box of a pattern of the catalog.
pub fn catalog_entry(kind: MacroKind) -> (entry: (Vec<u8>, i32, i32))
    ensures
        entry.0@ == catalog_code(kind),
        (entry.1 as int, entry.2 as int) == catalog_box(kind),
        span(entry.0@, entry.0@.len() as int) <= i32::MAX,
{
    let mut code: Vec<u8> = Vec::new();
    let (w, h): (i32, i32) = match kind {
        MacroKind::Glider => {
            copy_code(&mut code, &GLIDER);
            (3, 3)
        },
        MacroKind::GliderGun => {
            copy_code(&mut code, &GLIDER_GUN);
            (36, 9)
        },
        MacroKind::SpaceshipSmall => {
            copy_code(&mut code, &SPACESHIP_S);
            (5, 4)
        },
        MacroKind::SpaceshipMedium => {
            copy_code(&mut code, &SPACESHIP_M);
            (6, 4)
        },
        MacroKind::SpaceshipLarge => {
            copy_code(&mut code, &SPACESHIP_L);
            (7, 4)
        },
        MacroKind::Acorn => {
            copy_code(&mut code, &ACORN);
            (7, 3)
        },
    };
    proof {
        lemma_span_bound(code@, code@.len() as int);
    }
    (code, w, h)
}

proof fn lemma_span_bound(code: Seq<u8>, n: int)
    requires
        0 <= n <= code.len(),
    ensures
        span(code, n) <= 255 * n,
    decreases n,
{
    if n > 0 {
        lemma_span_bound(code, n - 1);
    }
}

fn copy_code(out: &mut Vec<u8>, code: &[u8])
    requires
        old(out)@.len() == 0,
    ensures
        final(out)@ == code@,
{
    let mut i: usize = 0;
    while i < code.len()
        invariant
            i <= code@.len(),
            out@ == code@.subrange(0, i as int),
        decreases code@.len() - i,
    {
        out.push(code[i]);
        assert(out@ =~= code@.subrange(0, i + 1));
        i += 1;
    }
    assert(out@ =~= code@);
}

/// Decodes a pattern: the offsets, relative to the cursor, of the cells it
/// marks, under the given transform.
pub fn pattern_offsets(
    code: &[u8],
    w: i32,
    h: i32,
    swap_xy: bool,
    flip_x: bool,
    flip_y: bool,
) -> (offsets: Vec<(i32, i32)>)
    requires
        w > 0,
        h > 0,
        span(code@, code@.len() as int) <= i32::MAX,
    ensures
        offsets@.len() == placed_offsets(code@, w as int, h as int, swap_xy, flip_x, flip_y).len(),
        forall|m: int|
            0 <= m < offsets@.len() ==> ((#[trigger] offsets@[m]).0 as int, offsets@[m].1 as int)
                == placed_offsets(code@, w as int, h as int, swap_xy, flip_x, flip_y)[m],
{
    let mut offsets: Vec<(i32, i32)> = Vec::new();
    let mut i: i32 = 0;
    let mut n: usize = 0;
    while n < code.len()
        invariant
            w > 0,
            h > 0,
            span(code@, code@.len() as int) <= i32::MAX,
            n <= code@.len(),
            i == span(code@, n as int),
            offsets@.len() == marks(code@, n as int).len(),
            forall|m: int|
                0 <= m < offsets@.len() ==> ((#[trigger] offsets@[m]).0 as int, offsets@[m].1 as int)
                    == mark_offset(
                    marks(code@, n as int)[m],
                    w as int,
                    h as int,
                    swap_xy,
                    flip_x,
                    flip_y,
                ),
        decreases code@.len() - n,
    {
        proof {
            lemma_span_grows(code@, n + 1, code@.len() as int);
            lemma_span_nonnegative(code@, n as int);
        }
        let skip: u8 = code[n];
        if skip > 0 {
            i = i + skip as i32;
        } else {
            let mut x: i32 = i % w - w / 2;
            let mut y: i32 = i / w - h / 2;
            proof {
                vstd::arithmetic::div_mod::lemma_mod_bound(i as int, w as int);
                vstd::arithmetic::div_mod::lemma_div_pos_is_pos(i as int, w as int);
                vstd::arithmetic::div_mod::lemma_div_nonincreasing(i as int, w as int);
            }
            if swap_xy {
                let kept: i32 = x;
                x = y;
                y = kept;
            }
            if flip_x {
                x = -x;
            }
            if flip_y {
                y = -y;
            }
            offsets.push((x, y));
            i = i + 1;
        }
        n += 1;
    }
    offsets
}

} // verus!
