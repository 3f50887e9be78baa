use vstd::prelude::*;

verus! {

/// Whether `v` is representable as an `i16`.
pub open spec fn in_i16(v: int) -> bool {
    -32768 <= v <= 32767
}

/// The distance still to go from `a` to `b` when moving in direction `pos`
/// (`true`: increasing).
pub open spec fn dist_to(a: int, b: int, pos: bool) -> int {
    if pos {
        b - a
    } else {
        a - b
    }
}

/// One step from `a` in direction `pos`.
pub open spec fn step(a: int, pos: bool) -> int {
    if pos {
        a + 1
    } else {
        a - 1
    }
}

/// The absolute value.
pub open spec fn abs_int(v: int) -> int {
    if v < 0 {
        -v
    } else {
        v
    }
}

/// The point `(x, y)` as stored.
pub open spec fn pt(x: int, y: int) -> (i16, i16) {
    (x as i16, y as i16)
}

/// Whether the state is on its way towards `(x1, y1)`.
pub open spec fn heading(x: int, y: int, x1: int, y1: int, px: bool, py: bool) -> bool {
    dist_to(x, x1, px) >= 0 && dist_to(y, y1, py) >= 0
}

/// Whether the Bresenham walk from `(x, y)` is well formed: on its way to
/// `(x1, y1)` with `dy <= 0 <= dx`.
pub open spec fn bresenham_state(x: int, y: int, x1: int, y1: int, dx: int, dy: int, px: bool, py: bool) -> bool {
    heading(x, y, x1, y1, px, py) && dy <= 0 <= dx
}

/// The points of the Bresenham walk from state `(x, y, err)` towards `(x1, y1)`,
/// with `dx = |x1 - x0|`, `dy = -|y1 - y0|` and step directions `px`, `py`.
/// Each round records the current point; then, if `2 * err >= dy`, the walk stops
/// at `x == x1` or steps in x (adding `dy` to the error); then, if `2 * err <= dx`
/// (the error as it was at the start of the round), the walk stops at `y == y1` or
/// steps in y (adding `dx` to the error).
pub open spec fn bresenham_from(
    x: int,
    y: int,
    err: int,
    x1: int,
    y1: int,
    dx: int,
    dy: int,
    px: bool,
    py: bool,
) -> Seq<(i16, i16)>
    decreases dist_to(x, x1, px) + dist_to(y, y1, py),
{
    let here = seq![pt(x, y)];
    if !bresenham_state(x, y, x1, y1, dx, dy, px, py) {
        here
    } else {
        let e2 = 2 * err;
        if e2 >= dy && x == x1 {
            here
        } else {
            let nx = if e2 >= dy {
                step(x, px)
            } else {
                x
            };
            let nerr = if e2 >= dy {
                err + dy
            } else {
                err
            };
            if e2 <= dx {
                if y == y1 {
                    here
                } else {
                    here + bresenham_from(nx, step(y, py), nerr + dx, x1, y1, dx, dy, px, py)
                }
            } else {
                here + bresenham_from(nx, y, nerr, x1, y1, dx, dy, px, py)
            }
        }
    }
}

/// Whether every value that the Bresenham walk from this state computes fits in
/// an `i16`.
pub open spec fn bresenham_fits_from(
    x: int,
    y: int,
    err: int,
    x1: int,
    y1: int,
    dx: int,
    dy: int,
    px: bool,
    py: bool,
) -> bool
    decreases dist_to(x, x1, px) + dist_to(y, y1, py),
{
    if !bresenham_state(x, y, x1, y1, dx, dy, px, py) {
        true
    } else {
        let e2 = 2 * err;
        &&& in_i16(e2)
        &&& if e2 >= dy && x == x1 {
            true
        } else {
            let nx = if e2 >= dy {
                step(x, px)
            } else {
                x
            };
            let nerr = if e2 >= dy {
                err + dy
            } else {
                err
            };
            &&& (e2 >= dy ==> in_i16(err + dy) && in_i16(step(x, px)))
            &&& (e2 <= dx ==> (y == y1 || (in_i16(nerr + dx) && in_i16(step(y, py))
                && bresenham_fits_from(nx, step(y, py), nerr + dx, x1, y1, dx, dy, px, py))))
            &&& (e2 > dx ==> bresenham_fits_from(nx, y, nerr, x1, y1, dx, dy, px, py))
        }
    }
}

/// The Bresenham line from `(x0, y0)` to `(x1, y1)`.
pub open spec fn bresenham_line(x0: int, y0: int, x1: int, y1: int) -> Seq<(i16, i16)> {
    let dx = abs_int(x1 - x0);
    let dy = -abs_int(y1 - y0);
    bresenham_from(x0, y0, dx + dy, x1, y1, dx, dy, x0 < x1, y0 < y1)
}

/// Whether drawing the Bresenham line from `(x0, y0)` to `(x1, y1)` keeps every
/// intermediate value within `i16`.
pub open spec fn bresenham_line_fits(x0: int, y0: int, x1: int, y1: int) -> bool {
    let dx = abs_int(x1 - x0);
    let dy = -abs_int(y1 - y0);
    &&& in_i16(x1 - x0) && x1 - x0 != -32768
    &&& in_i16(y1 - y0) && y1 - y0 != -32768
    &&& bresenham_fits_from(x0, y0, dx + dy, x1, y1, dx, dy, x0 < x1, y0 < y1)
}

/// Rasterizes the line from `(x0, y0)` to `(x1, y1)` with Bresenham's algorithm.
pub fn get_bresenham_line(x0: i16, y0: i16, x1: i16, y1: i16) -> (path: Vec<(i16, i16)>)
    requires
        bresenham_line_fits(x0 as int, y0 as int, x1 as int, y1 as int),
    ensures
        path@ == bresenham_line(x0 as int, y0 as int, x1 as int, y1 as int),
{
    let ghost full = bresenham_line(x0 as int, y0 as int, x1 as int, y1 as int);
    let ghost px = x0 < x1;
    let ghost py = y0 < y1;
    let mut x0 = x0;
    let mut y0 = y0;
    let mut path: Vec<(i16, i16)> = Vec::with_capacity(42);
    let ddx = x1 - x0;
    let dx: i16 = if ddx < 0 { -ddx } else { ddx };
    let sx: i16 = if x0 < x1 { 1 } else { -1 };
    let ddy = y1 - y0;
    let dy: i16 = -(if ddy < 0 { -ddy } else { ddy });
    let sy: i16 = if y0 < y1 { 1 } else { -1 };
    let mut error: i16 = dx + dy;
    loop
        invariant_except_break
            sx == (if px { 1int } else { -1int }),
            sy == (if py { 1int } else { -1int }),
            dx >= 0,
            dy <= 0,
            path@ + bresenham_from(x0 as int, y0 as int, error as int, x1 as int, y1 as int, dx as int, dy as int, px, py) == full,
            bresenham_fits_from(x0 as int, y0 as int, error as int, x1 as int, y1 as int, dx as int, dy as int, px, py),
            heading(x0 as int, y0 as int, x1 as int, y1 as int, px, py),
        ensures
            path@ == full,
        decreases dist_to(x0 as int, x1 as int, px) + dist_to(y0 as int, y1 as int, py),
    {
        let ghost before = path@;
        let ghost rest = bresenham_from(x0 as int, y0 as int, error as int, x1 as int, y1 as int, dx as int, dy as int, px, py);
        path.push((x0, y0));
        let e2 = 2 * error;
        let ghost e2_orig = e2;
        let ghost err_orig = error as int;
        let ghost y_orig = y0 as int;
        if e2 >= dy {
            if x0 == x1 {
                assert(path@ =~= before + rest);
                break;
            }
            error = error + dy;
            x0 = x0 + sx;
        }
        if e2 <= dx {
            if y0 == y1 {
                assert(path@ =~= before + rest);
                break;
            }
            error = error + dx;
            y0 = y0 + sy;
        }
        assert(path@ + bresenham_from(x0 as int, y0 as int, error as int, x1 as int, y1 as int, dx as int, dy as int, px, py) =~= before + rest);
    }
    path
}

} // verus!

verus! {

/// Whether `b` is one of the eight neighbours of `a`.
pub open spec fn adjacent(a: (i16, i16), b: (i16, i16)) -> bool {
    &&& abs_int(b.0 - a.0) <= 1
    &&& abs_int(b.1 - a.1) <= 1
    &&& a != b
}

/// Whether consecutive points of `s` are neighbours.
pub open spec fn is_connected_path(s: Seq<(i16, i16)>) -> bool {
    forall|i: int| 0 <= i < s.len() - 1 ==> #[trigger] adjacent(s[i], s[i + 1])
}

proof fn lemma_bresenham_walk(
    x: int,
    y: int,
    err: int,
    x1: int,
    y1: int,
    dx: int,
    dy: int,
    px: bool,
    py: bool,
)
    requires
        bresenham_state(x, y, x1, y1, dx, dy, px, py),
        in_i16(x),
        in_i16(y),
        in_i16(x1),
        in_i16(y1),
        dist_to(x, x1, px) <= dx,
        dist_to(y, y1, py) <= -dy,
        err == dx + dy - dy * dist_to(x, x1, px) - dx * dist_to(y, y1, py),
    ensures
        ({
            let s = bresenham_from(x, y, err, x1, y1, dx, dy, px, py);
            &&& s.len() >= 1
            &&& s[0] == pt(x, y)
            &&& s.last() == pt(x1, y1)
            &&& is_connected_path(s)
        }),
    decreases dist_to(x, x1, px) + dist_to(y, y1, py),
{
    let s = bresenham_from(x, y, err, x1, y1, dx, dy, px, py);
    let rx = dist_to(x, x1, px);
    let ry = dist_to(y, y1, py);
    let e2 = 2 * err;
    let here = seq![pt(x, y)];
    if e2 >= dy && x == x1 {
        // The walk stops in x; the error term shows that y has arrived as well.
        assert(rx == 0);
        assert(dy * rx == 0) by (nonlinear_arith)
            requires
                rx == 0,
        ;
        if ry >= 1 {
            assert(dx * ry >= dx) by (nonlinear_arith)
                requires
                    ry >= 1,
                    dx >= 0,
            ;
            assert(false);
        }
        assert(y == y1);
        assert(s == here);
    } else {
        let nx = if e2 >= dy {
            step(x, px)
        } else {
            x
        };
        let nerr = if e2 >= dy {
            err + dy
        } else {
            err
        };
        if e2 <= dx && y == y1 {
            assert(ry == 0);
            assert(dx * ry == 0) by (nonlinear_arith)
                requires
                    ry == 0,
            ;
            if e2 >= dy {
                // Stepping in x and stopping in y in the same round cannot happen.
                assert(rx >= 1);
                assert(dy * rx <= dy) by (nonlinear_arith)
                    requires
                        rx >= 1,
                        dy <= 0,
                ;
                assert(false);
            } else {
                if rx >= 1 {
                    assert(dy * rx <= dy) by (nonlinear_arith)
                        requires
                            rx >= 1,
                            dy <= 0,
                    ;
                    assert(false);
                }
                assert(x == x1);
            }
            assert(s == here);
        } else {
            let ny = if e2 <= dx {
                step(y, py)
            } else {
                y
            };
            let nerr2 = if e2 <= dx {
                nerr + dx
            } else {
                nerr
            };
            assert(e2 >= dy || e2 <= dx);
            let rx2 = dist_to(nx, x1, px);
            let ry2 = dist_to(ny, y1, py);
            if e2 >= dy {
                assert(rx2 == rx - 1);
                assert(dy * rx2 == dy * rx - dy) by (nonlinear_arith)
                    requires
                        rx2 == rx - 1,
                ;
            } else {
                assert(rx2 == rx);
            }
            if e2 <= dx {
                assert(ry2 == ry - 1);
                assert(dx * ry2 == dx * ry - dx) by (nonlinear_arith)
                    requires
                        ry2 == ry - 1,
                ;
            } else {
                assert(ry2 == ry);
            }
            assert(nerr2 == dx + dy - dy * rx2 - dx * ry2);
            let rest = bresenham_from(nx, ny, nerr2, x1, y1, dx, dy, px, py);
            assert(s == here + rest);
            lemma_bresenham_walk(nx, ny, nerr2, x1, y1, dx, dy, px, py);
            assert(rest.len() >= 1);
            assert(s[0] == pt(x, y));
            assert(s[1] == rest[0]);
            assert(s.last() == rest.last());
            assert(adjacent(here[0], rest[0]));
            assert forall|i: int| 0 <= i < s.len() - 1 implies #[trigger] adjacent(s[i], s[i + 1]) by {
                if i > 0 {
                    assert(s[i] == rest[i - 1]);
                    assert(s[i + 1] == rest[i]);
                    assert(adjacent(rest[i - 1], rest[(i - 1) + 1]));
                }
            }
        }
    }
}

/// The Bresenham line starts at `(x0, y0)`, ends at `(x1, y1)`, and each point
/// is a neighbour of the one before it.
pub proof fn lemma_bresenham_line_endpoints(x0: i16, y0: i16, x1: i16, y1: i16)
    ensures
        ({
            let line = bresenham_line(x0 as int, y0 as int, x1 as int, y1 as int);
            &&& line.len() >= 1
            &&& line[0] == (x0, y0)
            &&& line.last() == (x1, y1)
            &&& is_connected_path(line)
        }),
{
    let dx = abs_int(x1 - x0);
    let dy = -abs_int(y1 - y0);
    let rx = dist_to(x0 as int, x1 as int, x0 < x1);
    let ry = dist_to(y0 as int, y1 as int, y0 < y1);
    assert(rx == dx);
    assert(ry == -dy);
    assert(dx + dy - dy * rx - dx * ry == dx + dy) by (nonlinear_arith)
        requires
            rx == dx,
            ry == -dy,
    ;
    lemma_bresenham_walk(x0 as int, y0 as int, dx + dy, x1 as int, y1 as int, dx, dy, x0 < x1, y0 < y1);
}

} // verus!

verus! {

/// `a` moved `n` steps in direction `pos`.
pub open spec fn steps_from(a: int, n: int, pos: bool) -> int {
    if pos {
        a + n
    } else {
        a - n
    }
}

/// The points that the game's line walk records in its `k` remaining rounds from
/// state `(x, y, diff)`, with `dxa = |x1 - x0|`, `dya = |y1 - y0|`. Each round steps
/// in x and adds `2 * dya` to `diff`; when `diff` reaches `2 * dxa` it is reduced
/// by that amount and y steps, the point being recorded before the y step if
/// `diff` became 0 and after it otherwise.
pub open spec fn p3_steps(x: int, y: int, diff: int, k: nat, dxa: int, dya: int, px: bool, py: bool) -> Seq<(i16, i16)>
    decreases k,
{
    if k == 0 {
        Seq::empty()
    } else {
        let nx = step(x, px);
        let d1 = diff + 2 * dya;
        if d1 >= 2 * dxa {
            let d2 = d1 - 2 * dxa;
            let ny = step(y, py);
            if d2 == 0 {
                seq![pt(nx, y)] + p3_steps(nx, ny, d2, (k - 1) as nat, dxa, dya, px, py)
            } else {
                seq![pt(nx, ny)] + p3_steps(nx, ny, d2, (k - 1) as nat, dxa, dya, px, py)
            }
        } else {
            seq![pt(nx, y)] + p3_steps(nx, y, d1, (k - 1) as nat, dxa, dya, px, py)
        }
    }
}

/// Whether the `k` remaining rounds of the game's line walk keep every computed
/// value within `i16`.
pub open spec fn p3_steps_fit(x: int, y: int, diff: int, k: nat, dxa: int, dya: int, px: bool, py: bool) -> bool
    decreases k,
{
    if k == 0 {
        true
    } else {
        let nx = step(x, px);
        let d1 = diff + 2 * dya;
        &&& in_i16(nx)
        &&& in_i16(2 * dya)
        &&& in_i16(d1)
        &&& in_i16(2 * dxa)
        &&& if d1 >= 2 * dxa {
            let d2 = d1 - 2 * dxa;
            &&& in_i16(d2)
            &&& in_i16(step(y, py))
            &&& p3_steps_fit(nx, step(y, py), d2, (k - 1) as nat, dxa, dya, px, py)
        } else {
            p3_steps_fit(nx, y, d1, (k - 1) as nat, dxa, dya, px, py)
        }
    }
}

/// The line from `(x0, y0)` to `(x1, y1)` as the game walks it: one point per
/// column from `x0` to `x1`.
pub open spec fn p3_line(x0: int, y0: int, x1: int, y1: int) -> Seq<(i16, i16)> {
    let dxa = abs_int(x1 - x0);
    let dya = abs_int(y1 - y0);
    seq![pt(x0, y0)] + p3_steps(x0, y0, dxa, dxa as nat, dxa, dya, x0 < x1, y0 < y1)
}

/// Whether walking the game's line from `(x0, y0)` to `(x1, y1)` keeps every
/// computed value within `i16`.
pub open spec fn p3_line_fits(x0: int, y0: int, x1: int, y1: int) -> bool {
    let dxa = abs_int(x1 - x0);
    let dya = abs_int(y1 - y0);
    &&& in_i16(x1 - x0) && x1 - x0 != -32768
    &&& in_i16(y1 - y0) && y1 - y0 != -32768
    &&& p3_steps_fit(x0, y0, dxa, dxa as nat, dxa, dya, x0 < x1, y0 < y1)
}

/// Rasterizes the line from `(x0, y0)` to `(x1, y1)` the way the game's
/// navigation code does.
pub fn get_p3_line(x0: i16, y0: i16, x1: i16, y1: i16) -> (path: Vec<(i16, i16)>)
    requires
        p3_line_fits(x0 as int, y0 as int, x1 as int, y1 as int),
    ensures
        path@ == p3_line(x0 as int, y0 as int, x1 as int, y1 as int),
{
    let ghost full = p3_line(x0 as int, y0 as int, x1 as int, y1 as int);
    let ghost px = x0 < x1;
    let ghost py = y0 < y1;
    let mut x0 = x0;
    let mut y0 = y0;
    let mut path: Vec<(i16, i16)> = Vec::with_capacity(42);
    path.push((x0, y0));
    let ddx = x1 - x0;
    let dx_abs: i16 = if ddx < 0 { -ddx } else { ddx };
    let ddy = y1 - y0;
    let dy_abs: i16 = if ddy < 0 { -ddy } else { ddy };
    let sx: i16 = if x0 < x1 { 1 } else { -1 };
    let sy: i16 = if y0 < y1 { 1 } else { -1 };

    let mut diff: i16 = dx_abs;
    let steps: i16 = dx_abs;
    let mut i: i16 = 0;
    while i < steps
        invariant
            sx == (if px { 1int } else { -1int }),
            sy == (if py { 1int } else { -1int }),
            0 <= i <= steps,
            steps == dx_abs,
            dx_abs >= 0,
            dy_abs >= 0,
            path@ + p3_steps(x0 as int, y0 as int, diff as int, (steps - i) as nat, dx_abs as int, dy_abs as int, px, py) == full,
            p3_steps_fit(x0 as int, y0 as int, diff as int, (steps - i) as nat, dx_abs as int, dy_abs as int, px, py),
        decreases steps - i,
    {
        let ghost before = path@;
        let ghost rest = p3_steps(x0 as int, y0 as int, diff as int, (steps - i) as nat, dx_abs as int, dy_abs as int, px, py);
        x0 += sx;
        diff += 2 * dy_abs;
        if diff >= 2 * dx_abs {
            diff -= 2 * dx_abs;
            if diff == 0 {
                path.push((x0, y0));
                y0 += sy;
            } else {
                y0 += sy;
                path.push((x0, y0));
            }
        } else {
            path.push((x0, y0));
        }
        i += 1;
        assert(path@ + p3_steps(x0 as int, y0 as int, diff as int, (steps - i) as nat, dx_abs as int, dy_abs as int, px, py) =~= before + rest);
    }
    assert(path@ =~= full);
    path
}

proof fn lemma_p3_steps_columns(x: int, y: int, diff: int, k: nat, dxa: int, dya: int, px: bool, py: bool)
    requires
        in_i16(x),
        in_i16(steps_from(x, k as int, px)),
    ensures
        ({
            let s = p3_steps(x, y, diff, k, dxa, dya, px, py);
            &&& s.len() == k
            &&& forall|j: int| 0 <= j < k ==> (#[trigger] s[j]).0 == steps_from(x, j + 1, px)
        }),
    decreases k,
{
    if k > 0 {
        let nx = step(x, px);
        let d1 = diff + 2 * dya;
        let s = p3_steps(x, y, diff, k, dxa, dya, px, py);
        let (ny, nd) = if d1 >= 2 * dxa {
            (step(y, py), d1 - 2 * dxa)
        } else {
            (y, d1)
        };
        lemma_p3_steps_columns(nx, ny, nd, (k - 1) as nat, dxa, dya, px, py);
        let rest = p3_steps(nx, ny, nd, (k - 1) as nat, dxa, dya, px, py);
        assert(s.len() == k);
        assert forall|j: int| 0 <= j < k implies (#[trigger] s[j]).0 == steps_from(x, j + 1, px) by {
            if j > 0 {
                assert(s[j] == rest[j - 1]);
            }
        }
    }
}

/// The game's line has one point per column: it starts at `(x0, y0)`, its `j`-th
/// point lies `j` columns from `x0` towards `x1`, and its last point lies in
/// column `x1`.
pub proof fn lemma_p3_line_columns(x0: i16, y0: i16, x1: i16, y1: i16)
    requires
        in_i16(x1 - x0),
    ensures
        ({
            let line = p3_line(x0 as int, y0 as int, x1 as int, y1 as int);
            &&& line.len() == abs_int(x1 - x0) + 1
            &&& line[0] == (x0, y0)
            &&& forall|j: int| 0 <= j < line.len() ==> (#[trigger] line[j]).0 == steps_from(x0 as int, j, x0 < x1)
            &&& line.last().0 == x1
        }),
{
    let dxa = abs_int(x1 - x0);
    let dya = abs_int(y1 - y0);
    let px = x0 < x1;
    lemma_p3_steps_columns(x0 as int, y0 as int, dxa, dxa as nat, dxa, dya, px, y0 < y1);
    let line = p3_line(x0 as int, y0 as int, x1 as int, y1 as int);
    let s = p3_steps(x0 as int, y0 as int, dxa, dxa as nat, dxa, dya, px, y0 < y1);
    assert forall|j: int| 0 <= j < line.len() implies (#[trigger] line[j]).0 == steps_from(x0 as int, j, px) by {
        if j > 0 {
            assert(line[j] == s[j - 1]);
        }
    }
    assert(line[line.len() - 1].0 == steps_from(x0 as int, dxa, px));
}

/// The point `p` moved by `a` columns and `b` rows.
pub open spec fn shifted(p: (i16, i16), a: int, b: int) -> (i16, i16) {
    ((p.0 + a) as i16, (p.1 + b) as i16)
}

/// Whether `v` lies at least `k` away from both ends of the `i16` range.
pub open spec fn within_i16(v: int, k: int) -> bool {
    -32768 + k <= v <= 32767 - k
}

proof fn lemma_p3_steps_shift(
    x: int,
    y: int,
    diff: int,
    k: nat,
    dxa: int,
    dya: int,
    px: bool,
    py: bool,
    a: int,
    b: int,
)
    requires
        within_i16(x, k as int),
        within_i16(y, k as int),
        within_i16(x + a, k as int),
        within_i16(y + b, k as int),
    ensures
        ({
            let s = p3_steps(x, y, diff, k, dxa, dya, px, py);
            let t = p3_steps(x + a, y + b, diff, k, dxa, dya, px, py);
            &&& s.len() == k
            &&& t.len() == k
            &&& forall|j: int| 0 <= j < k ==> #[trigger] t[j] == shifted(s[j], a, b)
        }),
    decreases k,
{
    if k > 0 {
        let nx = step(x, px);
        let d1 = diff + 2 * dya;
        assert(step(x + a, px) == nx + a);
        let (ny, nd, hy) = if d1 >= 2 * dxa {
            let d2 = d1 - 2 * dxa;
            (step(y, py), d2, if d2 == 0 {
                y
            } else {
                step(y, py)
            })
        } else {
            (y, d1, y)
        };
        assert(step(y + b, py) == step(y, py) + b);
        lemma_p3_steps_shift(nx, ny, nd, (k - 1) as nat, dxa, dya, px, py, a, b);
        let s = p3_steps(x, y, diff, k, dxa, dya, px, py);
        let t = p3_steps(x + a, y + b, diff, k, dxa, dya, px, py);
        let rs = p3_steps(nx, ny, nd, (k - 1) as nat, dxa, dya, px, py);
        let rt = p3_steps(nx + a, ny + b, nd, (k - 1) as nat, dxa, dya, px, py);
        assert(s == seq![pt(nx, hy)] + rs);
        assert(t == seq![pt(nx + a, hy + b)] + rt);
        assert(pt(nx + a, hy + b) == shifted(pt(nx, hy), a, b));
        assert forall|j: int| 0 <= j < k implies #[trigger] t[j] == shifted(s[j], a, b) by {
            if j > 0 {
                assert(t[j] == rt[j - 1]);
                assert(s[j] == rs[j - 1]);
            }
        }
    }
}

/// Moving both end points of the game's line by `a` columns and `b` rows moves
/// every point of the line by as much, for end points on a map of up to 8000
/// by 8000 cells.
pub proof fn lemma_p3_line_translation(x0: i16, y0: i16, x1: i16, y1: i16, a: int, b: int)
    requires
        0 <= x0 <= 8000,
        0 <= y0 <= 8000,
        0 <= x1 <= 8000,
        0 <= y1 <= 8000,
        0 <= x0 + a <= 8000,
        0 <= y0 + b <= 8000,
        0 <= x1 + a <= 8000,
        0 <= y1 + b <= 8000,
    ensures
        ({
            let line = p3_line(x0 as int, y0 as int, x1 as int, y1 as int);
            let moved = p3_line(x0 + a, y0 + b, x1 + a, y1 + b);
            &&& moved.len() == line.len()
            &&& forall|j: int| 0 <= j < line.len() ==> #[trigger] moved[j] == shifted(line[j], a, b)
        }),
{
    let dxa = abs_int(x1 - x0);
    let dya = abs_int(y1 - y0);
    let px = x0 < x1;
    let py = y0 < y1;
    assert(abs_int((x1 + a) - (x0 + a)) == dxa);
    assert(abs_int((y1 + b) - (y0 + b)) == dya);
    lemma_p3_steps_shift(x0 as int, y0 as int, dxa, dxa as nat, dxa, dya, px, py, a, b);
    let line = p3_line(x0 as int, y0 as int, x1 as int, y1 as int);
    let moved = p3_line(x0 + a, y0 + b, x1 + a, y1 + b);
    let s = p3_steps(x0 as int, y0 as int, dxa, dxa as nat, dxa, dya, px, py);
    let t = p3_steps(x0 + a, y0 + b, dxa, dxa as nat, dxa, dya, px, py);
    assert(moved == seq![pt(x0 + a, y0 + b)] + t);
    assert(line == seq![pt(x0 as int, y0 as int)] + s);
    assert forall|j: int| 0 <= j < line.len() implies #[trigger] moved[j] == shifted(line[j], a, b) by {
        if j > 0 {
            assert(moved[j] == t[j - 1]);
            assert(line[j] == s[j - 1]);
        }
    }
}

proof fn lemma_p3_steps_fit_bounded(x: int, y: int, diff: int, k: nat, dxa: int, dya: int, px: bool, py: bool)
    requires
        0 <= dya <= dxa <= 8000,
        0 <= diff <= 2 * dxa,
        within_i16(x, k as int),
        within_i16(y, k as int),
    ensures
        p3_steps_fit(x, y, diff, k, dxa, dya, px, py),
    decreases k,
{
    if k > 0 {
        let nx = step(x, px);
        let d1 = diff + 2 * dya;
        if d1 >= 2 * dxa {
            lemma_p3_steps_fit_bounded(nx, step(y, py), d1 - 2 * dxa, (k - 1) as nat, dxa, dya, px, py);
        } else {
            lemma_p3_steps_fit_bounded(nx, y, d1, (k - 1) as nat, dxa, dya, px, py);
        }
    }
}

/// On a map of up to 8000 by 8000 cells, the game's line between two points
/// whose rows differ no more than their columns can be walked within `i16`.
pub proof fn lemma_p3_line_fits_on_map(x0: i16, y0: i16, x1: i16, y1: i16)
    requires
        0 <= x0 <= 8000,
        0 <= y0 <= 8000,
        0 <= x1 <= 8000,
        0 <= y1 <= 8000,
        abs_int(y1 - y0) <= abs_int(x1 - x0),
    ensures
        p3_line_fits(x0 as int, y0 as int, x1 as int, y1 as int),
{
    let dxa = abs_int(x1 - x0);
    let dya = abs_int(y1 - y0);
    lemma_p3_steps_fit_bounded(x0 as int, y0 as int, dxa, dxa as nat, dxa, dya, x0 < x1, y0 < y1);
}

proof fn lemma_bresenham_fits_bounded(
    x: int,
    y: int,
    err: int,
    x1: int,
    y1: int,
    dx: int,
    dy: int,
    px: bool,
    py: bool,
)
    requires
        0 <= x <= 8000,
        0 <= y <= 8000,
        0 <= x1 <= 8000,
        0 <= y1 <= 8000,
        0 <= dx <= 8000,
        -8000 <= dy <= 0,
        3 * dy <= 2 * err <= 3 * dx,
    ensures
        bresenham_fits_from(x, y, err, x1, y1, dx, dy, px, py),
    decreases dist_to(x, x1, px) + dist_to(y, y1, py),
{
    if bresenham_state(x, y, x1, y1, dx, dy, px, py) {
        let e2 = 2 * err;
        if !(e2 >= dy && x == x1) {
            let nx = if e2 >= dy {
                step(x, px)
            } else {
                x
            };
            let nerr = if e2 >= dy {
                err + dy
            } else {
                err
            };
            if e2 <= dx {
                if y != y1 {
                    lemma_bresenham_fits_bounded(nx, step(y, py), nerr + dx, x1, y1, dx, dy, px, py);
                }
            } else {
                lemma_bresenham_fits_bounded(nx, y, nerr, x1, y1, dx, dy, px, py);
            }
        }
    }
}

/// On a map of up to 8000 by 8000 cells, the Bresenham line between any two
/// points can be drawn within `i16`.
pub proof fn lemma_bresenham_line_fits_on_map(x0: i16, y0: i16, x1: i16, y1: i16)
    requires
        0 <= x0 <= 8000,
        0 <= y0 <= 8000,
        0 <= x1 <= 8000,
        0 <= y1 <= 8000,
    ensures
        bresenham_line_fits(x0 as int, y0 as int, x1 as int, y1 as int),
{
    let dx = abs_int(x1 - x0);
    let dy = -abs_int(y1 - y0);
    lemma_bresenham_fits_bounded(x0 as int, y0 as int, dx + dy, x1 as int, y1 as int, dx, dy, x0 < x1, y0 < y1);
}

proof fn lemma_p3_steps_rows(
    x: int,
    y: int,
    diff: int,
    k: nat,
    dxa: int,
    dya: int,
    px: bool,
    py: bool,
    r: int,
)
    requires
        0 < dxa,
        0 <= dya <= dxa,
        0 <= diff < 2 * dxa,
        0 <= r,
        2 * dxa * r <= diff + 2 * dya * k < 2 * dxa * (r + 1),
        in_i16(x),
        in_i16(steps_from(x, k as int, px)),
        in_i16(y),
        in_i16(steps_from(y, r, py)),
    ensures
        ({
            let s = p3_steps(x, y, diff, k, dxa, dya, px, py);
            let t = steps_from(y, r, py);
            &&& s.len() == k
            &&& forall|j: int|
                0 <= j < k ==> dist_to(y, (#[trigger] s[j]).1 as int, py) >= 0 && dist_to(s[j].1 as int, t, py) >= 0
            &&& forall|j: int, l: int|
                0 <= j <= l < k ==> dist_to((#[trigger] s[j]).1 as int, (#[trigger] s[l]).1 as int, py) >= 0
            &&& (k > 0 && diff + 2 * dya * k != 2 * dxa * r) ==> s[k - 1].1 == t
        }),
    decreases k,
{
    if k > 0 {
        let nx = step(x, px);
        let d1 = diff + 2 * dya;
        let t = steps_from(y, r, py);
        let s = p3_steps(x, y, diff, k, dxa, dya, px, py);
        let k1 = (k - 1) as nat;
        assert(2 * dya * k == 2 * dya * k1 + 2 * dya) by (nonlinear_arith)
            requires
                k1 == k - 1,
        ;
        assert(2 * dxa * r == 2 * dxa * (r - 1) + 2 * dxa) by (nonlinear_arith);
        assert(2 * dxa * (r + 1) == 2 * dxa * r + 2 * dxa) by (nonlinear_arith);
        assert(2 * dxa * ((r - 1) + 1) == 2 * dxa * r) by (nonlinear_arith);
        assert(2 * dya * k1 >= 0) by (nonlinear_arith)
            requires
                dya >= 0,
        ;
        if d1 >= 2 * dxa {
            let d2 = d1 - 2 * dxa;
            let ny = step(y, py);
            assert(r >= 1) by (nonlinear_arith)
                requires
                    d1 >= 2 * dxa,
                    diff + 2 * dya * k >= d1,
                    diff + 2 * dya * k < 2 * dxa * (r + 1),
                    dxa > 0,
            ;
            let hy = if d2 == 0 {
                y
            } else {
                ny
            };
            assert(2 * dxa * (r - 1) <= d2 + 2 * dya * k1 < 2 * dxa * ((r - 1) + 1));
            lemma_p3_steps_rows(nx, ny, d2, k1, dxa, dya, px, py, r - 1);
            let rest = p3_steps(nx, ny, d2, (k - 1) as nat, dxa, dya, px, py);
            assert(s == seq![pt(nx, hy)] + rest);
            assert(s[0].1 == hy);
            assert forall|j: int| 0 < j < k implies #[trigger] s[j] == rest[j - 1] by {}
            if k == 1 {
                assert(k1 == 0);
                assert(2 * dya * k1 == 0);
                assert(r == 1) by (nonlinear_arith)
                    requires
                        2 * dxa * (r - 1) <= d2 < 2 * dxa,
                        r >= 1,
                        dxa > 0,
                ;
            }
        } else {
            assert(2 * dxa * r <= d1 + 2 * dya * k1 < 2 * dxa * (r + 1));
            lemma_p3_steps_rows(nx, y, d1, k1, dxa, dya, px, py, r);
            let rest = p3_steps(nx, y, d1, (k - 1) as nat, dxa, dya, px, py);
            assert(s == seq![pt(nx, y)] + rest);
            assert(s[0].1 == y);
            assert forall|j: int| 0 < j < k implies #[trigger] s[j] == rest[j - 1] by {}
            if k == 1 {
                assert(k1 == 0);
                assert(2 * dya * k1 == 0);
                assert(r == 0) by (nonlinear_arith)
                    requires
                        2 * dxa * r <= d1 < 2 * dxa,
                        r >= 0,
                        dxa > 0,
                ;
            }
        }
    }
}

/// The game's line between two points whose rows differ no more than their
/// columns ends at the end point, and its rows move monotonically from the
/// start row to the end row: every row lies between `y0` and `y1`, and no
/// point lies further back from `y1` than one before it.
pub proof fn lemma_p3_line_reaches_its_end(x0: i16, y0: i16, x1: i16, y1: i16)
    requires
        in_i16(x1 - x0),
        abs_int(y1 - y0) <= abs_int(x1 - x0),
    ensures
        ({
            let line = p3_line(x0 as int, y0 as int, x1 as int, y1 as int);
            let py = y0 < y1;
            &&& line.last() == (x1, y1)
            &&& forall|j: int|
                0 <= j < line.len() ==> dist_to(y0 as int, (#[trigger] line[j]).1 as int, py) >= 0 && dist_to(
                    line[j].1 as int,
                    y1 as int,
                    py,
                ) >= 0
            &&& forall|j: int, l: int|
                0 <= j <= l < line.len() ==> dist_to((#[trigger] line[j]).1 as int, (#[trigger] line[l]).1 as int, py)
                    >= 0
        }),
{
    let dxa = abs_int(x1 - x0);
    let dya = abs_int(y1 - y0);
    let px = x0 < x1;
    let py = y0 < y1;
    let line = p3_line(x0 as int, y0 as int, x1 as int, y1 as int);
    lemma_p3_line_columns(x0, y0, x1, y1);
    if dxa == 0 {
        assert(line.len() == 1);
    } else {
        assert(steps_from(y0 as int, dya, py) == y1);
        assert(steps_from(x0 as int, dxa, px) == x1);
        assert(2 * dxa * dya <= dxa + 2 * dya * dxa < 2 * dxa * (dya + 1)) by (nonlinear_arith)
            requires
                dxa > 0,
        ;
        lemma_p3_steps_rows(x0 as int, y0 as int, dxa, dxa as nat, dxa, dya, px, py, dya);
        let s = p3_steps(x0 as int, y0 as int, dxa, dxa as nat, dxa, dya, px, py);
        assert(line == seq![pt(x0 as int, y0 as int)] + s);
        assert forall|j: int| 0 < j < line.len() implies #[trigger] line[j] == s[j - 1] by {}
        assert(dxa + 2 * dya * dxa != 2 * dxa * dya) by (nonlinear_arith)
            requires
                dxa > 0,
        ;
        assert(s[dxa - 1].1 == y1);
        assert(line.last() == s[dxa - 1]);
        assert(line[0].1 == y0);
    }
}

} // verus!
