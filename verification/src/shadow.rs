//! Shadow footprints: of all that stands in one column of the grid, only the
//! lowest casts a shadow on the floor.
//!
//! A column is the set of cells that share `x` and `y`. The footprints of a
//! sequence of cells hold one entry for each column that the sequence
//! visits, in the order in which it first visits them, and each entry
//! carries the least `z` that the sequence has in its column.

use vstd::prelude::*;
use crate::vector::IVec3;

verus! {

/// Whether `a` and `b` lie in the same column.
pub open spec fn same_column(a: IVec3, b: IVec3) -> bool {
    a.x == b.x && a.y == b.y
}

/// The least `z` among the cells of `cells` in the column `(x, y)`, or
/// `None` where `cells` has no cell there.
pub open spec fn column_floor(cells: Seq<IVec3>, x: int, y: int) -> Option<i32>
    decreases cells.len(),
{
    if cells.len() == 0 {
        None
    } else {
        let before = column_floor(cells.drop_last(), x, y);
        let cell = cells.last();
        if cell.x == x && cell.y == y {
            match before {
                Some(z) if z <= cell.z => Some(z),
                _ => Some(cell.z),
            }
        } else {
            before
        }
    }
}

/// The cells of `cells` that are the first in their column, in their order.
pub open spec fn column_heads(cells: Seq<IVec3>) -> Seq<IVec3>
    decreases cells.len(),
{
    if cells.len() == 0 {
        Seq::empty()
    } else {
        let before = column_heads(cells.drop_last());
        let cell = cells.last();
        if column_floor(cells.drop_last(), cell.x as int, cell.y as int) is None {
            before.push(cell)
        } else {
            before
        }
    }
}

/// Whether one of `entries` lies in the column of `p`.
pub open spec fn covers_column(entries: Seq<IVec3>, p: IVec3) -> bool {
    exists|k: int| 0 <= k < entries.len() && same_column(#[trigger] entries[k], p)
}

/// The footprint of the column of `head`: its `x` and `y`, and the least
/// `z` that `cells` has in the column.
pub open spec fn footprint(cells: Seq<IVec3>, head: IVec3) -> IVec3 {
    IVec3 {
        x: head.x,
        y: head.y,
        z: match column_floor(cells, head.x as int, head.y as int) {
            Some(z) => z,
            None => head.z,
        },
    }
}

/// The footprints of `cells`: one for each column visited, in the order of
/// the first visits.
pub open spec fn footprints(cells: Seq<IVec3>) -> Seq<IVec3> {
    Seq::new(column_heads(cells).len(), |k: int| footprint(cells, column_heads(cells)[k]))
}

/// The floor of a column is `None` exactly where no cell lies in the column;
/// else it is the `z` of a cell in the column and no cell in the column lies
/// lower.
pub proof fn lemma_column_floor(cells: Seq<IVec3>, x: int, y: int)
    ensures
        column_floor(cells, x, y) is None <==> forall|i: int|
            0 <= i < cells.len() ==> !(#[trigger] cells[i].x == x && cells[i].y == y),
        column_floor(cells, x, y) is Some ==> exists|i: int|
            0 <= i < cells.len() && #[trigger] cells[i].x == x && cells[i].y == y && cells[i].z
                == column_floor(cells, x, y)->0,
        forall|i: int|
            0 <= i < cells.len() && #[trigger] cells[i].x == x && cells[i].y == y
                ==> column_floor(cells, x, y) is Some && column_floor(cells, x, y)->0
                <= cells[i].z,
    decreases cells.len(),
{
    if cells.len() > 0 {
        let front = cells.drop_last();
        let last = cells.len() - 1;
        lemma_column_floor(front, x, y);
        assert forall|i: int| 0 <= i < front.len() implies front[i] == cells[i] by {}
        if column_floor(cells, x, y) is None {
            assert forall|i: int| 0 <= i < cells.len() implies !(#[trigger] cells[i].x == x
                && cells[i].y == y) by {
                if i < last {
                    assert(front[i] == cells[i]);
                }
            }
        } else {
            if cells[last].x == x && cells[last].y == y && column_floor(cells, x, y)->0
                == cells[last].z {
            } else {
                let i = choose|i: int|
                    0 <= i < front.len() && #[trigger] front[i].x == x && front[i].y == y
                        && front[i].z == column_floor(front, x, y)->0;
                assert(cells[i] == front[i]);
            }
        }
        assert forall|i: int|
            0 <= i < cells.len() && #[trigger] cells[i].x == x && cells[i].y
                == y implies column_floor(cells, x, y) is Some && column_floor(cells, x, y)->0
            <= cells[i].z by {
            if i < last {
                assert(front[i] == cells[i]);
            }
        }
    }
}

/// Each column head is a cell of the sequence, no two of them share a
/// column, and every cell of the sequence lies in the column of one of
/// them.
pub proof fn lemma_column_heads(cells: Seq<IVec3>)
    ensures
        forall|k: int|
            0 <= k < column_heads(cells).len() ==> cells.contains(#[trigger] column_heads(cells)[k]),
        forall|k: int, l: int|
            0 <= k < column_heads(cells).len() && 0 <= l < column_heads(cells).len() && k != l
                ==> !same_column(#[trigger] column_heads(cells)[k], #[trigger] column_heads(cells)[l]),
        forall|i: int|
            0 <= i < cells.len() ==> covers_column(column_heads(cells), #[trigger] cells[i]),
    decreases cells.len(),
{
    if cells.len() > 0 {
        let front = cells.drop_last();
        let last = cells.last();
        let heads = column_heads(cells);
        let before = column_heads(front);
        lemma_column_heads(front);
        lemma_column_floor(front, last.x as int, last.y as int);
        let fresh = column_floor(front, last.x as int, last.y as int) is None;
        assert forall|k: int| 0 <= k < heads.len() implies cells.contains(#[trigger] heads[k]) by {
            if k < before.len() {
                assert(front.contains(before[k]));
                let i = choose|i: int| 0 <= i < front.len() && front[i] == before[k];
                assert(cells[i] == before[k]);
            } else {
                assert(cells[cells.len() - 1] == heads[k]);
            }
        }
        assert forall|k: int, l: int|
            0 <= k < heads.len() && 0 <= l < heads.len() && k != l implies !same_column(
            #[trigger] heads[k],
            #[trigger] heads[l],
        ) by {
            if k < before.len() && l < before.len() {
                assert(!same_column(before[k], before[l]));
            } else {
                let m = if k < before.len() {
                    k
                } else {
                    l
                };
                assert(front.contains(before[m]));
                let i = choose|i: int| 0 <= i < front.len() && front[i] == before[m];
                assert(!(front[i].x == last.x && front[i].y == last.y));
            }
        }
        assert forall|i: int| 0 <= i < cells.len() implies covers_column(
            heads,
            #[trigger] cells[i],
        ) by {
            if i < front.len() {
                assert(front[i] == cells[i]);
                assert(covers_column(before, front[i]));
                let k = choose|k: int|
                    0 <= k < before.len() && same_column(#[trigger] before[k], front[i]);
                assert(same_column(heads[k], cells[i]));
            } else if fresh {
                assert(same_column(heads[heads.len() - 1], cells[i]));
            } else {
                let j = choose|j: int|
                    0 <= j < front.len() && #[trigger] front[j].x == last.x && front[j].y
                        == last.y && front[j].z == column_floor(
                        front,
                        last.x as int,
                        last.y as int,
                    )->0;
                assert(covers_column(before, front[j]));
                let k = choose|k: int|
                    0 <= k < before.len() && same_column(#[trigger] before[k], front[j]);
                assert(same_column(heads[k], cells[i]));
            }
        }
    }
}

/// Every cell has exactly one footprint in its column, and that footprint
/// lies at the least height that the sequence has there: at the height of
/// some cell of the column, and no higher than any of them.
pub proof fn lemma_footprints(cells: Seq<IVec3>, i: int)
    requires
        0 <= i < cells.len(),
    ensures
        exists|k: int|
            0 <= k < footprints(cells).len() && same_column(
                #[trigger] footprints(cells)[k],
                cells[i],
            ),
        forall|k: int, l: int|
            0 <= k < footprints(cells).len() && 0 <= l < footprints(cells).len() && same_column(
                #[trigger] footprints(cells)[k],
                cells[i],
            ) && same_column(#[trigger] footprints(cells)[l], cells[i]) ==> k == l,
        forall|k: int|
            0 <= k < footprints(cells).len() && same_column(
                #[trigger] footprints(cells)[k],
                cells[i],
            ) ==> footprints(cells)[k].z <= cells[i].z && exists|j: int|
                0 <= j < cells.len() && same_column(#[trigger] cells[j], cells[i]) && cells[j].z
                    == footprints(cells)[k].z,
{
    let heads = column_heads(cells);
    let prints = footprints(cells);
    lemma_column_heads(cells);
    assert(covers_column(heads, cells[i]));
    let k0 = choose|k: int| 0 <= k < heads.len() && same_column(#[trigger] heads[k], cells[i]);
    assert(same_column(prints[k0], cells[i]));
    assert forall|k: int, l: int|
        0 <= k < prints.len() && 0 <= l < prints.len() && same_column(
            #[trigger] prints[k],
            cells[i],
        ) && same_column(#[trigger] prints[l], cells[i]) implies k == l by {
        if k != l {
            assert(!same_column(heads[k], heads[l]));
        }
    }
    assert forall|k: int|
        0 <= k < prints.len() && same_column(
            #[trigger] prints[k],
            cells[i],
        ) implies prints[k].z <= cells[i].z && exists|j: int|
        0 <= j < cells.len() && same_column(#[trigger] cells[j], cells[i]) && cells[j].z
            == prints[k].z by {
        let x = cells[i].x as int;
        let y = cells[i].y as int;
        lemma_column_floor(cells, x, y);
        assert(cells[i].x == x && cells[i].y == y);
        let j = choose|j: int|
            0 <= j < cells.len() && #[trigger] cells[j].x == x && cells[j].y == y && cells[j].z
                == column_floor(cells, x, y)->0;
        assert(same_column(cells[j], cells[i]));
    }
}

/// The footprints of the apple and the body: for every column of a grid of
/// `width` by `height` columns in which the apple or a cell of the body
/// lies, the column's `x` and `y` and the least `z` found in it. The apple's
/// column comes first, then the columns of the body in the order in which
/// the body first enters them.
pub fn shadow_footprints(width: usize, height: usize, apple: IVec3, body: &Vec<IVec3>) -> (prints:
    Vec<IVec3>)
    requires
        width * height <= usize::MAX,
        0 <= apple.x < width && 0 <= apple.y < height,
        forall|i: int|
            0 <= i < body@.len() ==> 0 <= (#[trigger] body@[i]).x < width && 0 <= body@[i].y
                < height,
    ensures
        prints@ == footprints(seq![apple] + body@),
{
    let ghost cells = seq![apple] + body@;
    let columns: usize = width * height;
    let mut floors: Vec<Option<i32>> = Vec::new();
    let mut n: usize = 0;
    while n < columns
        invariant
            n <= columns,
            floors@.len() == n,
            forall|c: int| 0 <= c < n ==> floors@[c] is None,
        decreases columns - n,
    {
        floors.push(None);
        n = n + 1;
    }
    let mut heads: Vec<IVec3> = Vec::new();
    heads.push(apple);
    proof {
        lemma_column_in_range(width, height, apple.x as int, apple.y as int);
    }
    floors[apple.x as usize * height + apple.y as usize] = Some(apple.z);
    proof {
        let seen = seq![apple];
        assert(seen.drop_last() =~= Seq::<IVec3>::empty());
        assert(column_heads(seen.drop_last()) =~= Seq::<IVec3>::empty());
        assert(heads@ =~= column_heads(seen));
        assert(cells.subrange(0, 1) =~= seen);
        assert forall|x: int, y: int| 0 <= x < width && 0 <= y < height implies floors@[x * height
            + y] == #[trigger] column_floor(seen, x, y) by {
            lemma_column_in_range(width, height, x, y);
            lemma_column_injective(width, height, x, y, apple.x as int, apple.y as int);
            assert(column_floor(seen.drop_last(), x, y) is None);
        }
    }
    let mut i: usize = 0;
    while i < body.len()
        invariant
            i <= body@.len(),
            columns == width * height,
            floors@.len() == columns,
            cells == seq![apple] + body@,
            0 <= apple.x < width && 0 <= apple.y < height,
            forall|j: int|
                0 <= j < body@.len() ==> 0 <= (#[trigger] body@[j]).x < width && 0 <= body@[j].y
                    < height,
            heads@ == column_heads(cells.subrange(0, i + 1)),
            forall|x: int, y: int|
                0 <= x < width && 0 <= y < height ==> floors@[x * height + y]
                    == #[trigger] column_floor(cells.subrange(0, i + 1), x, y),
        decreases body@.len() - i,
    {
        let cell = body[i];
        let ghost seen = cells.subrange(0, i + 1);
        let ghost next = cells.subrange(0, i + 2);
        proof {
            assert(cells[i + 1] == cell);
            assert(next.drop_last() =~= seen);
            assert(next.last() == cell);
            lemma_column_in_range(width, height, cell.x as int, cell.y as int);
            assert(floors@[cell.x * height + cell.y] == column_floor(
                seen,
                cell.x as int,
                cell.y as int,
            ));
        }
        let c: usize = cell.x as usize * height + cell.y as usize;
        match floors[c] {
            Some(z) => {
                if cell.z < z {
                    floors[c] = Some(cell.z);
                }
            },
            None => {
                heads.push(cell);
                floors[c] = Some(cell.z);
            },
        }
        proof {
            assert forall|x: int, y: int| 0 <= x < width && 0 <= y < height implies floors@[x
                * height + y] == #[trigger] column_floor(next, x, y) by {
                lemma_column_in_range(width, height, x, y);
                lemma_column_injective(width, height, x, y, cell.x as int, cell.y as int);
                assert(column_floor(next.drop_last(), x, y) == column_floor(seen, x, y));
            }
        }
        i = i + 1;
    }
    assert(cells.subrange(0, i + 1) =~= cells);
    let mut prints: Vec<IVec3> = Vec::new();
    let mut k: usize = 0;
    while k < heads.len()
        invariant
            k <= heads@.len(),
            columns == width * height,
            floors@.len() == columns,
            heads@ == column_heads(cells),
            cells == seq![apple] + body@,
            0 <= apple.x < width && 0 <= apple.y < height,
            forall|j: int|
                0 <= j < body@.len() ==> 0 <= (#[trigger] body@[j]).x < width && 0 <= body@[j].y
                    < height,
            forall|x: int, y: int|
                0 <= x < width && 0 <= y < height ==> floors@[x * height + y]
                    == #[trigger] column_floor(cells, x, y),
            prints@.len() == k,
            forall|m: int| 0 <= m < k ==> prints@[m] == footprint(cells, heads@[m]),
        decreases heads@.len() - k,
    {
        let head = heads[k];
        proof {
            lemma_column_heads(cells);
            assert(cells.contains(head));
            let j = choose|j: int| 0 <= j < cells.len() && cells[j] == head;
            if j > 0 {
                assert(cells[j] == body@[j - 1]);
            }
            lemma_column_in_range(width, height, head.x as int, head.y as int);
            assert(floors@[head.x * height + head.y] == column_floor(
                cells,
                head.x as int,
                head.y as int,
            ));
        }
        let z = match floors[head.x as usize * height + head.y as usize] {
            Some(z) => z,
            None => head.z,
        };
        prints.push(IVec3 { x: head.x, y: head.y, z });
        k = k + 1;
    }
    assert(prints@ =~= footprints(cells));
    prints
}

/// A column of the grid has an index below the number of columns.
proof fn lemma_column_in_range(width: usize, height: usize, x: int, y: int)
    requires
        0 <= x < width,
        0 <= y < height,
    ensures
        0 <= x * height <= x * height + y < width * height,
{
    assert(0 <= x * height <= x * height + y < width * height) by (nonlinear_arith)
        requires
            0 <= x < width,
            0 <= y < height,
    ;
}

/// Two columns of the grid with the same index are the same column.
proof fn lemma_column_injective(width: usize, height: usize, x: int, y: int, u: int, v: int)
    requires
        0 <= x < width,
        0 <= y < height,
        0 <= u < width,
        0 <= v < height,
    ensures
        x * height + y == u * height + v ==> x == u && y == v,
{
    assert(x * height + y == u * height + v ==> x == u && y == v) by (nonlinear_arith)
        requires
            0 <= y < height,
            0 <= v < height,
    ;
}

} // verus!
