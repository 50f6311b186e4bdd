//! Row-major layout: how a host matrix lies in a flat device buffer.

use vstd::prelude::*;

verus! {

/// The rows of a host matrix, each as a mathematical sequence.
pub open spec fn rows_of<T>(m: Seq<Vec<T>>) -> Seq<Seq<T>> {
    m.map_values(|r: Vec<T>| r@)
}

/// Whether `m` has `rows` rows of `cols` items each.
pub open spec fn is_matrix<T>(m: Seq<Seq<T>>, rows: nat, cols: nat) -> bool {
    &&& m.len() == rows
    &&& forall|i: int| 0 <= i < m.len() ==> (#[trigger] m[i]).len() == cols
}

/// The matrix of `rows` rows of `cols` items that `flat` holds row by row.
pub open spec fn matrix_from_flat<T>(flat: Seq<T>, rows: nat, cols: nat) -> Seq<Seq<T>> {
    Seq::new(rows, |i: int| flat.subrange(i * cols, i * cols + cols))
}

/// Row `i` of a matrix with `cols` columns starts at `i * cols` and ends
/// before the end of the `rows * cols` items.
pub proof fn lemma_row_bounds(i: int, rows: int, cols: int)
    requires
        0 <= i < rows,
        0 <= cols,
    ensures
        0 <= i * cols,
        i * cols + cols <= rows * cols,
{
    assert(0 <= i * cols) by (nonlinear_arith)
        requires
            0 <= i,
            0 <= cols,
    ;
    assert(i * cols + cols <= rows * cols) by (nonlinear_arith)
        requires
            i + 1 <= rows,
            0 <= cols,
    ;
}

/// A matrix of `cols` columns flattens to `rows * cols` items.
pub proof fn lemma_flatten_len<T>(m: Seq<Seq<T>>, cols: nat)
    requires
        is_matrix(m, m.len(), cols),
    ensures
        m.flatten().len() == m.len() * cols,
    decreases m.len(),
{
    if m.len() == 0 {
        assert(m.len() * cols == 0) by (nonlinear_arith)
            requires
                m.len() == 0,
        ;
    } else {
        let init = m.drop_last();
        assert(m =~= init.push(m.last()));
        init.lemma_flatten_push(m.last());
        lemma_flatten_len(init, cols);
        assert(init.len() * cols + cols == m.len() * cols) by (nonlinear_arith)
            requires
                init.len() + 1 == m.len(),
        ;
    }
}

/// Item `j` of row `i` lies at `i * cols + j` in the flattened matrix.
pub proof fn lemma_flatten_index<T>(m: Seq<Seq<T>>, cols: nat, i: int, j: int)
    requires
        is_matrix(m, m.len(), cols),
        0 <= i < m.len(),
        0 <= j < cols,
    ensures
        0 <= i * cols + j < m.flatten().len(),
        m.flatten()[i * cols + j] == m[i][j],
    decreases m.len(),
{
    let init = m.drop_last();
    assert(m =~= init.push(m.last()));
    init.lemma_flatten_push(m.last());
    lemma_flatten_len(init, cols);
    lemma_flatten_len(m, cols);
    lemma_row_bounds(i, m.len() as int, cols as int);
    if i < init.len() {
        lemma_flatten_index(init, cols, i, j);
    }
}

/// Reading a flat buffer as a matrix and flattening it again gives the
/// buffer back.
pub proof fn lemma_flatten_of_matrix_from_flat<T>(flat: Seq<T>, rows: nat, cols: nat)
    requires
        rows * cols == flat.len(),
    ensures
        is_matrix(matrix_from_flat(flat, rows, cols), rows, cols),
        matrix_from_flat(flat, rows, cols).flatten() == flat,
{
    let m = matrix_from_flat(flat, rows, cols);
    assert forall|i: int| 0 <= i < m.len() implies (#[trigger] m[i]).len() == cols by {
        lemma_row_bounds(i, rows as int, cols as int);
    }
    lemma_flatten_len(m, cols);
    assert forall|k: int| 0 <= k < flat.len() implies m.flatten()[k] == flat[k] by {
        if cols > 0 {
            let i = k / (cols as int);
            let j = k % (cols as int);
            assert(k == i * cols + j && 0 <= j < cols) by (nonlinear_arith)
                requires
                    i == k / (cols as int),
                    j == k % (cols as int),
                    cols > 0,
            ;
            assert(0 <= i < rows) by (nonlinear_arith)
                requires
                    0 <= k < rows * cols,
                    k == i * cols + j,
                    0 <= j < cols,
            ;
            lemma_row_bounds(i, rows as int, cols as int);
            lemma_flatten_index(m, cols, i, j);
        } else {
            assert(rows * cols == 0) by (nonlinear_arith)
                requires
                    cols == 0,
            ;
        }
    }
    assert(m.flatten() =~= flat);
}

/// Flattening a matrix and reading the result as a matrix of the same shape
/// gives the matrix back.
pub proof fn lemma_matrix_from_flat_of_flatten<T>(m: Seq<Seq<T>>, rows: nat, cols: nat)
    requires
        is_matrix(m, rows, cols),
    ensures
        m.flatten().len() == rows * cols,
        matrix_from_flat(m.flatten(), rows, cols) == m,
{
    let back = matrix_from_flat(m.flatten(), rows, cols);
    lemma_flatten_len(m, cols);
    assert forall|i: int| 0 <= i < rows implies #[trigger] back[i] =~= m[i] by {
        lemma_row_bounds(i, rows as int, cols as int);
        assert forall|j: int| 0 <= j < cols implies back[i][j] == m[i][j] by {
            lemma_flatten_index(m, cols, i, j);
        }
    }
    assert(back =~= m);
}

/// The items of `v` from `start` on, in a vector of their own.
pub(crate) fn copy_from<T: Copy>(v: &Vec<T>, start: usize) -> (copy: Vec<T>)
    requires
        start <= v.len(),
    ensures
        copy@ == v@.subrange(start as int, v.len() as int),
{
    let mut copy: Vec<T> = Vec::new();
    let mut i: usize = start;
    while i < v.len()
        invariant
            start <= i <= v.len(),
            copy@ == v@.subrange(start as int, i as int),
        decreases v.len() - i,
    {
        copy.push(v[i]);
        proof {
            assert(v@.subrange(start as int, i + 1) =~= v@.subrange(start as int, i as int).push(
                v@[i as int],
            ));
        }
        i += 1;
    }
    copy
}

/// Lays the rows of `m` one after another.
pub fn flatten<T: Copy>(m: &Vec<Vec<T>>) -> (flat: Vec<T>)
    ensures
        flat@ == rows_of(m@).flatten(),
{
    let mut flat: Vec<T> = Vec::new();
    let mut i: usize = 0;
    while i < m.len()
        invariant
            i <= m.len(),
            flat@ == rows_of(m@.take(i as int)).flatten(),
        decreases m.len() - i,
    {
        let row = &m[i];
        let mut j: usize = 0;
        while j < row.len()
            invariant
                j <= row.len(),
                flat@ == rows_of(m@.take(i as int)).flatten() + row@.take(j as int),
            decreases row.len() - j,
        {
            flat.push(row[j]);
            proof {
                assert(row@.take(j + 1) =~= row@.take(j as int).push(row@[j as int]));
            }
            j += 1;
        }
        proof {
            assert(row@.take(j as int) =~= row@);
            assert(rows_of(m@.take(i + 1)) =~= rows_of(m@.take(i as int)).push(row@));
            rows_of(m@.take(i as int)).lemma_flatten_push(row@);
        }
        i += 1;
    }
    proof {
        assert(m@.take(i as int) =~= m@);
    }
    flat
}

/// Lays `len` rows of `m` one after another, from row `start` on. There
/// are such rows exactly when `m` has `start + len` rows or more.
pub fn flatten_rows<T: Copy>(m: &Vec<Vec<T>>, start: usize, len: usize) -> (flat: Option<Vec<T>>)
    ensures
        flat is Some <==> start + len <= m.len(),
        flat matches Some(v) ==> v@ == rows_of(m@.subrange(start as int, start + len)).flatten(),
{
    if start > m.len() || len > m.len() - start {
        return None;
    }
    let end: usize = start + len;
    let mut flat: Vec<T> = Vec::new();
    let mut i: usize = start;
    while i < end
        invariant
            start <= i <= end <= m.len(),
            flat@ == rows_of(m@.subrange(start as int, i as int)).flatten(),
        decreases end - i,
    {
        let row = &m[i];
        let mut j: usize = 0;
        while j < row.len()
            invariant
                j <= row.len(),
                flat@ == rows_of(m@.subrange(start as int, i as int)).flatten() + row@.take(
                    j as int,
                ),
            decreases row.len() - j,
        {
            flat.push(row[j]);
            proof {
                assert(row@.take(j + 1) =~= row@.take(j as int).push(row@[j as int]));
            }
            j += 1;
        }
        proof {
            assert(row@.take(j as int) =~= row@);
            assert(rows_of(m@.subrange(start as int, i + 1)) =~= rows_of(
                m@.subrange(start as int, i as int),
            ).push(row@));
            rows_of(m@.subrange(start as int, i as int)).lemma_flatten_push(row@);
        }
        i += 1;
    }
    Some(flat)
}

/// The first `rows * cols` items of `flat` as a matrix, row by row.
pub(crate) fn rows_from_flat<T: Copy>(flat: &Vec<T>, rows: usize, cols: usize) -> (m: Vec<Vec<T>>)
    requires
        rows * cols <= flat.len(),
    ensures
        rows_of(m@) == matrix_from_flat(flat@, rows as nat, cols as nat),
{
    let mut m: Vec<Vec<T>> = Vec::new();
    let mut i: usize = 0;
    while i < rows
        invariant
            i <= rows,
            rows * cols <= flat.len(),
            m.len() == i,
            rows_of(m@) == matrix_from_flat(flat@, i as nat, cols as nat),
        decreases rows - i,
    {
        proof {
            lemma_row_bounds(i as int, rows as int, cols as int);
        }
        let start: usize = i * cols;
        let mut row: Vec<T> = Vec::new();
        let mut j: usize = 0;
        while j < cols
            invariant
                j <= cols,
                start == i * cols,
                start + cols <= flat.len(),
                row@ == flat@.subrange(start as int, start + j),
            decreases cols - j,
        {
            row.push(flat[start + j]);
            proof {
                assert(flat@.subrange(start as int, start + j + 1) =~= flat@.subrange(
                    start as int,
                    start + j,
                ).push(flat@[start + j]));
            }
            j += 1;
        }
        proof {
            let next = rows_of(m@.push(row));
            let want = matrix_from_flat(flat@, (i + 1) as nat, cols as nat);
            assert forall|k: int| 0 <= k < next.len() implies next[k] == want[k] by {
                if k < i {
                    assert(next[k] == rows_of(m@)[k]);
                    assert(rows_of(m@)[k] == matrix_from_flat(flat@, i as nat, cols as nat)[k]);
                }
            }
            assert(next =~= want);
        }
        m.push(row);
        i += 1;
    }
    m
}

/// Reads `flat` as a matrix of `rows` rows of `cols` items, row by row.
/// There is such a matrix exactly when `flat` holds `rows * cols` items.
pub fn unflatten<T: Copy>(flat: &Vec<T>, rows: usize, cols: usize) -> (m: Option<Vec<Vec<T>>>)
    ensures
        m is Some <==> rows * cols == flat.len(),
        m matches Some(v) ==> rows_of(v@) == matrix_from_flat(flat@, rows as nat, cols as nat),
{
    let fits = match rows.checked_mul(cols) {
        Some(n) => n == flat.len(),
        None => false,
    };
    if fits {
        Some(rows_from_flat(flat, rows, cols))
    } else {
        None
    }
}

} // verus!
