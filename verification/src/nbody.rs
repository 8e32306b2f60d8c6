use vstd::prelude::*;

verus! {

/// The pairs `(i, j)` for `j` below `cols` and `j != i`, by increasing `j`:
/// the bodies whose pull on body `i` is summed.
pub open spec fn pairs_from(i: int, cols: nat) -> Seq<(usize, usize)>
    decreases cols,
{
    if cols == 0 {
        Seq::empty()
    } else {
        pairs_from(i, (cols - 1) as nat) + (if cols - 1 != i {
            seq![(i as usize, (cols - 1) as usize)]
        } else {
            Seq::empty()
        })
    }
}

/// The interactions among `n` bodies summed for the first `rows` bodies:
/// body after body, the pairs `pairs_from(i, n)`.
pub open spec fn interaction_schedule(n: nat, rows: nat) -> Seq<(usize, usize)>
    decreases rows,
{
    if rows == 0 {
        Seq::empty()
    } else {
        interaction_schedule(n, (rows - 1) as nat) + pairs_from(rows - 1, n)
    }
}

/// Where the pair `(i, j)` stands among the interactions of `n` bodies:
/// `n - 1` pairs to each body before `i`, then the partners of `i` before
/// `j`, `i` itself left out.
pub open spec fn pair_position(n: int, i: int, j: int) -> int {
    i * (n - 1) + partner_slot(i, j)
}

/// Where `j` stands among the partners of body `i`.
pub open spec fn partner_slot(i: int, j: int) -> int {
    if j < i {
        j
    } else {
        j - 1
    }
}

/// The ordered pairs of distinct bodies among `n`, in the order the
/// forces are accumulated: for each body `i`, each other body `j` by
/// increasing index. The force on `i` is the sum, in this order, of the
/// pulls of the `j` paired with it.
pub fn interaction_pairs(n: usize) -> (pairs: Vec<(usize, usize)>)
    ensures
        pairs@ == interaction_schedule(n as nat, n as nat),
        pairs.len() == n * (n - 1),
        forall|k: int|
            0 <= k < pairs.len() ==> {
                let (i, j) = #[trigger] pairs@[k];
                &&& i < n && j < n && i != j
                &&& pair_position(n as int, i as int, j as int) == k
            },
        forall|i: int, j: int|
            0 <= i < n && 0 <= j < n && i != j ==> #[trigger] pairs@[pair_position(
                n as int,
                i,
                j,
            )] == (i as usize, j as usize),
{
    let mut pairs: Vec<(usize, usize)> = Vec::new();
    let mut i: usize = 0;
    while i < n
        invariant
            i <= n,
            pairs@ == interaction_schedule(n as nat, i as nat),
        decreases n - i,
    {
        let mut j: usize = 0;
        while j < n
            invariant
                i < n,
                j <= n,
                pairs@ == interaction_schedule(n as nat, i as nat) + pairs_from(i as int, j as nat),
            decreases n - j,
        {
            let ghost before = pairs@;
            if i != j {
                pairs.push((i, j));
            }
            assert(pairs_from(i as int, (j + 1) as nat) == pairs_from(i as int, j as nat) + (if j
                != i {
                seq![(i as usize, j as usize)]
            } else {
                Seq::empty()
            }));
            assert(pairs@ =~= interaction_schedule(n as nat, i as nat) + pairs_from(
                i as int,
                (j + 1) as nat,
            ));
            j = j + 1;
        }
        assert(pairs@ =~= interaction_schedule(n as nat, (i + 1) as nat));
        i = i + 1;
    }
    proof {
        lemma_interaction_schedule(n as nat);
    }
    pairs
}

proof fn lemma_pairs_from(n: nat, i: int, cols: nat)
    requires
        n <= usize::MAX,
        0 <= i < n,
        cols <= n,
    ensures
        pairs_from(i, cols).len() == if cols <= i {
            cols as int
        } else {
            cols - 1
        },
        forall|m: int|
            0 <= m < pairs_from(i, cols).len() ==> {
                let (a, b) = #[trigger] pairs_from(i, cols)[m];
                &&& a == i
                &&& b < cols
                &&& b != i
                &&& partner_slot(i, b as int) == m
            },
        forall|j: int|
            0 <= j < cols && j != i ==> #[trigger] pairs_from(i, cols)[partner_slot(i, j)] == (
            i as usize,
            j as usize,
            ),
    decreases cols,
{
    if cols > 0 {
        lemma_pairs_from(n, i, (cols - 1) as nat);
        let prev = pairs_from(i, (cols - 1) as nat);
        let s = pairs_from(i, cols);
        assert forall|m: int| 0 <= m < prev.len() implies #[trigger] s[m] == prev[m] by {}
        assert forall|j: int| 0 <= j < cols && j != i implies #[trigger] s[partner_slot(i, j)] == (
            i as usize,
            j as usize,
        ) by {
            if j < cols - 1 {
                assert(s[partner_slot(i, j)] == prev[partner_slot(i, j)]);
            }
        }
    }
}

/// The interactions among `n` bodies are the `n * (n - 1)` ordered pairs
/// of distinct bodies, each exactly once: entry `k` is a pair of
/// distinct bodies whose position is `k`, and every such pair stands at
/// its position. No body pulls on itself.
pub proof fn lemma_interaction_schedule(n: nat)
    requires
        n <= usize::MAX,
    ensures
        interaction_schedule(n, n).len() == n * (n - 1),
        forall|k: int|
            0 <= k < interaction_schedule(n, n).len() ==> {
                let (i, j) = #[trigger] interaction_schedule(n, n)[k];
                &&& i < n && j < n && i != j
                &&& pair_position(n as int, i as int, j as int) == k
            },
        forall|i: int, j: int|
            0 <= i < n && 0 <= j < n && i != j ==> #[trigger] interaction_schedule(n, n)[pair_position(
                n as int,
                i,
                j,
            )] == (i as usize, j as usize),
{
    lemma_schedule_rows(n, n);
}

proof fn lemma_schedule_rows(n: nat, rows: nat)
    requires
        n <= usize::MAX,
        rows <= n,
    ensures
        interaction_schedule(n, rows).len() == rows * (n - 1),
        forall|k: int|
            0 <= k < interaction_schedule(n, rows).len() ==> {
                let (i, j) = #[trigger] interaction_schedule(n, rows)[k];
                &&& i < rows && j < n && i != j
                &&& pair_position(n as int, i as int, j as int) == k
            },
        forall|i: int, j: int|
            0 <= i < rows && 0 <= j < n && i != j ==> #[trigger] interaction_schedule(
                n,
                rows,
            )[pair_position(n as int, i, j)] == (i as usize, j as usize),
    decreases rows,
{
    if rows > 0 {
        let r = rows - 1;
        lemma_schedule_rows(n, r as nat);
        lemma_pairs_from(n, r, n);
        let prev = interaction_schedule(n, r as nat);
        let row = pairs_from(r, n);
        let s = interaction_schedule(n, rows);
        assert(prev.len() == r * (n - 1));
        assert(r * (n - 1) + (n - 1) == rows * (n - 1)) by (nonlinear_arith)
            requires
                r == rows - 1,
        ;
        assert forall|k: int| 0 <= k < s.len() implies {
            let (i, j) = #[trigger] s[k];
            &&& i < rows && j < n && i != j
            &&& pair_position(n as int, i as int, j as int) == k
        } by {
            if k < prev.len() {
                assert(s[k] == prev[k]);
            } else {
                let m = k - prev.len();
                assert(s[k] == row[m]);
            }
        }
        assert forall|i: int, j: int|
            0 <= i < rows && 0 <= j < n && i != j implies #[trigger] s[pair_position(
            n as int,
            i,
            j,
        )] == (i as usize, j as usize) by {
            let m = partner_slot(i, j);
            if i < r {
                assert(pair_position(n as int, i, j) < prev.len()) by (nonlinear_arith)
                    requires
                        0 <= i < r,
                        0 <= m < n - 1,
                        pair_position(n as int, i, j) == i * (n - 1) + m,
                        prev.len() == r * (n - 1),
                ;
                assert(pair_position(n as int, i, j) >= 0) by (nonlinear_arith)
                    requires
                        0 <= i,
                        0 <= m,
                        n >= 1,
                        pair_position(n as int, i, j) == i * (n - 1) + m,
                ;
                assert(s[pair_position(n as int, i, j)] == prev[pair_position(n as int, i, j)]);
            } else {
                assert(row[m] == (i as usize, j as usize));
                assert(s[prev.len() + m] == row[m]);
            }
        }
    }
}

} // verus!
