//! Port offsets for pairs of parties.
//!
//! The pairs `(low, high)` with `low < high < n` are laid out row by row: first
//! every pair whose lower member is party 0, then the remaining pairs of party
//! 1, and so on. A pair's place in that order is its offset into a contiguous
//! block of ports, so that every party finds the port of each of its pairs
//! without a table and without talking to anyone.

use vstd::prelude::*;

verus! {

/// The number of unordered pairs among `n` parties.
pub open spec fn pair_count(n: int) -> int {
    n * (n - 1) / 2
}

/// Whether `(low, high)` is a pair of two different parties among `n`, lower
/// index first.
pub open spec fn is_pair(low: int, high: int, n: int) -> bool {
    0 <= low < high < n
}

/// The offset of the pair `(low, high)` among `n` parties.
pub open spec fn pair_offset(low: int, high: int, n: int) -> int {
    n * low - low * (low + 1) / 2 + (high - low - 1)
}

/// The offset of the first pair whose lower member is `low`.
pub open spec fn row_start(low: int, n: int) -> int {
    n * low - low * (low + 1) / 2
}

/// A row begins where the row before it ends: the row of `low` holds the
/// `n - low - 1` pairs `(low, low + 1)` to `(low, n - 1)`.
pub proof fn lemma_row_step(low: int, n: int)
    ensures
        row_start(low + 1, n) == row_start(low, n) + (n - low - 1),
{
    assert((low + 1) * (low + 2) == low * (low + 1) + 2 * (low + 1)) by (nonlinear_arith);
    assert(n * (low + 1) == n * low + n) by (nonlinear_arith);
    lemma_product_of_neighbours_even(low);
    lemma_product_of_neighbours_even(low + 1);
}

/// `k * (k + 1)` is even.
pub proof fn lemma_product_of_neighbours_even(k: int)
    ensures
        (k * (k + 1)) % 2 == 0,
{
    if k % 2 == 0 {
        let h = k / 2;
        assert(k == 2 * h);
        assert(k * (k + 1) == 2 * (h * (k + 1))) by (nonlinear_arith)
            requires
                k == 2 * h,
        ;
    } else {
        let h = (k + 1) / 2;
        assert(k + 1 == 2 * h);
        assert(k * (k + 1) == 2 * (k * h)) by (nonlinear_arith)
            requires
                k + 1 == 2 * h,
        ;
    }
}

/// Rows do not run backwards: a later row starts no earlier.
pub proof fn lemma_row_start_monotonic(a: int, b: int, n: int)
    requires
        0 <= a <= b <= n,
    ensures
        row_start(a, n) <= row_start(b, n),
    decreases b - a,
{
    if a < b {
        lemma_row_start_monotonic(a, b - 1, n);
        lemma_row_step(b - 1, n);
    }
}

/// The rows of `n` parties fill exactly `pair_count(n)` offsets.
pub proof fn lemma_rows_fill_the_table(n: int)
    ensures
        row_start(0, n) == 0,
        row_start(n - 1, n) == pair_count(n),
        row_start(n, n) == pair_count(n),
{
    assert(n * (n - 1) - (n - 1) * n / 2 == n * (n - 1) / 2) by {
        lemma_product_of_neighbours_even(n - 1);
        assert((n - 1) * n == n * (n - 1)) by (nonlinear_arith);
        assert((n - 1) * (n - 1 + 1) == (n - 1) * n);
    }
    lemma_row_step(n - 1, n);
    assert(0 * (0 + 1) == 0);
    assert(n * 0 == 0);
}

/// No party count gives a negative number of pairs.
pub proof fn lemma_pair_count_nonnegative(n: int)
    requires
        0 <= n,
    ensures
        0 <= pair_count(n),
{
    lemma_rows_fill_the_table(n);
    lemma_row_start_monotonic(0, n, n);
}

/// Every pair's offset lies in its own row, and every row inside the table.
pub proof fn lemma_offset_in_range(low: int, high: int, n: int)
    requires
        is_pair(low, high, n),
    ensures
        row_start(low, n) <= pair_offset(low, high, n) < row_start(low + 1, n),
        0 <= pair_offset(low, high, n) < pair_count(n),
{
    lemma_row_step(low, n);
    lemma_rows_fill_the_table(n);
    lemma_row_start_monotonic(0, low, n);
    lemma_row_start_monotonic(low + 1, n, n);
}

/// Two different pairs never share an offset.
pub proof fn lemma_offset_injective(l1: int, h1: int, l2: int, h2: int, n: int)
    requires
        is_pair(l1, h1, n),
        is_pair(l2, h2, n),
        pair_offset(l1, h1, n) == pair_offset(l2, h2, n),
    ensures
        l1 == l2,
        h1 == h2,
{
    lemma_offset_in_range(l1, h1, n);
    lemma_offset_in_range(l2, h2, n);
    if l1 < l2 {
        lemma_row_start_monotonic(l1 + 1, l2, n);
    } else if l2 < l1 {
        lemma_row_start_monotonic(l2 + 1, l1, n);
    }
}

/// The row, at or after `from`, in which offset `k` lies.
pub open spec fn row_containing(k: int, from: int, n: int) -> int
    decreases n - from,
{
    if from + 2 >= n || k < row_start(from + 1, n) {
        from
    } else {
        row_containing(k, from + 1, n)
    }
}

/// The pair that offset `k` belongs to among `n` parties.
pub open spec fn pair_at(k: int, n: int) -> (int, int) {
    let low = row_containing(k, 0, n);
    (low, low + 1 + (k - row_start(low, n)))
}

/// `row_containing` finds the one row whose span holds `k`.
pub proof fn lemma_row_containing(k: int, from: int, n: int)
    requires
        0 <= from,
        from + 2 <= n,
        row_start(from, n) <= k < pair_count(n),
    ensures
        from <= row_containing(k, from, n),
        row_containing(k, from, n) + 2 <= n,
        row_start(row_containing(k, from, n), n) <= k < row_start(
            row_containing(k, from, n) + 1,
            n,
        ),
    decreases n - from,
{
    if from + 2 >= n {
        lemma_rows_fill_the_table(n);
    } else if k < row_start(from + 1, n) {
    } else {
        lemma_row_containing(k, from + 1, n);
    }
}

/// Every offset below `pair_count(n)` is the offset of a pair, namely of
/// `pair_at(k, n)`.
pub proof fn lemma_offset_surjective(k: int, n: int)
    requires
        0 <= n,
        0 <= k < pair_count(n),
    ensures
        is_pair(pair_at(k, n).0, pair_at(k, n).1, n),
        pair_offset(pair_at(k, n).0, pair_at(k, n).1, n) == k,
{
    if n < 2 {
        assert(n * (n - 1) == 0) by (nonlinear_arith)
            requires
                0 <= n < 2,
        ;
    }
    lemma_rows_fill_the_table(n);
    lemma_row_containing(k, 0, n);
    lemma_row_step(row_containing(k, 0, n), n);
}

/// The offsets that the pairs among `n` parties take.
pub open spec fn offsets(n: int) -> Set<int> {
    Set::new(
        |k: int| exists|low: int, high: int| is_pair(low, high, n) && pair_offset(low, high, n) == k,
    )
}

/// The pairs among `n` parties and the offsets `0 .. pair_count(n)` correspond
/// one to one: each pair's offset is in that range, no two pairs share one, and
/// each offset of the range is taken. So the offsets that are taken are
/// exactly that range, `pair_count(n)` of them.
pub proof fn lemma_offsets_are_a_bijection(n: int)
    requires
        0 <= n,
    ensures
        forall|low: int, high: int|
            is_pair(low, high, n) ==> 0 <= #[trigger] pair_offset(low, high, n) < pair_count(n),
        forall|l1: int, h1: int, l2: int, h2: int|
            is_pair(l1, h1, n) && is_pair(l2, h2, n) && #[trigger] pair_offset(l1, h1, n)
                == #[trigger] pair_offset(l2, h2, n) ==> l1 == l2 && h1 == h2,
        forall|k: int|
            0 <= k < pair_count(n) ==> is_pair((#[trigger] pair_at(k, n)).0, pair_at(k, n).1, n)
                && pair_offset(pair_at(k, n).0, pair_at(k, n).1, n) == k,
        offsets(n) == Set::new(|k: int| 0 <= k < pair_count(n)),
        offsets(n).finite(),
        offsets(n).len() == pair_count(n),
{
    assert forall|low: int, high: int| is_pair(low, high, n) implies 0 <= #[trigger] pair_offset(
        low,
        high,
        n,
    ) < pair_count(n) by {
        lemma_offset_in_range(low, high, n);
    }
    assert forall|l1: int, h1: int, l2: int, h2: int|
        is_pair(l1, h1, n) && is_pair(l2, h2, n) && #[trigger] pair_offset(l1, h1, n)
            == #[trigger] pair_offset(l2, h2, n) implies l1 == l2 && h1 == h2 by {
        lemma_offset_injective(l1, h1, l2, h2, n);
    }
    assert forall|k: int| 0 <= k < pair_count(n) implies is_pair(
        (#[trigger] pair_at(k, n)).0,
        pair_at(k, n).1,
        n,
    ) && pair_offset(pair_at(k, n).0, pair_at(k, n).1, n) == k by {
        lemma_offset_surjective(k, n);
    }
    assert forall|k: int| offsets(n).contains(k) <==> 0 <= k < pair_count(n) by {
        if 0 <= k < pair_count(n) {
            lemma_offset_surjective(k, n);
        }
    }
    assert(offsets(n) =~= Set::new(|k: int| 0 <= k < pair_count(n)));
    lemma_pair_count_nonnegative(n);
    vstd::set_lib::lemma_int_range(0, pair_count(n));
    assert(offsets(n) =~= vstd::set_lib::set_int_range(0, pair_count(n)));
}

/// The number of ports that a mesh of `parties` parties needs, one per pair;
/// `None` where that number does not fit a `usize`.
pub fn min_ports(parties: usize) -> (count: Option<usize>)
    ensures
        count == if pair_count(parties as int) <= usize::MAX {
            Some(pair_count(parties as int) as usize)
        } else {
            None::<usize>
        },
{
    if parties == 0 {
        assert(0int * (0int - 1) == 0);
        return Some(0);
    }
    let n: u128 = parties as u128;
    assert(n * (n - 1) <= 0xffff_ffff_ffff_ffff * 0xffff_ffff_ffff_ffff) by (nonlinear_arith)
        requires
            1 <= n <= 0xffff_ffff_ffff_ffff,
    ;
    let pairs: u128 = n * (n - 1) / 2;
    if pairs <= usize::MAX as u128 {
        Some(pairs as usize)
    } else {
        None
    }
}

/// The offset, into the block of ports, of the port on which the parties `low`
/// and `high` meet.
pub fn port_index(low: usize, high: usize, parties: usize) -> (offset: usize)
    requires
        low < high < parties,
        pair_count(parties as int) <= usize::MAX,
    ensures
        offset == pair_offset(low as int, high as int, parties as int),
        offset < pair_count(parties as int),
{
    proof {
        lemma_offset_in_range(low as int, high as int, parties as int);
        lemma_rows_fill_the_table(parties as int);
        lemma_row_start_monotonic(0, low as int, parties as int);
    }
    let n: u128 = parties as u128;
    let l: u128 = low as u128;
    let h: u128 = high as u128;
    assert(n * l <= 0xffff_ffff_ffff_ffff * 0xffff_ffff_ffff_ffff) by (nonlinear_arith)
        requires
            0 <= n <= 0xffff_ffff_ffff_ffff,
            0 <= l <= 0xffff_ffff_ffff_ffff,
    ;
    assert(l * (l + 1) <= 0xffff_ffff_ffff_ffff * 0xffff_ffff_ffff_ffff) by (nonlinear_arith)
        requires
            0 <= l < 0xffff_ffff_ffff_ffff,
    ;
    let before: u128 = n * l - l * (l + 1) / 2;
    let offset: u128 = before + (h - l - 1);
    offset as usize
}

/// The block of ports of one mesh: `pair_count(parties)` port numbers in a row,
/// the first of them `base`.
pub struct PortTable {
    base: usize,
    parties: usize,
}

impl PortTable {
    /// The lowest port of the block.
    pub closed spec fn base(&self) -> int {
        self.base as int
    }

    /// The number of parties that the block serves.
    pub closed spec fn parties(&self) -> int {
        self.parties as int
    }

    /// Every port of the block, and the end of the block, is a `usize`.
    pub open spec fn wf(&self) -> bool {
        &&& 0 <= self.base()
        &&& 0 <= self.parties()
        &&& self.base() + pair_count(self.parties()) <= usize::MAX
    }

    /// The ports in order: the port at offset `k` is `base + k`.
    pub open spec fn view(&self) -> Seq<int> {
        Seq::new(pair_count(self.parties()) as nat, |k: int| self.base() + k)
    }

    /// The port on which the parties `low` and `high` meet.
    pub open spec fn spec_port_for(&self, low: int, high: int) -> int {
        self.base() + pair_offset(low, high, self.parties())
    }

    /// The block of `pair_count(parties)` ports that starts at `base`; `None`
    /// where the block would run past the largest `usize`.
    pub fn new(base: usize, parties: usize) -> (table: Option<PortTable>)
        ensures
            table is Some <==> base + pair_count(parties as int) <= usize::MAX,
            table matches Some(t) ==> t.wf() && t.base() == base && t.parties() == parties,
    {
        proof {
            lemma_pair_count_nonnegative(parties as int);
        }
        match min_ports(parties) {
            Some(count) => {
                if count <= usize::MAX - base {
                    Some(PortTable { base, parties })
                } else {
                    None
                }
            },
            None => None,
        }
    }

    /// The lowest port of the block.
    pub fn first_port(&self) -> (port: usize)
        ensures
            port == self.base(),
    {
        self.base
    }

    /// The number of parties that the block serves.
    pub fn party_count(&self) -> (n: usize)
        ensures
            n == self.parties(),
    {
        self.parties
    }

    /// The number of ports in the block.
    pub fn len(&self) -> (count: usize)
        requires
            self.wf(),
        ensures
            count == self@.len(),
            count == pair_count(self.parties()),
    {
        proof {
            lemma_pair_count_nonnegative(self.parties());
        }
        match min_ports(self.parties) {
            Some(count) => count,
            None => 0,
        }
    }

    /// The port at `offset` in the block.
    pub fn port(&self, offset: usize) -> (port: usize)
        requires
            self.wf(),
            offset < self@.len(),
        ensures
            port == self@[offset as int],
            port == self.base() + offset,
    {
        proof {
            lemma_pair_count_nonnegative(self.parties());
        }
        self.base + offset
    }

    /// The port on which the parties `low` and `high` meet.
    pub fn port_for(&self, low: usize, high: usize) -> (port: usize)
        requires
            self.wf(),
            low < high < self.parties(),
        ensures
            port == self.spec_port_for(low as int, high as int),
            port == self@[pair_offset(low as int, high as int, self.parties())],
    {
        proof {
            lemma_offset_in_range(low as int, high as int, self.parties());
        }
        self.base + port_index(low, high, self.parties)
    }

    /// All ports of the block, lowest first.
    pub fn ports(&self) -> (all: Vec<usize>)
        requires
            self.wf(),
        ensures
            all@.len() == self@.len(),
            forall|k: int| 0 <= k < all@.len() ==> all@[k] == self@[k],
    {
        let count = self.len();
        let mut all: Vec<usize> = Vec::new();
        let mut k: usize = 0;
        while k < count
            invariant
                self.wf(),
                count == self@.len(),
                k <= count,
                all@.len() == k,
                forall|j: int| 0 <= j < k ==> all@[j] == self@[j],
            decreases count - k,
        {
            proof {
                lemma_pair_count_nonnegative(self.parties());
            }
            all.push(self.base + k);
            k = k + 1;
        }
        all
    }
}

/// Within one block, different pairs meet on different ports.
pub proof fn lemma_ports_distinct(table: PortTable, l1: int, h1: int, l2: int, h2: int)
    requires
        is_pair(l1, h1, table.parties()),
        is_pair(l2, h2, table.parties()),
        table.spec_port_for(l1, h1) == table.spec_port_for(l2, h2),
    ensures
        l1 == l2,
        h1 == h2,
{
    lemma_offset_injective(l1, h1, l2, h2, table.parties());
}

} // verus!
