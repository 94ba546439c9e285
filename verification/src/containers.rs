use vstd::prelude::*;

verus! {

/// How a timeline lays out its articles.
#[derive(Clone, Copy, Debug, PartialEq, Eq, Structural)]
pub enum Container {
    Column,
    Row,
    Masonry,
}

impl Container {
    pub open spec fn name_spec(self) -> Seq<char> {
        match self {
            Container::Column => "Column"@,
            Container::Row => "Row"@,
            Container::Masonry => "Masonry"@,
        }
    }

    /// The label shown for this container.
    pub fn name(&self) -> (r: &'static str)
        ensures
            r@ == self.name_spec(),
    {
        match self {
            Container::Column => "Column",
            Container::Row => "Row",
            Container::Masonry => "Masonry",
        }
    }
}

/// The height an article is estimated to take in a masonry column: one for its
/// text and one per media.
pub fn relative_height(media_count: usize) -> (h: u32)
    requires
        media_count < u32::MAX,
    ensures
        h == 1 + media_count,
{
    1 + media_count as u32
}

/// Sum of a sequence of heights.
pub open spec fn sum_heights(hs: Seq<u32>) -> int
    decreases hs.len(),
{
    if hs.len() == 0 { 0 } else { sum_heights(hs.drop_last()) + hs.last() }
}

/// Where the masonry layout stands after placing some articles: the columns in
/// the order they are tried (`order`), each column's height, and the column that
/// each placed article went to.
pub struct MasonryState {
    pub order: Seq<usize>,
    pub heights: Seq<int>,
    pub assign: Seq<usize>,
}

/// Puts column `c` back into `s` just before the first column whose height is at
/// least its own; that is where a stable sort by height puts it.
pub open spec fn insert_by_height(s: Seq<usize>, c: usize, heights: Seq<int>) -> Seq<usize>
    decreases s.len(),
{
    if s.len() == 0 {
        seq![c]
    } else if heights[(s[0]) as int] < heights[c as int] {
        seq![s[0]] + insert_by_height(s.drop_first(), c, heights)
    } else {
        seq![c] + s
    }
}

pub open spec fn masonry_initial(column_count: nat) -> MasonryState {
    MasonryState {
        order: Seq::new(column_count, |i: int| i as usize),
        heights: Seq::new(column_count, |i: int| 0),
        assign: Seq::empty(),
    }
}

/// Places one article of height `h`: the first column in the order takes it,
/// grows by `h`, and moves back to its place by height.
pub open spec fn masonry_step(st: MasonryState, h: int) -> MasonryState {
    let c = st.order[0];
    let heights = st.heights.update(c as int, st.heights[c as int] + h);
    MasonryState {
        order: insert_by_height(st.order.drop_first(), c, heights),
        heights,
        assign: st.assign.push(c),
    }
}

/// The state after placing the first `n` articles.
pub open spec fn masonry_state(hs: Seq<u32>, column_count: nat, n: nat) -> MasonryState
    decreases n,
{
    if n == 0 {
        masonry_initial(column_count)
    } else {
        masonry_step(masonry_state(hs, column_count, (n - 1) as nat), hs[n - 1] as int)
    }
}

/// The articles among the first `n` that went to column `c`, in their order.
pub open spec fn column_members(assign: Seq<usize>, c: usize, n: nat) -> Seq<usize>
    decreases n,
{
    if n == 0 {
        Seq::empty()
    } else if assign[n - 1] == c {
        column_members(assign, c, (n - 1) as nat).push((n - 1) as usize)
    } else {
        column_members(assign, c, (n - 1) as nat)
    }
}

/// The masonry layout: for each column, by column index, the indices of the
/// articles placed in it.
pub open spec fn masonry_columns(hs: Seq<u32>, column_count: nat) -> Seq<Seq<usize>> {
    let st = masonry_state(hs, column_count, hs.len());
    Seq::new(column_count, |c: int| column_members(st.assign, c as usize, hs.len()))
}

/// What holds of the state at every step: every column is in the order exactly
/// where it should be, the order is sorted by height, and each article went to
/// an existing column.
pub open spec fn masonry_wf(st: MasonryState, column_count: nat) -> bool {
    &&& st.order.len() == column_count
    &&& st.heights.len() == column_count
    &&& forall|i: int| 0 <= i < st.order.len() ==> 0 <= #[trigger] st.order[i] < column_count
    &&& forall|c: usize| 0 <= c < column_count ==> #[trigger] st.order.contains(c)
    &&& forall|i: int, j: int| 0 <= i < j < st.order.len() ==> #[trigger] st.order[i] != #[trigger] st.order[j]
    &&& forall|i: int, j: int| 0 <= i < j < st.order.len() ==> st.heights[(#[trigger] st.order[i]) as int] <= st.heights[(#[trigger] st.order[j]) as int]
    &&& forall|k: int| 0 <= k < st.assign.len() ==> 0 <= #[trigger] st.assign[k] < column_count
}

proof fn lemma_insert_shape(s: Seq<usize>, c: usize, heights: Seq<int>, p: int)
    requires
        0 <= p <= s.len(),
        forall|i: int| 0 <= i < p ==> heights[(#[trigger] s[i]) as int] < heights[c as int],
        p == s.len() || heights[(s[p]) as int] >= heights[c as int],
    ensures
        insert_by_height(s, c, heights) == s.take(p) + seq![c] + s.skip(p),
    decreases s.len(),
{
    if s.len() == 0 {
        assert(s.take(p) + seq![c] + s.skip(p) =~= seq![c]);
    } else if p == 0 {
        assert(s.take(0) + seq![c] + s.skip(0) =~= seq![c] + s);
    } else {
        let r = s.drop_first();
        assert forall|i: int| 0 <= i < p - 1 implies heights[(#[trigger] r[i]) as int] < heights[c as int] by {
            assert(r[i] == s[i + 1]);
        }
        if p - 1 < r.len() {
            assert(r[p - 1] == s[p]);
        }
        lemma_insert_shape(r, c, heights, p - 1);
        assert(seq![s[0]] + (r.take(p - 1) + seq![c] + r.skip(p - 1)) =~= s.take(p) + seq![c] + s.skip(p));
    }
}

proof fn lemma_choose_position(s: Seq<usize>, c: usize, heights: Seq<int>)
    ensures
        0 <= choose_position(s, c, heights) <= s.len(),
        forall|i: int| 0 <= i < choose_position(s, c, heights) ==> heights[(#[trigger] s[i]) as int] < heights[c as int],
        choose_position(s, c, heights) == s.len() || heights[(s[choose_position(s, c, heights)]) as int] >= heights[c as int],
    decreases s.len(),
{
    if s.len() > 0 && heights[(s[0]) as int] < heights[c as int] {
        let r = s.drop_first();
        lemma_choose_position(r, c, heights);
        assert forall|i: int| 0 <= i < choose_position(s, c, heights) implies heights[(#[trigger] s[i]) as int] < heights[c as int] by {
            if i > 0 {
                assert(s[i] == r[i - 1]);
            }
        }
    }
}

proof fn lemma_step_wf(st: MasonryState, column_count: nat, h: int)
    requires
        masonry_wf(st, column_count),
        column_count > 0,
        h >= 0,
    ensures
        masonry_wf(masonry_step(st, h), column_count),
        masonry_step(st, h).assign.len() == st.assign.len() + 1,
        masonry_step(st, h).order =~= ({
            let c = st.order[0];
            let heights = st.heights.update(c as int, st.heights[c as int] + h);
            let s = st.order.drop_first();
            let p = choose_position(s, c, heights);
            s.take(p) + seq![c] + s.skip(p)
        }),
{
    let c = st.order[0];
    let heights = st.heights.update(c as int, st.heights[c as int] + h);
    let s = st.order.drop_first();
    lemma_choose_position(s, c, heights);
    let p = choose_position(s, c, heights);
    lemma_insert_shape(s, c, heights, p);
    let o = s.take(p) + seq![c] + s.skip(p);
    let next = masonry_step(st, h);
    assert(next.order == o);
    assert forall|k: int| 0 <= k < s.len() implies #[trigger] s[k] != c && heights[(s[k]) as int] == st.heights[(s[k]) as int] by {
        assert(s[k] == st.order[k + 1]);
        assert(st.order[0] != st.order[k + 1]);
    }
    assert forall|i: int| 0 <= i < o.len() implies 0 <= #[trigger] o[i] < column_count by {
        if i < p {
            assert(o[i] == s[i]);
        } else if i > p {
            assert(o[i] == s[i - 1]);
        }
    }
    assert forall|x: usize| 0 <= x < column_count implies #[trigger] o.contains(x) by {
        if x == c {
            assert(o[p] == c);
        } else {
            assert(st.order.contains(x));
            let j = choose|j: int| 0 <= j < st.order.len() && st.order[j] == x;
            assert(j > 0);
            assert(s[j - 1] == x);
            if j - 1 < p {
                assert(o[j - 1] == x);
            } else {
                assert(o[j] == x);
            }
        }
    }
    assert forall|i: int, j: int| 0 <= i < j < o.len() implies #[trigger] o[i] != #[trigger] o[j] by {
        if i != p && j != p {
            let si = if i < p { i } else { i - 1 };
            let sj = if j < p { j } else { j - 1 };
            assert(o[i] == s[si]);
            assert(o[j] == s[sj]);
            assert(st.order[si + 1] != st.order[sj + 1]);
        } else if i == p {
            assert(o[j] == s[j - 1]);
        } else {
            assert(o[i] == s[i]);
        }
    }
    assert forall|i: int, j: int| 0 <= i < j < o.len() implies heights[(#[trigger] o[i]) as int] <= heights[(#[trigger] o[j]) as int] by {
        if i != p && j != p {
            let si = if i < p { i } else { i - 1 };
            let sj = if j < p { j } else { j - 1 };
            assert(o[i] == s[si]);
            assert(o[j] == s[sj]);
            assert(st.heights[(st.order[si + 1]) as int] <= st.heights[(st.order[sj + 1]) as int]);
        } else if i == p {
            assert(o[j] == s[j - 1]);
            assert(st.heights[(st.order[p + 1]) as int] <= st.heights[(st.order[j]) as int]);
        } else {
            assert(o[i] == s[i]);
        }
    }
}

/// The first position of `s` whose column is at least as high as `c`, or the end.
spec fn choose_position(s: Seq<usize>, c: usize, heights: Seq<int>) -> int
    decreases s.len(),
{
    if s.len() == 0 {
        0
    } else if heights[(s[0]) as int] < heights[c as int] {
        1 + choose_position(s.drop_first(), c, heights)
    } else {
        0
    }
}


proof fn lemma_state_wf(hs: Seq<u32>, column_count: nat, n: nat)
    requires
        0 < column_count <= usize::MAX,
        n <= hs.len(),
    ensures
        masonry_wf(masonry_state(hs, column_count, n), column_count),
        masonry_state(hs, column_count, n).assign.len() == n,
    decreases n,
{
    if n == 0 {
        let st = masonry_initial(column_count);
        assert forall|c: usize| 0 <= c < column_count implies #[trigger] st.order.contains(c) by {
            assert(st.order[c as int] == c);
        }
        assert forall|i: int, j: int| 0 <= i < j < st.order.len() implies #[trigger] st.order[i] != #[trigger] st.order[j] by {
            assert(st.order[i] == i && st.order[j] == j);
        }
        assert forall|i: int, j: int| 0 <= i < j < st.order.len() implies st.heights[(#[trigger] st.order[i]) as int] <= st.heights[(#[trigger] st.order[j]) as int] by {
            assert(st.order[i] == i && st.order[j] == j);
        }
    } else {
        lemma_state_wf(hs, column_count, (n - 1) as nat);
        lemma_step_wf(masonry_state(hs, column_count, (n - 1) as nat), column_count, hs[n - 1] as int);
    }
}

pub open spec fn sum_ints(s: Seq<int>) -> int
    decreases s.len(),
{
    if s.len() == 0 { 0 } else { sum_ints(s.drop_last()) + s.last() }
}

proof fn lemma_assign_len(hs: Seq<u32>, column_count: nat, n: nat)
    ensures
        masonry_state(hs, column_count, n).assign.len() == n,
    decreases n,
{
    if n > 0 {
        lemma_assign_len(hs, column_count, (n - 1) as nat);
    }
}

proof fn lemma_sum_ints_update(s: Seq<int>, k: int, v: int)
    requires
        0 <= k < s.len(),
    ensures
        sum_ints(s.update(k, v)) == sum_ints(s) - s[k] + v,
    decreases s.len(),
{
    if k < s.len() - 1 {
        lemma_sum_ints_update(s.drop_last(), k, v);
        assert(s.update(k, v).drop_last() =~= s.drop_last().update(k, v));
    } else {
        assert(s.update(k, v).drop_last() =~= s.drop_last());
    }
}

proof fn lemma_sum_ints_nonneg(s: Seq<int>)
    requires
        forall|i: int| 0 <= i < s.len() ==> s[i] >= 0,
    ensures
        sum_ints(s) >= 0,
    decreases s.len(),
{
    if s.len() > 0 {
        let d = s.drop_last();
        assert forall|i: int| 0 <= i < d.len() implies d[i] >= 0 by {
            assert(d[i] == s[i]);
        }
        lemma_sum_ints_nonneg(d);
        assert(s[s.len() - 1] >= 0);
    }
}

proof fn lemma_sum_ints_bound(s: Seq<int>, k: int)
    requires
        0 <= k < s.len(),
        forall|i: int| 0 <= i < s.len() ==> s[i] >= 0,
    ensures
        s[k] <= sum_ints(s),
        sum_ints(s) >= 0,
    decreases s.len(),
{
    lemma_sum_ints_nonneg(s);
    let d = s.drop_last();
    assert forall|i: int| 0 <= i < d.len() implies d[i] >= 0 by {
        assert(d[i] == s[i]);
    }
    lemma_sum_ints_nonneg(d);
    assert(s[s.len() - 1] >= 0);
    if k < s.len() - 1 {
        lemma_sum_ints_bound(d, k);
        assert(d[k] == s[k]);
    }
}

proof fn lemma_sum_ints_zero(n: nat)
    ensures
        sum_ints(Seq::new(n, |i: int| 0int)) == 0,
    decreases n,
{
    if n > 0 {
        lemma_sum_ints_zero((n - 1) as nat);
        assert(Seq::new(n, |i: int| 0int).drop_last() =~= Seq::new((n - 1) as nat, |i: int| 0int));
    }
}

proof fn lemma_sum_heights_prefix(hs: Seq<u32>, i: int)
    requires
        0 <= i < hs.len(),
    ensures
        sum_heights(hs.take(i + 1)) == sum_heights(hs.take(i)) + hs[i],
        sum_heights(hs.take(i + 1)) <= sum_heights(hs),
{
    assert(hs.take(i + 1).drop_last() =~= hs.take(i));
    lemma_sum_heights_mono(hs, i + 1);
}

proof fn lemma_sum_heights_mono(hs: Seq<u32>, i: int)
    requires
        0 <= i <= hs.len(),
    ensures
        sum_heights(hs.take(i)) <= sum_heights(hs),
    decreases hs.len() - i,
{
    if i < hs.len() {
        lemma_sum_heights_mono(hs, i + 1);
        assert(hs.take(i + 1).drop_last() =~= hs.take(i));
    } else {
        assert(hs.take(i) =~= hs);
    }
}

proof fn lemma_heights_nonneg(hs: Seq<u32>, column_count: nat, n: nat)
    requires
        n <= hs.len(),
        0 < column_count <= usize::MAX,
    ensures
        masonry_state(hs, column_count, n).heights.len() == column_count,
        forall|c: int| 0 <= c < column_count ==> #[trigger] masonry_state(hs, column_count, n).heights[c] >= 0,
    decreases n,
{
    if n > 0 {
        lemma_heights_nonneg(hs, column_count, (n - 1) as nat);
        lemma_state_wf(hs, column_count, (n - 1) as nat);
        let st = masonry_state(hs, column_count, (n - 1) as nat);
        let c = st.order[0];
        assert(0 <= c < column_count);
        let nh = st.heights.update(c as int, st.heights[c as int] + hs[n - 1]);
        assert forall|x: int| 0 <= x < column_count implies #[trigger] nh[x] >= 0 by {
            if x != c {
                assert(nh[x] == st.heights[x]);
            }
        }
    }
}

/// Lays `heights.len()` articles of the given heights out in `column_count`
/// masonry columns. Each article goes to the column that is first in the order
/// of the columns by height (a column that has just grown goes before the other
/// columns of its height). The columns come out by index, each listing the
/// indices of its articles in their order.
pub fn to_columns(heights: &Vec<u32>, column_count: u8) -> (columns: Vec<Vec<usize>>)
    requires
        column_count > 0 || heights.len() == 0,
        sum_heights(heights@) <= u32::MAX,
    ensures
        columns@.len() == column_count,
        forall|c: int| 0 <= c < column_count ==> #[trigger] columns@[c]@ == masonry_columns(heights@, column_count as nat)[c],
{
    let count = column_count as usize;
    let n = heights.len();
    let ghost hs = heights@;
    let mut order: Vec<usize> = Vec::new();
    let mut hts: Vec<u32> = Vec::new();
    let mut k: usize = 0;
    while k < count
        invariant
            k <= count,
            order@.len() == k,
            hts@.len() == k,
            forall|j: int| 0 <= j < k ==> order@[j] == j && hts@[j] == 0,
        decreases count - k,
    {
        order.push(k);
        hts.push(0);
        k = k + 1;
    }
    let mut assign: Vec<usize> = Vec::new();
    proof {
        let st0 = masonry_initial(count as nat);
        assert(order@ =~= st0.order);
        lemma_sum_ints_zero(count as nat);
    }
    let mut i: usize = 0;
    while i < n
        invariant
            n == heights@.len(),
            hs == heights@,
            count == column_count,
            count > 0 || n == 0,
            sum_heights(hs) <= u32::MAX,
            i <= n,
            ({
                let st = masonry_state(hs, count as nat, i as nat);
                &&& order@ == st.order
                &&& assign@ == st.assign
                &&& hts@.len() == count
                &&& forall|c: int| 0 <= c < count ==> hts@[c] as int == #[trigger] st.heights[c]
                &&& sum_ints(st.heights) == sum_heights(hs.take(i as int))
            }),
        decreases n - i,
    {
        let ghost st = masonry_state(hs, count as nat, i as nat);
        proof {
            lemma_state_wf(hs, count as nat, i as nat);
            lemma_heights_nonneg(hs, count as nat, i as nat);
            lemma_sum_heights_prefix(hs, i as int);
            lemma_sum_ints_bound(st.heights, st.order[0] as int);
        }
        let c = order.remove(0);
        let ghost s = order@;
        let h = heights[i];
        let nh = hts[c] + h;
        hts.set(c, nh);
        let ghost new_heights = st.heights.update(c as int, st.heights[c as int] + h);
        let mut p: usize = 0;
        while p < order.len() && hts[order[p]] < hts[c]
            invariant
                order@ == s,
                p <= s.len(),
                hts@.len() == count,
                c < count,
                forall|j: int| 0 <= j < s.len() ==> #[trigger] s[j] < count,
                forall|x: int| 0 <= x < count ==> hts@[x] as int == #[trigger] new_heights[x],
                forall|j: int| 0 <= j < p ==> new_heights[#[trigger] s[j] as int] < new_heights[c as int],
            decreases s.len() - p,
        {
            p = p + 1;
        }
        proof {
            lemma_insert_shape(s, c, new_heights, p as int);
        }
        order.insert(p, c);
        assign.push(c);
        proof {
            let next = masonry_state(hs, count as nat, (i + 1) as nat);
            assert(next == masonry_step(st, h as int));
            assert(order@ =~= next.order);
            assert(hts@.len() == count);
            lemma_sum_ints_update(st.heights, c as int, st.heights[c as int] + h);
        }
        i = i + 1;
    }
    let ghost fin = masonry_state(hs, count as nat, n as nat);
    proof {
        lemma_assign_len(hs, count as nat, n as nat);
    }
    let mut columns: Vec<Vec<usize>> = Vec::new();
    let mut c: usize = 0;
    while c < count
        invariant
            c <= count,
            n == heights@.len(),
            assign@ == fin.assign,
            fin.assign.len() == n,
            columns@.len() == c,
            forall|j: int| 0 <= j < c ==> #[trigger] columns@[j]@ == column_members(fin.assign, j as usize, n as nat),
        decreases count - c,
    {
        let mut members: Vec<usize> = Vec::new();
        let mut j: usize = 0;
        while j < n
            invariant
                j <= n,
                n == assign@.len(),
                members@ == column_members(assign@, c, j as nat),
            decreases n - j,
        {
            if assign[j] == c {
                members.push(j);
            }
            j = j + 1;
        }
        columns.push(members);
        c = c + 1;
    }
    columns
}


proof fn lemma_column_members(assign: Seq<usize>, c: usize, n: nat)
    requires
        n <= assign.len(),
        n <= usize::MAX,
    ensures
        forall|i: usize| #[trigger] column_members(assign, c, n).contains(i) <==> (i < n && assign[i as int] == c),
        forall|a: int, b: int| 0 <= a < b < column_members(assign, c, n).len() ==>
            #[trigger] column_members(assign, c, n)[a] < #[trigger] column_members(assign, c, n)[b],
        forall|a: int| 0 <= a < column_members(assign, c, n).len() ==> #[trigger] column_members(assign, c, n)[a] < n,
    decreases n,
{
    if n > 0 {
        lemma_column_members(assign, c, (n - 1) as nat);
        let prev = column_members(assign, c, (n - 1) as nat);
        let cur = column_members(assign, c, n);
        if assign[n - 1] == c {
            assert(cur == prev.push((n - 1) as usize));
            assert forall|i: usize| #[trigger] cur.contains(i) <==> (i < n && assign[i as int] == c) by {
                assert(cur[prev.len() as int] == (n - 1) as usize);
                if cur.contains(i) && i != n - 1 {
                    let k = choose|k: int| 0 <= k < cur.len() && cur[k] == i;
                    assert(k < prev.len());
                    assert(prev[k] == i);
                    assert(prev.contains(i));
                }
                if i < n && assign[i as int] == c && i != n - 1 {
                    assert(prev.contains(i));
                    let k = choose|k: int| 0 <= k < prev.len() && prev[k] == i;
                    assert(cur[k] == i);
                }
                if i == n - 1 {
                    assert(cur[prev.len() as int] == i);
                }
            }
            assert forall|a: int, b: int| 0 <= a < b < cur.len() implies #[trigger] cur[a] < #[trigger] cur[b] by {
                if b == prev.len() {
                    assert(prev[a] < n - 1);
                } else {
                    assert(prev[a] < prev[b]);
                }
            }
            assert forall|a: int| 0 <= a < cur.len() implies #[trigger] cur[a] < n by {
                if a < prev.len() {
                    assert(cur[a] == prev[a]);
                }
            }
        } else {
            assert forall|i: usize| #[trigger] cur.contains(i) <==> (i < n && assign[i as int] == c) by {
                if i < n && assign[i as int] == c {
                    assert(i != n - 1);
                }
            }
        }
    }
}

/// The column that article `i` goes to.
pub open spec fn masonry_column_of(hs: Seq<u32>, column_count: nat, i: usize) -> int {
    masonry_state(hs, column_count, hs.len()).assign[i as int] as int
}

/// Every article goes to exactly one column, and each column lists its
/// articles in increasing order.
pub proof fn masonry_places_each_article_once(hs: Seq<u32>, column_count: u8)
    requires
        column_count > 0,
        hs.len() <= usize::MAX,
    ensures
        forall|i: usize| i < hs.len() ==> 0 <= #[trigger] masonry_column_of(hs, column_count as nat, i) < column_count
            && masonry_columns(hs, column_count as nat)[masonry_column_of(hs, column_count as nat, i)].contains(i),
        forall|i: usize, c1: int, c2: int|
            #![trigger masonry_columns(hs, column_count as nat)[c1].contains(i), masonry_columns(hs, column_count as nat)[c2].contains(i)]
            0 <= c1 < column_count && 0 <= c2 < column_count
            && masonry_columns(hs, column_count as nat)[c1].contains(i)
            && masonry_columns(hs, column_count as nat)[c2].contains(i) ==> c1 == c2,
        forall|c: int, a: int, b: int| 0 <= c < column_count && 0 <= a < b < masonry_columns(hs, column_count as nat)[c].len() ==>
            #[trigger] masonry_columns(hs, column_count as nat)[c][a] < #[trigger] masonry_columns(hs, column_count as nat)[c][b],
{
    let count = column_count as nat;
    let n = hs.len();
    lemma_state_wf(hs, count, n);
    let st = masonry_state(hs, count, n);
    let cols = masonry_columns(hs, count);
    assert forall|c: int| 0 <= c < count implies #[trigger] cols[c] == column_members(st.assign, c as usize, n) by {}
    assert forall|c: int, i: usize| 0 <= c < count implies
        (#[trigger] cols[c].contains(i) <==> (i < n && st.assign[i as int] == c as usize)) by {
        lemma_column_members(st.assign, c as usize, n);
    }
    assert forall|i: usize| i < n implies 0 <= #[trigger] masonry_column_of(hs, count, i) < column_count
        && cols[masonry_column_of(hs, count, i)].contains(i) by {
        let c = st.assign[i as int] as int;
        assert(cols[c].contains(i));
    }
    assert forall|c: int, a: int, b: int| 0 <= c < column_count && 0 <= a < b < cols[c].len() implies
        #[trigger] cols[c][a] < #[trigger] cols[c][b] by {
        lemma_column_members(st.assign, c as usize, n);
    }
}

/// Each article goes to a column that is, at that moment, no higher than any
/// other column.
pub proof fn masonry_picks_a_lowest_column(hs: Seq<u32>, column_count: u8, k: nat, c: int)
    requires
        column_count > 0,
        k < hs.len(),
        0 <= c < column_count,
    ensures
        ({
            let st = masonry_state(hs, column_count as nat, k);
            let chosen = masonry_state(hs, column_count as nat, k + 1).assign[k as int];
            st.heights[chosen as int] <= st.heights[c]
        }),
{
    let count = column_count as nat;
    lemma_state_wf(hs, count, k);
    let st = masonry_state(hs, count, k);
    assert(masonry_state(hs, count, k + 1) == masonry_step(st, hs[k as int] as int));
    assert(st.order.contains(c as usize));
    let j = choose|j: int| 0 <= j < st.order.len() && st.order[j] == c as usize;
    if j > 0 {
        assert(st.heights[st.order[0] as int] <= st.heights[st.order[j] as int]);
    }
}

/// Placing the articles adds their heights to the columns: the columns'
/// heights sum to the articles' heights.
pub proof fn masonry_heights_add_up(hs: Seq<u32>, column_count: u8, n: nat)
    requires
        column_count > 0,
        n <= hs.len(),
    ensures
        sum_ints(masonry_state(hs, column_count as nat, n).heights) == sum_heights(hs.take(n as int)),
    decreases n,
{
    let count = column_count as nat;
    if n == 0 {
        lemma_sum_ints_zero(count);
        assert(masonry_initial(count).heights =~= Seq::new(count, |i: int| 0int));
        assert(hs.take(0) =~= Seq::<u32>::empty());
    } else {
        masonry_heights_add_up(hs, column_count, (n - 1) as nat);
        lemma_state_wf(hs, count, (n - 1) as nat);
        let st = masonry_state(hs, count, (n - 1) as nat);
        let c = st.order[0];
        lemma_sum_ints_update(st.heights, c as int, st.heights[c as int] + hs[n - 1]);
        lemma_sum_heights_prefix(hs, n - 1);
    }
}

/// The columns stay balanced: while no article is higher than `bound`, no
/// column is ever higher than another by more than `bound`.
pub proof fn masonry_columns_stay_balanced(hs: Seq<u32>, column_count: u8, n: nat, bound: int)
    requires
        column_count > 0,
        n <= hs.len(),
        forall|i: int| 0 <= i < hs.len() ==> #[trigger] hs[i] <= bound,
        bound >= 0,
    ensures
        forall|a: int, b: int| 0 <= a < column_count && 0 <= b < column_count ==>
            #[trigger] masonry_state(hs, column_count as nat, n).heights[a]
                <= #[trigger] masonry_state(hs, column_count as nat, n).heights[b] + bound,
    decreases n,
{
    let count = column_count as nat;
    if n == 0 {
        let st = masonry_initial(count);
        assert forall|a: int, b: int| 0 <= a < column_count && 0 <= b < column_count implies
            #[trigger] st.heights[a] <= #[trigger] st.heights[b] + bound by {}
    } else {
        let k = (n - 1) as nat;
        masonry_columns_stay_balanced(hs, column_count, k, bound);
        lemma_state_wf(hs, count, k);
        let st = masonry_state(hs, count, k);
        let h = hs[k as int] as int;
        assert(masonry_state(hs, count, n) == masonry_step(st, h));
        let c = st.order[0] as int;
        let next = masonry_state(hs, count, n);
        assert(next.heights == st.heights.update(c, st.heights[c] + h));
        assert forall|b: int| 0 <= b < column_count implies st.heights[c] <= st.heights[b] by {
            assert(st.order.contains(b as usize));
            let j = choose|j: int| 0 <= j < st.order.len() && st.order[j] == b as usize;
            if j > 0 {
                assert(st.heights[st.order[0] as int] <= st.heights[st.order[j] as int]);
            }
        }
        assert forall|a: int, b: int| 0 <= a < column_count && 0 <= b < column_count implies
            #[trigger] next.heights[a] <= #[trigger] next.heights[b] + bound by {
            assert(st.heights[a] <= st.heights[b] + bound);
            assert(st.heights[a] <= st.heights[c] + bound);
            assert(st.heights[c] <= st.heights[b]);
        }
    }
}

}
