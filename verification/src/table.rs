//! In-memory tables: the rows of one relation in insertion order, and the
//! generic operations from which every query and statement of the store is built.
use vstd::prelude::*;

verus! {

/// A value that can be copied field by field.
pub trait Record: Sized {
    fn duplicate(&self) -> (copy: Self)
        ensures
            copy == *self,
    ;
}

/// One stored row with the account that owns it. `None` marks a row that was
/// written while nobody was signed in.
pub struct Row<T> {
    pub user_id: Option<String>,
    pub data: T,
}

/// The rows of one relation, oldest first, and the next automatic id.
pub struct Table<T> {
    pub rows: Vec<Row<T>>,
    pub next_id: i64,
}

/// The data columns of a sequence of rows.
pub open spec fn data_of<T>(rows: Seq<Row<T>>) -> Seq<T> {
    rows.map_values(|row: Row<T>| row.data)
}

/// The rows whose data satisfies `keep`, in their order.
pub open spec fn rows_kept<T>(rows: Seq<Row<T>>, keep: spec_fn(T) -> bool) -> Seq<Row<T>> {
    rows.filter(|row: Row<T>| keep(row.data))
}

/// Every row with its data replaced by `change` of it.
pub open spec fn rows_changed<T>(rows: Seq<Row<T>>, change: spec_fn(T) -> T) -> Seq<Row<T>> {
    rows.map_values(|row: Row<T>| Row { user_id: row.user_id, data: change(row.data) })
}

/// Whether some data element satisfies `hit`.
pub open spec fn any_data<T>(data: Seq<T>, hit: spec_fn(T) -> bool) -> bool {
    exists|i: int| 0 <= i < data.len() && hit(#[trigger] data[i])
}

/// The first data element that satisfies `hit`.
pub open spec fn first_data<T>(data: Seq<T>, hit: spec_fn(T) -> bool) -> Option<T>
    decreases data.len(),
{
    if data.len() == 0 {
        None
    } else if hit(data[0]) {
        Some(data[0])
    } else {
        first_data(data.drop_first(), hit)
    }
}

/// The position of the first element that satisfies `hit`, or the length where there is
/// none.
pub open spec fn position_of<T>(s: Seq<T>, hit: spec_fn(T) -> bool) -> int
    decreases s.len(),
{
    if s.len() == 0 || hit(s[0]) {
        0
    } else {
        1 + position_of(s.drop_first(), hit)
    }
}

/// The position of the first match, and that nothing before it matches.
pub broadcast proof fn lemma_position_of<T>(s: Seq<T>, hit: spec_fn(T) -> bool)
    ensures
        0 <= #[trigger] position_of(s, hit) <= s.len(),
        position_of(s, hit) < s.len() ==> hit(s[position_of(s, hit)]),
        forall|k: int| 0 <= k < position_of(s, hit) ==> !hit(#[trigger] s[k]),
    decreases s.len(),
{
    if s.len() > 0 && !hit(s[0]) {
        let rest = s.drop_first();
        lemma_position_of(rest, hit);
        assert forall|k: int| 0 <= k < position_of(s, hit) implies !hit(#[trigger] s[k]) by {
            if k > 0 {
                assert(!hit(rest[k - 1]));
            }
        }
    }
}

/// A position that has the properties of the first match is the first match.
pub proof fn lemma_position_is<T>(s: Seq<T>, hit: spec_fn(T) -> bool, at: int)
    requires
        0 <= at <= s.len(),
        at < s.len() ==> hit(s[at]),
        forall|k: int| 0 <= k < at ==> !hit(#[trigger] s[k]),
    ensures
        position_of(s, hit) == at,
{
    lemma_position_of(s, hit);
    let p = position_of(s, hit);
    if p < at {
        assert(!hit(s[p]));
    } else if at < p {
        assert(!hit(s[at]));
    }
}

/// A pair of sort columns; the second decides where the first is equal.
pub type Rank = (i64, i64);

/// Whether an element of rank `a` may stand before one of rank `b`.
pub open spec fn rank_before(desc: bool, a: Rank, b: Rank) -> bool {
    if desc {
        b.0 < a.0 || (b.0 == a.0 && b.1 <= a.1)
    } else {
        a.0 < b.0 || (a.0 == b.0 && a.1 <= b.1)
    }
}

/// `s` with `x` put behind the last element that may stand before it.
pub open spec fn insert_ranked<T>(
    s: Seq<T>,
    x: T,
    rank: spec_fn(T) -> Rank,
    desc: bool,
) -> Seq<T>
    decreases s.len(),
{
    if s.len() == 0 || rank_before(desc, rank(s.last()), rank(x)) {
        s.push(x)
    } else {
        insert_ranked(s.drop_last(), x, rank, desc).push(s.last())
    }
}

/// The elements that satisfy `keep`, ordered by `rank`; equal ranks keep their order.
pub open spec fn ranked<T>(
    s: Seq<T>,
    keep: spec_fn(T) -> bool,
    rank: spec_fn(T) -> Rank,
    desc: bool,
) -> Seq<T>
    decreases s.len(),
{
    if s.len() == 0 {
        Seq::empty()
    } else {
        let before = ranked(s.drop_last(), keep, rank, desc);
        if keep(s.last()) {
            insert_ranked(before, s.last(), rank, desc)
        } else {
            before
        }
    }
}

/// The elements from `offset` on, at most `limit` of them where a limit is given.
pub open spec fn page<T>(s: Seq<T>, limit: Option<u32>, offset: u32) -> Seq<T> {
    let start: int = if offset <= s.len() { offset as int } else { s.len() as int };
    let end: int = match limit {
        Some(n) => if start + n <= s.len() { start + n } else { s.len() as int },
        None => s.len() as int,
    };
    s.subrange(start, end)
}

pub open spec fn is_ranked<T>(s: Seq<T>, rank: spec_fn(T) -> Rank, desc: bool) -> bool {
    forall|i: int, j: int|
        0 <= i <= j < s.len() ==> rank_before(desc, rank(#[trigger] s[i]), rank(#[trigger] s[j]))
}

pub proof fn lemma_insert_ranked<T>(s: Seq<T>, x: T, rank: spec_fn(T) -> Rank, desc: bool)
    requires
        is_ranked(s, rank, desc),
    ensures
        is_ranked(insert_ranked(s, x, rank, desc), rank, desc),
        insert_ranked(s, x, rank, desc).to_multiset() == s.to_multiset().insert(x),
        insert_ranked(s, x, rank, desc).len() == s.len() + 1,
    decreases s.len(),
{
    broadcast use vstd::seq_lib::group_to_multiset_ensures;

    let out = insert_ranked(s, x, rank, desc);
    if s.len() == 0 || rank_before(desc, rank(s.last()), rank(x)) {
        assert forall|i: int, j: int| 0 <= i <= j < out.len() implies rank_before(
            desc,
            rank(#[trigger] out[i]),
            rank(#[trigger] out[j]),
        ) by {
            if j == s.len() && i < j {
                assert(rank_before(desc, rank(s[i]), rank(s[s.len() - 1])));
            } else if j < s.len() {
                assert(rank_before(desc, rank(s[i]), rank(s[j])));
            }
        }
    } else {
        let front = s.drop_last();
        lemma_insert_ranked(front, x, rank, desc);
        let inner = insert_ranked(front, x, rank, desc);
        lemma_insert_ranked_members(front, x, rank, desc);
        assert(front.push(s.last()) =~= s);
        assert forall|i: int, j: int| 0 <= i <= j < out.len() implies rank_before(
            desc,
            rank(#[trigger] out[i]),
            rank(#[trigger] out[j]),
        ) by {
            if j == inner.len() && i < j {
                assert(inner.contains(inner[i]));
                if inner[i] != x {
                    let k = choose|k: int| 0 <= k < front.len() && front[k] == inner[i];
                    assert(rank_before(desc, rank(s[k]), rank(s[s.len() - 1])));
                }
            } else if j < inner.len() {
                assert(rank_before(desc, rank(inner[i]), rank(inner[j])));
            }
        }
        assert(out.to_multiset() == s.to_multiset().insert(x));
    }
}

proof fn lemma_insert_ranked_members<T>(s: Seq<T>, x: T, rank: spec_fn(T) -> Rank, desc: bool)
    ensures
        forall|y: T|
            #[trigger] insert_ranked(s, x, rank, desc).contains(y) ==> y == x || s.contains(y),
    decreases s.len(),
{
    let out = insert_ranked(s, x, rank, desc);
    if s.len() == 0 || rank_before(desc, rank(s.last()), rank(x)) {
        assert forall|y: T| #[trigger] out.contains(y) implies y == x || s.contains(y) by {
            let i = choose|i: int| 0 <= i < out.len() && out[i] == y;
            if i < s.len() {
                assert(s[i] == y);
            }
        }
    } else {
        lemma_insert_ranked_members(s.drop_last(), x, rank, desc);
        let inner = insert_ranked(s.drop_last(), x, rank, desc);
        assert forall|y: T| #[trigger] out.contains(y) implies y == x || s.contains(y) by {
            let i = choose|i: int| 0 <= i < out.len() && out[i] == y;
            if i < inner.len() {
                assert(inner.contains(y));
                if y != x {
                    let k = choose|k: int| 0 <= k < s.drop_last().len() && s.drop_last()[k] == y;
                    assert(s[k] == y);
                }
            } else {
                assert(s[s.len() - 1] == y);
            }
        }
    }
}

/// A ranked selection is in rank order and holds exactly the kept elements.
pub proof fn law_ranked_is_sorted_selection<T>(
    s: Seq<T>,
    keep: spec_fn(T) -> bool,
    rank: spec_fn(T) -> Rank,
    desc: bool,
)
    ensures
        is_ranked(ranked(s, keep, rank, desc), rank, desc),
        ranked(s, keep, rank, desc).to_multiset() == s.filter(keep).to_multiset(),
    decreases s.len(),
{
    broadcast use vstd::seq_lib::group_to_multiset_ensures;

    reveal(Seq::filter);
    if s.len() > 0 {
        law_ranked_is_sorted_selection(s.drop_last(), keep, rank, desc);
        let before = ranked(s.drop_last(), keep, rank, desc);
        lemma_insert_ranked(before, s.last(), rank, desc);
    }
}

proof fn lemma_insert_ranked_at<T>(
    s: Seq<T>,
    x: T,
    rank: spec_fn(T) -> Rank,
    desc: bool,
    at: int,
)
    requires
        0 <= at <= s.len(),
        at > 0 ==> rank_before(desc, rank(s[at - 1]), rank(x)),
        forall|k: int| at <= k < s.len() ==> !rank_before(desc, rank(#[trigger] s[k]), rank(x)),
    ensures
        insert_ranked(s, x, rank, desc) == s.insert(at, x),
    decreases s.len(),
{
    if at < s.len() {
        assert(!rank_before(desc, rank(s[s.len() - 1]), rank(x)));
        lemma_insert_ranked_at(s.drop_last(), x, rank, desc, at);
        assert(s.drop_last().insert(at, x).push(s.last()) =~= s.insert(at, x));
    } else {
        assert(s.push(x) =~= s.insert(at, x));
    }
}

proof fn lemma_first_data_skip<T>(data: Seq<T>, hit: spec_fn(T) -> bool, at: int)
    requires
        0 <= at <= data.len(),
        forall|k: int| 0 <= k < at ==> !hit(#[trigger] data[k]),
    ensures
        first_data(data, hit) == first_data(data.skip(at), hit),
    decreases at,
{
    if at == 0 {
        assert(data.skip(0) =~= data);
    } else {
        assert(!hit(data[0]));
        let rest = data.drop_first();
        assert forall|k: int| 0 <= k < at - 1 implies !hit(#[trigger] rest[k]) by {
            assert(!hit(data[k + 1]));
        }
        lemma_first_data_skip(rest, hit, at - 1);
        assert(rest.skip(at - 1) =~= data.skip(at));
    }
}

/// The first match is a match; there is one exactly where some element matches.
pub proof fn law_first_data<T>(data: Seq<T>, hit: spec_fn(T) -> bool)
    ensures
        first_data(data, hit) is Some <==> any_data(data, hit),
        first_data(data, hit) matches Some(found) ==> hit(found) && data.contains(found),
    decreases data.len(),
{
    if data.len() > 0 {
        if hit(data[0]) {
            assert(any_data(data, hit));
        } else {
            let rest = data.drop_first();
            law_first_data(rest, hit);
            if any_data(rest, hit) {
                let i = choose|i: int| 0 <= i < rest.len() && hit(#[trigger] rest[i]);
                assert(hit(data[i + 1]));
            }
            if any_data(data, hit) {
                let i = choose|i: int| 0 <= i < data.len() && hit(#[trigger] data[i]);
                assert(hit(rest[i - 1]));
            }
            if first_data(rest, hit) is Some {
                let found = first_data(rest, hit)->0;
                let i = choose|i: int| 0 <= i < rest.len() && rest[i] == found;
                assert(data[i + 1] == found);
            }
        }
    }
}

/// What is kept of the rows is what is kept of their data.
pub proof fn law_kept_rows_hold_kept_data<T>(rows: Seq<Row<T>>, keep: spec_fn(T) -> bool)
    ensures
        data_of(rows_kept(rows, keep)) == data_of(rows).filter(keep),
    decreases rows.len(),
{
    reveal(Seq::filter);
    if rows.len() > 0 {
        law_kept_rows_hold_kept_data(rows.drop_last(), keep);
        assert(data_of(rows).drop_last() =~= data_of(rows.drop_last()));
        assert(data_of(rows).last() == rows.last().data);
        let kept = rows_kept(rows.drop_last(), keep);
        assert(data_of(kept.push(rows.last())) =~= data_of(kept).push(rows.last().data));
        assert(data_of(rows_kept(rows, keep)) =~= data_of(rows).filter(keep));
    } else {
        assert(data_of(rows_kept(rows, keep)) =~= data_of(rows).filter(keep));
    }
}

fn rank_before_exec(desc: bool, a: Rank, b: Rank) -> (r: bool)
    ensures
        r == rank_before(desc, a, b),
{
    if desc {
        b.0 < a.0 || (b.0 == a.0 && b.1 <= a.1)
    } else {
        a.0 < b.0 || (a.0 == b.0 && a.1 <= b.1)
    }
}

/// The first element, where there is one.
pub open spec fn first_of<T>(s: Seq<T>) -> Option<T> {
    if s.len() == 0 {
        None
    } else {
        Some(s[0])
    }
}

/// A copy of the first element.
pub fn first_item<T: Record>(all: &Vec<T>) -> (out: Option<T>)
    ensures
        out == first_of(all@),
{
    if all.len() == 0 {
        None
    } else {
        Some(all[0].duplicate())
    }
}

/// Cuts a page out of a list.
pub fn take_page<T: Record>(all: &Vec<T>, limit: Option<u32>, offset: u32) -> (out: Vec<T>)
    ensures
        out@ == page(all@, limit, offset),
{
    let len: usize = all.len();
    let start: usize = if (offset as u64) <= (len as u64) { offset as usize } else { len };
    let end: usize = match limit {
        Some(n) => if (n as u64) <= ((len - start) as u64) { start + n as usize } else { len },
        None => len,
    };
    let mut out: Vec<T> = Vec::new();
    let mut i: usize = start;
    while i < end
        invariant
            start <= i <= end <= all@.len(),
            out@ == all@.subrange(start as int, i as int),
        decreases end - i,
    {
        out.push(all[i].duplicate());
        proof {
            assert(all@.subrange(start as int, i + 1) =~= all@.subrange(start as int, i as int).push(
                all@[i as int],
            ));
        }
        i = i + 1;
    }
    out
}

impl<T> Table<T> {
    /// The data columns, oldest row first.
    pub open spec fn data(self) -> Seq<T> {
        data_of(self.rows@)
    }

    pub fn new() -> (table: Self)
        ensures
            table.rows@ == Seq::<Row<T>>::empty(),
            table.next_id == 1,
    {
        Table { rows: Vec::new(), next_id: 1 }
    }

    /// Removes every row; automatic ids go on from where they were.
    pub fn clear(&mut self) -> (removed: usize)
        ensures
            final(self).rows@ == Seq::<Row<T>>::empty(),
            final(self).next_id == old(self).next_id,
            removed == old(self).rows@.len(),
    {
        let removed: usize = self.rows.len();
        self.rows.clear();
        removed
    }

    /// Appends a row that nobody owns yet.
    pub fn push(&mut self, data: T)
        ensures
            final(self).rows@ == old(self).rows@.push((Row { user_id: None, data })),
            final(self).next_id == old(self).next_id,
    {
        self.rows.push(Row { user_id: None, data });
    }

    /// Hands out the next automatic id.
    pub fn take_id(&mut self) -> (id: i64)
        requires
            old(self).next_id < i64::MAX,
        ensures
            id == old(self).next_id,
            final(self).next_id == old(self).next_id + 1,
            final(self).rows == old(self).rows,
    {
        let id: i64 = self.next_id;
        self.next_id = id + 1;
        id
    }

    /// Gives every row without an owner to `user_id` and counts them.
    pub fn claim(&mut self, user_id: &String) -> (claimed: usize)
        ensures
            final(self).rows@ == rows_claimed(old(self).rows@, *user_id),
            final(self).next_id == old(self).next_id,
            claimed == count_unowned(old(self).rows@),
            claimed <= old(self).rows@.len(),
    {
        let ghost before = self.rows@;
        let total: usize = self.rows.len();
        let mut claimed: usize = 0;
        let mut left: Vec<Row<T>> = Vec::new();
        std::mem::swap(&mut left, &mut self.rows);
        let mut done: Vec<Row<T>> = Vec::new();
        proof {
            assert(before.skip(0) =~= before);
        }
        while left.len() > 0
            invariant
                done@.len() + left@.len() == before.len(),
                before.len() == total,
                left@ == before.skip(done@.len() as int),
                done@ == rows_claimed(before.take(done@.len() as int), *user_id),
                claimed == count_unowned(before.take(done@.len() as int)),
                claimed <= done@.len(),
            decreases left@.len(),
        {
            let ghost at = done@.len() as int;
            let row = left.remove(0);
            proof {
                assert(before.take(at + 1).drop_last() =~= before.take(at));
                assert(before.skip(at).remove(0) =~= before.skip(at + 1));
            }
            if row.user_id.is_none() {
                claimed = claimed + 1;
                done.push(Row { user_id: Some(user_id.clone()), data: row.data });
            } else {
                done.push(row);
            }
            proof {
                assert(rows_claimed(before.take(at + 1), *user_id) =~= rows_claimed(
                    before.take(at),
                    *user_id,
                ).push(row_claimed(before[at], *user_id)));
            }
        }
        proof {
            assert(before.take(before.len() as int) =~= before);
        }
        self.rows = done;
        claimed
    }

    /// Removes the rows whose data does not satisfy `keep` and counts them.
    pub fn retain<F: Fn(&T) -> bool>(
        &mut self,
        keep: F,
        Ghost(keep_spec): Ghost<spec_fn(T) -> bool>,
    ) -> (removed: usize)
        requires
            forall|x: &T| call_requires(keep, (x,)),
            forall|x: &T, b: bool| call_ensures(keep, (x,), b) ==> b == keep_spec(*x),
        ensures
            final(self).rows@ == rows_kept(old(self).rows@, keep_spec),
            final(self).next_id == old(self).next_id,
            removed == old(self).rows@.len() - rows_kept(old(self).rows@, keep_spec).len(),
    {
        reveal(Seq::filter);
        let ghost before = self.rows@;
        let ghost row_keep = |row: Row<T>| keep_spec(row.data);
        let total: usize = self.rows.len();
        let mut i: usize = 0;
        let mut removed: usize = 0;
        let ghost mut seen: int = 0;
        proof {
            assert(before.skip(0) =~= before);
            assert(before.take(0).filter(row_keep) =~= Seq::<Row<T>>::empty());
            assert(Seq::<Row<T>>::empty() + before =~= before);
        }
        while i < self.rows.len()
            invariant
                0 <= seen <= before.len(),
                i == before.take(seen).filter(row_keep).len(),
                i + removed == seen,
                before.len() == total,
                self.rows@ == before.take(seen).filter(row_keep) + before.skip(seen),
                self.next_id == old(self).next_id,
                row_keep == (|row: Row<T>| keep_spec(row.data)),
                forall|x: &T| call_requires(keep, (x,)),
                forall|x: &T, b: bool| call_ensures(keep, (x,), b) ==> b == keep_spec(*x),
            decreases before.len() - seen,
        {
            let ghost kept = before.take(seen).filter(row_keep);
            proof {
                reveal(Seq::filter);
                assert(self.rows@[i as int] == before[seen]);
                assert(before.take(seen + 1).drop_last() =~= before.take(seen));
                assert(before.take(seen + 1).last() == before[seen]);
            }
            if keep(&self.rows[i].data) {
                proof {
                    assert(kept + before.skip(seen) =~= kept.push(before[seen]) + before.skip(
                        seen + 1,
                    ));
                }
                i = i + 1;
            } else {
                self.rows.remove(i);
                removed = removed + 1;
                proof {
                    assert((kept + before.skip(seen)).remove(i as int) =~= kept + before.skip(
                        seen + 1,
                    ));
                }
            }
            proof {
                seen = seen + 1;
            }
        }
        proof {
            assert(self.rows@.len() == i);
            assert(before.skip(seen).len() == 0);
            assert(before.take(seen) =~= before);
            assert(self.rows@ =~= before.filter(row_keep));
        }
        removed
    }

    /// Replaces the data of every row by `change` of it.
    pub fn change<F: Fn(&T) -> T>(
        &mut self,
        change: F,
        Ghost(change_spec): Ghost<spec_fn(T) -> T>,
    )
        requires
            forall|x: &T| call_requires(change, (x,)),
            forall|x: &T, y: T| call_ensures(change, (x,), y) ==> y == change_spec(*x),
        ensures
            final(self).rows@ == rows_changed(old(self).rows@, change_spec),
            final(self).next_id == old(self).next_id,
    {
        let ghost before = self.rows@;
        let mut left: Vec<Row<T>> = Vec::new();
        std::mem::swap(&mut left, &mut self.rows);
        let mut done: Vec<Row<T>> = Vec::new();
        proof {
            assert(before.skip(0) =~= before);
        }
        while left.len() > 0
            invariant
                done@.len() + left@.len() == before.len(),
                left@ == before.skip(done@.len() as int),
                done@ == rows_changed(before.take(done@.len() as int), change_spec),
                forall|x: &T| call_requires(change, (x,)),
                forall|x: &T, y: T| call_ensures(change, (x,), y) ==> y == change_spec(*x),
            decreases left@.len(),
        {
            let ghost at = done@.len() as int;
            let row = left.remove(0);
            proof {
                assert(before.skip(at).remove(0) =~= before.skip(at + 1));
            }
            let data = change(&row.data);
            done.push(Row { user_id: row.user_id, data });
            proof {
                assert(rows_changed(before.take(at + 1), change_spec) =~= rows_changed(
                    before.take(at),
                    change_spec,
                ).push(Row { user_id: before[at].user_id, data: change_spec(before[at].data) }));
            }
        }
        proof {
            assert(before.take(before.len() as int) =~= before);
        }
        self.rows = done;
    }

    /// Whether the data of some row satisfies `hit`.
    pub fn any<F: Fn(&T) -> bool>(&self, hit: F, Ghost(hit_spec): Ghost<spec_fn(T) -> bool>) -> (r:
        bool)
        requires
            forall|x: &T| call_requires(hit, (x,)),
            forall|x: &T, b: bool| call_ensures(hit, (x,), b) ==> b == hit_spec(*x),
        ensures
            r == any_data(self.data(), hit_spec),
    {
        let mut i: usize = 0;
        while i < self.rows.len()
            invariant
                i <= self.rows@.len(),
                forall|k: int| 0 <= k < i ==> !hit_spec(#[trigger] self.data()[k]),
                forall|x: &T| call_requires(hit, (x,)),
                forall|x: &T, b: bool| call_ensures(hit, (x,), b) ==> b == hit_spec(*x),
            decreases self.rows@.len() - i,
        {
            if hit(&self.rows[i].data) {
                proof {
                    assert(hit_spec(self.data()[i as int]));
                }
                return true;
            }
            i = i + 1;
        }
        false
    }

    /// How many rows hold data that satisfies `hit`.
    pub fn count<F: Fn(&T) -> bool>(
        &self,
        hit: F,
        Ghost(hit_spec): Ghost<spec_fn(T) -> bool>,
    ) -> (n: usize)
        requires
            forall|x: &T| call_requires(hit, (x,)),
            forall|x: &T, b: bool| call_ensures(hit, (x,), b) ==> b == hit_spec(*x),
        ensures
            n == self.data().filter(hit_spec).len(),
    {
        reveal(Seq::filter);
        let mut i: usize = 0;
        let mut n: usize = 0;
        while i < self.rows.len()
            invariant
                i <= self.rows@.len(),
                n <= i,
                n == self.data().take(i as int).filter(hit_spec).len(),
                forall|x: &T| call_requires(hit, (x,)),
                forall|x: &T, b: bool| call_ensures(hit, (x,), b) ==> b == hit_spec(*x),
            decreases self.rows@.len() - i,
        {
            proof {
                reveal(Seq::filter);
                let seen = self.data().take(i + 1);
                assert(seen.drop_last() =~= self.data().take(i as int));
                assert(seen.last() == self.rows@[i as int].data);
            }
            if hit(&self.rows[i].data) {
                n = n + 1;
            }
            i = i + 1;
        }
        proof {
            assert(self.data().take(i as int) =~= self.data());
        }
        n
    }
}

pub open spec fn row_claimed<T>(row: Row<T>, user_id: String) -> Row<T> {
    if row.user_id is None {
        Row { user_id: Some(user_id), data: row.data }
    } else {
        row
    }
}

/// Every row without an owner given to `user_id`.
pub open spec fn rows_claimed<T>(rows: Seq<Row<T>>, user_id: String) -> Seq<Row<T>> {
    rows.map_values(|row: Row<T>| row_claimed(row, user_id))
}

/// How many rows have no owner.
pub open spec fn count_unowned<T>(rows: Seq<Row<T>>) -> nat
    decreases rows.len(),
{
    if rows.len() == 0 {
        0
    } else {
        count_unowned(rows.drop_last()) + if rows.last().user_id is None { 1nat } else { 0nat }
    }
}

/// Data that `hit` does not hold of as it is, other data changed.
pub open spec fn changed_where<T>(hit: spec_fn(T) -> bool, change: spec_fn(T) -> T) -> spec_fn(
    T,
) -> T {
    |data: T| if hit(data) { change(data) } else { data }
}

/// The rows with the data that satisfies `hit` changed.
pub open spec fn rows_updated<T>(
    rows: Seq<Row<T>>,
    hit: spec_fn(T) -> bool,
    change: spec_fn(T) -> T,
) -> Seq<Row<T>> {
    rows_changed(rows, changed_where(hit, change))
}

/// The rows after an insert that changes the rows that conflict with it: where some data
/// satisfies `hit`, that data changed; else a new row at the end.
pub open spec fn rows_upserted<T>(
    rows: Seq<Row<T>>,
    hit: spec_fn(T) -> bool,
    change: spec_fn(T) -> T,
    new: T,
) -> Seq<Row<T>> {
    if any_data(data_of(rows), hit) {
        rows_updated(rows, hit, change)
    } else {
        rows.push(Row { user_id: None, data: new })
    }
}

/// Whether no two elements satisfy `hit`.
pub open spec fn at_most_one<T>(data: Seq<T>, hit: spec_fn(T) -> bool) -> bool {
    forall|i: int, j: int|
        0 <= i < j < data.len() ==> !(hit(#[trigger] data[i]) && hit(#[trigger] data[j]))
}

/// What an upsert wrote is what a search for it finds; where no two elements satisfied
/// the search before, none do after.
pub proof fn law_upsert_read_back<T>(
    rows: Seq<Row<T>>,
    hit: spec_fn(T) -> bool,
    change: spec_fn(T) -> T,
    new: T,
)
    requires
        hit(new),
        forall|d: T| hit(d) ==> hit(#[trigger] change(d)),
    ensures
        first_data(data_of(rows_upserted(rows, hit, change, new)), hit) == Some(
            match first_data(data_of(rows), hit) {
                Some(d) => change(d),
                None => new,
            },
        ),
        at_most_one(data_of(rows), hit) ==> at_most_one(
            data_of(rows_upserted(rows, hit, change, new)),
            hit,
        ),
{
    law_first_data(data_of(rows), hit);
    let data = data_of(rows);
    let after = data_of(rows_upserted(rows, hit, change, new));
    if any_data(data, hit) {
        law_first_updated(rows, hit, change, hit);
        if at_most_one(data, hit) {
            assert forall|i: int, j: int| 0 <= i < j < after.len() implies !(hit(
                #[trigger] after[i],
            ) && hit(#[trigger] after[j])) by {
                assert(!(hit(data[i]) && hit(data[j])));
            }
        }
    } else {
        lemma_first_pushed(rows, new, hit);
        if at_most_one(data, hit) {
            assert forall|i: int, j: int| 0 <= i < j < after.len() implies !(hit(
                #[trigger] after[i],
            ) && hit(#[trigger] after[j])) by {
                assert(after[i] == data[i]);
            }
        }
    }
}

/// An upsert leaves what a search for other data finds as it was.
pub proof fn law_upsert_leaves_others<T>(
    rows: Seq<Row<T>>,
    hit: spec_fn(T) -> bool,
    change: spec_fn(T) -> T,
    new: T,
    other: spec_fn(T) -> bool,
)
    requires
        !other(new),
        forall|d: T| #![trigger hit(d)] hit(d) ==> !other(d) && !other(change(d)),
    ensures
        first_data(data_of(rows_upserted(rows, hit, change, new)), other) == first_data(
            data_of(rows),
            other,
        ),
{
    if any_data(data_of(rows), hit) {
        law_first_updated(rows, hit, change, other);
        law_first_data(data_of(rows), other);
    } else {
        lemma_first_pushed(rows, new, other);
    }
}

/// What is first among the data that are asked for stays the first of them through an update
/// that keeps which data are asked for, and is changed where the update hits it.
pub proof fn law_first_updated<T>(
    rows: Seq<Row<T>>,
    hit: spec_fn(T) -> bool,
    change: spec_fn(T) -> T,
    asked: spec_fn(T) -> bool,
)
    requires
        forall|d: T| #![trigger hit(d)] hit(d) ==> asked(d) == asked(change(d)),
    ensures
        first_data(data_of(rows_updated(rows, hit, change)), asked) == match first_data(
            data_of(rows),
            asked,
        ) {
            Some(d) => Some(changed_where(hit, change)(d)),
            None => None,
        },
    decreases rows.len(),
{
    let new = rows_updated(rows, hit, change);
    if rows.len() > 0 {
        law_first_updated(rows.drop_first(), hit, change, asked);
        assert(data_of(rows).drop_first() =~= data_of(rows.drop_first()));
        assert(data_of(new).drop_first() =~= data_of(
            rows_updated(rows.drop_first(), hit, change),
        ));
        assert(data_of(new)[0] == changed_where(hit, change)(data_of(rows)[0]));
        assert(hit(data_of(rows)[0]) || !hit(data_of(rows)[0]));
    }
}

proof fn lemma_first_pushed<T>(rows: Seq<Row<T>>, new: T, asked: spec_fn(T) -> bool)
    ensures
        first_data(data_of(rows.push(Row { user_id: None, data: new })), asked) == match first_data(
            data_of(rows),
            asked,
        ) {
            Some(d) => Some(d),
            None => if asked(new) { Some(new) } else { None },
        },
    decreases rows.len(),
{
    let after = rows.push(Row { user_id: None, data: new });
    if rows.len() > 0 {
        lemma_first_pushed(rows.drop_first(), new, asked);
        assert(data_of(rows).drop_first() =~= data_of(rows.drop_first()));
        assert(data_of(after).drop_first() =~= data_of(
            rows.drop_first().push(Row { user_id: None, data: new }),
        ));
        assert(data_of(after)[0] == data_of(rows)[0]);
    } else {
        reveal_with_fuel(first_data, 2);
        assert(data_of(after).drop_first() =~= Seq::<T>::empty());
    }
}

/// An update leaves data that it does not hit, and every owner, as they are.
pub proof fn law_update_is_local<T>(
    rows: Seq<Row<T>>,
    hit: spec_fn(T) -> bool,
    change: spec_fn(T) -> T,
    i: int,
)
    requires
        0 <= i < rows.len(),
    ensures
        rows_updated(rows, hit, change).len() == rows.len(),
        rows_updated(rows, hit, change)[i].user_id == rows[i].user_id,
        !hit(rows[i].data) ==> rows_updated(rows, hit, change)[i] == rows[i],
        hit(rows[i].data) ==> rows_updated(rows, hit, change)[i].data == change(rows[i].data),
{
}

/// A removal leaves no data that it hits.
pub proof fn law_removed_is_gone<T>(rows: Seq<Row<T>>, keep: spec_fn(T) -> bool)
    ensures
        !any_data(data_of(rows_kept(rows, keep)), |d: T| !keep(d)),
{
    law_kept_rows_hold_kept_data(rows, keep);
    let data = data_of(rows);
    let kept = data.filter(keep);
    assert forall|i: int| 0 <= i < kept.len() implies keep(#[trigger] kept[i]) by {
        data.lemma_filter_pred(keep, i);
    }
}

/// A removal leaves what a search for data that is kept finds as it was.
pub proof fn law_removal_leaves_others<T>(
    rows: Seq<Row<T>>,
    keep: spec_fn(T) -> bool,
    asked: spec_fn(T) -> bool,
)
    requires
        forall|d: T| #[trigger] asked(d) ==> keep(d),
    ensures
        first_data(data_of(rows_kept(rows, keep)), asked) == first_data(data_of(rows), asked),
    decreases rows.len(),
{
    reveal(Seq::filter);
    if rows.len() > 0 {
        let front = rows.drop_last();
        let last = rows.last().data;
        let kept = rows_kept(front, keep);
        law_removal_leaves_others(front, keep, asked);
        lemma_first_pushed(front, last, asked);
        assert(data_of(front.push(Row { user_id: None, data: last })) =~= data_of(rows));
        if keep(last) {
            lemma_first_pushed(kept, last, asked);
            assert(data_of(kept.push(Row { user_id: None, data: last })) =~= data_of(
                rows_kept(rows, keep),
            ));
        }
    } else {
        assert(data_of(rows_kept(rows, keep)) =~= data_of(rows));
    }
}

/// Claiming gives every row an owner and takes none from its owner.
pub proof fn law_claim_leaves_no_orphan<T>(rows: Seq<Row<T>>, user_id: String)
    ensures
        count_unowned(rows_claimed(rows, user_id)) == 0,
        data_of(rows_claimed(rows, user_id)) == data_of(rows),
    decreases rows.len(),
{
    assert(data_of(rows_claimed(rows, user_id)) =~= data_of(rows));
    if rows.len() > 0 {
        law_claim_leaves_no_orphan(rows.drop_last(), user_id);
        assert(rows_claimed(rows, user_id).drop_last() =~= rows_claimed(rows.drop_last(), user_id));
    }
}

/// Whether no two rows have the same key.
#[verifier::opaque]
pub open spec fn keyed<T, K>(rows: Seq<Row<T>>, key: spec_fn(T) -> K) -> bool {
    forall|i: int, j: int|
        0 <= i < j < rows.len() ==> key((#[trigger] rows[i]).data) != key((#[trigger] rows[j]).data)
}

/// Whether every row has an id of its own, and all of them lie below the next automatic one.
#[verifier::opaque]
pub open spec fn numbered<T>(rows: Seq<Row<T>>, id: spec_fn(T) -> i64, next_id: i64) -> bool {
    &&& keyed(rows, id)
    &&& forall|i: int| 0 <= i < rows.len() ==> id((#[trigger] rows[i]).data) < next_id
}

proof fn lemma_kept_from<T>(rows: Seq<Row<T>>, keep: spec_fn(T) -> bool)
    ensures
        forall|i: int|
            0 <= i < rows_kept(rows, keep).len() ==> rows.contains(
                #[trigger] rows_kept(rows, keep)[i],
            ),
    decreases rows.len(),
{
    reveal(Seq::filter);
    if rows.len() > 0 {
        let front = rows.drop_last();
        let before = rows_kept(front, keep);
        let kept = rows_kept(rows, keep);
        lemma_kept_from(front, keep);
        assert forall|i: int| 0 <= i < kept.len() implies rows.contains(#[trigger] kept[i]) by {
            if i < before.len() {
                assert(front.contains(before[i]));
                let k = choose|k: int| 0 <= k < front.len() && front[k] == before[i];
                assert(rows[k] == kept[i]);
            } else {
                assert(rows[rows.len() - 1] == kept[i]);
            }
        }
    }
}

/// A table without rows has no key twice.
pub broadcast proof fn lemma_keyed_empty<T, K>(rows: Seq<Row<T>>, key: spec_fn(T) -> K)
    requires
        rows.len() == 0,
    ensures
        #[trigger] keyed(rows, key),
{
    reveal(keyed);
}

/// A removal keeps keys apart.
pub broadcast proof fn lemma_keyed_kept<T, K>(
    rows: Seq<Row<T>>,
    keep: spec_fn(T) -> bool,
    key: spec_fn(T) -> K,
)
    requires
        keyed(rows, key),
    ensures
        #[trigger] keyed(rows_kept(rows, keep), key),
    decreases rows.len(),
{
    reveal(Seq::filter);
    reveal(keyed);
    if rows.len() > 0 {
        let front = rows.drop_last();
        let before = rows_kept(front, keep);
        let kept = rows_kept(rows, keep);
        lemma_keyed_kept(front, keep, key);
        lemma_kept_from(front, keep);
        assert forall|i: int, j: int| 0 <= i < j < kept.len() implies key((#[trigger] kept[i]).data)
            != key((#[trigger] kept[j]).data) by {
            assert(kept[i] == before[i]);
            if j < before.len() {
                assert(kept[j] == before[j]);
            } else {
                assert(front.contains(before[i]));
                let k = choose|k: int| 0 <= k < front.len() && front[k] == before[i];
                assert(rows[k] == kept[i] && rows[rows.len() - 1] == kept[j]);
            }
        }
    }
}

/// An update that leaves the keys keeps them apart.
pub broadcast proof fn lemma_keyed_updated<T, K>(
    rows: Seq<Row<T>>,
    hit: spec_fn(T) -> bool,
    change: spec_fn(T) -> T,
    key: spec_fn(T) -> K,
)
    requires
        keyed(rows, key),
        forall|d: T| key(#[trigger] change(d)) == key(d),
    ensures
        #[trigger] keyed(rows_updated(rows, hit, change), key),
{
    reveal(keyed);
    let after = rows_updated(rows, hit, change);
    assert forall|i: int, j: int| 0 <= i < j < after.len() implies key((#[trigger] after[i]).data)
        != key((#[trigger] after[j]).data) by {
        assert(key(change(rows[i].data)) == key(rows[i].data));
        assert(key(change(rows[j].data)) == key(rows[j].data));
        assert(key(rows[i].data) != key(rows[j].data));
    }
}

/// A row with a new key keeps keys apart.
pub broadcast proof fn lemma_keyed_pushed<T, K>(
    rows: Seq<Row<T>>,
    row: Row<T>,
    key: spec_fn(T) -> K,
)
    requires
        keyed(rows, key),
        !any_data(data_of(rows), |d: T| key(d) == key(row.data)),
    ensures
        #[trigger] keyed(rows.push(row), key),
{
    reveal(keyed);
    let after = rows.push(row);
    let hit = |d: T| key(d) == key(row.data);
    assert forall|i: int, j: int| 0 <= i < j < after.len() implies key((#[trigger] after[i]).data)
        != key((#[trigger] after[j]).data) by {
        if j == rows.len() {
            assert(!hit(data_of(rows)[i]));
        } else {
            assert(key(rows[i].data) != key(rows[j].data));
        }
    }
}

/// An upsert that goes by the key keeps keys apart.
pub broadcast proof fn lemma_keyed_upserted<T, K>(
    rows: Seq<Row<T>>,
    hit: spec_fn(T) -> bool,
    change: spec_fn(T) -> T,
    new: T,
    key: spec_fn(T) -> K,
)
    requires
        keyed(rows, key),
        forall|d: T| key(#[trigger] change(d)) == key(d),
        forall|d: T| key(d) == key(new) ==> #[trigger] hit(d),
    ensures
        #[trigger] keyed(rows_upserted(rows, hit, change, new), key),
{
    if any_data(data_of(rows), hit) {
        lemma_keyed_updated(rows, hit, change, key);
    } else {
        let same = |d: T| key(d) == key(new);
        let data = data_of(rows);
        assert(!any_data(data, same)) by {
            assert forall|i: int| 0 <= i < data.len() implies !same(#[trigger] data[i]) by {
                assert(!hit(data[i]));
            }
        }
        lemma_keyed_pushed(rows, Row { user_id: None, data: new }, key);
    }
}

/// Claiming rows keeps keys apart.
pub broadcast proof fn lemma_keyed_claimed<T, K>(
    rows: Seq<Row<T>>,
    user_id: String,
    key: spec_fn(T) -> K,
)
    requires
        keyed(rows, key),
    ensures
        #[trigger] keyed(rows_claimed(rows, user_id), key),
{
    reveal(keyed);
    let after = rows_claimed(rows, user_id);
    assert forall|i: int, j: int| 0 <= i < j < after.len() implies key((#[trigger] after[i]).data)
        != key((#[trigger] after[j]).data) by {
        assert(key(rows[i].data) != key(rows[j].data));
    }
}

/// A table without rows has no id twice.
pub broadcast proof fn lemma_numbered_empty<T>(
    rows: Seq<Row<T>>,
    id: spec_fn(T) -> i64,
    next_id: i64,
)
    requires
        rows.len() == 0,
    ensures
        #[trigger] numbered(rows, id, next_id),
{
    reveal(numbered);
    lemma_keyed_empty(rows, id);
}

/// A removal keeps ids apart.
pub broadcast proof fn lemma_numbered_kept<T>(
    rows: Seq<Row<T>>,
    keep: spec_fn(T) -> bool,
    id: spec_fn(T) -> i64,
    next_id: i64,
)
    requires
        numbered(rows, id, next_id),
    ensures
        #[trigger] numbered(rows_kept(rows, keep), id, next_id),
{
    reveal(numbered);
    lemma_keyed_kept(rows, keep, id);
    lemma_kept_from(rows, keep);
    let kept = rows_kept(rows, keep);
    assert forall|i: int| 0 <= i < kept.len() implies id((#[trigger] kept[i]).data) < next_id by {
        assert(rows.contains(kept[i]));
        let k = choose|k: int| 0 <= k < rows.len() && rows[k] == kept[i];
        assert(id(rows[k].data) < next_id);
    }
}

/// An update that leaves the ids keeps them apart.
pub broadcast proof fn lemma_numbered_updated<T>(
    rows: Seq<Row<T>>,
    hit: spec_fn(T) -> bool,
    change: spec_fn(T) -> T,
    id: spec_fn(T) -> i64,
    next_id: i64,
)
    requires
        numbered(rows, id, next_id),
        forall|d: T| id(#[trigger] change(d)) == id(d),
    ensures
        #[trigger] numbered(rows_updated(rows, hit, change), id, next_id),
{
    reveal(numbered);
    lemma_keyed_updated(rows, hit, change, id);
    let after = rows_updated(rows, hit, change);
    assert forall|i: int| 0 <= i < after.len() implies id((#[trigger] after[i]).data) < next_id by {
        assert(id(change(rows[i].data)) == id(rows[i].data));
        assert(id(rows[i].data) < next_id);
    }
}

/// A row with the next id keeps ids apart.
pub broadcast proof fn lemma_numbered_pushed<T>(
    rows: Seq<Row<T>>,
    row: Row<T>,
    id: spec_fn(T) -> i64,
    next_id: i64,
)
    requires
        numbered(rows, id, id(row.data)),
        next_id == id(row.data) + 1,
    ensures
        #[trigger] numbered(rows.push(row), id, next_id),
{
    reveal(numbered);
    let same = |d: T| id(d) == id(row.data);
    let data = data_of(rows);
    assert(!any_data(data, same)) by {
        assert forall|i: int| 0 <= i < data.len() implies !same(#[trigger] data[i]) by {
            assert(id(rows[i].data) < id(row.data));
        }
    }
    lemma_keyed_pushed(rows, row, id);
    let after = rows.push(row);
    assert forall|i: int| 0 <= i < after.len() implies id((#[trigger] after[i]).data) < next_id by {
        if i < rows.len() {
            assert(id(rows[i].data) < id(row.data));
        }
    }
}

/// Claiming rows keeps ids apart.
pub broadcast proof fn lemma_numbered_claimed<T>(
    rows: Seq<Row<T>>,
    user_id: String,
    id: spec_fn(T) -> i64,
    next_id: i64,
)
    requires
        numbered(rows, id, next_id),
    ensures
        #[trigger] numbered(rows_claimed(rows, user_id), id, next_id),
{
    reveal(numbered);
    lemma_keyed_claimed(rows, user_id, id);
    let after = rows_claimed(rows, user_id);
    assert forall|i: int| 0 <= i < after.len() implies id((#[trigger] after[i]).data) < next_id by {
        assert(id(rows[i].data) < next_id);
    }
}

pub broadcast group group_keyed {
    lemma_keyed_empty,
    lemma_keyed_kept,
    lemma_keyed_updated,
    lemma_keyed_pushed,
    lemma_keyed_upserted,
    lemma_keyed_claimed,
    lemma_numbered_empty,
    lemma_numbered_kept,
    lemma_numbered_updated,
    lemma_numbered_pushed,
    lemma_numbered_claimed,
}

/// Where keys are apart, a search for one key finds at most one row.
pub proof fn law_keyed_is_found_once<T, K>(
    rows: Seq<Row<T>>,
    key: spec_fn(T) -> K,
    hit: spec_fn(T) -> bool,
    wanted: K,
)
    requires
        keyed(rows, key),
        forall|d: T| #[trigger] hit(d) ==> key(d) == wanted,
    ensures
        at_most_one(data_of(rows), hit),
{
    reveal(keyed);
    let data = data_of(rows);
    assert forall|i: int, j: int| 0 <= i < j < data.len() implies !(hit(#[trigger] data[i]) && hit(
        #[trigger] data[j],
    )) by {
        assert(key(rows[i].data) != key(rows[j].data));
    }
}

/// Whether no two elements have the same key.
pub open spec fn distinct_by<T, K>(s: Seq<T>, key: spec_fn(T) -> K) -> bool {
    forall|i: int, j: int| 0 <= i < j < s.len() ==> key(#[trigger] s[i]) != key(#[trigger] s[j])
}

proof fn lemma_insert_distinct<T, K>(
    s: Seq<T>,
    x: T,
    rank: spec_fn(T) -> Rank,
    desc: bool,
    key: spec_fn(T) -> K,
)
    requires
        distinct_by(s, key),
        forall|i: int| 0 <= i < s.len() ==> key(#[trigger] s[i]) != key(x),
    ensures
        distinct_by(insert_ranked(s, x, rank, desc), key),
    decreases s.len(),
{
    if !(s.len() == 0 || rank_before(desc, rank(s.last()), rank(x))) {
        let front = s.drop_last();
        let inner = insert_ranked(front, x, rank, desc);
        let out = insert_ranked(s, x, rank, desc);
        lemma_insert_distinct(front, x, rank, desc, key);
        lemma_insert_ranked_members(front, x, rank, desc);
        assert forall|i: int, j: int| 0 <= i < j < out.len() implies key(#[trigger] out[i]) != key(
            #[trigger] out[j],
        ) by {
            assert(out[i] == inner[i]);
            if j == inner.len() {
                assert(inner.contains(inner[i]));
                if inner[i] != x {
                    let k = choose|k: int| 0 <= k < front.len() && front[k] == inner[i];
                    assert(key(s[k]) != key(s[s.len() - 1]));
                }
            }
        }
    }
}

proof fn lemma_ranked_distinct<T, K>(
    s: Seq<T>,
    keep: spec_fn(T) -> bool,
    rank: spec_fn(T) -> Rank,
    desc: bool,
    key: spec_fn(T) -> K,
)
    requires
        distinct_by(s, key),
    ensures
        distinct_by(ranked(s, keep, rank, desc), key),
        forall|i: int|
            0 <= i < ranked(s, keep, rank, desc).len() ==> s.contains(
                #[trigger] ranked(s, keep, rank, desc)[i],
            ),
    decreases s.len(),
{
    if s.len() > 0 {
        let front = s.drop_last();
        let before = ranked(front, keep, rank, desc);
        let out = ranked(s, keep, rank, desc);
        lemma_ranked_distinct(front, keep, rank, desc, key);
        assert forall|i: int| 0 <= i < before.len() implies key(#[trigger] before[i]) != key(
            s.last(),
        ) && s.contains(before[i]) by {
            assert(front.contains(before[i]));
            let k = choose|k: int| 0 <= k < front.len() && front[k] == before[i];
            assert(s[k] == before[i]);
            assert(key(s[k]) != key(s[s.len() - 1]));
        }
        if keep(s.last()) {
            lemma_insert_distinct(before, s.last(), rank, desc, key);
            lemma_insert_ranked_members(before, s.last(), rank, desc);
            assert forall|i: int| 0 <= i < out.len() implies s.contains(#[trigger] out[i]) by {
                assert(out.contains(out[i]));
                if out[i] == s.last() {
                    assert(s[s.len() - 1] == out[i]);
                } else {
                    let k = choose|k: int| 0 <= k < before.len() && before[k] == out[i];
                    assert(s.contains(before[k]));
                }
            }
        }
    }
}

/// Where keys are apart, a page of a listing shows none of them twice.
pub proof fn law_listed_once<T, K>(
    rows: Seq<Row<T>>,
    keep: spec_fn(T) -> bool,
    rank: spec_fn(T) -> Rank,
    desc: bool,
    limit: Option<u32>,
    offset: u32,
    key: spec_fn(T) -> K,
)
    requires
        keyed(rows, key),
    ensures
        distinct_by(page(ranked(data_of(rows), keep, rank, desc), limit, offset), key),
{
    reveal(keyed);
    let data = data_of(rows);
    assert forall|i: int, j: int| 0 <= i < j < data.len() implies key(#[trigger] data[i]) != key(
        #[trigger] data[j],
    ) by {
        assert(key(rows[i].data) != key(rows[j].data));
    }
    lemma_ranked_distinct(data, keep, rank, desc, key);
}

/// Data that was added where there was none of its kind comes back whole, in the order of its
/// ranks.
pub proof fn law_added_come_back<T>(
    old: Seq<T>,
    added: Seq<T>,
    keep: spec_fn(T) -> bool,
    rank: spec_fn(T) -> Rank,
    desc: bool,
)
    requires
        !any_data(old, keep),
        forall|i: int| 0 <= i < added.len() ==> keep(#[trigger] added[i]),
    ensures
        ranked(old + added, keep, rank, desc).to_multiset() == added.to_multiset(),
        is_ranked(ranked(old + added, keep, rank, desc), rank, desc),
{
    law_ranked_is_sorted_selection(old + added, keep, rank, desc);
    Seq::filter_distributes_over_add(old, added, keep);
    assert(old.filter(keep) =~= Seq::empty()) by {
        if old.filter(keep).len() > 0 {
            old.lemma_filter_pred(keep, 0);
            old.lemma_filter_contains_rev(keep, old.filter(keep)[0]);
        }
    }
    lemma_filter_all(added, keep);
    assert(old.filter(keep) + added =~= added);
}

proof fn lemma_filter_all<T>(s: Seq<T>, keep: spec_fn(T) -> bool)
    requires
        forall|i: int| 0 <= i < s.len() ==> keep(#[trigger] s[i]),
    ensures
        s.filter(keep) == s,
    decreases s.len(),
{
    reveal(Seq::filter);
    if s.len() > 0 {
        lemma_filter_all(s.drop_last(), keep);
        assert(s.drop_last().push(s.last()) =~= s);
    }
}

impl<T: Record> Table<T> {
    /// Changes the data that satisfies `hit`.
    pub fn update<F: Fn(&T) -> bool, G: Fn(&T) -> T>(
        &mut self,
        hit: F,
        change: G,
        Ghost(hit_spec): Ghost<spec_fn(T) -> bool>,
        Ghost(change_spec): Ghost<spec_fn(T) -> T>,
    )
        requires
            forall|x: &T| call_requires(hit, (x,)),
            forall|x: &T, b: bool| call_ensures(hit, (x,), b) ==> b == hit_spec(*x),
            forall|x: &T| call_requires(change, (x,)),
            forall|x: &T, y: T| call_ensures(change, (x,), y) ==> y == change_spec(*x),
        ensures
            final(self).rows@ == rows_updated(old(self).rows@, hit_spec, change_spec),
            final(self).next_id == old(self).next_id,
    {
        let ghost before = self.rows@;
        let mut i: usize = 0;
        while i < self.rows.len()
            invariant
                i <= self.rows@.len(),
                self.rows@.len() == before.len(),
                self.next_id == old(self).next_id,
                forall|k: int|
                    0 <= k < i ==> #[trigger] self.rows@[k] == rows_updated(
                        before,
                        hit_spec,
                        change_spec,
                    )[k],
                forall|k: int| i <= k < before.len() ==> #[trigger] self.rows@[k] == before[k],
                forall|x: &T| call_requires(hit, (x,)),
                forall|x: &T, b: bool| call_ensures(hit, (x,), b) ==> b == hit_spec(*x),
                forall|x: &T| call_requires(change, (x,)),
                forall|x: &T, y: T| call_ensures(change, (x,), y) ==> y == change_spec(*x),
            decreases self.rows@.len() - i,
        {
            if hit(&self.rows[i].data) {
                let data = change(&self.rows[i].data);
                self.rows[i].data = data;
            }
            i = i + 1;
        }
        proof {
            assert(self.rows@ =~= rows_updated(before, hit_spec, change_spec));
        }
    }

    /// Inserts a row, or changes the rows that conflict with it.
    pub fn upsert<F: Fn(&T) -> bool, G: Fn(&T) -> T>(
        &mut self,
        hit: F,
        change: G,
        new: T,
        Ghost(hit_spec): Ghost<spec_fn(T) -> bool>,
        Ghost(change_spec): Ghost<spec_fn(T) -> T>,
    )
        requires
            forall|x: &T| call_requires(hit, (x,)),
            forall|x: &T, b: bool| call_ensures(hit, (x,), b) ==> b == hit_spec(*x),
            forall|x: &T| call_requires(change, (x,)),
            forall|x: &T, y: T| call_ensures(change, (x,), y) ==> y == change_spec(*x),
        ensures
            final(self).rows@ == rows_upserted(old(self).rows@, hit_spec, change_spec, new),
            final(self).next_id == old(self).next_id,
    {
        let mut found = false;
        let mut i: usize = 0;
        while i < self.rows.len() && !found
            invariant
                i <= self.rows@.len(),
                *self == *old(self),
                found ==> any_data(self.data(), hit_spec),
                !found ==> forall|k: int| 0 <= k < i ==> !hit_spec(#[trigger] self.data()[k]),
                forall|x: &T| call_requires(hit, (x,)),
                forall|x: &T, b: bool| call_ensures(hit, (x,), b) ==> b == hit_spec(*x),
            decreases self.rows@.len() - i,
        {
            if hit(&self.rows[i].data) {
                proof {
                    assert(hit_spec(self.data()[i as int]));
                }
                found = true;
            }
            i = i + 1;
        }
        proof {
            assert(self.data() == data_of(old(self).rows@));
            if !found {
                assert(!any_data(data_of(old(self).rows@), hit_spec));
            }
        }
        if found {
            self.update(hit, change, Ghost(hit_spec), Ghost(change_spec));
        } else {
            self.push(new);
        }
    }

    /// The data of the first row that satisfies `hit`.
    pub fn first<F: Fn(&T) -> bool>(
        &self,
        hit: F,
        Ghost(hit_spec): Ghost<spec_fn(T) -> bool>,
    ) -> (found: Option<T>)
        requires
            forall|x: &T| call_requires(hit, (x,)),
            forall|x: &T, b: bool| call_ensures(hit, (x,), b) ==> b == hit_spec(*x),
        ensures
            found == first_data(self.data(), hit_spec),
    {
        let mut i: usize = 0;
        while i < self.rows.len()
            invariant
                i <= self.rows@.len(),
                forall|k: int| 0 <= k < i ==> !hit_spec(#[trigger] self.data()[k]),
                forall|x: &T| call_requires(hit, (x,)),
                forall|x: &T, b: bool| call_ensures(hit, (x,), b) ==> b == hit_spec(*x),
            decreases self.rows@.len() - i,
        {
            if hit(&self.rows[i].data) {
                proof {
                    lemma_first_data_skip(self.data(), hit_spec, i as int);
                    assert(self.data().skip(i as int)[0] == self.rows@[i as int].data);
                }
                return Some(self.rows[i].data.duplicate());
            }
            i = i + 1;
        }
        proof {
            lemma_first_data_skip(self.data(), hit_spec, i as int);
        }
        None
    }

    /// The data of the rows that satisfy `keep`, ordered by `rank`.
    pub fn select<F: Fn(&T) -> bool, R: Fn(&T) -> Rank>(
        &self,
        keep: F,
        rank: R,
        desc: bool,
        Ghost(keep_spec): Ghost<spec_fn(T) -> bool>,
        Ghost(rank_spec): Ghost<spec_fn(T) -> Rank>,
    ) -> (out: Vec<T>)
        requires
            forall|x: &T| call_requires(keep, (x,)),
            forall|x: &T, b: bool| call_ensures(keep, (x,), b) ==> b == keep_spec(*x),
            forall|x: &T| call_requires(rank, (x,)),
            forall|x: &T, k: Rank| call_ensures(rank, (x,), k) ==> k == rank_spec(*x),
        ensures
            out@ == ranked(self.data(), keep_spec, rank_spec, desc),
    {
        let mut out: Vec<T> = Vec::new();
        let mut i: usize = 0;
        while i < self.rows.len()
            invariant
                i <= self.rows@.len(),
                out@ == ranked(self.data().take(i as int), keep_spec, rank_spec, desc),
                forall|x: &T| call_requires(keep, (x,)),
                forall|x: &T, b: bool| call_ensures(keep, (x,), b) ==> b == keep_spec(*x),
                forall|x: &T| call_requires(rank, (x,)),
                forall|x: &T, k: Rank| call_ensures(rank, (x,), k) ==> k == rank_spec(*x),
            decreases self.rows@.len() - i,
        {
            proof {
                let seen = self.data().take(i + 1);
                assert(seen.drop_last() =~= self.data().take(i as int));
                assert(seen.last() == self.rows@[i as int].data);
            }
            if keep(&self.rows[i].data) {
                let key = rank(&self.rows[i].data);
                let mut at: usize = out.len();
                while at > 0 && !rank_before_exec(desc, rank(&out[at - 1]), key)
                    invariant
                        at <= out@.len(),
                        forall|k: int|
                            at <= k < out@.len() ==> !rank_before(
                                desc,
                                rank_spec(#[trigger] out@[k]),
                                key,
                            ),
                        forall|x: &T| call_requires(rank, (x,)),
                        forall|x: &T, k: Rank| call_ensures(rank, (x,), k) ==> k == rank_spec(*x),
                    ensures
                        at > 0 ==> rank_before(desc, rank_spec(out@[at - 1]), key),
                    decreases at,
                {
                    at = at - 1;
                }
                proof {
                    lemma_insert_ranked_at(
                        out@,
                        self.rows@[i as int].data,
                        rank_spec,
                        desc,
                        at as int,
                    );
                }
                out.insert(at, self.rows[i].data.duplicate());
            }
            i = i + 1;
        }
        proof {
            assert(self.data().take(i as int) =~= self.data());
        }
        out
    }

    /// The data that satisfies `keep`, in the order of the table.
    pub fn pick<F: Fn(&T) -> bool>(
        &self,
        keep: F,
        Ghost(keep_spec): Ghost<spec_fn(T) -> bool>,
    ) -> (out: Vec<T>)
        requires
            forall|x: &T| call_requires(keep, (x,)),
            forall|x: &T, b: bool| call_ensures(keep, (x,), b) ==> b == keep_spec(*x),
        ensures
            out@ == self.data().filter(keep_spec),
    {
        reveal(Seq::filter);
        let mut out: Vec<T> = Vec::new();
        let mut i: usize = 0;
        while i < self.rows.len()
            invariant
                i <= self.rows@.len(),
                out@ == self.data().take(i as int).filter(keep_spec),
                forall|x: &T| call_requires(keep, (x,)),
                forall|x: &T, b: bool| call_ensures(keep, (x,), b) ==> b == keep_spec(*x),
            decreases self.rows@.len() - i,
        {
            reveal(Seq::filter);
            proof {
                assert(self.data().take(i + 1).drop_last() =~= self.data().take(i as int));
                assert(self.data().take(i + 1).last() == self.rows@[i as int].data);
            }
            if keep(&self.rows[i].data) {
                out.push(self.rows[i].data.duplicate());
            }
            i = i + 1;
        }
        proof {
            assert(self.data().take(i as int) =~= self.data());
        }
        out
    }
}

} // verus!
