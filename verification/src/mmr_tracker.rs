//! The roster MMR aggregator: one long-lived leaderboard message,
//! re-rendered exactly when at least one tracked identity's elo value
//! differs from its previously stored one.
//!
//! The board maps every tracked identity to its last known rating
//! record, absent until first fetched.  Rendering sorts the known
//! identities by elo descending (stable in roster order) and emits one
//! line per identity.

use vstd::prelude::*;
use vstd::string::StringExecFns;
use crate::PlayerData;
use crate::game_tracker::rank_value_seq;
use crate::hendrix_mmr_response::MmrDatum;
use crate::text::{append_i64, join, join_strings, views_of};

verus! {

/// The aggregator's whole state: one slot per tracked identity, in
/// roster order.
#[derive(Debug)]
pub struct RosterMmrBoard {
    pub entries: Vec<(PlayerData, Option<MmrDatum>)>,
}

/// One rendered leaderboard line: `"<name>: <tier> @ <ranking> MMR"`.
pub open spec fn line_seq(name: Seq<char>, tier: Seq<char>, rp: int) -> Seq<char> {
    name + ": "@ + rank_value_seq(tier, rp)
}

/// Renders one leaderboard line.
pub fn mmr_line(name: &String, tier: &String, rp: i64) -> (r: String)
    ensures
        r@ == line_seq(name@, tier@, rp as int),
{
    let mut s = name.clone();
    s.append(": ");
    s.append(tier.as_str());
    s.append(" @ ");
    append_i64(&mut s, rp);
    s.append(" MMR");
    proof {
        assert(s@ =~= line_seq(name@, tier@, rp as int));
    }
    s
}

/// The slots with a known rating at or after index `i`, in roster
/// order.
pub open spec fn known_from(entries: Seq<(PlayerData, Option<MmrDatum>)>, i: int) -> Seq<
    (PlayerData, MmrDatum),
>
    decreases entries.len() - i,
{
    if i < 0 || i >= entries.len() {
        Seq::empty()
    } else {
        (match entries[i].1 {
            Some(m) => seq![(entries[i].0, m)],
            None => Seq::empty(),
        }) + known_from(entries, i + 1)
    }
}

/// The identities with a known rating, in roster order.
pub open spec fn known_entries(entries: Seq<(PlayerData, Option<MmrDatum>)>) -> Seq<
    (PlayerData, MmrDatum),
> {
    known_from(entries, 0)
}

/// Inserts `x` behind every entry whose elo is at least `x`'s, so that
/// insertion keeps equal-elo entries in their existing order.
pub open spec fn insert_desc(
    x: (PlayerData, MmrDatum),
    s: Seq<(PlayerData, MmrDatum)>,
) -> Seq<(PlayerData, MmrDatum)>
    decreases s.len(),
{
    if s.len() == 0 {
        seq![x]
    } else if s[0].1.elo >= x.1.elo {
        seq![s[0]] + insert_desc(x, s.drop_first())
    } else {
        seq![x] + s
    }
}

/// Where `insert_desc` places `x`: the first index whose elo is below
/// `x`'s.
pub open spec fn insert_pos(x: (PlayerData, MmrDatum), s: Seq<(PlayerData, MmrDatum)>) -> int
    decreases s.len(),
{
    if s.len() == 0 {
        0
    } else if s[0].1.elo >= x.1.elo {
        1 + insert_pos(x, s.drop_first())
    } else {
        0
    }
}

/// Stable insertion sort by elo descending.
pub open spec fn sort_desc(s: Seq<(PlayerData, MmrDatum)>) -> Seq<(PlayerData, MmrDatum)>
    decreases s.len(),
{
    if s.len() == 0 {
        Seq::empty()
    } else {
        insert_desc(s.last(), sort_desc(s.drop_last()))
    }
}

/// Non-increasing elo along the sequence.
pub open spec fn sorted_desc(s: Seq<(PlayerData, MmrDatum)>) -> bool {
    forall|i: int, j: int| 0 <= i <= j < s.len() ==> s[i].1.elo >= s[j].1.elo
}

proof fn lemma_insert_desc_split(x: (PlayerData, MmrDatum), s: Seq<(PlayerData, MmrDatum)>)
    ensures
        0 <= insert_pos(x, s) <= s.len(),
        insert_desc(x, s) == s.take(insert_pos(x, s)) + seq![x] + s.skip(insert_pos(x, s)),
        forall|j: int| 0 <= j < insert_pos(x, s) ==> s[j].1.elo >= x.1.elo,
        insert_pos(x, s) < s.len() ==> s[insert_pos(x, s)].1.elo < x.1.elo,
    decreases s.len(),
{
    let pos = insert_pos(x, s);
    if s.len() == 0 {
        assert(insert_desc(x, s) =~= s.take(0) + seq![x] + s.skip(0));
    } else if s[0].1.elo >= x.1.elo {
        lemma_insert_desc_split(x, s.drop_first());
        let rest = s.drop_first();
        let rpos = insert_pos(x, rest);
        assert(s.take(pos) =~= seq![s[0]] + rest.take(rpos));
        assert(s.skip(pos) =~= rest.skip(rpos));
        assert(insert_desc(x, s) =~= s.take(pos) + seq![x] + s.skip(pos));
        assert forall|j: int| 0 <= j < pos implies s[j].1.elo >= x.1.elo by {
            if j > 0 {
                assert(s[j] == rest[j - 1]);
            }
        }
    } else {
        assert(insert_desc(x, s) =~= s.take(0) + seq![x] + s.skip(0));
    }
}

/// An inserted sequence stays sorted.
proof fn lemma_insert_desc_sorted(x: (PlayerData, MmrDatum), s: Seq<(PlayerData, MmrDatum)>)
    requires
        sorted_desc(s),
    ensures
        sorted_desc(insert_desc(x, s)),
{
    lemma_insert_desc_split(x, s);
    let pos = insert_pos(x, s);
    let r = insert_desc(x, s);
    assert forall|i: int, j: int| 0 <= i <= j < r.len() implies r[i].1.elo >= r[j].1.elo by {
        assert(r.len() == s.len() + 1);
        if i < pos {
            assert(r[i] == s[i]);
        } else if i == pos {
            assert(r[i] == x);
        } else {
            assert(r[i] == s[i - 1]);
        }
        if j < pos {
            assert(r[j] == s[j]);
        } else if j == pos {
            assert(r[j] == x);
        } else {
            assert(r[j] == s[j - 1]);
        }
    }
}

/// The leaderboard ordering law: sorting by elo descending yields a
/// sequence whose elo values never increase from one line to the next.
pub proof fn lemma_sort_desc_sorted(s: Seq<(PlayerData, MmrDatum)>)
    ensures
        sorted_desc(sort_desc(s)),
    decreases s.len(),
{
    if s.len() > 0 {
        lemma_sort_desc_sorted(s.drop_last());
        lemma_insert_desc_sorted(s.last(), sort_desc(s.drop_last()));
    }
}

fn insert_by_elo(s: Vec<(PlayerData, MmrDatum)>, x: (PlayerData, MmrDatum)) -> (r: Vec<
    (PlayerData, MmrDatum),
>)
    ensures
        r@ == insert_desc(x, s@),
{
    let mut s = s;
    let n = s.len();
    let mut idx: usize = 0;
    while idx < n && s[idx].1.elo >= x.1.elo
        invariant
            0 <= idx <= n,
            n == s@.len(),
            forall|j: int| 0 <= j < idx ==> s@[j].1.elo >= x.1.elo,
        decreases n - idx,
    {
        idx = idx + 1;
    }
    proof {
        lemma_insert_desc_split(x, s@);
        let pos = insert_pos(x, s@);
        if pos < idx {
            assert(s@[pos].1.elo >= x.1.elo);
        }
        if idx < pos {
            assert(s@[idx as int].1.elo >= x.1.elo);
        }
        assert(idx as int == pos);
    }
    let ghost before = s@;
    s.insert(idx, x);
    proof {
        assert(s@ =~= before.take(idx as int) + seq![x] + before.skip(idx as int));
    }
    s
}

fn sort_by_elo(input: Vec<(PlayerData, MmrDatum)>) -> (r: Vec<(PlayerData, MmrDatum)>)
    ensures
        r@ == sort_desc(input@),
{
    let ghost orig = input@;
    let mut input = input;
    let mut out: Vec<(PlayerData, MmrDatum)> = Vec::new();
    let ghost mut k: int = 0;
    proof {
        assert(orig.take(0) =~= Seq::<(PlayerData, MmrDatum)>::empty());
        assert(orig.skip(0) =~= orig);
    }
    while input.len() > 0
        invariant
            0 <= k <= orig.len(),
            input@ == orig.skip(k),
            out@ == sort_desc(orig.take(k)),
        decreases input@.len(),
    {
        let x = input.remove(0);
        proof {
            assert(orig.skip(k)[0] == orig[k]);
            assert(orig.skip(k).drop_first() =~= orig.skip(k + 1));
            assert(orig.take(k + 1).drop_last() =~= orig.take(k));
            assert(orig.take(k + 1).last() == orig[k]);
        }
        out = insert_by_elo(out, x);
        proof {
            k = k + 1;
        }
    }
    proof {
        assert(orig.take(k) =~= orig);
    }
    out
}

/// The rendered lines of the sorted, known identities.
pub open spec fn lines_of(s: Seq<(PlayerData, MmrDatum)>) -> Seq<Seq<char>> {
    s.map_values(
        |e: (PlayerData, MmrDatum)|
            line_seq(e.0.name@, e.1.current_tier_patched@, e.1.ranking_in_tier as int),
    )
}

/// The whole leaderboard content: one line per identity with a known
/// rating, sorted by elo descending, joined by newlines.
pub open spec fn render_spec(entries: Seq<(PlayerData, Option<MmrDatum>)>) -> Seq<char> {
    join(lines_of(sort_desc(known_entries(entries))), "\n"@)
}

/// Whether two known entries agree in everything the leaderboard
/// shows or sorts by: name, tier string, ranking points and elo.
pub open spec fn same_line_data(x: (PlayerData, MmrDatum), y: (PlayerData, MmrDatum)) -> bool {
    &&& x.0.name@ == y.0.name@
    &&& x.1.current_tier_patched@ == y.1.current_tier_patched@
    &&& x.1.ranking_in_tier == y.1.ranking_in_tier
    &&& x.1.elo == y.1.elo
}

pub open spec fn same_line_seq(a: Seq<(PlayerData, MmrDatum)>, b: Seq<(PlayerData, MmrDatum)>) -> bool {
    a.len() == b.len() && forall|i: int| 0 <= i < a.len() ==> same_line_data(#[trigger] a[i], b[i])
}

/// Whether two board slots agree in what the leaderboard can see of
/// them: a rating is known in one exactly when it is in the other, and
/// known slots carry the same rendered data.
pub open spec fn same_slot_data(
    x: (PlayerData, Option<MmrDatum>),
    y: (PlayerData, Option<MmrDatum>),
) -> bool {
    match (x.1, y.1) {
        (Some(m), Some(n)) => same_line_data((x.0, m), (y.0, n)),
        (None, None) => true,
        _ => false,
    }
}

/// Whether two boards agree, slot for slot, in everything rendering
/// reads.
pub open spec fn same_board_data(
    a: Seq<(PlayerData, Option<MmrDatum>)>,
    b: Seq<(PlayerData, Option<MmrDatum>)>,
) -> bool {
    a.len() == b.len() && forall|i: int| 0 <= i < a.len() ==> same_slot_data(#[trigger] a[i], b[i])
}

proof fn lemma_known_from_same(
    a: Seq<(PlayerData, Option<MmrDatum>)>,
    b: Seq<(PlayerData, Option<MmrDatum>)>,
    i: int,
)
    requires
        same_board_data(a, b),
        0 <= i,
    ensures
        same_line_seq(known_from(a, i), known_from(b, i)),
    decreases a.len() - i,
{
    if i >= a.len() {
    } else {
        lemma_known_from_same(a, b, i + 1);
        let ka = known_from(a, i);
        let kb = known_from(b, i);
        assert(same_slot_data(a[i], b[i]));
        assert forall|k: int| 0 <= k < ka.len() implies same_line_data(#[trigger] ka[k], kb[k]) by {
            match a[i].1 {
                Some(_) => {
                    if k > 0 {
                        assert(ka[k] == known_from(a, i + 1)[k - 1]);
                        assert(kb[k] == known_from(b, i + 1)[k - 1]);
                    }
                },
                None => {
                    assert(ka[k] == known_from(a, i + 1)[k]);
                    assert(kb[k] == known_from(b, i + 1)[k]);
                },
            }
        }
    }
}

proof fn lemma_insert_desc_same(
    x: (PlayerData, MmrDatum),
    y: (PlayerData, MmrDatum),
    s: Seq<(PlayerData, MmrDatum)>,
    t: Seq<(PlayerData, MmrDatum)>,
)
    requires
        same_line_data(x, y),
        same_line_seq(s, t),
    ensures
        same_line_seq(insert_desc(x, s), insert_desc(y, t)),
    decreases s.len(),
{
    let rx = insert_desc(x, s);
    let ry = insert_desc(y, t);
    if s.len() == 0 {
    } else if s[0].1.elo >= x.1.elo {
        assert(same_line_data(s[0], t[0]));
        assert forall|k: int| 0 <= k < s.drop_first().len() implies same_line_data(
            #[trigger] s.drop_first()[k],
            t.drop_first()[k],
        ) by {
            assert(s.drop_first()[k] == s[k + 1]);
            assert(t.drop_first()[k] == t[k + 1]);
        }
        lemma_insert_desc_same(x, y, s.drop_first(), t.drop_first());
        assert forall|k: int| 0 <= k < rx.len() implies same_line_data(#[trigger] rx[k], ry[k]) by {
            if k > 0 {
                assert(rx[k] == insert_desc(x, s.drop_first())[k - 1]);
                assert(ry[k] == insert_desc(y, t.drop_first())[k - 1]);
            }
        }
    } else {
        assert(same_line_data(s[0], t[0]));
        assert forall|k: int| 0 <= k < rx.len() implies same_line_data(#[trigger] rx[k], ry[k]) by {
            if k > 0 {
                assert(rx[k] == s[k - 1]);
                assert(ry[k] == t[k - 1]);
            }
        }
    }
}

proof fn lemma_sort_desc_same(s: Seq<(PlayerData, MmrDatum)>, t: Seq<(PlayerData, MmrDatum)>)
    requires
        same_line_seq(s, t),
    ensures
        same_line_seq(sort_desc(s), sort_desc(t)),
    decreases s.len(),
{
    if s.len() > 0 {
        assert forall|k: int| 0 <= k < s.drop_last().len() implies same_line_data(
            #[trigger] s.drop_last()[k],
            t.drop_last()[k],
        ) by {
            assert(s.drop_last()[k] == s[k]);
            assert(t.drop_last()[k] == t[k]);
        }
        lemma_sort_desc_same(s.drop_last(), t.drop_last());
        assert(same_line_data(s.last(), t.last()));
        lemma_insert_desc_same(s.last(), t.last(), sort_desc(s.drop_last()), sort_desc(t.drop_last()));
    }
}

/// The leaderboard content depends on nothing but, slot for slot,
/// which identities have a known rating and each known identity's
/// name, tier string, ranking and elo: two boards that agree in those
/// render identical content.  In particular, a re-render after a tick
/// that changed none of them is idempotent.
pub proof fn lemma_render_depends_only_on_line_data(
    a: Seq<(PlayerData, Option<MmrDatum>)>,
    b: Seq<(PlayerData, Option<MmrDatum>)>,
)
    requires
        same_board_data(a, b),
    ensures
        render_spec(a) == render_spec(b),
{
    lemma_known_from_same(a, b, 0);
    lemma_sort_desc_same(known_entries(a), known_entries(b));
    let sa = sort_desc(known_entries(a));
    let sb = sort_desc(known_entries(b));
    assert forall|k: int| 0 <= k < lines_of(sa).len() implies lines_of(sa)[k] == lines_of(
        sb,
    )[k] by {
        assert(same_line_data(sa[k], sb[k]));
    }
    assert(lines_of(sa) =~= lines_of(sb));
}

/// Whether one slot's stored elo differs from a freshly fetched
/// record; an absent slot differs from every fetched record, and a
/// failed fetch never counts as a change.
pub open spec fn entry_changed(stored: Option<MmrDatum>, fetched: Option<MmrDatum>) -> bool {
    match fetched {
        Some(m) => match stored {
            Some(o) => o.elo != m.elo,
            None => true,
        },
        None => false,
    }
}

/// Whether any slot's elo value changed under these fetch results.
pub open spec fn any_change(
    entries: Seq<(PlayerData, Option<MmrDatum>)>,
    results: Seq<Option<MmrDatum>>,
) -> bool {
    exists|i: int| 0 <= i < entries.len() && entry_changed(entries[i].1, #[trigger] results[i])
}

impl RosterMmrBoard {
    /// A fresh board covering the given roster, every rating absent.
    pub fn new(players: Vec<PlayerData>) -> (r: RosterMmrBoard)
        ensures
            r.entries@.len() == players@.len(),
            forall|i: int|
                0 <= i < players@.len() ==> (#[trigger] r.entries@[i]).0 == players@[i]
                    && r.entries@[i].1 is None,
    {
        let ghost orig = players@;
        let mut players = players;
        let mut entries: Vec<(PlayerData, Option<MmrDatum>)> = Vec::new();
        proof {
            assert(orig.skip(0) =~= orig);
        }
        while players.len() > 0
            invariant
                entries@.len() + players@.len() == orig.len(),
                players@ == orig.skip(entries@.len() as int),
                forall|i: int|
                    0 <= i < entries@.len() ==> (#[trigger] entries@[i]).0 == orig[i]
                        && entries@[i].1 is None,
            decreases players@.len(),
        {
            let ghost k = entries@.len() as int;
            proof {
                assert(orig.skip(k)[0] == orig[k]);
                assert(orig.skip(k).drop_first() =~= orig.skip(k + 1));
            }
            let p = players.remove(0);
            entries.push((p, None));
        }
        RosterMmrBoard { entries }
    }

    /// Renders the current board content.
    pub fn render(&self) -> (r: String)
        ensures
            r@ == render_spec(self.entries@),
    {
        let n = self.entries.len();
        let mut known: Vec<(PlayerData, MmrDatum)> = Vec::new();
        let mut i: usize = 0;
        proof {
            assert(known@ + known_from(self.entries@, 0) =~= known_entries(self.entries@));
        }
        while i < n
            invariant
                0 <= i <= n,
                n == self.entries@.len(),
                known_entries(self.entries@) == known@ + known_from(self.entries@, i as int),
            decreases n - i,
        {
            let ghost known_before = known@;
            match &self.entries[i].1 {
                Some(m) => {
                    let e = (self.entries[i].0.duplicate(), m.duplicate());
                    known.push(e);
                    proof {
                        assert(known@ + known_from(self.entries@, i as int + 1) =~= known_before
                            + known_from(self.entries@, i as int));
                    }
                },
                None => {
                    proof {
                        assert(known@ + known_from(self.entries@, i as int + 1) =~= known_before
                            + known_from(self.entries@, i as int));
                    }
                },
            }
            i = i + 1;
        }
        proof {
            assert(known@ =~= known@ + known_from(self.entries@, n as int));
        }
        let sorted = sort_by_elo(known);

        let m = sorted.len();
        let mut lines: Vec<String> = Vec::new();
        let mut j: usize = 0;
        proof {
            assert(views_of(lines@) =~= lines_of(sorted@).take(0));
        }
        while j < m
            invariant
                0 <= j <= m,
                m == sorted@.len(),
                lines@.len() == j,
                views_of(lines@) == lines_of(sorted@).take(j as int),
            decreases m - j,
        {
            let line = mmr_line(
                &sorted[j].0.name,
                &sorted[j].1.current_tier_patched,
                sorted[j].1.ranking_in_tier,
            );
            let ghost lines_before = lines@;
            lines.push(line);
            proof {
                assert(lines_of(sorted@)[j as int] == line_seq(
                    sorted@[j as int].0.name@,
                    sorted@[j as int].1.current_tier_patched@,
                    sorted@[j as int].1.ranking_in_tier as int,
                ));
                assert(views_of(lines@).len() == j + 1);
                assert forall|k: int| 0 <= k < j + 1 implies views_of(lines@)[k] == lines_of(
                    sorted@,
                ).take(j as int + 1)[k] by {
                    assert(views_of(lines@)[k] == lines@[k]@);
                    assert(lines_of(sorted@).take(j as int + 1)[k] == lines_of(sorted@)[k]);
                    if k < j {
                        assert(lines@[k] == lines_before[k]);
                        assert(views_of(lines_before)[k] == lines_before[k]@);
                        assert(lines_of(sorted@).take(j as int)[k] == lines_of(sorted@)[k]);
                    } else {
                        assert(lines@[k] == line);
                    }
                }
                assert(views_of(lines@) =~= lines_of(sorted@).take(j as int + 1));
            }
            j = j + 1;
        }
        proof {
            assert(lines_of(sorted@).take(m as int) =~= lines_of(sorted@));
        }
        join_strings(&lines, "\n")
    }

    /// One tick of the leaderboard tracker, on already fetched rating
    /// results, one slot per tracked identity (`None` marks a failed
    /// fetch).
    ///
    /// Every successful result replaces its slot's stored record, a
    /// failed fetch leaves its slot untouched, and the rendered
    /// content comes back if and only if at least one slot's elo value
    /// differs from its previously stored one, an absent slot counting
    /// as different.  Each slot is settled independently, so one
    /// failed fetch never disturbs the others.
    pub fn board_tick(&mut self, results: &Vec<Option<MmrDatum>>) -> (r: Option<String>)
        requires
            results@.len() == old(self).entries@.len(),
        ensures
            final(self).entries@.len() == old(self).entries@.len(),
            forall|i: int|
                0 <= i < old(self).entries@.len() ==> (#[trigger] final(self).entries@[i]).0 == old(
                    self,
                ).entries@[i].0,
            forall|i: int|
                0 <= i < old(self).entries@.len() ==> match results@[i] {
                    Some(m) => (#[trigger] final(self).entries@[i]).1 == Some(m),
                    None => final(self).entries@[i].1 == old(self).entries@[i].1,
                },
            r is Some <==> any_change(old(self).entries@, results@),
            match r {
                Some(s) => s@ == render_spec(final(self).entries@),
                None => true,
            },
    {
        let n = self.entries.len();
        let mut was_changed = false;
        let mut i: usize = 0;
        while i < n
            invariant
                0 <= i <= n,
                n == old(self).entries@.len(),
                self.entries@.len() == n,
                results@.len() == n,
                forall|k: int|
                    0 <= k < n ==> (#[trigger] self.entries@[k]).0 == old(self).entries@[k].0,
                forall|k: int|
                    0 <= k < i ==> match results@[k] {
                        Some(m) => (#[trigger] self.entries@[k]).1 == Some(m),
                        None => self.entries@[k].1 == old(self).entries@[k].1,
                    },
                forall|k: int| i <= k < n ==> (#[trigger] self.entries@[k]).1 == old(
                    self,
                ).entries@[k].1,
                was_changed == exists|k: int|
                    0 <= k < i && entry_changed(old(self).entries@[k].1, #[trigger] results@[k]),
            decreases n - i,
        {
            match &results[i] {
                Some(m) => {
                    let changed = match &self.entries[i].1 {
                        Some(o) => o.elo != m.elo,
                        None => true,
                    };
                    let e = (self.entries[i].0.duplicate(), Some(m.duplicate()));
                    self.entries.set(i, e);
                    if changed {
                        was_changed = true;
                        proof {
                            assert(entry_changed(old(self).entries@[i as int].1, results@[i as int]));
                        }
                    }
                },
                None => {},
            }
            i = i + 1;
        }
        if was_changed {
            Some(self.render())
        } else {
            None
        }
    }
}

} // verus!
