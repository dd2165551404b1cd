//! Integer parts of event generation: where background values must stay
//! clear of injected entity keys, how background events are spaced, and the
//! order in which the sorted event chunks are merged.

use vstd::prelude::*;

use crate::text::str_is;
use crate::wfg_ast::views;

verus! {

broadcast use vstd::string::group_string_axioms;

// ---------------------------------------------------------------------------
// Reserved key bands
// ---------------------------------------------------------------------------

/// The key values taken by injected entities, which background values of
/// some numeric fields must stay above: the upper end of that band (exclusive)
/// and the (window, field) pairs it applies to.
#[derive(Debug, Clone, PartialEq, Default)]
pub struct ReservedKeyBands {
    floor: u64,
    fields: Vec<(String, String)>,
}

impl View for ReservedKeyBands {
    type V = (u64, Seq<(Seq<char>, Seq<char>)>);

    closed spec fn view(&self) -> (u64, Seq<(Seq<char>, Seq<char>)>) {
        (self.floor, views(self.fields@))
    }
}

/// The lower bound background values of `(window, field)` must keep, if any.
pub open spec fn floor_spec(bands: (u64, Seq<(Seq<char>, Seq<char>)>), window: Seq<char>, field: Seq<char>) -> Option<u64> {
    if bands.0 == 0 {
        None
    } else if exists|i: int| 0 <= i < bands.1.len() && bands.1[i] == (window, field) {
        Some(bands.0)
    } else {
        None
    }
}

impl ReservedKeyBands {
    /// Bands with the given upper end and the (window, field) pairs they apply to.
    pub fn new(floor: u64, fields: Vec<(String, String)>) -> (r: Self)
        ensures
            r@ == (floor, views(fields@)),
    {
        ReservedKeyBands { floor, fields }
    }

    /// The lower bound background values of this window's field must keep:
    /// `None` when the band is empty or does not apply to the field.
    pub fn floor_for(&self, window: &str, field: &str) -> (r: Option<u64>)
        ensures
            r == floor_spec(self@, window@, field@),
    {
        if self.floor == 0 {
            return None;
        }
        let mut i: usize = 0;
        while i < self.fields.len()
            invariant
                i <= self.fields.len(),
                self.floor != 0,
                forall|j: int| 0 <= j < i ==> views(self.fields@)[j] != (window@, field@),
            decreases self.fields.len() - i,
        {
            assert(views(self.fields@)[i as int] == self.fields@[i as int]@);
            if str_is(self.fields[i].0.as_str(), window) && str_is(self.fields[i].1.as_str(), field) {
                assert(self@.1[i as int] == (window@, field@));
                return Some(self.floor);
            }
            i = i + 1;
        }
        None
    }
}

// ---------------------------------------------------------------------------
// Background spacing
// ---------------------------------------------------------------------------

/// The gap between consecutive background events of a stream: the duration
/// divided by the count, 0 for a single event.
pub open spec fn interval_spec(duration_nanos: u64, count: u64) -> int {
    if count > 1 {
        let d: int = if duration_nanos > i64::MAX {
            i64::MAX as int
        } else {
            duration_nanos as int
        };
        d / (count as int)
    } else {
        0
    }
}

/// The gap between consecutive background events of a stream, in nanoseconds.
pub fn event_interval(duration_nanos: u64, count: u64) -> (r: i64)
    ensures
        r == interval_spec(duration_nanos, count),
{
    if count > 1 {
        let d: u64 = if duration_nanos > 0x7fff_ffff_ffff_ffff {
            0x7fff_ffff_ffff_ffff
        } else {
            duration_nanos
        };
        (d / count) as i64
    } else {
        0
    }
}

/// Event `i` of `count` lands `i × interval` after the start: the offsets never
/// pass the duration.
pub proof fn lemma_background_within_duration(duration_nanos: u64, count: u64, i: int)
    requires
        duration_nanos <= i64::MAX,
        0 <= i < count,
    ensures
        0 <= i * interval_spec(duration_nanos, count) <= duration_nanos,
{
    let iv = interval_spec(duration_nanos, count);
    if count > 1 {
        assert(iv * count <= duration_nanos) by (nonlinear_arith)
            requires
                iv == (duration_nanos as int) / (count as int),
                count > 1,
        ;
        assert(0 <= i * iv <= iv * count) by (nonlinear_arith)
            requires
                0 <= i < count,
                iv >= 0,
        ;
    }
}

// ---------------------------------------------------------------------------
// Merging sorted chunks
// ---------------------------------------------------------------------------

/// The chunk whose next event comes first (earliest time, then lowest chunk
/// index), given how far each chunk was consumed.
pub open spec fn head_min(chunks: Seq<Seq<i64>>, pos: Seq<int>, c: int, best: Option<int>) -> Option<int>
    decreases chunks.len() - c,
{
    if c < 0 || c >= chunks.len() {
        best
    } else if pos[c] < chunks[c].len() && match best {
        None => true,
        Some(b) => chunks[c][pos[c]] < chunks[b][pos[b]],
    } {
        head_min(chunks, pos, c + 1, Some(c))
    } else {
        head_min(chunks, pos, c + 1, best)
    }
}

/// The merge order from the given positions on, `fuel` steps at most: the
/// (chunk, position) of each event taken.
pub open spec fn merge_from(chunks: Seq<Seq<i64>>, pos: Seq<int>, fuel: nat) -> Seq<(int, int)>
    decreases fuel,
{
    if fuel == 0 {
        Seq::empty()
    } else {
        match head_min(chunks, pos, 0, None) {
            None => Seq::empty(),
            Some(c) => seq![(c, pos[c])] + merge_from(chunks, pos.update(c, pos[c] + 1), (fuel - 1) as nat),
        }
    }
}

pub open spec fn total_len(chunks: Seq<Seq<i64>>) -> nat
    decreases chunks.len(),
{
    if chunks.len() == 0 {
        0
    } else {
        total_len(chunks.drop_last()) + chunks.last().len()
    }
}

/// The order in which events of time-sorted chunks are merged: repeatedly the
/// earliest next event, ties to the lower chunk index.
pub open spec fn merge_spec(chunks: Seq<Seq<i64>>) -> Seq<(int, int)> {
    merge_from(chunks, Seq::new(chunks.len(), |i: int| 0), total_len(chunks))
}

fn head_min_exec(chunks: &Vec<Vec<i64>>, pos: &Vec<usize>) -> (r: Option<usize>)
    requires
        pos.len() == chunks.len(),
    ensures
        match r {
            Some(c) => head_min(chunks@.map_values(|v: Vec<i64>| v@), pos@.map_values(|p: usize| p as int), 0, None)
                == Some(c as int) && c < chunks.len() && pos@[c as int] < chunks@[c as int].len(),
            None => head_min(chunks@.map_values(|v: Vec<i64>| v@), pos@.map_values(|p: usize| p as int), 0, None)
                is None,
        },
{
    let ghost cs = chunks@.map_values(|v: Vec<i64>| v@);
    let ghost ps = pos@.map_values(|p: usize| p as int);
    let mut best: Option<usize> = None;
    let mut c: usize = 0;
    while c < chunks.len()
        invariant
            c <= chunks.len(),
            pos.len() == chunks.len(),
            cs == chunks@.map_values(|v: Vec<i64>| v@),
            ps == pos@.map_values(|p: usize| p as int),
            head_min(cs, ps, 0, None) == head_min(cs, ps, c as int, match best {
                Some(b) => Some(b as int),
                None => None,
            }),
            match best {
                Some(b) => b < c && pos@[b as int] < chunks@[b as int].len(),
                None => true,
            },
        decreases chunks.len() - c,
    {
        assert(cs[c as int] == chunks@[c as int]@);
        assert(ps[c as int] == pos@[c as int] as int);
        if pos[c] < chunks[c].len() {
            let better = match best {
                None => true,
                Some(b) => {
                    assert(cs[b as int] == chunks@[b as int]@);
                    assert(ps[b as int] == pos@[b as int] as int);
                    chunks[c][pos[c]] < chunks[b][pos[b]]
                },
            };
            if better {
                best = Some(c);
            }
        }
        c = c + 1;
    }
    best
}

/// The order in which the events of time-sorted chunks are merged, as
/// (chunk, position) pairs: repeatedly the earliest next event, ties to the
/// lower chunk index.
pub fn merge_order(chunks: &Vec<Vec<i64>>, total: usize) -> (r: Vec<(usize, usize)>)
    requires
        total == total_len(chunks@.map_values(|v: Vec<i64>| v@)),
    ensures
        r@.map_values(|p: (usize, usize)| (p.0 as int, p.1 as int)) == merge_spec(chunks@.map_values(|v: Vec<i64>| v@)),
{
    let ghost cs = chunks@.map_values(|v: Vec<i64>| v@);
    let mut pos: Vec<usize> = Vec::new();
    let mut i: usize = 0;
    while i < chunks.len()
        invariant
            i <= chunks.len(),
            pos.len() == i,
            forall|q: int| 0 <= q < i ==> pos@[q] == 0,
        decreases chunks.len() - i,
    {
        pos.push(0);
        i = i + 1;
    }
    assert(pos@.map_values(|p: usize| p as int) =~= Seq::new(cs.len(), |i: int| 0));
    let mut out: Vec<(usize, usize)> = Vec::new();
    let mut fuel: usize = total;
    let ghost start = pos@.map_values(|p: usize| p as int);
    while fuel > 0
        invariant
            pos.len() == chunks.len(),
            cs == chunks@.map_values(|v: Vec<i64>| v@),
            start == Seq::new(cs.len(), |i: int| 0int),
            total == total_len(cs),
            forall|q: int| 0 <= q < pos.len() ==> pos@[q] <= chunks@[q].len(),
            merge_from(cs, start, total as nat) == out@.map_values(|p: (usize, usize)| (p.0 as int, p.1 as int))
                + merge_from(cs, pos@.map_values(|p: usize| p as int), fuel as nat),
        decreases fuel,
    {
        let ghost ps = pos@.map_values(|p: usize| p as int);
        match head_min_exec(chunks, &pos) {
            None => {
                assert(merge_from(cs, ps, fuel as nat) =~= Seq::<(int, int)>::empty());
                assert(out@.map_values(|p: (usize, usize)| (p.0 as int, p.1 as int)) + Seq::<(int, int)>::empty()
                    =~= out@.map_values(|p: (usize, usize)| (p.0 as int, p.1 as int)));
                return out;
            },
            Some(c) => {
                let p = pos[c];
                let ghost before = out@;
                out.push((c, p));
                pos.set(c, p + 1);
                proof {
                    assert(pos@.map_values(|q: usize| q as int) =~= ps.update(c as int, ps[c as int] + 1));
                    assert(out@.map_values(|q: (usize, usize)| (q.0 as int, q.1 as int)) =~= before.map_values(
                        |q: (usize, usize)| (q.0 as int, q.1 as int),
                    ).push((c as int, p as int)));
                }
            },
        }
        fuel = fuel - 1;
    }
    assert(merge_from(cs, pos@.map_values(|p: usize| p as int), 0) =~= Seq::<(int, int)>::empty());
    assert(out@.map_values(|p: (usize, usize)| (p.0 as int, p.1 as int)) + Seq::<(int, int)>::empty()
        =~= out@.map_values(|p: (usize, usize)| (p.0 as int, p.1 as int)));
    out
}


pub open spec fn chunk_sorted(s: Seq<i64>) -> bool {
    forall|i: int, j: int| 0 <= i <= j < s.len() ==> s[i] <= s[j]
}

pub open spec fn time_at(cs: Seq<Seq<i64>>, p: (int, int)) -> int {
    cs[p.0][p.1] as int
}

proof fn lemma_head_min(cs: Seq<Seq<i64>>, pos: Seq<int>, c: int, best: Option<int>)
    requires
        pos.len() == cs.len(),
        0 <= c,
        forall|q: int| 0 <= q < cs.len() ==> 0 <= #[trigger] pos[q],
        best matches Some(b) ==> 0 <= b < cs.len() && pos[b] < cs[b].len(),
    ensures
        match head_min(cs, pos, c, best) {
            Some(m) => 0 <= m < cs.len() && pos[m] < cs[m].len() && (forall|q: int|
                c <= q < cs.len() && pos[q] < cs[q].len() ==> cs[m][pos[m]] <= #[trigger] cs[q][pos[q]]) && (
            best matches Some(b) ==> cs[m][pos[m]] <= cs[b][pos[b]]),
            None => best is None && forall|q: int| c <= q < cs.len() ==> #[trigger] pos[q] >= cs[q].len(),
        },
    decreases cs.len() - c,
{
    if c < cs.len() {
        let take = pos[c] < cs[c].len() && match best {
            None => true,
            Some(b) => cs[c][pos[c]] < cs[b][pos[b]],
        };
        if take {
            lemma_head_min(cs, pos, c + 1, Some(c));
        } else {
            lemma_head_min(cs, pos, c + 1, best);
        }
    }
}

proof fn lemma_merge_sorted(cs: Seq<Seq<i64>>, pos: Seq<int>, fuel: nat, lo: int)
    requires
        pos.len() == cs.len(),
        forall|q: int| 0 <= q < cs.len() ==> chunk_sorted(#[trigger] cs[q]),
        forall|q: int| 0 <= q < cs.len() ==> 0 <= #[trigger] pos[q],
        forall|q: int| 0 <= q < cs.len() && pos[q] < cs[q].len() ==> lo <= #[trigger] cs[q][pos[q]],
    ensures
        forall|i: int| 0 <= i < merge_from(cs, pos, fuel).len() ==> lo <= #[trigger] time_at(cs, merge_from(cs, pos, fuel)[i]),
        forall|i: int, j: int| 0 <= i <= j < merge_from(cs, pos, fuel).len() ==> time_at(cs, merge_from(cs, pos, fuel)[i])
            <= time_at(cs, merge_from(cs, pos, fuel)[j]),
    decreases fuel,
{
    if fuel > 0 {
        lemma_head_min(cs, pos, 0, None);
        match head_min(cs, pos, 0, None) {
            None => {},
            Some(m) => {
                let t0 = cs[m][pos[m]] as int;
                let pos2 = pos.update(m, pos[m] + 1);
                assert forall|q: int| 0 <= q < cs.len() && pos2[q] < cs[q].len() implies t0 <= #[trigger] cs[q][pos2[q]] by {
                    if q == m {
                        assert(chunk_sorted(cs[m]));
                        assert(cs[m][pos[m]] <= cs[m][pos[m] + 1]);
                    } else {
                        assert(pos2[q] == pos[q]);
                        assert(cs[m][pos[m]] <= cs[q][pos[q]]);
                    }
                }
                assert forall|q: int| 0 <= q < cs.len() implies 0 <= #[trigger] pos2[q] by {}
                lemma_merge_sorted(cs, pos2, (fuel - 1) as nat, t0);
                let rest = merge_from(cs, pos2, (fuel - 1) as nat);
                let out = merge_from(cs, pos, fuel);
                assert(out == seq![(m, pos[m])] + rest);
                assert forall|i: int| 0 <= i < out.len() implies lo <= #[trigger] time_at(cs, out[i]) by {
                    if i > 0 {
                        assert(out[i] == rest[i - 1]);
                    }
                }
                assert forall|i: int, j: int| 0 <= i <= j < out.len() implies time_at(cs, out[i]) <= time_at(cs, out[j]) by {
                    if i > 0 {
                        assert(out[i] == rest[i - 1]);
                    }
                    if j > 0 {
                        assert(out[j] == rest[j - 1]);
                    }
                }
            },
        }
    }
}

/// Merging time-sorted chunks gives the events in time order.
pub proof fn lemma_merge_is_sorted(cs: Seq<Seq<i64>>)
    requires
        forall|q: int| 0 <= q < cs.len() ==> chunk_sorted(#[trigger] cs[q]),
    ensures
        forall|i: int, j: int| 0 <= i <= j < merge_spec(cs).len() ==> time_at(cs, merge_spec(cs)[i]) <= time_at(
            cs,
            merge_spec(cs)[j],
        ),
{
    let pos = Seq::new(cs.len(), |i: int| 0int);
    lemma_merge_sorted(cs, pos, total_len(cs), i64::MIN as int);
}

} // verus!
