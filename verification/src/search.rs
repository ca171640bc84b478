//! The cross-grouping search engine: scope resolution, spatial and temporal
//! filters, sorting and pagination.
//!
//! Malformed filter or sort syntax never fails a search: the malformed
//! stage is skipped and the candidates pass through unchanged.

use vstd::prelude::*;
use crate::item::Item;
use crate::numeral::{parse_coord, spec_parse_coord};
use crate::sorting::{sort_items, spec_sort_items};
use crate::strutil::{spec_split, spec_trim, split_on, str_eq, trim};
use crate::time::{instant_le, instant_le_exec, parse_rfc3339, rfc3339_instant};

verus! {

/// The parameters of a cross-grouping search.
#[derive(Debug)]
pub struct SearchQuery {
    /// Greatest number of results to return.
    pub limit: Option<i32>,
    /// Bounding box filter: four comma-separated numbers.
    pub bbox: Option<String>,
    /// Date-and-time filter: a point or a `/`-separated range.
    pub datetime: Option<String>,
    /// Geometry for an intersection filter, as raw text.
    pub intersects: Option<String>,
    /// Comma-separated entry identifiers to filter by.
    pub ids: Option<String>,
    /// Comma-separated grouping identifiers that set the scope.
    pub collections: Option<String>,
    /// Sort specification: comma-separated `field:direction` pairs.
    pub sortby: Option<String>,
}

/// The parameters of a single-grouping entry listing.
#[derive(Debug)]
pub struct OGCFeaturesQuery {
    /// Greatest number of results to return.
    pub limit: Option<i32>,
    /// Bounding box filter: four comma-separated numbers.
    pub bbox: Option<String>,
    /// Date-and-time filter: a point or a `/`-separated range.
    pub datetime: Option<String>,
    /// Results to skip, for pagination.
    pub offset: Option<i32>,
    /// Sort specification: comma-separated `field:direction` pairs.
    pub sortby: Option<String>,
}

/// One sort key of a structured search body.
#[derive(Debug, Clone, PartialEq, Eq)]
pub struct SortByField {
    /// Field name to sort by.
    pub field: String,
    /// Sort direction: `asc` or `desc`.
    pub direction: String,
}

// ---------------------------------------------------------------------------
// Sort specification parsing
// ---------------------------------------------------------------------------
/// The key one comma-separated token yields: the trimmed token with
/// direction `asc` when it has no colon; otherwise the trimmed parts before
/// and after the first colon, kept only when the field part is non-empty.
pub open spec fn spec_sortby_token(part: Seq<char>) -> Option<(Seq<char>, Seq<char>)> {
    let t = spec_trim(part);
    if t.len() == 0 {
        None
    } else {
        let sub = spec_split(t, ':');
        if sub.len() == 1 {
            Some((t, "asc"@))
        } else {
            let f = spec_trim(sub[0]);
            let d = spec_trim(sub[1]);
            if f.len() > 0 {
                Some((f, d))
            } else {
                None
            }
        }
    }
}

/// The keys a token list yields, in order.
pub open spec fn spec_sortby_tokens(parts: Seq<Seq<char>>) -> Seq<(Seq<char>, Seq<char>)>
    decreases parts.len(),
{
    if parts.len() == 0 {
        Seq::empty()
    } else {
        spec_sortby_tokens(parts.drop_last()) + (match spec_sortby_token(parts.last()) {
            Some(p) => seq![p],
            None => Seq::empty(),
        })
    }
}

/// The sort keys a sort specification string yields.
pub open spec fn spec_parse_sortby(s: Seq<char>) -> Seq<(Seq<char>, Seq<char>)> {
    spec_sortby_tokens(spec_split(s, ','))
}

/// Parses a sort specification into field and direction pairs; an error
/// reports that no valid key was found.
pub fn parse_sortby(sortby_str: &str) -> (r: Result<Vec<(String, String)>, String>)
    ensures
        (r is Ok) <==> spec_parse_sortby(sortby_str@).len() > 0,
        r is Ok ==> r->Ok_0.deep_view() == spec_parse_sortby(sortby_str@),
        r is Err ==> r->Err_0@ == "No valid sort fields found"@,
{
    let parts = split_on(sortby_str, ',');
    let ghost pv = parts.deep_view();
    let n = parts.len();
    let mut out: Vec<(String, String)> = Vec::new();
    let mut i: usize = 0;
    proof {
        assert(pv.take(0) =~= Seq::<Seq<char>>::empty());
        assert(out.deep_view() =~= spec_sortby_tokens(pv.take(0)));
    }
    while i < n
        invariant
            i <= n,
            n == parts@.len(),
            pv == parts.deep_view(),
            pv.len() == n,
            forall|q: int| 0 <= q < n ==> #[trigger] pv[q] == (#[trigger] parts@[q])@,
            out.deep_view() == spec_sortby_tokens(pv.take(i as int)),
        decreases n - i,
    {
        proof {
            assert(pv.take(i + 1).drop_last() =~= pv.take(i as int));
            assert(pv.take(i + 1).last() == pv[i as int]);
        }
        let t = trim(parts[i].as_str());
        if !t.as_str().is_empty() {
            let sub = split_on(t.as_str(), ':');
            proof {
                assert(sub.deep_view() == spec_split(t@, ':'));
                assert(sub@.len() == sub.deep_view().len());
                assert(forall|q: int|
                    0 <= q < sub@.len() ==> (#[trigger] sub@[q])@ == sub.deep_view()[q]);
            }
            if sub.len() == 1 {
                let ghost pre = out.deep_view();
                out.push((t, "asc".to_owned()));
                proof {
                    assert(out.deep_view() =~= pre.push((t@, "asc"@)));
                    assert(pre.push((t@, "asc"@)) =~= pre + seq![(t@, "asc"@)]);
                }
            } else {
                let f = trim(sub[0].as_str());
                let d = trim(sub[1].as_str());
                if !f.as_str().is_empty() {
                    let ghost pre = out.deep_view();
                    let ghost fv = f@;
                    let ghost dv = d@;
                    out.push((f, d));
                    proof {
                        assert(out.deep_view() =~= pre.push((fv, dv)));
                        assert(pre.push((fv, dv)) =~= pre + seq![(fv, dv)]);
                    }
                }
            }
        }
        i = i + 1;
    }
    proof {
        assert(pv.take(n as int) =~= pv);
    }
    if out.len() == 0 {
        proof {
            assert(out.deep_view().len() == out@.len());
        }
        Err("No valid sort fields found".to_owned())
    } else {
        proof {
            assert(out.deep_view().len() == out@.len());
        }
        Ok(out)
    }
}

// ---------------------------------------------------------------------------
// Spatial filter
// ---------------------------------------------------------------------------
/// The coordinates that parse among a list of comma-separated tokens, each
/// trimmed first, in order.
pub open spec fn spec_parsed_coords(parts: Seq<Seq<char>>) -> Seq<i64>
    decreases parts.len(),
{
    if parts.len() == 0 {
        Seq::empty()
    } else {
        spec_parsed_coords(parts.drop_last()) + (match spec_parse_coord(spec_trim(parts.last())) {
            Some(v) => seq![v],
            None => Seq::empty(),
        })
    }
}

/// The query box a bounding box string yields: the string must split into
/// exactly four comma-separated tokens and every trimmed token must parse
/// as a number, in the order least longitude, least latitude, greatest
/// longitude, greatest latitude. Any other shape — too few or too many
/// tokens, or any token that does not parse — yields nothing, and the
/// filter is skipped.
pub open spec fn spec_parse_bbox(s: Seq<char>) -> Option<(i64, i64, i64, i64)> {
    let parts = spec_split(s, ',');
    let cs = spec_parsed_coords(parts);
    if parts.len() == 4 && cs.len() == 4 {
        Some((cs[0], cs[1], cs[2], cs[3]))
    } else {
        None
    }
}

/// Whether an entry's own box intersects the query box. An entry with no
/// box, or a box of fewer than four coordinates, never matches.
pub open spec fn matches_bbox(it: Item, q: (i64, i64, i64, i64)) -> bool {
    &&& it.bbox is Some
    &&& it.bbox->Some_0@.len() >= 4
    &&& it.bbox->Some_0@[0] <= q.2
    &&& it.bbox->Some_0@[2] >= q.0
    &&& it.bbox->Some_0@[1] <= q.3
    &&& it.bbox->Some_0@[3] >= q.1
}

/// What the spatial filter yields: the entries whose boxes intersect the
/// query box, or all of them when the string does not read as exactly four
/// numbers.
pub open spec fn spec_bbox_filtered(items: Seq<Item>, s: Seq<char>) -> Seq<Item> {
    match spec_parse_bbox(s) {
        None => items,
        Some(q) => items.filter(|it: Item| matches_bbox(it, q)),
    }
}

/// A bounding box string that does not parse leaves the candidates
/// untouched: the spatial filter fails open.
pub proof fn lemma_bbox_fail_open(items: Seq<Item>, s: Seq<char>)
    requires
        spec_parse_bbox(s) is None,
    ensures
        spec_bbox_filtered(items, s) == items,
{
}

/// Under an active spatial filter, every surviving entry carries a box of
/// at least four coordinates: entries lacking a box are excluded.
pub proof fn lemma_bbox_filter_excludes_missing(items: Seq<Item>, s: Seq<char>)
    requires
        spec_parse_bbox(s) is Some,
    ensures
        forall|i: int|
            0 <= i < spec_bbox_filtered(items, s).len() ==> (#[trigger] spec_bbox_filtered(
                items,
                s,
            )[i]).bbox is Some && spec_bbox_filtered(items, s)[i].bbox->Some_0@.len() >= 4,
{
    broadcast use vstd::seq_lib::group_filter_ensures;

    let q = spec_parse_bbox(s)->Some_0;
    let pred = |it: Item| matches_bbox(it, q);
    assert forall|i: int| 0 <= i < spec_bbox_filtered(items, s).len() implies (
    #[trigger] spec_bbox_filtered(items, s)[i]).bbox is Some && spec_bbox_filtered(
        items,
        s,
    )[i].bbox->Some_0@.len() >= 4 by {
        assert(pred(items.filter(pred)[i]));
    }
}

/// Parses a bounding box string into a query box.
pub fn parse_bbox(s: &str) -> (r: Option<(i64, i64, i64, i64)>)
    ensures
        r == spec_parse_bbox(s@),
{
    let parts = split_on(s, ',');
    let ghost pv = parts.deep_view();
    if parts.len() != 4 {
        proof {
            assert(pv.len() == parts@.len());
        }
        return None;
    }
    let n = parts.len();
    let mut coords: Vec<i64> = Vec::new();
    let mut i: usize = 0;
    proof {
        assert(pv.take(0) =~= Seq::<Seq<char>>::empty());
        assert(coords@ =~= spec_parsed_coords(pv.take(0)));
    }
    while i < n
        invariant
            i <= n,
            n == parts@.len(),
            pv == parts.deep_view(),
            pv.len() == n,
            forall|q: int| 0 <= q < n ==> #[trigger] pv[q] == (#[trigger] parts@[q])@,
            coords@ == spec_parsed_coords(pv.take(i as int)),
        decreases n - i,
    {
        proof {
            assert(pv.take(i + 1).drop_last() =~= pv.take(i as int));
            assert(pv.take(i + 1).last() == pv[i as int]);
        }
        let t = trim(parts[i].as_str());
        match parse_coord(t.as_str()) {
            Some(v) => {
                let ghost pre = coords@;
                coords.push(v);
                proof {
                    assert(coords@ =~= pre + seq![v]);
                }
            },
            None => {
                proof {
                    assert(spec_parsed_coords(pv.take(i + 1)) =~= spec_parsed_coords(
                        pv.take(i as int),
                    ) + Seq::<i64>::empty());
                }
            },
        }
        i = i + 1;
    }
    proof {
        assert(pv.take(n as int) =~= pv);
    }
    if coords.len() == 4 {
        Some((coords[0], coords[1], coords[2], coords[3]))
    } else {
        None
    }
}

fn matches_bbox_exec(it: &Item, q: (i64, i64, i64, i64)) -> (r: bool)
    ensures
        r == matches_bbox(*it, q),
{
    match &it.bbox {
        Some(b) => {
            b.len() >= 4 && b[0] <= q.2 && b[2] >= q.0 && b[1] <= q.3 && b[3] >= q.1
        },
        None => false,
    }
}

/// Filters entries by a bounding box string; a string that does not parse
/// into exactly four numbers leaves all entries through.
pub fn filter_items_by_bbox(items: Vec<Item>, bbox_str: &str) -> (r: Vec<Item>)
    ensures
        r@ == spec_bbox_filtered(items@, bbox_str@),
{
    match parse_bbox(bbox_str) {
        None => items,
        Some(q) => {
            let ghost orig = items@;
            let ghost pred = |it: Item| matches_bbox(it, q);
            let mut input = items;
            let mut out: Vec<Item> = Vec::new();
            let ghost mut i: int = 0;
            proof {
                assert(orig.take(0) =~= Seq::<Item>::empty());
                assert(orig.skip(0) =~= orig);
                reveal_with_fuel(Seq::filter, 1);
                assert(out@ =~= orig.take(0).filter(pred));
            }
            while input.len() > 0
                invariant
                    0 <= i <= orig.len(),
                    input@ == orig.skip(i),
                    out@ == orig.take(i).filter(pred),
                    pred == (|it: Item| matches_bbox(it, q)),
                decreases input@.len(),
            {
                let x = input.remove(0);
                proof {
                    assert(x == orig[i]);
                    assert(orig.skip(i).remove(0) =~= orig.skip(i + 1));
                    assert(orig.take(i + 1).drop_last() =~= orig.take(i));
                    assert(orig.take(i + 1).last() == orig[i]);
                    reveal_with_fuel(Seq::filter, 2);
                    if pred(orig[i]) {
                        assert(orig.take(i + 1).filter(pred) =~= orig.take(i).filter(pred).push(
                            orig[i],
                        ));
                    } else {
                        assert(orig.take(i + 1).filter(pred) =~= orig.take(i).filter(pred));
                    }
                }
                if matches_bbox_exec(&x, q) {
                    out.push(x);
                }
                proof {
                    i = i + 1;
                }
            }
            proof {
                assert(orig.take(i) =~= orig);
            }
            out
        },
    }
}

// ---------------------------------------------------------------------------
// Temporal filter
// ---------------------------------------------------------------------------
/// The bounds a date-and-time expression yields. One token is an exact
/// point: both bounds take its instant. Two tokens are a range, where `..`
/// leaves that side open; a token that does not read as a timestamp leaves
/// its side open too.
pub open spec fn spec_datetime_bounds(s: Seq<char>) -> (Option<(i64, u32)>, Option<(i64, u32)>) {
    let parts = spec_split(s, '/');
    let start = if parts[0] == ".."@ {
        None
    } else {
        rfc3339_instant(parts[0])
    };
    let end = if parts.len() > 1 {
        if parts[1] == ".."@ {
            None
        } else {
            rfc3339_instant(parts[1])
        }
    } else {
        start
    };
    (start, end)
}

/// Whether an entry passes the temporal bounds: its own timestamp must
/// read as a date-and-time inside the bounds; an entry with an unreadable
/// timestamp never matches, and one with no timestamp matches only when
/// both bounds are open.
pub open spec fn matches_datetime(it: Item, bounds: (Option<(i64, u32)>, Option<(i64, u32)>)) -> bool {
    match it.properties.datetime {
        Some(dt) => match rfc3339_instant(dt@) {
            Some(t) => (bounds.0 is None || instant_le(bounds.0->Some_0, t)) && (bounds.1 is None
                || instant_le(t, bounds.1->Some_0)),
            None => false,
        },
        None => bounds.0 is None && bounds.1 is None,
    }
}

/// What the temporal filter yields.
pub open spec fn spec_datetime_filtered(items: Seq<Item>, s: Seq<char>) -> Seq<Item> {
    items.filter(|it: Item| matches_datetime(it, spec_datetime_bounds(s)))
}

fn matches_datetime_exec(it: &Item, bounds: (Option<(i64, u32)>, Option<(i64, u32)>)) -> (r: bool)
    ensures
        r == matches_datetime(*it, bounds),
{
    match &it.properties.datetime {
        Some(dt) => {
            match parse_rfc3339(dt.as_str()) {
                Some(t) => {
                    let start_ok = match bounds.0 {
                        Some(s) => instant_le_exec(s, t),
                        None => true,
                    };
                    let end_ok = match bounds.1 {
                        Some(e) => instant_le_exec(t, e),
                        None => true,
                    };
                    start_ok && end_ok
                },
                None => false,
            }
        },
        None => bounds.0.is_none() && bounds.1.is_none(),
    }
}

/// Filters entries by a date-and-time expression.
pub fn filter_items_by_datetime(items: Vec<Item>, datetime_str: &str) -> (r: Vec<Item>)
    ensures
        r@ == spec_datetime_filtered(items@, datetime_str@),
{
    let parts = split_on(datetime_str, '/');
    let ghost pv = parts.deep_view();
    proof {
        assert(pv == spec_split(datetime_str@, '/'));
        crate::strutil::lemma_split_len(datetime_str@, '/');
        assert(pv[0] == (parts@[0])@);
        if pv.len() > 1 {
            assert(pv[1] == (parts@[1])@);
        }
        reveal_strlit("..");
    }
    let start: Option<(i64, u32)> = if str_eq(parts[0].as_str(), "..") {
        None
    } else {
        parse_rfc3339(parts[0].as_str())
    };
    let end: Option<(i64, u32)> = if parts.len() > 1 {
        if str_eq(parts[1].as_str(), "..") {
            None
        } else {
            parse_rfc3339(parts[1].as_str())
        }
    } else {
        start
    };
    let bounds = (start, end);
    proof {
        assert(bounds == spec_datetime_bounds(datetime_str@));
    }
    let ghost orig = items@;
    let ghost pred = |it: Item| matches_datetime(it, spec_datetime_bounds(datetime_str@));
    let mut input = items;
    let mut out: Vec<Item> = Vec::new();
    let ghost mut i: int = 0;
    proof {
        assert(orig.take(0) =~= Seq::<Item>::empty());
        assert(orig.skip(0) =~= orig);
        reveal_with_fuel(Seq::filter, 1);
        assert(out@ =~= orig.take(0).filter(pred));
    }
    while input.len() > 0
        invariant
            0 <= i <= orig.len(),
            input@ == orig.skip(i),
            out@ == orig.take(i).filter(pred),
            pred == (|it: Item| matches_datetime(it, spec_datetime_bounds(datetime_str@))),
            bounds == spec_datetime_bounds(datetime_str@),
        decreases input@.len(),
    {
        let x = input.remove(0);
        proof {
            assert(x == orig[i]);
            assert(orig.skip(i).remove(0) =~= orig.skip(i + 1));
            assert(orig.take(i + 1).drop_last() =~= orig.take(i));
            assert(orig.take(i + 1).last() == orig[i]);
            reveal_with_fuel(Seq::filter, 2);
            if pred(orig[i]) {
                assert(orig.take(i + 1).filter(pred) =~= orig.take(i).filter(pred).push(orig[i]));
            } else {
                assert(orig.take(i + 1).filter(pred) =~= orig.take(i).filter(pred));
            }
        }
        if matches_datetime_exec(&x, bounds) {
            out.push(x);
        }
        proof {
            i = i + 1;
        }
    }
    proof {
        assert(orig.take(i) =~= orig);
    }
    out
}

// ---------------------------------------------------------------------------
// Scope resolution and candidate collection
// ---------------------------------------------------------------------------
/// The scope tokens a comma-separated list yields: each token trimmed, the
/// empty ones dropped.
pub open spec fn spec_scope_tokens(parts: Seq<Seq<char>>) -> Seq<Seq<char>>
    decreases parts.len(),
{
    if parts.len() == 0 {
        Seq::empty()
    } else {
        spec_scope_tokens(parts.drop_last()) + (if spec_trim(parts.last()).len() > 0 {
            seq![spec_trim(parts.last())]
        } else {
            Seq::<Seq<char>>::empty()
        })
    }
}

/// The explicit scope a request names: the trimmed, non-empty grouping
/// identifiers of its list, or nothing when no list was given or it
/// dissolves into emptiness — then the scope is all known groupings.
pub open spec fn spec_explicit_scope(collections: Option<String>) -> Option<Seq<Seq<char>>> {
    match collections {
        None => None,
        Some(c) => {
            let toks = spec_scope_tokens(spec_split(c@, ','));
            if toks.len() == 0 {
                None
            } else {
                Some(toks)
            }
        },
    }
}

/// Resolves the explicit scope of a request; `None` means every known
/// grouping is in scope and the caller must list them.
pub fn explicit_scope(collections: &Option<String>) -> (r: Option<Vec<String>>)
    ensures
        (r is Some) <==> (spec_explicit_scope(*collections) is Some),
        r is Some ==> r->Some_0.deep_view() == spec_explicit_scope(*collections)->Some_0,
{
    match collections {
        None => None,
        Some(c) => {
            let parts = split_on(c.as_str(), ',');
            let ghost pv = parts.deep_view();
            let n = parts.len();
            let mut out: Vec<String> = Vec::new();
            let mut i: usize = 0;
            proof {
                assert(pv.take(0) =~= Seq::<Seq<char>>::empty());
                assert(out.deep_view() =~= spec_scope_tokens(pv.take(0)));
            }
            while i < n
                invariant
                    i <= n,
                    n == parts@.len(),
                    pv == parts.deep_view(),
                    pv.len() == n,
                    forall|q: int| 0 <= q < n ==> #[trigger] pv[q] == (#[trigger] parts@[q])@,
                    out.deep_view() == spec_scope_tokens(pv.take(i as int)),
                decreases n - i,
            {
                proof {
                    assert(pv.take(i + 1).drop_last() =~= pv.take(i as int));
                    assert(pv.take(i + 1).last() == pv[i as int]);
                }
                let t = trim(parts[i].as_str());
                if !t.as_str().is_empty() {
                    let ghost pre = out.deep_view();
                    let ghost tv = t@;
                    out.push(t);
                    proof {
                        assert(out.deep_view() =~= pre + seq![tv]);
                    }
                }
                i = i + 1;
            }
            proof {
                assert(pv.take(n as int) =~= pv);
                assert(out.deep_view().len() == out@.len());
            }
            if out.len() == 0 {
                None
            } else {
                Some(out)
            }
        },
    }
}

/// The entries the scoped fetches yield, concatenated in scope order; a
/// fetch that failed contributes nothing and does not fail the search.
pub open spec fn spec_collected(fetches: Seq<Option<Vec<Item>>>) -> Seq<Item>
    decreases fetches.len(),
{
    if fetches.len() == 0 {
        Seq::empty()
    } else {
        spec_collected(fetches.drop_last()) + (match fetches.last() {
            Some(v) => v@,
            None => Seq::empty(),
        })
    }
}

/// Concatenates the entries of the scoped fetches, skipping failed ones.
pub fn collect_candidates(fetches: Vec<Option<Vec<Item>>>) -> (r: Vec<Item>)
    ensures
        r@ == spec_collected(fetches@),
{
    let ghost orig = fetches@;
    let mut input = fetches;
    let mut out: Vec<Item> = Vec::new();
    let ghost mut i: int = 0;
    proof {
        assert(orig.take(0) =~= Seq::<Option<Vec<Item>>>::empty());
        assert(orig.skip(0) =~= orig);
    }
    while input.len() > 0
        invariant
            0 <= i <= orig.len(),
            input@ == orig.skip(i),
            out@ == spec_collected(orig.take(i)),
        decreases input@.len(),
    {
        let x = input.remove(0);
        proof {
            assert(x == orig[i]);
            assert(orig.skip(i).remove(0) =~= orig.skip(i + 1));
            assert(orig.take(i + 1).drop_last() =~= orig.take(i));
            assert(orig.take(i + 1).last() == orig[i]);
        }
        match x {
            Some(mut items) => {
                let ghost pre = out@;
                let ghost iv = items@;
                out.append(&mut items);
                proof {
                    assert(out@ =~= pre + iv);
                }
            },
            None => {
                proof {
                    assert(spec_collected(orig.take(i + 1)) =~= spec_collected(orig.take(i))
                        + Seq::<Item>::empty());
                }
            },
        }
        proof {
            i = i + 1;
        }
    }
    proof {
        assert(orig.take(i) =~= orig);
    }
    out
}

// ---------------------------------------------------------------------------
// Pagination
// ---------------------------------------------------------------------------
/// What the limit stage yields: the first `limit` entries when a limit is
/// given, lies in range and is below the count; otherwise all of them. A
/// negative limit never truncates.
pub open spec fn spec_limited(items: Seq<Item>, limit: Option<i32>) -> Seq<Item> {
    match limit {
        Some(l) => if 0 <= l && (l as int) < items.len() {
            items.take(l as int)
        } else {
            items
        },
        None => items,
    }
}

/// Truncates the results to the limit, after filtering and sorting.
pub fn limit_items(items: Vec<Item>, limit: Option<i32>) -> (r: Vec<Item>)
    ensures
        r@ == spec_limited(items@, limit),
{
    match limit {
        Some(l) => {
            if 0 <= l && (l as usize) < items.len() {
                let mut out = items;
                out.truncate(l as usize);
                out
            } else {
                items
            }
        },
        None => items,
    }
}

/// The limit and offset a single-grouping listing uses when the request
/// leaves them out: ten entries from the start.
pub fn paging_defaults(limit: Option<i64>, offset: Option<i64>) -> (r: (i64, i64))
    ensures
        r.0 == (if limit is Some {
            limit->Some_0
        } else {
            10i64
        }),
        r.1 == (if offset is Some {
            offset->Some_0
        } else {
            0i64
        }),
{
    let l = match limit {
        Some(l) => l,
        None => 10,
    };
    let o = match offset {
        Some(o) => o,
        None => 0,
    };
    (l, o)
}

// ---------------------------------------------------------------------------
// The pipeline
// ---------------------------------------------------------------------------
/// What a search yields from its candidates: the spatial filter, then the
/// temporal filter, then sorting, then the limit. A missing stage is
/// skipped, and so is a sort specification with no valid key.
pub open spec fn spec_search_results(candidates: Seq<Item>, q: SearchQuery) -> Seq<Item> {
    let after_bbox = match q.bbox {
        Some(b) => spec_bbox_filtered(candidates, b@),
        None => candidates,
    };
    let after_dt = match q.datetime {
        Some(d) => spec_datetime_filtered(after_bbox, d@),
        None => after_bbox,
    };
    let sorted = match q.sortby {
        Some(sb) => if spec_parse_sortby(sb@).len() > 0 {
            spec_sort_items(after_dt, spec_parse_sortby(sb@))
        } else {
            after_dt
        },
        None => after_dt,
    };
    spec_limited(sorted, q.limit)
}

/// Runs the search pipeline over candidates already fetched and converted:
/// spatial filter, temporal filter, sort, limit.
pub fn apply_search_pipeline(candidates: Vec<Item>, query: &SearchQuery) -> (r: Vec<Item>)
    ensures
        r@ == spec_search_results(candidates@, *query),
{
    let after_bbox = match &query.bbox {
        Some(b) => filter_items_by_bbox(candidates, b.as_str()),
        None => candidates,
    };
    let after_dt = match &query.datetime {
        Some(d) => filter_items_by_datetime(after_bbox, d.as_str()),
        None => after_bbox,
    };
    let sorted = match &query.sortby {
        Some(sb) => {
            match parse_sortby(sb.as_str()) {
                Ok(keys) => sort_items(after_dt, &keys),
                Err(_) => after_dt,
            }
        },
        None => after_dt,
    };
    limit_items(sorted, query.limit)
}

// ---------------------------------------------------------------------------
// What a search can return
// ---------------------------------------------------------------------------
/// Whether every entry of `sub` occurs in `sup`.
pub open spec fn all_from(sub: Seq<Item>, sup: Seq<Item>) -> bool {
    forall|i: int| 0 <= i < sub.len() ==> sup.contains(#[trigger] sub[i])
}

proof fn lemma_from_refl(s: Seq<Item>)
    ensures
        all_from(s, s),
{
    assert forall|i: int| 0 <= i < s.len() implies s.contains(#[trigger] s[i]) by {
        assert(s[i] == s[i]);
    }
}

proof fn lemma_from_trans(a: Seq<Item>, b: Seq<Item>, c: Seq<Item>)
    requires
        all_from(a, b),
        all_from(b, c),
    ensures
        all_from(a, c),
{
    assert forall|i: int| 0 <= i < a.len() implies c.contains(#[trigger] a[i]) by {
        let j = choose|j: int| 0 <= j < b.len() && b[j] == a[i];
        assert(c.contains(b[j]));
    }
}

proof fn lemma_filter_from(s: Seq<Item>, pred: spec_fn(Item) -> bool)
    ensures
        all_from(s.filter(pred), s),
        s.filter(pred).len() <= s.len(),
    decreases s.len(),
{
    reveal(Seq::filter);
    if s.len() > 0 {
        lemma_filter_from(s.drop_last(), pred);
        let out = s.filter(pred);
        let prev = s.drop_last().filter(pred);
        assert forall|i: int| 0 <= i < out.len() implies s.contains(#[trigger] out[i]) by {
            if i < prev.len() {
                let j = choose|j: int| 0 <= j < s.drop_last().len() && s.drop_last()[j] == prev[i];
                assert(s[j] == prev[i]);
            } else {
                assert(out[i] == s.last());
                assert(s[s.len() - 1] == s.last());
            }
        }
    }
}

proof fn lemma_permutation_from(a: Seq<Item>, b: Seq<Item>)
    requires
        a.to_multiset() =~= b.to_multiset(),
    ensures
        all_from(a, b),
        a.len() == b.len(),
{
    broadcast use vstd::seq_lib::group_to_multiset_ensures;

    assert(a.len() == a.to_multiset().len());
    assert(b.len() == b.to_multiset().len());
    assert forall|i: int| 0 <= i < a.len() implies b.contains(#[trigger] a[i]) by {
        assert(a.contains(a[i]));
        assert(a.to_multiset().count(a[i]) > 0);
    }
}

/// A search never invents entries: its results are no more than the
/// candidates, and each result is one of them.
pub proof fn lemma_search_results_from_candidates(candidates: Seq<Item>, q: SearchQuery)
    ensures
        spec_search_results(candidates, q).len() <= candidates.len(),
        all_from(spec_search_results(candidates, q), candidates),
{
    let after_bbox = match q.bbox {
        Some(b) => spec_bbox_filtered(candidates, b@),
        None => candidates,
    };
    let after_dt = match q.datetime {
        Some(d) => spec_datetime_filtered(after_bbox, d@),
        None => after_bbox,
    };
    let sorted = match q.sortby {
        Some(sb) => if spec_parse_sortby(sb@).len() > 0 {
            spec_sort_items(after_dt, spec_parse_sortby(sb@))
        } else {
            after_dt
        },
        None => after_dt,
    };
    let result = spec_limited(sorted, q.limit);

    match q.bbox {
        Some(b) => {
            match spec_parse_bbox(b@) {
                Some(query_box) => {
                    lemma_filter_from(candidates, |it: Item| matches_bbox(it, query_box));
                },
                None => {
                    lemma_from_refl(candidates);
                },
            }
        },
        None => {
            lemma_from_refl(candidates);
        },
    }
    assert(all_from(after_bbox, candidates) && after_bbox.len() <= candidates.len());

    match q.datetime {
        Some(d) => {
            lemma_filter_from(
                after_bbox,
                |it: Item| matches_datetime(it, spec_datetime_bounds(d@)),
            );
        },
        None => {
            lemma_from_refl(after_bbox);
        },
    }
    assert(all_from(after_dt, after_bbox) && after_dt.len() <= after_bbox.len());

    match q.sortby {
        Some(sb) => {
            if spec_parse_sortby(sb@).len() > 0 {
                crate::sorting::lemma_sort_items_permutation(after_dt, spec_parse_sortby(sb@));
                lemma_permutation_from(sorted, after_dt);
            } else {
                lemma_from_refl(after_dt);
            }
        },
        None => {
            lemma_from_refl(after_dt);
        },
    }
    assert(all_from(sorted, after_dt) && sorted.len() <= after_dt.len());

    assert forall|i: int| 0 <= i < result.len() implies sorted.contains(#[trigger] result[i]) by {
        assert(result[i] == sorted[i]);
    }
    assert(result.len() <= sorted.len());

    lemma_from_trans(result, sorted, after_dt);
    lemma_from_trans(result, after_dt, after_bbox);
    lemma_from_trans(result, after_bbox, candidates);
}

// ---------------------------------------------------------------------------
// Structured request bodies
// ---------------------------------------------------------------------------
/// Joins strings with commas, as a request body's identifier lists are
/// carried in query form.
pub open spec fn spec_join_comma(parts: Seq<Seq<char>>) -> Seq<char>
    decreases parts.len(),
{
    if parts.len() == 0 {
        Seq::empty()
    } else if parts.len() == 1 {
        parts[0]
    } else {
        spec_join_comma(parts.drop_last()) + seq![','] + parts.last()
    }
}

/// Joins strings with commas.
pub fn join_comma(parts: &Vec<String>) -> (r: String)
    ensures
        r@ == spec_join_comma(parts.deep_view()),
{
    let ghost pv = parts.deep_view();
    let n = parts.len();
    let mut out = String::new();
    let mut i: usize = 0;
    while i < n
        invariant
            i <= n,
            n == parts@.len(),
            pv == parts.deep_view(),
            pv.len() == n,
            forall|q: int| 0 <= q < n ==> #[trigger] pv[q] == (#[trigger] parts@[q])@,
            i == 0 ==> out@ == Seq::<char>::empty(),
            i > 0 ==> out@ == spec_join_comma(pv.take(i as int)),
        decreases n - i,
    {
        proof {
            assert(pv.take(i + 1).drop_last() =~= pv.take(i as int));
            assert(pv.take(i + 1).last() == pv[i as int]);
            reveal_strlit(",");
        }
        if i > 0 {
            out.append(",");
        }
        out.append(parts[i].as_str());
        proof {
            if i == 0 {
                assert(pv.take(1).len() == 1);
                assert(out@ =~= spec_join_comma(pv.take(1)));
            } else {
                assert(","@ =~= seq![',']);
                assert(out@ =~= spec_join_comma(pv.take(i as int)) + seq![','] + pv[i as int]);
            }
        }
        i = i + 1;
    }
    proof {
        if n > 0 {
            assert(pv.take(n as int) =~= pv);
        } else {
            assert(pv.len() == 0);
            assert(spec_join_comma(pv) =~= Seq::<char>::empty());
        }
    }
    out
}

/// The query form of a structured sort key list: `field:direction` pairs
/// joined with commas.
pub open spec fn spec_sortby_string(fields: Seq<SortByField>) -> Seq<char>
    decreases fields.len(),
{
    if fields.len() == 0 {
        Seq::empty()
    } else if fields.len() == 1 {
        fields[0].field@ + seq![':'] + fields[0].direction@
    } else {
        spec_sortby_string(fields.drop_last()) + seq![','] + fields.last().field@ + seq![':']
            + fields.last().direction@
    }
}

/// Renders a structured sort key list in its query form.
pub fn sortby_to_string(fields: &Vec<SortByField>) -> (r: String)
    ensures
        r@ == spec_sortby_string(fields@),
{
    let n = fields.len();
    let mut out = String::new();
    let mut i: usize = 0;
    while i < n
        invariant
            i <= n,
            n == fields@.len(),
            i == 0 ==> out@ == Seq::<char>::empty(),
            i > 0 ==> out@ == spec_sortby_string(fields@.take(i as int)),
        decreases n - i,
    {
        proof {
            assert(fields@.take(i + 1).drop_last() =~= fields@.take(i as int));
            assert(fields@.take(i + 1).last() == fields@[i as int]);
            reveal_strlit(",");
            reveal_strlit(":");
        }
        if i > 0 {
            out.append(",");
        }
        out.append(fields[i].field.as_str());
        out.append(":");
        out.append(fields[i].direction.as_str());
        proof {
            assert(","@ =~= seq![',']);
            assert(":"@ =~= seq![':']);
            if i == 0 {
                assert(fields@.take(1).len() == 1);
                assert(out@ =~= spec_sortby_string(fields@.take(1)));
            } else {
                assert(out@ =~= spec_sortby_string(fields@.take(i as int)) + seq![','] + fields@[i as int].field@
                    + seq![':'] + fields@[i as int].direction@);
            }
        }
        i = i + 1;
    }
    proof {
        if n > 0 {
            assert(fields@.take(n as int) =~= fields@);
        } else {
            assert(spec_sortby_string(fields@) =~= Seq::<char>::empty());
        }
    }
    out
}

} // verus!
