//! The textual form of a request as lines of bytes, what watch actions find
//! in it, and the mutations that change actions make.

use vstd::prelude::*;
use vstd::utf8::encode_utf8;
use crate::context::ActiveRuleContext;
use crate::error::AuditError;
use crate::http::{Coordinates, Request, RequestModel, headers_view};
use crate::rule_actions::{ChangeValuePlacement, RuleChangeAction, RuleWatchAction, WatchPart};
use crate::text::{parse_usize, usize_of};

verus! {

/// The pieces of `s` between newline bytes, in order; there is always at
/// least one piece.
pub open spec fn split_lines(s: Seq<u8>) -> Seq<Seq<u8>>
    decreases s.len(),
{
    if s.len() == 0 {
        seq![Seq::<u8>::empty()]
    } else {
        let parts = split_lines(s.drop_last());
        if s.last() == 10u8 {
            parts.push(Seq::<u8>::empty())
        } else {
            parts.update(parts.len() - 1, parts.last().push(s.last()))
        }
    }
}

/// The start line of a request: method, path and version, separated by spaces.
pub open spec fn start_line_of(r: RequestModel) -> Seq<u8> {
    encode_utf8(r.method) + seq![32u8] + encode_utf8(r.path) + seq![32u8] + encode_utf8(r.version)
}

/// A header line: name, colon and space, value.
pub open spec fn header_line_of(h: (Seq<char>, Seq<char>)) -> Seq<u8> {
    encode_utf8(h.0) + seq![58u8, 32u8] + encode_utf8(h.1)
}

/// The lines of a request: the start line, one line per header, then the
/// body split at newlines.
pub open spec fn request_lines_of(r: RequestModel) -> Seq<Seq<u8>> {
    seq![start_line_of(r)] + r.headers.map_values(|h: (Seq<char>, Seq<char>)| header_line_of(h)) + split_lines(r.body)
}

/// The models of lines of bytes.
pub open spec fn lines_view(v: Seq<Vec<u8>>) -> Seq<Seq<u8>> {
    v.map_values(|l: Vec<u8>| l@)
}

/// Splits bytes at newlines.
pub fn split_body(b: &Vec<u8>) -> (r: Vec<Vec<u8>>)
    ensures
        lines_view(r@) == split_lines(b@),
{
    let mut parts: Vec<Vec<u8>> = Vec::new();
    let mut cur: Vec<u8> = Vec::new();
    let mut i: usize = 0;
    assert(b@.subrange(0, 0) =~= Seq::<u8>::empty());
    assert(lines_view(parts@).push(cur@) =~= seq![Seq::<u8>::empty()]);
    while i < b.len()
        invariant
            i <= b@.len(),
            split_lines(b@.subrange(0, i as int)) == lines_view(parts@).push(cur@),
        decreases b@.len() - i,
    {
        let c = b[i];
        assert(b@.subrange(0, i as int + 1).drop_last() =~= b@.subrange(0, i as int));
        let ghost before = lines_view(parts@);
        if c == 10u8 {
            let done = cur;
            parts.push(done);
            cur = Vec::new();
            assert(lines_view(parts@) =~= before.push(done@));
        } else {
            cur.push(c);
            assert(before.push(cur@.drop_last()).update(before.len() as int, cur@) =~= before.push(cur@));
        }
        i = i + 1;
    }
    let ghost before = lines_view(parts@);
    parts.push(cur);
    assert(lines_view(parts@) =~= before.push(cur@));
    assert(b@.subrange(0, b@.len() as int) =~= b@);
    parts
}

/// The bytes of a string.
fn bytes_of(s: &String) -> (r: Vec<u8>)
    ensures
        r@ == encode_utf8(s@),
{
    s.as_str().as_bytes_vec()
}

/// The lines of a request's textual form.
pub fn request_lines(r: &Request) -> (lines: Vec<Vec<u8>>)
    ensures
        lines_view(lines@) == request_lines_of(r@),
{
    let mut start = bytes_of(&r.method);
    start.push(32u8);
    let mut path = bytes_of(&r.path);
    start.append(&mut path);
    start.push(32u8);
    let mut version = bytes_of(&r.version);
    start.append(&mut version);
    assert(start@ =~= start_line_of(r@));
    let mut lines: Vec<Vec<u8>> = Vec::new();
    lines.push(start);
    let ghost hv = headers_view(r.headers@);
    let mut i: usize = 0;
    while i < r.headers.len()
        invariant
            i <= r.headers@.len(),
            hv == headers_view(r.headers@),
            lines_view(lines@) == seq![start_line_of(r@)] + hv.subrange(0, i as int).map_values(
                |h: (Seq<char>, Seq<char>)| header_line_of(h),
            ),
        decreases r.headers@.len() - i,
    {
        let mut line = bytes_of(&r.headers[i].0);
        line.push(58u8);
        line.push(32u8);
        let mut value = bytes_of(&r.headers[i].1);
        line.append(&mut value);
        assert(hv[i as int] == (r.headers@[i as int].0@, r.headers@[i as int].1@));
        assert(line@ =~= header_line_of(hv[i as int]));
        let ghost before = lines_view(lines@);
        lines.push(line);
        assert(lines_view(lines@) =~= before.push(line@));
        assert(hv.subrange(0, i as int + 1).map_values(|h: (Seq<char>, Seq<char>)| header_line_of(h))
            =~= hv.subrange(0, i as int).map_values(|h: (Seq<char>, Seq<char>)| header_line_of(h)).push(header_line_of(hv[i as int])));
        i = i + 1;
    }
    assert(hv.subrange(0, hv.len() as int) =~= hv);
    let mut body = split_body(&r.body);
    let ghost before = lines@;
    let ghost bv = body@;
    lines.append(&mut body);
    assert(lines_view(lines@) =~= lines_view(before) + lines_view(bv));
    lines
}

/// What `regex::bytes::Regex::new(pattern)` and then `captures_iter(hay)`
/// give: `None` when the pattern does not compile, else for each match in
/// order, each of its groups from group 0 on, as the byte span where it
/// matched, or `None` where it took no part.
pub uninterp spec fn captures_of(pattern: Seq<char>, hay: Seq<u8>) -> Option<Seq<Seq<Option<(usize, usize)>>>>;

/// The models of the captures of each match.
pub open spec fn captures_view(v: Seq<Vec<Option<(usize, usize)>>>) -> Seq<Seq<Option<(usize, usize)>>> {
    v.map_values(|m: Vec<Option<(usize, usize)>>| m@)
}

/// Relies on `regex::bytes::Regex::new`, `captures_iter`, `Captures::iter`
/// and `Match::start`/`end`: the captures depend on the pattern and the
/// bytes alone, and each span lies within the bytes.
#[verifier::external_body]
fn regex_captures(pattern: &str, hay: &Vec<u8>) -> (r: Option<Vec<Vec<Option<(usize, usize)>>>>)
    ensures
        match r {
            None => captures_of(pattern@, hay@) is None,
            Some(v) => captures_of(pattern@, hay@) == Some(captures_view(v@))
                && forall|k: int, j: int| 0 <= k < v@.len() && 0 <= j < v@[k]@.len() && (#[trigger] v@[k]@[j]) is Some
                    ==> span_start(v@[k]@[j]) <= span_end(v@[k]@[j]) <= hay@.len(),
        },
{
    match regex::bytes::Regex::new(pattern) {
        Ok(re) => Some(
            re.captures_iter(hay.as_slice())
                .map(|c| c.iter().map(|m| m.map(|m| (m.start(), m.end()))).collect())
                .collect(),
        ),
        Err(_) => None,
    }
}

/// The groups of one match that took part, from group 1 on (group 0 is the
/// whole match), as (group, start, end).
pub open spec fn match_spans(m: Seq<Option<(usize, usize)>>) -> Seq<(usize, usize, usize)>
    decreases m.len(),
{
    if m.len() == 0 {
        Seq::<(usize, usize, usize)>::empty()
    } else {
        let prev = match_spans(m.drop_last());
        let p = m.last();
        if m.len() >= 2 && p is Some {
            prev.push(((m.len() - 1) as usize, span_start(p), span_end(p)))
        } else {
            prev
        }
    }
}

/// Where a span that took part starts.
pub open spec fn span_start(p: Option<(usize, usize)>) -> usize {
    match p {
        Some((a, _)) => a,
        None => 0,
    }
}

/// Where a span that took part ends.
pub open spec fn span_end(p: Option<(usize, usize)>) -> usize {
    match p {
        Some((_, b)) => b,
        None => 0,
    }
}

/// The group spans of every match, match after match.
pub open spec fn all_spans(c: Seq<Seq<Option<(usize, usize)>>>) -> Seq<(usize, usize, usize)>
    decreases c.len(),
{
    if c.len() == 0 {
        Seq::<(usize, usize, usize)>::empty()
    } else {
        all_spans(c.drop_last()) + match_spans(c.last())
    }
}

/// The spans of the groups, from group 1 on, that took part in each match;
/// each lies within `bound` where the captures do.
pub fn spans_of_captures(caps: &Vec<Vec<Option<(usize, usize)>>>, bound: usize) -> (r: Vec<(usize, usize, usize)>)
    requires
        forall|k: int, j: int| 0 <= k < caps@.len() && 0 <= j < caps@[k]@.len() && (#[trigger] caps@[k]@[j]) is Some
            ==> span_start(caps@[k]@[j]) <= span_end(caps@[k]@[j]) <= bound,
    ensures
        r@ == all_spans(captures_view(caps@)),
        forall|t: int| 0 <= t < r@.len() ==> (#[trigger] r@[t]).1 <= r@[t].2 <= bound,
{
    let ghost cv = captures_view(caps@);
    let mut r: Vec<(usize, usize, usize)> = Vec::new();
    let mut k: usize = 0;
    assert(cv.subrange(0, 0) =~= Seq::<Seq<Option<(usize, usize)>>>::empty());
    while k < caps.len()
        invariant
            k <= caps@.len(),
            cv == captures_view(caps@),
            r@ == all_spans(cv.subrange(0, k as int)),
            forall|t: int| 0 <= t < r@.len() ==> (#[trigger] r@[t]).1 <= r@[t].2 <= bound,
            forall|k2: int, j: int| 0 <= k2 < caps@.len() && 0 <= j < caps@[k2]@.len() && (#[trigger] caps@[k2]@[j]) is Some
                ==> span_start(caps@[k2]@[j]) <= span_end(caps@[k2]@[j]) <= bound,
        decreases caps@.len() - k,
    {
        let m = &caps[k];
        assert(cv[k as int] == m@);
        let ghost before = r@;
        let mut j: usize = 0;
        assert(m@.subrange(0, 0) =~= Seq::<Option<(usize, usize)>>::empty());
        assert(before + match_spans(m@.subrange(0, 0)) =~= before);
        while j < m.len()
            invariant
                j <= m@.len(),
                m@ == caps@[k as int]@,
                k < caps@.len(),
                r@ == before + match_spans(m@.subrange(0, j as int)),
                forall|t: int| 0 <= t < r@.len() ==> (#[trigger] r@[t]).1 <= r@[t].2 <= bound,
                forall|k2: int, j2: int| 0 <= k2 < caps@.len() && 0 <= j2 < caps@[k2]@.len() && (#[trigger] caps@[k2]@[j2]) is Some
                    ==> span_start(caps@[k2]@[j2]) <= span_end(caps@[k2]@[j2]) <= bound,
            decreases m@.len() - j,
        {
            let ghost sub = m@.subrange(0, j as int + 1);
            assert(sub.drop_last() =~= m@.subrange(0, j as int));
            assert(sub.last() == m@[j as int]);
            if j >= 1 {
                match m[j] {
                    Some((a, b)) => {
                        assert(caps@[k as int]@[j as int] is Some);
                        let ghost mid = r@;
                        r.push((j, a, b));
                        assert(r@ =~= before + match_spans(sub));
                    },
                    None => {},
                }
            }
            j = j + 1;
        }
        assert(m@.subrange(0, m@.len() as int) =~= m@);
        let ghost cs = cv.subrange(0, k as int + 1);
        assert(cs.drop_last() =~= cv.subrange(0, k as int));
        assert(cs.last() == m@);
        k = k + 1;
    }
    assert(cv.subrange(0, cv.len() as int) =~= cv);
    r
}

/// One group that a watch action found: its group number and where it lies.
#[derive(Clone, Copy, Debug, PartialEq, Eq, Structural)]
pub struct WatchHit {
    pub group: usize,
    pub position: Coordinates,
}

/// The regions of the textual form that a watch on `part` scans, as
/// (line, start, end): a field of the start line, every header line, or
/// every body line.
pub open spec fn regions_of(r: RequestModel, part: WatchPart) -> Seq<(int, int, int)> {
    let m = encode_utf8(r.method).len() as int;
    let p = encode_utf8(r.path).len() as int;
    let lines = request_lines_of(r);
    let h = r.headers.len() as int;
    match part {
        WatchPart::Method => seq![(0, 0, m)],
        WatchPart::Path => seq![(0, m + 1, m + 1 + p)],
        WatchPart::Version => seq![(0, m + p + 2, lines[0].len() as int)],
        WatchPart::Headers => Seq::new(h as nat, |i: int| (i + 1, 0, lines[i + 1].len() as int)),
        WatchPart::Body => Seq::new((lines.len() - h - 1) as nat, |j: int| (h + 1 + j, 0, lines[h + 1 + j].len() as int)),
    }
}

/// Places `payload` before, after or instead of the bytes from `start` to `end`.
pub open spec fn placed(line: Seq<u8>, start: int, end: int, payload: Seq<u8>, how: ChangeValuePlacement) -> Seq<u8> {
    match how {
        ChangeValuePlacement::Before => line.subrange(0, start) + payload + line.subrange(start, line.len() as int),
        ChangeValuePlacement::After => line.subrange(0, end) + payload + line.subrange(end, line.len() as int),
        ChangeValuePlacement::Replace => line.subrange(0, start) + payload + line.subrange(end, line.len() as int),
    }
}

/// Copies the bytes from `from` to `to`.
fn copy_range(v: &Vec<u8>, from: usize, to: usize) -> (r: Vec<u8>)
    requires
        from <= to <= v@.len(),
    ensures
        r@ == v@.subrange(from as int, to as int),
{
    let mut r: Vec<u8> = Vec::new();
    let mut i: usize = from;
    while i < to
        invariant
            from <= i <= to,
            to <= v@.len(),
            r@ == v@.subrange(from as int, i as int),
        decreases to - i,
    {
        r.push(v[i]);
        assert(v@.subrange(from as int, i as int + 1) =~= v@.subrange(from as int, i as int).push(v@[i as int]));
        i = i + 1;
    }
    r
}

/// Places `payload` before, after or instead of the bytes from `start` to `end`.
pub fn apply_placement(line: &Vec<u8>, start: usize, end: usize, payload: &Vec<u8>, how: ChangeValuePlacement) -> (r: Vec<u8>)
    requires
        start <= end <= line@.len(),
    ensures
        r@ == placed(line@, start as int, end as int, payload@, how),
{
    let (cut, resume) = match how {
        ChangeValuePlacement::Before => (start, start),
        ChangeValuePlacement::After => (end, end),
        ChangeValuePlacement::Replace => (start, end),
    };
    let mut r = copy_range(line, 0, cut);
    let mut p = copy_range(payload, 0, payload.len());
    assert(payload@.subrange(0, payload@.len() as int) =~= payload@);
    r.append(&mut p);
    let mut rest = copy_range(line, resume, line.len());
    r.append(&mut rest);
    r
}

/// The hits that one span list gives in a region starting at `s` of line `l`.
pub open spec fn hits_from(spans: Seq<(usize, usize, usize)>, l: int, s: int) -> Seq<WatchHit> {
    spans.map_values(
        |x: (usize, usize, usize)|
            WatchHit {
                group: x.0,
                position: Coordinates { line: l as usize, start: (s + x.1) as usize, end: (s + x.2) as usize },
            },
    )
}

/// What a pattern finds in the regions of `lines`, region after region:
/// `None` when it does not compile.
pub open spec fn hits_in(pattern: Seq<char>, lines: Seq<Seq<u8>>, regs: Seq<(int, int, int)>) -> Option<Seq<WatchHit>>
    decreases regs.len(),
{
    if regs.len() == 0 {
        Some(Seq::<WatchHit>::empty())
    } else {
        match hits_in(pattern, lines, regs.drop_last()) {
            None => None,
            Some(h) => {
                let (l, s, e) = regs.last();
                match captures_of(pattern, lines[l].subrange(s, e)) {
                    None => None,
                    Some(c) => Some(h + hits_from(all_spans(c), l, s)),
                }
            },
        }
    }
}

/// What a watch action finds in a request.
pub open spec fn watch_of(w: RuleWatchAction, r: RequestModel) -> Option<Seq<WatchHit>> {
    hits_in(w.pattern@, request_lines_of(r), regions_of(r, w.part_cache->0))
}

/// The regions a watch on `part` scans, given the lines of the request.
fn regions(r: &Request, lines: &Vec<Vec<u8>>, part: WatchPart) -> (regs: Vec<(usize, usize, usize)>)
    requires
        lines_view(lines@) == request_lines_of(r@),
    ensures
        regs@.map_values(|x: (usize, usize, usize)| (x.0 as int, x.1 as int, x.2 as int)) == regions_of(r@, part),
        forall|k: int| 0 <= k < regs@.len() ==> (#[trigger] regs@[k]).0 < lines@.len()
            && regs@[k].1 <= regs@[k].2 <= lines@[regs@[k].0 as int]@.len(),
{
    let ghost lv = lines_view(lines@);
    let m = bytes_of(&r.method).len();
    let p = bytes_of(&r.path).len();
    let h = r.headers.len();
    assert(lv.len() == 1 + h + split_lines(r@.body).len());
    assert(lv[0] == start_line_of(r@));
    assert(lines@[0]@ == lv[0]);
    assert(lv[0].len() == m + 1 + p + 1 + encode_utf8(r.version@).len());
    let l0 = lines[0].len();
    let n_lines = lines.len();
    assert(h + 1 <= n_lines);
    assert(l0 == m + 1 + p + 1 + encode_utf8(r.version@).len());
    let mut regs: Vec<(usize, usize, usize)> = Vec::new();
    let ghost f = |x: (usize, usize, usize)| (x.0 as int, x.1 as int, x.2 as int);
    match part {
        WatchPart::Method => {
            regs.push((0, 0, m));
        },
        WatchPart::Path => {
            regs.push((0, m + 1, m + 1 + p));
        },
        WatchPart::Version => {
            regs.push((0, m + p + 2, lines[0].len()));
        },
        WatchPart::Headers | WatchPart::Body => {
            let (from, to) = match part {
                WatchPart::Headers => (1, h + 1),
                _ => (h + 1, lines.len()),
            };
            let mut i: usize = from;
            while i < to
                invariant
                    lv == lines_view(lines@),
                    lv.len() == 1 + h + split_lines(r@.body).len(),
                    1 <= from <= i <= to <= lines@.len(),
                    regs@.len() == i - from,
                    forall|k: int| 0 <= k < regs@.len() ==> (#[trigger] regs@[k]).0 == from + k && regs@[k].1 == 0 && regs@[k].2 == lines@[from + k]@.len(),
                decreases to - i,
            {
                regs.push((i, 0, lines[i].len()));
                i = i + 1;
            }
        },
    }
    assert(regs@.map_values(f) =~= regions_of(r@, part));
    regs
}

/// Appends the hits that `spans` give in the region from `s` to `e` of line `l`.
pub fn push_hits(hits: &mut Vec<WatchHit>, spans: &Vec<(usize, usize, usize)>, l: usize, s: usize, e: usize)
    requires
        s <= e,
        forall|t: int| 0 <= t < spans@.len() ==> (#[trigger] spans@[t]).1 <= spans@[t].2 <= e - s,
    ensures
        final(hits)@ == old(hits)@ + hits_from(spans@, l as int, s as int),
{
    let ghost before = hits@;
    let mut j: usize = 0;
    while j < spans.len()
        invariant
            j <= spans@.len(),
            s <= e,
            forall|t: int| 0 <= t < spans@.len() ==> (#[trigger] spans@[t]).1 <= spans@[t].2 <= e - s,
            hits@ == before + hits_from(spans@.subrange(0, j as int), l as int, s as int),
        decreases spans@.len() - j,
    {
        let (g, a, b) = spans[j];
        assert(spans@[j as int] == (g, a, b));
        let hit = WatchHit { group: g, position: Coordinates { line: l, start: s + a, end: s + b } };
        hits.push(hit);
        assert(hits_from(spans@.subrange(0, j as int + 1), l as int, s as int)
            =~= hits_from(spans@.subrange(0, j as int), l as int, s as int).push(hit));
        assert(hits@ =~= before + hits_from(spans@.subrange(0, j as int + 1), l as int, s as int));
        j = j + 1;
    }
    assert(spans@.subrange(0, spans@.len() as int) =~= spans@);
}

impl RuleWatchAction {
    /// Scans the captured request with the pattern and records every group
    /// of every match, region after region. On an error nothing is recorded.
    #[verifier::rlimit(40)]
    pub fn exec(&self, ctx: &mut ActiveRuleContext) -> (r: Result<(), AuditError>)
        requires
            self.part_cache is Some,
        ensures
            match r {
                Ok(()) => match watch_of(*self, old(ctx).pair.request@) {
                    Some(h) => final(ctx).watch_results@.len() == old(ctx).watch_results@.len() + 1
                        && final(ctx).watch_results@.drop_last() == old(ctx).watch_results@
                        && final(ctx).watch_results@.last()@ == h,
                    None => false,
                },
                Err(_) => watch_of(*self, old(ctx).pair.request@) is None && final(ctx).watch_results == old(ctx).watch_results,
            },
            final(ctx).rule_id == old(ctx).rule_id,
            final(ctx).get_provenance == old(ctx).get_provenance,
            final(ctx).pair == old(ctx).pair,
            final(ctx).send_results == old(ctx).send_results,
            final(ctx).find_results == old(ctx).find_results,
            final(ctx).get_result == old(ctx).get_result,
            final(ctx).change_results == old(ctx).change_results,
            final(ctx).watch_succeeded_for_change == old(ctx).watch_succeeded_for_change,
    {
        let part = match self.part_cache {
            Some(p) => p,
            None => WatchPart::Body,
        };
        let req = ctx.initial_request();
        let lines = request_lines(req);
        let ghost lv = lines_view(lines@);
        let regs = regions(req, &lines, part);
        let ghost rv = regs@.map_values(|x: (usize, usize, usize)| (x.0 as int, x.1 as int, x.2 as int));
        assert(part == self.part_cache->0);
        assert(rv == regions_of(old(ctx).pair.request@, self.part_cache->0));
        assert(lv == request_lines_of(old(ctx).pair.request@));
        let mut hits: Vec<WatchHit> = Vec::new();
        let mut k: usize = 0;
        assert(rv.subrange(0, 0) =~= Seq::<(int, int, int)>::empty());
        while k < regs.len()
            invariant
                k <= regs@.len(),
                lv == lines_view(lines@),
                lv == request_lines_of(req@),
                rv == regs@.map_values(|x: (usize, usize, usize)| (x.0 as int, x.1 as int, x.2 as int)),
                forall|j: int| 0 <= j < regs@.len() ==> (#[trigger] regs@[j]).0 < lines@.len()
                    && regs@[j].1 <= regs@[j].2 <= lines@[regs@[j].0 as int]@.len(),
                hits_in(self.pattern@, lv, rv.subrange(0, k as int)) == Some(hits@),
                *ctx == *old(ctx),
                req == &old(ctx).pair.request,
                rv == regions_of(old(ctx).pair.request@, self.part_cache->0),
                lv == request_lines_of(old(ctx).pair.request@),
            decreases regs@.len() - k,
        {
            let (l, s, e) = regs[k];
            assert(regs@[k as int] == (l, s, e));
            assert(rv.subrange(0, k as int + 1).drop_last() =~= rv.subrange(0, k as int));
            assert(rv.subrange(0, k as int + 1).last() == (l as int, s as int, e as int));
            let region = copy_range(&lines[l], s, e);
            assert(lines@[l as int]@ == lv[l as int]);
            assert(region@ == lv[l as int].subrange(s as int, e as int));
            let caps = match regex_captures(self.pattern.as_str(), &region) {
                Some(v) => v,
                None => {
                    proof { lemma_hits_prefix_fails(self.pattern@, lv, rv, k as int + 1); }
                    return Err(AuditError::with_detail("watch pattern does not compile: ", self.pattern.as_str()));
                },
            };
            let spans = spans_of_captures(&caps, e - s);
            push_hits(&mut hits, &spans, l, s, e);
            assert(hits_in(self.pattern@, lv, rv.subrange(0, k as int + 1)) == Some(hits@));
            k = k + 1;
        }
        assert(rv.subrange(0, rv.len() as int) =~= rv);
        let ghost old_watch = ctx.watch_results@;
        ctx.add_watch_result(hits);
        assert(ctx.watch_results@.drop_last() =~= old_watch);
        Ok(())
    }
}

proof fn lemma_hits_prefix_fails(pattern: Seq<char>, lines: Seq<Seq<u8>>, regs: Seq<(int, int, int)>, k: int)
    requires
        0 <= k <= regs.len(),
        hits_in(pattern, lines, regs.subrange(0, k)) is None,
    ensures
        hits_in(pattern, lines, regs) is None,
    decreases regs.len() - k,
{
    if k < regs.len() {
        assert(regs.subrange(0, k + 1).drop_last() =~= regs.subrange(0, k));
        lemma_hits_prefix_fails(pattern, lines, regs, k + 1);
    } else {
        assert(regs.subrange(0, k) =~= regs);
    }
}

/// Whether a hit belongs to the group a change selects: any group where it
/// names none, else the group of that number.
pub open spec fn group_selected(g: Option<Seq<char>>, h: WatchHit) -> bool {
    match g {
        None => true,
        Some(n) => usize_of(n) == Some(h.group),
    }
}

/// The hits that a change selects, in order.
pub open spec fn selected_hits(hits: Seq<WatchHit>, g: Option<Seq<char>>) -> Seq<WatchHit>
    decreases hits.len(),
{
    if hits.len() == 0 {
        Seq::<WatchHit>::empty()
    } else if group_selected(g, hits.last()) {
        selected_hits(hits.drop_last(), g).push(hits.last())
    } else {
        selected_hits(hits.drop_last(), g)
    }
}

/// Whether a hit lies within the lines.
pub open spec fn hit_fits(lines: Seq<Seq<u8>>, h: WatchHit) -> bool {
    h.position.line < lines.len() && h.position.start <= h.position.end <= lines[h.position.line as int].len()
}

/// One mutated request: where, with which payload, and its lines.
pub struct ChangeModel {
    pub position: Coordinates,
    pub payload: Seq<char>,
    pub lines: Seq<Seq<u8>>,
}

/// The requests made from one hit, one per payload, in order.
pub open spec fn changes_for_hit(lines: Seq<Seq<u8>>, h: WatchHit, values: Seq<Seq<char>>, how: ChangeValuePlacement) -> Seq<ChangeModel> {
    values.map_values(
        |v: Seq<char>|
            ChangeModel {
                position: h.position,
                payload: v,
                lines: lines.update(
                    h.position.line as int,
                    placed(lines[h.position.line as int], h.position.start as int, h.position.end as int, encode_utf8(v), how),
                ),
            },
    )
}

/// The requests made from each hit in turn: `None` where a hit does not fit.
pub open spec fn changes_of(lines: Seq<Seq<u8>>, hits: Seq<WatchHit>, values: Seq<Seq<char>>, how: ChangeValuePlacement) -> Option<Seq<ChangeModel>>
    decreases hits.len(),
{
    if hits.len() == 0 {
        Some(Seq::<ChangeModel>::empty())
    } else {
        match changes_of(lines, hits.drop_last(), values, how) {
            None => None,
            Some(c) => if hit_fits(lines, hits.last()) {
                Some(c + changes_for_hit(lines, hits.last(), values, how))
            } else {
                None
            },
        }
    }
}

/// A request that a change action made.
#[derive(Clone, Debug, PartialEq, Eq)]
pub struct ChangedRequest {
    pub position: Coordinates,
    pub payload: String,
    pub lines: Vec<Vec<u8>>,
}

impl View for ChangedRequest {
    type V = ChangeModel;

    open spec fn view(&self) -> ChangeModel {
        ChangeModel { position: self.position, payload: self.payload@, lines: lines_view(self.lines@) }
    }
}

/// The models of the strings in `v`.
pub open spec fn strings_view(v: Seq<String>) -> Seq<Seq<char>> {
    v.map_values(|s: String| s@)
}

/// Copies lines, with line `l` replaced by `line`.
fn lines_with(lines: &Vec<Vec<u8>>, l: usize, line: &Vec<u8>) -> (r: Vec<Vec<u8>>)
    requires
        l < lines@.len(),
    ensures
        lines_view(r@) == lines_view(lines@).update(l as int, line@),
{
    let mut r: Vec<Vec<u8>> = Vec::new();
    let mut i: usize = 0;
    let ghost target = lines_view(lines@).update(l as int, line@);
    while i < lines.len()
        invariant
            i <= lines@.len(),
            l < lines@.len(),
            target == lines_view(lines@).update(l as int, line@),
            lines_view(r@) == target.subrange(0, i as int),
        decreases lines@.len() - i,
    {
        let src: &Vec<u8> = if i == l { line } else { &lines[i] };
        let copy = copy_range(src, 0, src.len());
        assert(src@.subrange(0, src@.len() as int) =~= src@);
        assert(copy@ == target[i as int]);
        let ghost before = r@;
        r.push(copy);
        assert(lines_view(r@) =~= lines_view(before).push(copy@));
        assert(target.subrange(0, i as int + 1) =~= target.subrange(0, i as int).push(target[i as int]));
        i = i + 1;
    }
    assert(target.subrange(0, lines@.len() as int) =~= target);
    r
}

impl RuleChangeAction {
    /// Whether hit `h` belongs to the group this action selects.
    fn selects(&self, h: &WatchHit) -> (r: bool)
        requires
            self.watch_id_cache is Some,
        ensures
            r == group_selected(
                match self.watch_id_cache->0.group_name {
                    Some(n) => Some(n@),
                    None => None,
                },
                *h,
            ),
    {
        match &self.watch_id_cache {
            Some(w) => match &w.group_name {
                None => true,
                Some(n) => match parse_usize(n.as_str()) {
                    Some(g) => g == h.group,
                    None => false,
                },
            },
            None => true,
        }
    }

    /// Makes one request per selected hit of its watch action and per payload,
    /// from the captured request, and records each selected hit as used.
    /// On an error nothing is recorded.
    #[verifier::rlimit(40)]
    pub fn exec(&self, ctx: &mut ActiveRuleContext) -> (r: Result<Vec<ChangedRequest>, AuditError>)
        requires
            self.watch_id_cache is Some,
            self.placement_cache is Some,
        ensures
            ({
                let w = self.watch_id_cache->0;
                let g = match w.group_name {
                    Some(n) => Some(n@),
                    None => None::<Seq<char>>,
                };
                match r {
                    Ok(v) => {
                        &&& w.id < old(ctx).watch_results@.len()
                        &&& changes_of(
                            request_lines_of(old(ctx).pair.request@),
                            selected_hits(old(ctx).watch_results@[w.id as int]@, g),
                            strings_view(self.values@),
                            self.placement_cache->0,
                        ) == Some(v@.map_values(|c: ChangedRequest| c@))
                        &&& final(ctx).change_results@ == old(ctx).change_results@ + selected_hits(
                            old(ctx).watch_results@[w.id as int]@,
                            g,
                        ).map_values(|h: WatchHit| h.position)
                    },
                    Err(_) => final(ctx).change_results == old(ctx).change_results && !(w.id < old(ctx).watch_results@.len()
                        && changes_of(
                            request_lines_of(old(ctx).pair.request@),
                            selected_hits(old(ctx).watch_results@[w.id as int]@, g),
                            strings_view(self.values@),
                            self.placement_cache->0,
                        ) is Some),
                }
            }),
            final(ctx).rule_id == old(ctx).rule_id,
            final(ctx).get_provenance == old(ctx).get_provenance,
            final(ctx).pair == old(ctx).pair,
            final(ctx).send_results == old(ctx).send_results,
            final(ctx).find_results == old(ctx).find_results,
            final(ctx).get_result == old(ctx).get_result,
            final(ctx).watch_results == old(ctx).watch_results,
            final(ctx).watch_succeeded_for_change == (old(ctx).watch_succeeded_for_change
                || final(ctx).change_results@.len() > old(ctx).change_results@.len()),
    {
        let (wid, how) = match (&self.watch_id_cache, self.placement_cache) {
            (Some(w), Some(p)) => (w.id, p),
            _ => (0, ChangeValuePlacement::Replace),
        };
        if wid >= ctx.watch_results.len() {
            return Err(AuditError::with_detail("change refers to a watch that has not run", ""));
        }
        let ghost g = match self.watch_id_cache->0.group_name {
            Some(n) => Some(n@),
            None => None::<Seq<char>>,
        };
        let lines = request_lines(ctx.initial_request());
        let ghost lv = lines_view(lines@);
        let ghost vals = strings_view(self.values@);
        let hits = &ctx.watch_results[wid];
        let ghost hv = hits@;
        let mut out: Vec<ChangedRequest> = Vec::new();
        let mut used: Vec<Coordinates> = Vec::new();
        let mut i: usize = 0;
        assert(hv.subrange(0, 0) =~= Seq::<WatchHit>::empty());
        while i < hits.len()
            invariant
                i <= hv.len(),
                hv == hits@,
                lv == lines_view(lines@),
                vals == strings_view(self.values@),
                changes_of(lv, selected_hits(hv.subrange(0, i as int), g), vals, how) == Some(out@.map_values(|c: ChangedRequest| c@)),
                used@ == selected_hits(hv.subrange(0, i as int), g).map_values(|h: WatchHit| h.position),
                g == match self.watch_id_cache->0.group_name {
                    Some(n) => Some(n@),
                    None => None::<Seq<char>>,
                },
                self.watch_id_cache is Some,
                *ctx == *old(ctx),
                wid == self.watch_id_cache->0.id,
                wid < old(ctx).watch_results@.len(),
                hv == old(ctx).watch_results@[wid as int]@,
                lv == request_lines_of(old(ctx).pair.request@),
                how == self.placement_cache->0,
            decreases hv.len() - i,
        {
            let h = hits[i];
            let ghost p = hv.subrange(0, i as int);
            let ghost pn = hv.subrange(0, i as int + 1);
            assert(pn.drop_last() =~= p);
            assert(pn.last() == h);
            if self.selects(&h) {
                assert(selected_hits(pn, g) == selected_hits(p, g).push(h));
                assert(selected_hits(pn, g).drop_last() =~= selected_hits(p, g));
                let l = h.position.line;
                if l >= lines.len() || h.position.start > h.position.end || h.position.end > lines[l].len() {
                    proof { lemma_changes_prefix_fails(lv, hv, g, vals, how, i as int + 1); }
                    return Err(AuditError::with_detail("watch hit lies outside the request", ""));
                }
                assert(lines@[l as int]@ == lv[l as int]);
                let ghost before = out@.map_values(|c: ChangedRequest| c@);
                let mut j: usize = 0;
                while j < self.values.len()
                    invariant
                        j <= self.values@.len(),
                        vals == strings_view(self.values@),
                        lv == lines_view(lines@),
                        l < lines@.len(),
                        h.position.line == l,
                        h.position.start <= h.position.end <= lv[l as int].len(),
                        out@.map_values(|c: ChangedRequest| c@) == before + changes_for_hit(lv, h, vals.subrange(0, j as int), how),
                    decreases self.values@.len() - j,
                {
                    let payload = bytes_of(&self.values[j]);
                    let line = apply_placement(&lines[l], h.position.start, h.position.end, &payload, how);
                    let changed = lines_with(&lines, l, &line);
                    let c = ChangedRequest { position: h.position, payload: self.values[j].clone(), lines: changed };
                    let ghost mid = out@;
                    out.push(c);
                    assert(vals[j as int] == self.values@[j as int]@);
                    assert(c@ == changes_for_hit(lv, h, seq![vals[j as int]], how)[0]);
                    assert(vals.subrange(0, j as int + 1) =~= vals.subrange(0, j as int).push(vals[j as int]));
                    assert(changes_for_hit(lv, h, vals.subrange(0, j as int + 1), how) =~= changes_for_hit(lv, h, vals.subrange(0, j as int), how).push(c@));
                    assert(out@.map_values(|c: ChangedRequest| c@) =~= mid.map_values(|c: ChangedRequest| c@).push(c@));
                    j = j + 1;
                }
                assert(vals.subrange(0, vals.len() as int) =~= vals);
                let ghost ub = used@;
                used.push(h.position);
                assert(used@ =~= ub.push(h.position));
                assert(selected_hits(pn, g).map_values(|h: WatchHit| h.position) =~= selected_hits(p, g).map_values(|h: WatchHit| h.position).push(h.position));
            } else {
                assert(selected_hits(pn, g) == selected_hits(p, g));
            }
            i = i + 1;
        }
        assert(hv.subrange(0, hv.len() as int) =~= hv);
        let mut k: usize = 0;
        let ghost start = ctx.change_results@;
        while k < used.len()
            invariant
                k <= used@.len(),
                ctx.change_results@ == start + used@.subrange(0, k as int),
                ctx.rule_id == old(ctx).rule_id,
                ctx.get_provenance == old(ctx).get_provenance,
                ctx.pair == old(ctx).pair,
                ctx.send_results == old(ctx).send_results,
                ctx.find_results == old(ctx).find_results,
                ctx.get_result == old(ctx).get_result,
                ctx.watch_results == old(ctx).watch_results,
                start == old(ctx).change_results@,
                ctx.watch_succeeded_for_change == (old(ctx).watch_succeeded_for_change || k > 0),
            decreases used@.len() - k,
        {
            ctx.add_change_result(used[k]);
            assert(used@.subrange(0, k as int + 1) =~= used@.subrange(0, k as int).push(used@[k as int]));
            k = k + 1;
        }
        assert(used@.subrange(0, used@.len() as int) =~= used@);
        Ok(out)
    }
}

proof fn lemma_changes_prefix_fails(
    lines: Seq<Seq<u8>>,
    hits: Seq<WatchHit>,
    g: Option<Seq<char>>,
    values: Seq<Seq<char>>,
    how: ChangeValuePlacement,
    k: int,
)
    requires
        0 <= k <= hits.len(),
        changes_of(lines, selected_hits(hits.subrange(0, k), g), values, how) is None,
    ensures
        changes_of(lines, selected_hits(hits, g), values, how) is None,
    decreases hits.len() - k,
{
    if k < hits.len() {
        let p = hits.subrange(0, k);
        let pn = hits.subrange(0, k + 1);
        assert(pn.drop_last() =~= p);
        assert(pn.last() == hits[k]);
        if group_selected(g, hits[k]) {
            assert(selected_hits(pn, g) == selected_hits(p, g).push(hits[k]));
            assert(selected_hits(pn, g).drop_last() =~= selected_hits(p, g));
        } else {
            assert(selected_hits(pn, g) == selected_hits(p, g));
        }
        lemma_changes_prefix_fails(lines, hits, g, values, how, k + 1);
    } else {
        assert(hits.subrange(0, k) =~= hits);
    }
}

} // verus!
