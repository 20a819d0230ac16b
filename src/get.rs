//! The get action: once a find action has succeeded, extract evidence from
//! the results of a send action.

use vstd::prelude::*;
use vstd::utf8::encode_utf8;
use crate::context::{ActiveRuleContext, gets_view};
use crate::error::AuditError;
use crate::http::{SingleSendActionResult, SingleSendModel, concat_all, sends_view, entries_view, Response, ResponseModel};
use crate::operation::{regex_is_match, regex_match_of};
use crate::reference::{ids_view, resolve_id, resolve_index};
use crate::text::{lossy_of, lossy_utf8, split_chars, split_on, views_of};
use crate::value::PairPart;

verus! {

/// What `regex::Regex::new(pattern)` and then `find(text)` give: `None` when
/// the pattern does not compile, else the text of the leftmost match, if any.
pub uninterp spec fn regex_find_of(pattern: Seq<char>, text: Seq<char>) -> Option<Option<Seq<char>>>;

/// Relies on `regex::Regex::new` and `regex::Regex::find`: whether the
/// pattern compiles, and the leftmost match, depend on the two strings alone.
#[verifier::external_body]
fn regex_find(pattern: &str, text: &str) -> (r: Option<Option<String>>)
    ensures
        match r {
            None => regex_find_of(pattern@, text@) is None,
            Some(None) => regex_find_of(pattern@, text@) == Some(None::<Seq<char>>),
            Some(Some(s)) => regex_find_of(pattern@, text@) == Some(Some(s@)),
        },
{
    match regex::Regex::new(pattern) {
        Ok(re) => Some(re.find(text).map(|m| m.as_str().to_string())),
        Err(_) => None,
    }
}

/// What `regex::Regex::new(pattern)`, `captures(text)` and `name(group)`
/// give: `None` when the pattern does not compile, else the text of the named
/// group in the leftmost match, if both exist.
pub uninterp spec fn regex_group_of(pattern: Seq<char>, text: Seq<char>, group: Seq<char>) -> Option<Option<Seq<char>>>;

/// Relies on `regex::Regex::new`, `regex::Regex::captures` and
/// `regex::Captures::name`: the result depends on the three strings alone.
#[verifier::external_body]
fn regex_group(pattern: &str, text: &str, group: &str) -> (r: Option<Option<String>>)
    ensures
        match r {
            None => regex_group_of(pattern@, text@, group@) is None,
            Some(None) => regex_group_of(pattern@, text@, group@) == Some(None::<Seq<char>>),
            Some(Some(s)) => regex_group_of(pattern@, text@, group@) == Some(Some(s@)),
        },
{
    match regex::Regex::new(pattern) {
        Ok(re) => Some(re.captures(text).and_then(|c| c.name(group)).map(|m| m.as_str().to_string())),
        Err(_) => None,
    }
}

/// What a get action extracts from a matching text.
#[derive(Clone, Debug, PartialEq, Eq)]
pub enum ExtractionMode {
    /// The first line on which the pattern matches.
    Line,
    /// The leftmost match of the pattern.
    Match,
    /// A named group of the leftmost match.
    Group(String),
}

/// Which side of the send results a get action reads, and how.
#[derive(Clone, Debug, PartialEq, Eq)]
pub enum ExtractionModeByPart {
    Request(ExtractionMode),
    Response(ExtractionMode),
}

impl ExtractionModeByPart {
    /// A copy of this extraction.
    pub fn copy(&self) -> (r: ExtractionModeByPart)
        ensures
            r == *self,
    {
        let m = |x: &ExtractionMode| -> (y: ExtractionMode)
            ensures
                y == *x,
            {
                match x {
                    ExtractionMode::Line => ExtractionMode::Line,
                    ExtractionMode::Match => ExtractionMode::Match,
                    ExtractionMode::Group(g) => ExtractionMode::Group(g.clone()),
                }
            };
        match self {
            ExtractionModeByPart::Request(x) => ExtractionModeByPart::Request(m(x)),
            ExtractionModeByPart::Response(x) => ExtractionModeByPart::Response(m(x)),
        }
    }
}

/// Where a get result came from: the find it waited on, the send result it
/// read, and how it extracted.
#[derive(Clone, Debug, PartialEq, Eq)]
pub struct GetProvenance {
    pub find_id: usize,
    pub send_id: usize,
    pub extract: ExtractionModeByPart,
}

/// The provenance of the results of a get action: its cached find and send
/// indices (0 where not checked yet) and its extraction.
pub open spec fn provenance_of(g: RuleGetAction) -> GetProvenance {
    GetProvenance {
        find_id: match g.if_succeed_cache {
            Some(f) => f,
            None => 0,
        },
        send_id: match g.from_cache {
            Some(s) => s,
            None => 0,
        },
        extract: g.extract,
    }
}

/// Model of an [`ExtractionMode`].
pub enum ExtractionModel {
    Line,
    Match,
    Group(Seq<char>),
}

impl View for ExtractionMode {
    type V = ExtractionModel;

    open spec fn view(&self) -> ExtractionModel {
        match self {
            ExtractionMode::Line => ExtractionModel::Line,
            ExtractionMode::Match => ExtractionModel::Match,
            ExtractionMode::Group(g) => ExtractionModel::Group(g@),
        }
    }
}

/// The first of `lines` on which `pattern` matches: `None` when the pattern
/// does not compile.
pub open spec fn first_matching_line(pattern: Seq<char>, lines: Seq<Seq<char>>) -> Option<Option<Seq<char>>>
    decreases lines.len(),
{
    if lines.len() == 0 {
        Some(None)
    } else {
        match regex_match_of(pattern, lines[0]) {
            None => None,
            Some(true) => Some(Some(lines[0])),
            Some(false) => first_matching_line(pattern, lines.subrange(1, lines.len() as int)),
        }
    }
}

/// What a mode extracts from one text: `None` when the pattern does not compile.
pub open spec fn extract_of(mode: ExtractionModel, pattern: Seq<char>, text: Seq<char>) -> Option<Option<Seq<char>>> {
    match mode {
        ExtractionModel::Line => first_matching_line(pattern, split_on(text, '\n')),
        ExtractionModel::Match => regex_find_of(pattern, text),
        ExtractionModel::Group(g) => regex_group_of(pattern, text, g),
    }
}

/// What a mode extracts from the first of `texts` that yields anything.
pub open spec fn extract_first(mode: ExtractionModel, pattern: Seq<char>, texts: Seq<Seq<char>>) -> Option<Option<Seq<char>>>
    decreases texts.len(),
{
    if texts.len() == 0 {
        Some(None)
    } else {
        match extract_of(mode, pattern, texts[0]) {
            None => None,
            Some(Some(s)) => Some(Some(s)),
            Some(None) => extract_first(mode, pattern, texts.subrange(1, texts.len() as int)),
        }
    }
}

/// The texts a get action searches in the entries of one send action: the
/// bodies of the requests sent, or of every response received, in order.
pub open spec fn texts_of(e: Seq<SingleSendModel>, side: PairPart) -> Seq<Seq<char>> {
    match side {
        PairPart::Request => e.map_values(|x: SingleSendModel| lossy_of(x.request_sent.body)),
        PairPart::Response => concat_all(
            e.map_values(|x: SingleSendModel| x.responses_received.map_values(|y: ResponseModel| lossy_of(y.body))),
        ),
    }
}

/// A get action: the send result it reads, the find action that gates it,
/// what it extracts, and the pattern.
#[derive(Clone, Debug, PartialEq, Eq)]
pub struct RuleGetAction {
    pub from: String,
    pub from_cache: Option<usize>,
    pub if_succeed: String,
    pub if_succeed_cache: Option<usize>,
    pub extract: ExtractionModeByPart,
    pub pattern: String,
}

/// The side that an extraction reads.
pub open spec fn side_of_extract(e: ExtractionModeByPart) -> PairPart {
    match e {
        ExtractionModeByPart::Request(_) => PairPart::Request,
        ExtractionModeByPart::Response(_) => PairPart::Response,
    }
}

/// The mode of an extraction.
pub open spec fn mode_of_extract(e: ExtractionModeByPart) -> ExtractionModel {
    match e {
        ExtractionModeByPart::Request(m) => m@,
        ExtractionModeByPart::Response(m) => m@,
    }
}

/// The send index and the find index that a get action resolves to: the
/// send among the `results_count` send results (the captured pair at index
/// 0 included), the find among the `finds_count` find actions before it.
pub open spec fn get_checked(
    g: RuleGetAction,
    send_ids: Option<Seq<(String, usize)>>,
    results_count: usize,
    find_ids: Option<Seq<(String, usize)>>,
    finds_count: usize,
) -> Option<(usize, usize)> {
    match resolve_id(g.from@, send_ids) {
        None => None,
        Some(s) => match resolve_id(g.if_succeed@, find_ids) {
            None => None,
            Some(f) => if s < results_count && f < finds_count {
                Some((s, f))
            } else {
                None
            },
        },
    }
}

/// What a checked get action records, given the find verdicts and the send
/// results: nothing extracted where its find did not succeed; `None` where
/// it cannot run (its send result is absent, or its pattern does not compile).
pub open spec fn get_outcome(g: RuleGetAction, finds: Seq<bool>, sends: Seq<Seq<SingleSendModel>>) -> Option<Option<Seq<u8>>> {
    let f = g.if_succeed_cache->0;
    let s = g.from_cache->0;
    if !(f < finds.len() && finds[f as int]) {
        Some(None)
    } else if s >= sends.len() {
        None
    } else {
        match extract_first(mode_of_extract(g.extract), g.pattern@, texts_of(sends[s as int], side_of_extract(g.extract))) {
            None => None,
            Some(None) => Some(None),
            Some(Some(t)) => Some(Some(encode_utf8(t))),
        }
    }
}

/// Extracts with `mode` from one text.
pub fn extract_one(mode: &ExtractionMode, pattern: &str, text: &str) -> (r: Option<Option<String>>)
    ensures
        match r {
            None => extract_of(mode@, pattern@, text@) is None,
            Some(None) => extract_of(mode@, pattern@, text@) == Some(None::<Seq<char>>),
            Some(Some(s)) => extract_of(mode@, pattern@, text@) == Some(Some(s@)),
        },
{
    match mode {
        ExtractionMode::Match => regex_find(pattern, text),
        ExtractionMode::Group(g) => regex_group(pattern, text, g.as_str()),
        ExtractionMode::Line => {
            let lines = split_chars(text, '\n');
            let ghost lv = views_of(lines@);
            assert(lv.subrange(0, lv.len() as int) =~= lv);
            let mut i: usize = 0;
            while i < lines.len()
                invariant
                    i <= lines@.len(),
                    lv == views_of(lines@),
                    lv == split_on(text@, '\n'),
                    mode@ == ExtractionModel::Line,
                    first_matching_line(pattern@, lv) == first_matching_line(pattern@, lv.subrange(i as int, lv.len() as int)),
                decreases lines@.len() - i,
            {
                let ghost rest = lv.subrange(i as int, lv.len() as int);
                assert(rest[0] == lines@[i as int]@);
                match regex_is_match(pattern, lines[i].as_str()) {
                    None => {
                        return None;
                    },
                    Some(true) => {
                        return Some(Some(lines[i].clone()));
                    },
                    Some(false) => {},
                }
                assert(rest.subrange(1, rest.len() as int) =~= lv.subrange(i as int + 1, lv.len() as int));
                i = i + 1;
            }
            Some(None)
        },
    }
}

proof fn lemma_concat_push_seq(s: Seq<Seq<Seq<char>>>, x: Seq<Seq<char>>)
    ensures
        concat_all(s.push(x)) == concat_all(s) + x,
{
    assert(s.push(x).drop_last() =~= s);
}

/// The texts a get action searches in the entries of one send action.
fn collect_texts(e: &Vec<SingleSendActionResult>, side: PairPart) -> (r: Vec<String>)
    ensures
        views_of(r@) == texts_of(entries_view(e@), side),
{
    let ghost ev = entries_view(e@);
    let mut out: Vec<String> = Vec::new();
    let mut i: usize = 0;
    match side {
        PairPart::Request => {
            while i < e.len()
                invariant
                    i <= e@.len(),
                    ev == entries_view(e@),
                    views_of(out@) == ev.subrange(0, i as int).map_values(|x: SingleSendModel| lossy_of(x.request_sent.body)),
                decreases e@.len() - i,
            {
                let ghost before = out@;
                out.push(lossy_utf8(&e[i].request_sent.body));
                assert(ev[i as int] == e@[i as int]@);
                assert(views_of(out@) =~= views_of(before).push(lossy_of(e@[i as int].request_sent.body@)));
                assert(ev.subrange(0, i as int + 1).map_values(|x: SingleSendModel| lossy_of(x.request_sent.body))
                    =~= ev.subrange(0, i as int).map_values(|x: SingleSendModel| lossy_of(x.request_sent.body)).push(lossy_of(ev[i as int].request_sent.body)));
                i = i + 1;
            }
            assert(ev.subrange(0, ev.len() as int) =~= ev);
        },
        PairPart::Response => {
            while i < e.len()
                invariant
                    i <= e@.len(),
                    ev == entries_view(e@),
                    views_of(out@) == concat_all(ev.subrange(0, i as int).map_values(
                        |x: SingleSendModel| x.responses_received.map_values(|y: ResponseModel| lossy_of(y.body)),
                    )),
                decreases e@.len() - i,
            {
                let ghost before = views_of(out@);
                let resp = &e[i].responses_received;
                let ghost rv = resp@.map_values(|r: Response| r@);
                assert(ev[i as int] == e@[i as int]@);
                assert(ev[i as int].responses_received == rv);
                let mut j: usize = 0;
                while j < resp.len()
                    invariant
                        j <= resp@.len(),
                        rv == resp@.map_values(|r: Response| r@),
                        views_of(out@) == before + rv.subrange(0, j as int).map_values(|y: ResponseModel| lossy_of(y.body)),
                    decreases resp@.len() - j,
                {
                    let ghost mid = out@;
                    out.push(lossy_utf8(&resp[j].body));
                    assert(rv[j as int] == resp@[j as int]@);
                    assert(views_of(out@) =~= views_of(mid).push(lossy_of(rv[j as int].body)));
                    assert(rv.subrange(0, j as int + 1).map_values(|y: ResponseModel| lossy_of(y.body))
                        =~= rv.subrange(0, j as int).map_values(|y: ResponseModel| lossy_of(y.body)).push(lossy_of(rv[j as int].body)));
                    assert(views_of(out@) =~= before + rv.subrange(0, j as int + 1).map_values(|y: ResponseModel| lossy_of(y.body)));
                    j = j + 1;
                }
                assert(rv.subrange(0, rv.len() as int) =~= rv);
                let ghost f = |x: SingleSendModel| x.responses_received.map_values(|y: ResponseModel| lossy_of(y.body));
                assert(ev.subrange(0, i as int + 1).map_values(f) =~= ev.subrange(0, i as int).map_values(f).push(f(ev[i as int])));
                proof { lemma_concat_push_seq(ev.subrange(0, i as int).map_values(f), f(ev[i as int])); }
                i = i + 1;
            }
            assert(ev.subrange(0, ev.len() as int) =~= ev);
        },
    }
    out
}

impl RuleGetAction {
    /// A get action that has not been checked yet.
    pub fn new(from: &str, if_succeed: &str, extract: ExtractionModeByPart, pattern: &str) -> (r: RuleGetAction)
        ensures
            r.from@ == from@,
            r.if_succeed@ == if_succeed@,
            r.extract == extract,
            r.pattern@ == pattern@,
            r.from_cache is None,
            r.if_succeed_cache is None,
    {
        RuleGetAction {
            from: from.to_owned(),
            from_cache: None,
            if_succeed: if_succeed.to_owned(),
            if_succeed_cache: None,
            extract,
            pattern: pattern.to_owned(),
        }
    }

    /// Where the results of this checked action come from.
    pub fn provenance(&self) -> (r: GetProvenance)
        ensures
            r == provenance_of(*self),
    {
        GetProvenance {
            find_id: match self.if_succeed_cache {
                Some(f) => f,
                None => 0,
            },
            send_id: match self.from_cache {
                Some(s) => s,
                None => 0,
            },
            extract: self.extract.copy(),
        }
    }

    /// Resolves the send and the find this action refers to and caches them.
    /// On an error nothing changes.
    pub fn check_up(
        &mut self,
        send_ids: Option<&Vec<(String, usize)>>,
        results_count: usize,
        find_ids: Option<&Vec<(String, usize)>>,
        finds_count: usize,
    ) -> (r: Result<(), AuditError>)
        ensures
            match r {
                Ok(()) => match get_checked(*old(self), ids_view(send_ids), results_count, ids_view(find_ids), finds_count) {
                    Some((s, f)) => *final(self) == (RuleGetAction {
                        from_cache: Some(s),
                        if_succeed_cache: Some(f),
                        ..*old(self)
                    }),
                    None => false,
                },
                Err(_) => get_checked(*old(self), ids_view(send_ids), results_count, ids_view(find_ids), finds_count) is None
                    && *final(self) == *old(self),
            },
    {
        let s = match resolve_index(self.from.as_str(), send_ids) {
            Some(s) => s,
            None => {
                return Err(AuditError::with_detail("could not resolve send id of get action: ", self.from.as_str()));
            },
        };
        let f = match resolve_index(self.if_succeed.as_str(), find_ids) {
            Some(f) => f,
            None => {
                return Err(AuditError::with_detail("could not resolve find id of get action: ", self.if_succeed.as_str()));
            },
        };
        if s >= results_count {
            return Err(AuditError::with_detail("get action reads a send declared after it: ", self.from.as_str()));
        }
        if f >= finds_count {
            return Err(AuditError::with_detail("get action waits for a find declared after it: ", self.if_succeed.as_str()));
        }
        self.from_cache = Some(s);
        self.if_succeed_cache = Some(f);
        Ok(())
    }

    /// Records what this action extracts: nothing where its find did not
    /// succeed, else the bytes of the first extraction from its send result.
    /// On an error nothing is recorded.
    pub fn exec(&self, ctx: &mut ActiveRuleContext) -> (r: Result<(), AuditError>)
        requires
            self.from_cache is Some,
            self.if_succeed_cache is Some,
        ensures
            match r {
                Ok(()) => match get_outcome(*self, old(ctx).find_results@, sends_view(old(ctx).send_results@)) {
                    Some(o) => gets_view(final(ctx).get_result@) == gets_view(old(ctx).get_result@).push(o),
                    None => false,
                },
                Err(_) => get_outcome(*self, old(ctx).find_results@, sends_view(old(ctx).send_results@)) is None
                    && final(ctx).get_result == old(ctx).get_result,
            },
            final(ctx).rule_id == old(ctx).rule_id,
            final(ctx).get_provenance == old(ctx).get_provenance,
            final(ctx).pair == old(ctx).pair,
            final(ctx).send_results == old(ctx).send_results,
            final(ctx).find_results == old(ctx).find_results,
            final(ctx).watch_results == old(ctx).watch_results,
            final(ctx).change_results == old(ctx).change_results,
            final(ctx).watch_succeeded_for_change == old(ctx).watch_succeeded_for_change,
    {
        let f = match self.if_succeed_cache {
            Some(f) => f,
            None => 0,
        };
        let s = match self.from_cache {
            Some(s) => s,
            None => 0,
        };
        if !ctx.find_action_succeeded(f) {
            ctx.add_empty_result();
            return Ok(());
        }
        let entries = match ctx.get_pair_by_id(s) {
            Ok(e) => e,
            Err(e) => {
                return Err(e);
            },
        };
        assert(sends_view(ctx.send_results@)[s as int] == entries_view(entries@));
        let (side, mode) = match &self.extract {
            ExtractionModeByPart::Request(m) => (PairPart::Request, m),
            ExtractionModeByPart::Response(m) => (PairPart::Response, m),
        };
        let texts = collect_texts(entries, side);
        assert(side == side_of_extract(self.extract));
        let ghost tv = views_of(texts@);
        assert(tv.subrange(0, tv.len() as int) =~= tv);
        let mut i: usize = 0;
        while i < texts.len()
            invariant
                i <= texts@.len(),
                tv == views_of(texts@),
                mode@ == mode_of_extract(self.extract),
                *ctx == *old(ctx),
                self.if_succeed_cache == Some(f),
                self.from_cache == Some(s),
                f < ctx.find_results@.len() && ctx.find_results@[f as int],
                s < ctx.send_results@.len(),
                tv == texts_of(sends_view(ctx.send_results@)[s as int], side_of_extract(self.extract)),
                extract_first(mode@, self.pattern@, tv) == extract_first(mode@, self.pattern@, tv.subrange(i as int, tv.len() as int)),
            decreases texts@.len() - i,
        {
            let ghost rest = tv.subrange(i as int, tv.len() as int);
            assert(rest[0] == texts@[i as int]@);
            match extract_one(mode, self.pattern.as_str(), texts[i].as_str()) {
                None => {
                    return Err(AuditError::with_detail("get action pattern does not compile: ", self.pattern.as_str()));
                },
                Some(Some(found)) => {
                    let bytes = found.as_str().as_bytes_vec();
                    ctx.add_get_result(bytes);
                    return Ok(());
                },
                Some(None) => {},
            }
            assert(rest.subrange(1, rest.len() as int) =~= tv.subrange(i as int + 1, tv.len() as int));
            i = i + 1;
        }
        ctx.add_empty_result();
        Ok(())
    }
}

} // verus!
