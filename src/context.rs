//! The execution context of one rule on one captured pair: it accumulates
//! what each action produces, in declaration order.

use vstd::prelude::*;
use crate::error::AuditError;
use crate::message::WatchHit;
use crate::get::{GetProvenance, RuleGetAction, provenance_of};
use crate::rule::{Rule, gets_of};
use crate::http::{Coordinates, Request, RequestResponsePair, Response, SingleSendActionResult, SingleSendModel, entries_view, sends_view};

verus! {

/// The key under which the captured pair stands as send result 0.
pub const INITIAL_PAIR_KEY: &'static str = "__VERY_INITIAL_PAIR__";

/// The models of the get results.
pub open spec fn gets_view(v: Seq<Option<Vec<u8>>>) -> Seq<Option<Seq<u8>>> {
    v.map_values(|g: Option<Vec<u8>>| match g {
        Some(b) => Some(b@),
        None => None,
    })
}

/// The send result that stands for the captured pair.
pub open spec fn initial_entry(p: RequestResponsePair) -> SingleSendModel {
    SingleSendModel {
        key: INITIAL_PAIR_KEY@,
        request_sent: p.request@,
        positions_changed: Coordinates { line: 0, start: 0, end: 0 },
        responses_received: seq![p.response@],
    }
}

/// What one execution of a rule on one pair gives.
#[derive(Clone, Debug, PartialEq, Eq)]
pub struct RuleResult {
    pub rule_id: String,
    pub pair_index: usize,
    pub found_anything: bool,
    pub find_results: Vec<bool>,
    pub get_provenance: Vec<GetProvenance>,
    pub get_results: Vec<Option<Vec<u8>>>,
}

/// The state of one execution of a rule on one captured pair.
pub struct ActiveRuleContext<'a> {
    pub rule_id: String,
    pub pair: &'a RequestResponsePair,
    pub watch_results: Vec<Vec<WatchHit>>,
    pub watch_succeeded_for_change: bool,
    pub change_results: Vec<Coordinates>,
    pub send_results: Vec<Vec<SingleSendActionResult>>,
    pub find_results: Vec<bool>,
    pub get_result: Vec<Option<Vec<u8>>>,
    pub get_provenance: Vec<GetProvenance>,
}

impl<'a> ActiveRuleContext<'a> {
    /// Whether send result 0 is the captured pair, as `init` made it, and
    /// whether the change flag tells if any watch hit was routed to a change.
    pub open spec fn wf(&self) -> bool {
        &&& self.send_results@.len() >= 1
        &&& sends_view(self.send_results@)[0] == seq![initial_entry(*self.pair)]
        &&& self.watch_succeeded_for_change == (self.change_results@.len() > 0)
    }

    /// The context of a rule named `rule_id` on `pair`, with the pair as send
    /// result 0 and nothing else recorded.
    pub fn init(rule: &Rule, pair: &'a RequestResponsePair) -> (r: ActiveRuleContext<'a>)
        ensures
            r.wf(),
            r.rule_id@ == rule.id@,
            r.get_provenance@ == gets_of(rule.actions@).map_values(|g: RuleGetAction| provenance_of(g)),
            r.pair == pair,
            r.watch_results@.len() == 0,
            !r.watch_succeeded_for_change,
            r.change_results@.len() == 0,
            r.send_results@.len() == 1,
            r.find_results@.len() == 0,
            r.get_result@.len() == 0,
    {
        let initial = SingleSendActionResult {
            key: INITIAL_PAIR_KEY.to_owned(),
            request_sent: pair.request.copy(),
            positions_changed: Coordinates { line: 0, start: 0, end: 0 },
            responses_received: vec![pair.response.copy()],
        };
        assert(initial.responses_received@.map_values(|x: Response| x@) =~= seq![pair.response@]);
        assert(initial@ == initial_entry(*pair));
        let entries = vec![initial];
        assert(entries_view(entries@) =~= seq![initial_entry(*pair)]);
        let sends = vec![entries];
        let r = ActiveRuleContext {
            rule_id: rule.id.clone(),
            pair,
            watch_results: Vec::new(),
            watch_succeeded_for_change: false,
            change_results: Vec::new(),
            send_results: sends,
            find_results: Vec::new(),
            get_result: Vec::new(),
            get_provenance: rule.get_provenance(),
        };
        assert(sends_view(r.send_results@)[0] =~= seq![initial_entry(*pair)]);
        r
    }

    /// The captured pair.
    pub fn initial_pair(&self) -> (r: &'a RequestResponsePair)
        ensures
            r == self.pair,
    {
        self.pair
    }

    /// The captured request.
    pub fn initial_request(&self) -> (r: &'a Request)
        ensures
            r == &self.pair.request,
    {
        &self.pair.request
    }

    /// The captured response.
    pub fn initial_response(&self) -> (r: &'a Response)
        ensures
            r == &self.pair.response,
    {
        &self.pair.response
    }

    /// The index of the captured pair.
    pub fn pair_id(&self) -> (r: usize)
        ensures
            r == self.pair.index,
    {
        self.pair.index
    }

    /// The id of the rule.
    pub fn rule_id(&self) -> (r: &str)
        ensures
            r@ == self.rule_id@,
    {
        self.rule_id.as_str()
    }

    /// Records what a watch action found.
    pub fn add_watch_result(&mut self, res: Vec<WatchHit>)
        ensures
            final(self).watch_results@ == old(self).watch_results@.push(res),
            final(self).watch_succeeded_for_change == old(self).watch_succeeded_for_change,
            final(self).rule_id == old(self).rule_id,
            final(self).get_provenance == old(self).get_provenance,
            final(self).pair == old(self).pair,
            final(self).change_results == old(self).change_results,
            final(self).send_results == old(self).send_results,
            final(self).find_results == old(self).find_results,
            final(self).get_result == old(self).get_result,
    {
        self.watch_results.push(res);
    }

    /// What the watch actions found.
    pub fn watch_results(&self) -> (r: &Vec<Vec<WatchHit>>)
        ensures
            r == &self.watch_results,
    {
        &self.watch_results
    }

    /// Records a watch hit that a change action used.
    pub fn add_change_result(&mut self, res: Coordinates)
        ensures
            final(self).change_results@ == old(self).change_results@.push(res),
            final(self).watch_succeeded_for_change,
            final(self).rule_id == old(self).rule_id,
            final(self).get_provenance == old(self).get_provenance,
            final(self).watch_results == old(self).watch_results,
            final(self).pair == old(self).pair,
            final(self).send_results == old(self).send_results,
            final(self).find_results == old(self).find_results,
            final(self).get_result == old(self).get_result,
    {
        self.watch_succeeded_for_change = true;
        self.change_results.push(res);
    }

    /// The watch hits that change actions used.
    pub fn change_results(&self) -> (r: &Vec<Coordinates>)
        ensures
            r == &self.change_results,
    {
        &self.change_results
    }

    /// Whether any watch hit was routed to a change.
    pub fn found_anything_to_change(&self) -> (r: bool)
        ensures
            r == self.watch_succeeded_for_change,
            self.wf() ==> r == (self.change_results@.len() > 0),
    {
        self.watch_succeeded_for_change
    }

    /// Records what a send action received.
    pub fn add_send_result(&mut self, res: Vec<SingleSendActionResult>)
        requires
            old(self).wf(),
        ensures
            final(self).wf(),
            sends_view(final(self).send_results@) == sends_view(old(self).send_results@).push(
                entries_view(res@),
            ),
            final(self).rule_id == old(self).rule_id,
            final(self).get_provenance == old(self).get_provenance,
            final(self).pair == old(self).pair,
            final(self).watch_results == old(self).watch_results,
            final(self).change_results == old(self).change_results,
            final(self).watch_succeeded_for_change == old(self).watch_succeeded_for_change,
            final(self).find_results == old(self).find_results,
            final(self).get_result == old(self).get_result,
    {
        let ghost before = self.send_results@;
        self.send_results.push(res);
        assert(sends_view(self.send_results@) =~= sends_view(before).push(entries_view(res@)));
    }

    /// What the send actions received; index 0 is the captured pair.
    pub fn send_results(&self) -> (r: &Vec<Vec<SingleSendActionResult>>)
        ensures
            r == &self.send_results,
    {
        &self.send_results
    }

    /// Records the verdict of a find action.
    pub fn add_find_result(&mut self, res: bool)
        ensures
            final(self).find_results@ == old(self).find_results@.push(res),
            final(self).rule_id == old(self).rule_id,
            final(self).get_provenance == old(self).get_provenance,
            final(self).pair == old(self).pair,
            final(self).watch_results == old(self).watch_results,
            final(self).watch_succeeded_for_change == old(self).watch_succeeded_for_change,
            final(self).change_results == old(self).change_results,
            final(self).send_results == old(self).send_results,
            final(self).get_result == old(self).get_result,
    {
        self.find_results.push(res);
    }

    /// The verdicts of the find actions.
    pub fn find_results(&self) -> (r: &Vec<bool>)
        ensures
            r == &self.find_results,
    {
        &self.find_results
    }

    /// Whether any find action succeeded.
    pub fn found_anything(&self) -> (r: bool)
        ensures
            r == exists|i: int| 0 <= i < self.find_results@.len() && #[trigger] self.find_results@[i],
    {
        let mut i: usize = 0;
        while i < self.find_results.len()
            invariant
                i <= self.find_results@.len(),
                forall|j: int| 0 <= j < i ==> !#[trigger] self.find_results@[j],
            decreases self.find_results@.len() - i,
        {
            if self.find_results[i] {
                return true;
            }
            i = i + 1;
        }
        false
    }

    /// Whether the find action at `id` succeeded; one that has not run did not.
    pub fn find_action_succeeded(&self, id: usize) -> (r: bool)
        ensures
            r == (id < self.find_results@.len() && self.find_results@[id as int]),
    {
        if id >= self.find_results.len() {
            false
        } else {
            self.find_results[id]
        }
    }

    /// The send result at `id`, if there is one.
    pub fn get_pair_by_id(&self, id: usize) -> (r: Result<&Vec<SingleSendActionResult>, AuditError>)
        ensures
            match r {
                Ok(e) => id < self.send_results@.len() && *e == self.send_results@[id as int],
                Err(_) => id >= self.send_results@.len(),
            },
    {
        if id >= self.send_results.len() {
            return Err(AuditError::with_detail("index of send results is out of bounds", ""));
        }
        Ok(&self.send_results[id])
    }

    /// Records that a get action extracted nothing.
    pub fn add_empty_result(&mut self)
        ensures
            gets_view(final(self).get_result@) == gets_view(old(self).get_result@).push(None),
            final(self).watch_succeeded_for_change == old(self).watch_succeeded_for_change,
            final(self).watch_results == old(self).watch_results,
            final(self).change_results == old(self).change_results,
            final(self).rule_id == old(self).rule_id,
            final(self).get_provenance == old(self).get_provenance,
            final(self).pair == old(self).pair,
            final(self).send_results == old(self).send_results,
            final(self).find_results == old(self).find_results,
    {
        let ghost before = self.get_result@;
        self.get_result.push(None);
        assert(gets_view(self.get_result@) =~= gets_view(before).push(None));
    }

    /// Records what a get action extracted.
    pub fn add_get_result(&mut self, res: Vec<u8>)
        ensures
            gets_view(final(self).get_result@) == gets_view(old(self).get_result@).push(Some(res@)),
            final(self).watch_succeeded_for_change == old(self).watch_succeeded_for_change,
            final(self).watch_results == old(self).watch_results,
            final(self).change_results == old(self).change_results,
            final(self).rule_id == old(self).rule_id,
            final(self).get_provenance == old(self).get_provenance,
            final(self).pair == old(self).pair,
            final(self).send_results == old(self).send_results,
            final(self).find_results == old(self).find_results,
    {
        let ghost before = self.get_result@;
        let ghost rv = res@;
        self.get_result.push(Some(res));
        assert(gets_view(self.get_result@) =~= gets_view(before).push(Some(rv)));
    }

    /// The result of this execution: the rule, the pair, whether any find
    /// succeeded, what each get action extracted, and where each get result
    /// comes from.
    pub fn make_result(self) -> (r: RuleResult)
        ensures
            r.rule_id == self.rule_id,
            r.pair_index == self.pair.index,
            r.found_anything == exists|i: int| 0 <= i < self.find_results@.len() && #[trigger] self.find_results@[i],
            r.find_results@ == self.find_results@,
            r.get_provenance@ == self.get_provenance@,
            gets_view(r.get_results@) == gets_view(self.get_result@),
    {
        let found = self.found_anything();
        let index = self.pair.index;
        RuleResult {
            rule_id: self.rule_id,
            pair_index: index,
            found_anything: found,
            find_results: self.find_results,
            get_provenance: self.get_provenance,
            get_results: self.get_result,
        }
    }
}

} // verus!
