//! A rule: its actions in declaration order, the check-up that resolves
//! their cross-references, and the driver that runs them on one pair.

use vstd::prelude::*;
use crate::context::{ActiveRuleContext, RuleResult, gets_view};
use crate::error::AuditError;
use crate::find::{RuleFindAction, exprs_checked, find_compiled, find_with_cache};
use crate::get::{RuleGetAction, get_checked};
use crate::message::{ChangeModel, ChangedRequest, WatchHit, changes_of, request_lines_of, selected_hits, strings_view, watch_of};
use crate::context::initial_entry;
use crate::find::find_outcome;
use crate::get::{GetProvenance, get_outcome, provenance_of};
use crate::http::{Coordinates, RequestResponsePair, SingleSendActionResult, SingleSendModel, entries_view, sends_view};
use crate::reference::resolve_id;
use crate::rule_actions::{RuleChangeAction, RuleSendAction, RuleWatchAction, placement_of, watch_id_of, watch_part_of};
use crate::text::lower_of;

verus! {

/// One action of a rule.
#[derive(Clone, Debug, PartialEq, Eq)]
pub enum RuleAction {
    Watch(RuleWatchAction),
    Change(RuleChangeAction),
    Send(RuleSendAction),
    Find(RuleFindAction),
    Get(RuleGetAction),
}

/// The kinds of actions; ids and indices are counted per kind.
#[derive(Clone, Copy, Debug, PartialEq, Eq, Structural)]
pub enum ActionKind {
    Watch,
    Change,
    Send,
    Find,
    Get,
}

/// The kind of an action.
pub open spec fn kind_of(a: RuleAction) -> ActionKind {
    match a {
        RuleAction::Watch(_) => ActionKind::Watch,
        RuleAction::Change(_) => ActionKind::Change,
        RuleAction::Send(_) => ActionKind::Send,
        RuleAction::Find(_) => ActionKind::Find,
        RuleAction::Get(_) => ActionKind::Get,
    }
}

/// The symbolic id of an action, if it has one.
pub open spec fn id_of(a: RuleAction) -> Option<String> {
    match a {
        RuleAction::Watch(x) => x.id,
        RuleAction::Change(x) => x.id,
        RuleAction::Send(x) => x.id,
        RuleAction::Find(x) => x.id,
        RuleAction::Get(_) => None,
    }
}

/// How many actions of kind `k` there are in `a`.
pub open spec fn count_kind(a: Seq<RuleAction>, k: ActionKind) -> nat
    decreases a.len(),
{
    if a.len() == 0 {
        0
    } else if kind_of(a.last()) == k {
        count_kind(a.drop_last(), k) + 1
    } else {
        count_kind(a.drop_last(), k)
    }
}

/// The index that the next action of kind `k` gets, after `c` of them:
/// send indices start at 1, since index 0 holds the captured pair.
pub open spec fn next_index(k: ActionKind, c: nat) -> usize {
    if k == ActionKind::Send {
        (c + 1) as usize
    } else {
        c as usize
    }
}

/// The symbolic ids of the actions of kind `k` in `a`, with their indices.
pub open spec fn ids_of_kind(a: Seq<RuleAction>, k: ActionKind) -> Seq<(String, usize)>
    decreases a.len(),
{
    if a.len() == 0 {
        Seq::<(String, usize)>::empty()
    } else if kind_of(a.last()) == k && id_of(a.last()) is Some {
        ids_of_kind(a.drop_last(), k).push((id_of(a.last())->0, next_index(k, count_kind(a.drop_last(), k))))
    } else {
        ids_of_kind(a.drop_last(), k)
    }
}

/// What the check-up of an action may refer to: the symbolic ids and the
/// number of the actions of each kind before it.
pub struct CheckState {
    pub watch_ids: Seq<(String, usize)>,
    pub watches: usize,
    pub change_ids: Seq<(String, usize)>,
    pub changes: usize,
    pub send_ids: Seq<(String, usize)>,
    pub sends: usize,
    pub find_ids: Seq<(String, usize)>,
    pub finds: usize,
}

/// The check state after the actions `p`.
pub open spec fn state_of(p: Seq<RuleAction>) -> CheckState {
    CheckState {
        watch_ids: ids_of_kind(p, ActionKind::Watch),
        watches: count_kind(p, ActionKind::Watch) as usize,
        change_ids: ids_of_kind(p, ActionKind::Change),
        changes: count_kind(p, ActionKind::Change) as usize,
        send_ids: ids_of_kind(p, ActionKind::Send),
        sends: count_kind(p, ActionKind::Send) as usize,
        find_ids: ids_of_kind(p, ActionKind::Find),
        finds: count_kind(p, ActionKind::Find) as usize,
    }
}

/// Whether action `o` checks in state `st`.
#[verifier::opaque]
pub open spec fn ok_in(o: RuleAction, st: CheckState) -> bool {
    match o {
        RuleAction::Watch(w) => watch_part_of(lower_of(w.part@)) is Some,
        RuleAction::Change(c) => watch_id_of(c.watch_id@, Some(st.watch_ids), st.watches) is Some
            && placement_of(lower_of(c.placement@)) is Some,
        RuleAction::Send(s) => match resolve_id(s.apply@, Some(st.change_ids)) {
            Some(i) => i < st.changes,
            None => false,
        },
        RuleAction::Find(f) => find_compiled(f@, Some(st.send_ids), (st.sends + 1) as usize) is Some,
        RuleAction::Get(g) => get_checked(g, Some(st.send_ids), (st.sends + 1) as usize, Some(st.find_ids), st.finds) is Some,
    }
}

/// Whether `n` is action `o` after a successful check-up in state `st`.
#[verifier::opaque]
pub open spec fn checked_in(o: RuleAction, n: RuleAction, st: CheckState) -> bool {
    match (o, n) {
        (RuleAction::Watch(w), RuleAction::Watch(m)) => watch_part_of(lower_of(w.part@)) is Some && m == (RuleWatchAction { part_cache: watch_part_of(lower_of(w.part@)), ..w }),
        (RuleAction::Change(c), RuleAction::Change(m)) => match (
            watch_id_of(c.watch_id@, Some(st.watch_ids), st.watches),
            placement_of(lower_of(c.placement@)),
        ) {
            (Some((i, g)), Some(pl)) => {
                &&& m.watch_id_cache is Some
                &&& m.watch_id_cache->0.id == i
                &&& match m.watch_id_cache->0.group_name {
                    Some(nm) => g == Some(nm@),
                    None => g is None,
                }
                &&& m.placement_cache == Some(pl)
                &&& m.id == c.id && m.watch_id == c.watch_id && m.placement == c.placement && m.values == c.values
            },
            _ => false,
        },
        (RuleAction::Send(s), RuleAction::Send(m)) => match resolve_id(s.apply@, Some(st.change_ids)) {
            Some(i) => i < st.changes && m == (RuleSendAction { apply_cache: Some(i), ..s }),
            None => false,
        },
        (RuleAction::Find(f), RuleAction::Find(m)) => match find_compiled(f@, Some(st.send_ids), (st.sends + 1) as usize) {
            Some((lf, c)) => m@ == find_with_cache(f@, lf, c),
            None => false,
        },
        (RuleAction::Get(g), RuleAction::Get(m)) => match get_checked(g, Some(st.send_ids), (st.sends + 1) as usize, Some(st.find_ids), st.finds) {
            Some((sx, fx)) => m == (RuleGetAction { from_cache: Some(sx), if_succeed_cache: Some(fx), ..g }),
            None => false,
        },
        _ => false,
    }
}

/// Whether action `o` checks after the actions `p`.
pub open spec fn action_ok(o: RuleAction, p: Seq<RuleAction>) -> bool {
    ok_in(o, state_of(p))
}

/// Whether `n` is action `o` after a successful check-up behind the actions `p`.
pub open spec fn action_checked(o: RuleAction, n: RuleAction, p: Seq<RuleAction>) -> bool {
    checked_in(o, n, state_of(p))
}

/// A table of ids, with `id` at `index` if there is one.
pub open spec fn with_id(id: Option<String>, t: Seq<(String, usize)>, index: usize) -> Seq<(String, usize)> {
    match id {
        Some(x) => t.push((x, index)),
        None => t,
    }
}

/// The check state after one more action of kind `k` with id `id`.
pub open spec fn step_state(st: CheckState, k: ActionKind, id: Option<String>) -> CheckState {
    match k {
        ActionKind::Watch => CheckState { watch_ids: with_id(id, st.watch_ids, st.watches), watches: (st.watches + 1) as usize, ..st },
        ActionKind::Change => CheckState { change_ids: with_id(id, st.change_ids, st.changes), changes: (st.changes + 1) as usize, ..st },
        ActionKind::Send => CheckState { send_ids: with_id(id, st.send_ids, (st.sends + 1) as usize), sends: (st.sends + 1) as usize, ..st },
        ActionKind::Find => CheckState { find_ids: with_id(id, st.find_ids, st.finds), finds: (st.finds + 1) as usize, ..st },
        ActionKind::Get => st,
    }
}

proof fn lemma_state_step(p: Seq<RuleAction>, a: RuleAction)
    requires
        p.len() < usize::MAX,
    ensures
        state_of(p.push(a)) == step_state(state_of(p), kind_of(a), id_of(a)),
{
    let q = p.push(a);
    assert(q.drop_last() =~= p);
    lemma_count_le(p, ActionKind::Watch);
    lemma_count_le(p, ActionKind::Change);
    lemma_count_le(p, ActionKind::Send);
    lemma_count_le(p, ActionKind::Find);
    match a {
        RuleAction::Get(_) => {},
        _ => {},
    }
}

/// The check state, held in executable form.
pub struct CheckTables {
    pub watch_ids: Vec<(String, usize)>,
    pub watches: usize,
    pub change_ids: Vec<(String, usize)>,
    pub changes: usize,
    pub send_ids: Vec<(String, usize)>,
    pub sends: usize,
    pub find_ids: Vec<(String, usize)>,
    pub finds: usize,
}

impl View for CheckTables {
    type V = CheckState;

    open spec fn view(&self) -> CheckState {
        CheckState {
            watch_ids: self.watch_ids@,
            watches: self.watches,
            change_ids: self.change_ids@,
            changes: self.changes,
            send_ids: self.send_ids@,
            sends: self.sends,
            find_ids: self.find_ids@,
            finds: self.finds,
        }
    }
}

/// Checks one action in state `st`.
fn check_action(a: RuleAction, st: &CheckTables) -> (r: Result<RuleAction, AuditError>)
    requires
        st.sends < usize::MAX,
    ensures
        match r {
            Ok(n) => ok_in(a, st@) && checked_in(a, n, st@),
            Err(_) => !ok_in(a, st@),
        },
{
    reveal(ok_in);
    reveal(checked_in);
    match a {
        RuleAction::Watch(mut w) => match w.check_up() {
            Ok(()) => Ok(RuleAction::Watch(w)),
            Err(e) => Err(e),
        },
        RuleAction::Change(mut c) => match c.check_up(Some(&st.watch_ids), st.watches) {
            Ok(()) => Ok(RuleAction::Change(c)),
            Err(e) => Err(e),
        },
        RuleAction::Send(mut s) => match s.check_up(Some(&st.change_ids), st.changes) {
            Ok(()) => Ok(RuleAction::Send(s)),
            Err(e) => Err(e),
        },
        RuleAction::Find(mut f) => match f.check_up(Some(&st.send_ids), st.sends + 1) {
            Ok(()) => Ok(RuleAction::Find(f)),
            Err(e) => Err(e),
        },
        RuleAction::Get(mut g) => match g.check_up(Some(&st.send_ids), st.sends + 1, Some(&st.find_ids), st.finds) {
            Ok(()) => Ok(RuleAction::Get(g)),
            Err(e) => Err(e),
        },
    }
}

/// The kind and the symbolic id of an action.
fn kind_and_id(a: &RuleAction) -> (r: (ActionKind, Option<String>))
    ensures
        r.0 == kind_of(*a),
        r.1 == id_of(*a),
{
    match a {
        RuleAction::Watch(x) => (ActionKind::Watch, x.id.clone()),
        RuleAction::Change(x) => (ActionKind::Change, x.id.clone()),
        RuleAction::Send(x) => (ActionKind::Send, x.id.clone()),
        RuleAction::Find(x) => (ActionKind::Find, x.id.clone()),
        RuleAction::Get(_) => (ActionKind::Get, None),
    }
}

impl CheckTables {
    /// Records one more action of kind `k` with id `id`.
    fn record(&mut self, k: ActionKind, id: Option<String>)
        requires
            old(self).watches < usize::MAX,
            old(self).changes < usize::MAX,
            old(self).sends < usize::MAX,
            old(self).finds < usize::MAX,
        ensures
            final(self)@ == step_state(old(self)@, k, id),
    {
        match k {
            ActionKind::Watch => {
                note_id(&mut self.watch_ids, &id, self.watches);
                self.watches = self.watches + 1;
            },
            ActionKind::Change => {
                note_id(&mut self.change_ids, &id, self.changes);
                self.changes = self.changes + 1;
            },
            ActionKind::Send => {
                note_id(&mut self.send_ids, &id, self.sends + 1);
                self.sends = self.sends + 1;
            },
            ActionKind::Find => {
                note_id(&mut self.find_ids, &id, self.finds);
                self.finds = self.finds + 1;
            },
            ActionKind::Get => {},
        }
    }
}

/// A named, ordered list of actions.
#[derive(Clone, Debug, PartialEq, Eq)]
pub struct Rule {
    pub id: String,
    pub actions: Vec<RuleAction>,
}

pub proof fn lemma_count_le(a: Seq<RuleAction>, k: ActionKind)
    ensures
        count_kind(a, k) <= a.len(),
    decreases a.len(),
{
    if a.len() > 0 {
        lemma_count_le(a.drop_last(), k);
    }
}

/// Records the id of an action that was just checked.
fn note_id(table: &mut Vec<(String, usize)>, id: &Option<String>, index: usize)
    ensures
        final(table)@ == match *id {
            Some(s) => old(table)@.push((s, index)),
            None => old(table)@,
        },
{
    match id {
        Some(s) => table.push((s.clone(), index)),
        None => {},
    }
}

impl Rule {
    /// The id of this rule.
    pub fn get_id(&self) -> (r: &str)
        ensures
            r@ == self.id@,
    {
        self.id.as_str()
    }

    /// Checks every action in declaration order, each against the actions
    /// before it, and fills their caches. Symbolic ids resolve to indices
    /// within their kind; send indices start at 1. On an error the rule is
    /// rejected: some action does not check.
    #[verifier::rlimit(100)]
    pub fn check_up(&mut self) -> (r: Result<(), AuditError>)
        ensures
            final(self).id == old(self).id,
            match r {
                Ok(()) => {
                    &&& final(self).actions@.len() == old(self).actions@.len()
                    &&& forall|i: int| 0 <= i < old(self).actions@.len() ==> action_ok(
                        #[trigger] old(self).actions@[i],
                        old(self).actions@.subrange(0, i),
                    )
                    &&& forall|i: int| 0 <= i < old(self).actions@.len() ==> action_checked(
                        #[trigger] old(self).actions@[i],
                        final(self).actions@[i],
                        old(self).actions@.subrange(0, i),
                    )
                },
                Err(_) => exists|i: int| 0 <= i < old(self).actions@.len() && !action_ok(
                    #[trigger] old(self).actions@[i],
                    old(self).actions@.subrange(0, i),
                ),
            },
    {
        let ghost old_actions = self.actions@;
        let mut pending: Vec<RuleAction> = Vec::new();
        core::mem::swap(&mut pending, &mut self.actions);
        let n = pending.len();
        let mut out: Vec<RuleAction> = Vec::new();
        let mut st = CheckTables {
            watch_ids: Vec::new(),
            watches: 0,
            change_ids: Vec::new(),
            changes: 0,
            send_ids: Vec::new(),
            sends: 0,
            find_ids: Vec::new(),
            finds: 0,
        };
        let mut i: usize = 0;
        assert(old_actions.subrange(0, 0) =~= Seq::<RuleAction>::empty());
        assert(st@ == state_of(old_actions.subrange(0, 0)));
        assert(old_actions.subrange(0, n as int) =~= old_actions);
        while i < n
            invariant
                n == old_actions.len(),
                self.id == old(self).id,
                old_actions == old(self).actions@,
                i <= n,
                pending@ == old_actions.subrange(i as int, n as int),
                out@.len() == i,
                forall|j: int| 0 <= j < i ==> action_ok(#[trigger] old_actions[j], old_actions.subrange(0, j)),
                forall|j: int| 0 <= j < i ==> action_checked(#[trigger] old_actions[j], out@[j], old_actions.subrange(0, j)),
                st@ == state_of(old_actions.subrange(0, i as int)),
            decreases n - i,
        {
            let ghost p = old_actions.subrange(0, i as int);
            let ghost pn = old_actions.subrange(0, i as int + 1);
            assert(pn =~= p.push(old_actions[i as int]));
            assert(pending@[0] == old_actions[i as int]);
            proof {
                lemma_count_le(p, ActionKind::Watch);
                lemma_count_le(p, ActionKind::Change);
                lemma_count_le(p, ActionKind::Send);
                lemma_count_le(p, ActionKind::Find);
                lemma_state_step(p, old_actions[i as int]);
            }
            let a = pending.remove(0);
            assert(pending@ =~= old_actions.subrange(i as int + 1, n as int));
            let (k, id) = kind_and_id(&a);
            let checked = match check_action(a, &st) {
                Ok(c) => c,
                Err(e) => {
                    assert(!action_ok(old_actions[i as int], p));
                    return Err(e);
                },
            };
            st.record(k, id);
            out.push(checked);
            i = i + 1;
        }
        self.actions = out;
        Ok(())
    }
}

/// Whether an action carries the caches its execution reads.
pub open spec fn action_ready(a: RuleAction) -> bool {
    match a {
        RuleAction::Find(f) => f.look_for_cache is Some && exprs_checked(f@.expressions),
        RuleAction::Get(g) => g.from_cache is Some && g.if_succeed_cache is Some,
        RuleAction::Watch(w) => w.part_cache is Some,
        RuleAction::Change(c) => c.watch_id_cache is Some && c.placement_cache is Some,
        RuleAction::Send(_) => true,
    }
}

/// The get actions of `a`, in order.
pub open spec fn gets_of(a: Seq<RuleAction>) -> Seq<RuleGetAction>
    decreases a.len(),
{
    if a.len() == 0 {
        Seq::<RuleGetAction>::empty()
    } else {
        match a.last() {
            RuleAction::Get(g) => gets_of(a.drop_last()).push(g),
            _ => gets_of(a.drop_last()),
        }
    }
}

/// Whether the find that get action `g` waits on has succeeded in `finds`.
pub open spec fn gate_open(g: RuleGetAction, finds: Seq<bool>) -> bool {
    g.if_succeed_cache->0 < finds.len() && finds[g.if_succeed_cache->0 as int]
}

/// What an execution has recorded so far, and how many of the supplied send
/// results it has used.
pub struct RunState {
    pub watches: Seq<Seq<WatchHit>>,
    pub changes: Seq<Coordinates>,
    pub sends: Seq<Seq<SingleSendModel>>,
    pub finds: Seq<bool>,
    pub gets: Seq<Option<Seq<u8>>>,
    pub used: nat,
}

/// The state of an execution on `p` before any action: the captured pair as
/// send result 0.
pub open spec fn initial_run(p: RequestResponsePair) -> RunState {
    RunState {
        watches: Seq::<Seq<WatchHit>>::empty(),
        changes: Seq::<Coordinates>::empty(),
        sends: seq![seq![initial_entry(p)]],
        finds: Seq::<bool>::empty(),
        gets: Seq::<Option<Seq<u8>>>::empty(),
        used: 0,
    }
}

/// The group that a checked change action selects, if any.
pub open spec fn group_of(c: RuleChangeAction) -> Option<Seq<char>> {
    match c.watch_id_cache->0.group_name {
        Some(n) => Some(n@),
        None => None,
    }
}

/// The state after one more action; `None` where the action fails.
pub open spec fn run_step(a: RuleAction, st: RunState, p: RequestResponsePair, supplied: Seq<Seq<SingleSendModel>>) -> Option<RunState> {
    match a {
        RuleAction::Watch(w) => match watch_of(w, p.request@) {
            Some(h) => Some(RunState { watches: st.watches.push(h), ..st }),
            None => None,
        },
        RuleAction::Change(c) => {
            let w = c.watch_id_cache->0;
            if w.id < st.watches.len() {
                let sel = selected_hits(st.watches[w.id as int], group_of(c));
                match changes_of(request_lines_of(p.request@), sel, strings_view(c.values@), c.placement_cache->0) {
                    Some(_) => Some(RunState { changes: st.changes + sel.map_values(|h: WatchHit| h.position), ..st }),
                    None => None,
                }
            } else {
                None
            }
        },
        RuleAction::Send(_) => if st.used < supplied.len() {
            Some(RunState { sends: st.sends.push(supplied[st.used as int]), used: st.used + 1, ..st })
        } else {
            None
        },
        RuleAction::Find(f) => match find_outcome(f@, st.sends) {
            Some(b) => Some(RunState { finds: st.finds.push(b), ..st }),
            None => None,
        },
        RuleAction::Get(g) => match get_outcome(g, st.finds, st.sends) {
            Some(o) => Some(RunState { gets: st.gets.push(o), ..st }),
            None => None,
        },
    }
}

/// The state after the actions `acts` on `p`, with `supplied` the send
/// results in turn; `None` where an action fails.
pub open spec fn run_of(acts: Seq<RuleAction>, p: RequestResponsePair, supplied: Seq<Seq<SingleSendModel>>) -> Option<RunState>
    decreases acts.len(),
{
    if acts.len() == 0 {
        Some(initial_run(p))
    } else {
        match run_of(acts.drop_last(), p, supplied) {
            None => None,
            Some(st) => run_step(acts.last(), st, p, supplied),
        }
    }
}

proof fn lemma_run_prefix_fails(acts: Seq<RuleAction>, p: RequestResponsePair, supplied: Seq<Seq<SingleSendModel>>, k: int)
    requires
        0 <= k <= acts.len(),
        run_of(acts.subrange(0, k), p, supplied) is None,
    ensures
        run_of(acts, p, supplied) is None,
    decreases acts.len() - k,
{
    if k < acts.len() {
        assert(acts.subrange(0, k + 1).drop_last() =~= acts.subrange(0, k));
        lemma_run_prefix_fails(acts, p, supplied, k + 1);
    } else {
        assert(acts.subrange(0, k) =~= acts);
    }
}

/// What the watch and change actions of `acts` give on `p`: the watch
/// results, and the requests each change action made; `None` where one fails.
pub open spec fn prepare_of(acts: Seq<RuleAction>, p: RequestResponsePair) -> Option<(Seq<Seq<WatchHit>>, Seq<Seq<ChangeModel>>)>
    decreases acts.len(),
{
    if acts.len() == 0 {
        Some((Seq::<Seq<WatchHit>>::empty(), Seq::<Seq<ChangeModel>>::empty()))
    } else {
        match prepare_of(acts.drop_last(), p) {
            None => None,
            Some((ws, cs)) => match acts.last() {
                RuleAction::Watch(w) => match watch_of(w, p.request@) {
                    Some(h) => Some((ws.push(h), cs)),
                    None => None,
                },
                RuleAction::Change(c) => {
                    let w = c.watch_id_cache->0;
                    if w.id < ws.len() {
                        match changes_of(
                            request_lines_of(p.request@),
                            selected_hits(ws[w.id as int], group_of(c)),
                            strings_view(c.values@),
                            c.placement_cache->0,
                        ) {
                            Some(m) => Some((ws, cs.push(m))),
                            None => None,
                        }
                    } else {
                        None
                    }
                },
                _ => Some((ws, cs)),
            },
        }
    }
}

/// The models of the requests made by each change action.
pub open spec fn made_view(v: Seq<Vec<ChangedRequest>>) -> Seq<Seq<ChangeModel>> {
    v.map_values(|x: Vec<ChangedRequest>| x@.map_values(|c: ChangedRequest| c@))
}

proof fn lemma_prepare_prefix_fails(acts: Seq<RuleAction>, p: RequestResponsePair, k: int)
    requires
        0 <= k <= acts.len(),
        prepare_of(acts.subrange(0, k), p) is None,
    ensures
        prepare_of(acts, p) is None,
    decreases acts.len() - k,
{
    if k < acts.len() {
        assert(acts.subrange(0, k + 1).drop_last() =~= acts.subrange(0, k));
        lemma_prepare_prefix_fails(acts, p, k + 1);
    } else {
        assert(acts.subrange(0, k) =~= acts);
    }
}

/// The models of the watch results.
pub open spec fn watches_view(v: Seq<Vec<WatchHit>>) -> Seq<Seq<WatchHit>> {
    v.map_values(|x: Vec<WatchHit>| x@)
}

impl Rule {
    /// Runs the watch and change actions of a checked rule on `pair` and
    /// gives, for each change action in order, the requests it made: what the
    /// send actions are to send.
    #[verifier::rlimit(60)]
    pub fn prepare(&self, pair: &RequestResponsePair) -> (r: Result<Vec<Vec<ChangedRequest>>, AuditError>)
        requires
            forall|i: int| 0 <= i < self.actions@.len() ==> action_ready(#[trigger] self.actions@[i]),
        ensures
            match r {
                Ok(v) => v@.len() == count_kind(self.actions@, ActionKind::Change),
                Err(_) => true,
            },
            match prepare_of(self.actions@, *pair) {
                Some((_, made)) => r is Ok && made_view(r->Ok_0@) == made,
                None => r is Err,
            },
    {
        let mut ctx = ActiveRuleContext::init(self, pair);
        let mut out: Vec<Vec<ChangedRequest>> = Vec::new();
        let ghost mut ws: Seq<Seq<WatchHit>> = Seq::empty();
        assert(watches_view(ctx.watch_results@) =~= ws);
        assert(made_view(out@) =~= Seq::<Seq<ChangeModel>>::empty());
        let n = self.actions.len();
        let ghost acts = self.actions@;
        let mut i: usize = 0;
        assert(acts.subrange(0, 0) =~= Seq::<RuleAction>::empty());
        while i < n
            invariant
                n == acts.len(),
                acts == self.actions@,
                forall|j: int| 0 <= j < acts.len() ==> action_ready(#[trigger] acts[j]),
                i <= n,
                out@.len() == count_kind(acts.subrange(0, i as int), ActionKind::Change),
                prepare_of(acts.subrange(0, i as int), *pair) == Some((ws, made_view(out@))),
                watches_view(ctx.watch_results@) == ws,
                ctx.pair == pair,
            decreases n - i,
        {
            let ghost pn = acts.subrange(0, i as int + 1);
            assert(pn.drop_last() =~= acts.subrange(0, i as int));
            assert(pn.last() == acts[i as int]);
            assert(action_ready(acts[i as int]));
            let ghost watches_before = ctx.watch_results@;
            let ghost out_before = out@;
            match &self.actions[i] {
                RuleAction::Watch(w) => {
                    match w.exec(&mut ctx) {
                        Ok(()) => {},
                        Err(e) => {
                            proof { lemma_prepare_prefix_fails(acts, *pair, i as int + 1); }
                            return Err(e);
                        },
                    }
                    proof {
                        ws = ws.push(ctx.watch_results@.last()@);
                        assert(ctx.watch_results@ =~= watches_before.push(ctx.watch_results@.last()));
                        assert(watches_view(ctx.watch_results@) =~= ws);
                    }
                },
                RuleAction::Change(c) => {
                    proof {
                        if c.watch_id_cache->0.id < watches_before.len() {
                            assert(watches_view(watches_before)[c.watch_id_cache->0.id as int] == watches_before[c.watch_id_cache->0.id as int]@);
                        }
                    }
                    match c.exec(&mut ctx) {
                        Ok(v) => {
                            let ghost vv = v@;
                            out.push(v);
                            assert(made_view(out@) =~= made_view(out_before).push(vv.map_values(|c: ChangedRequest| c@)));
                        },
                        Err(e) => {
                            proof { lemma_prepare_prefix_fails(acts, *pair, i as int + 1); }
                            return Err(e);
                        },
                    }
                },
                _ => {},
            }
            i = i + 1;
        }
        assert(acts.subrange(0, n as int) =~= acts);
        Ok(out)
    }

    /// Runs a checked rule on `pair`, in declaration order. `sends` holds, for
    /// each send action in turn, what it received; they follow the captured
    /// pair in the send results.
    /// The result holds one get result per get action, in order, and nothing
    /// where the find it waits on did not succeed.
    #[verifier::rlimit(80)]
    pub fn run(&self, pair: &RequestResponsePair, sends: Vec<Vec<SingleSendActionResult>>) -> (r: Result<RuleResult, AuditError>)
        requires
            forall|i: int| 0 <= i < self.actions@.len() ==> action_ready(#[trigger] self.actions@[i]),
        ensures
            match r {
                Ok(res) => {
                    &&& res.rule_id@ == self.id@
                    &&& res.pair_index == pair.index
                    &&& gets_view(res.get_results@).len() == gets_of(self.actions@).len()
                    &&& forall|k: int| 0 <= k < gets_of(self.actions@).len() && !gate_open(#[trigger] gets_of(self.actions@)[k], res.find_results@)
                        ==> gets_view(res.get_results@)[k] is None
                },
                Err(_) => true,
            },
            match run_of(self.actions@, *pair, sends_view(sends@)) {
                Some(st) => r is Ok && r->Ok_0.find_results@ == st.finds && gets_view(r->Ok_0.get_results@) == st.gets,
                None => r is Err,
            },
            r is Ok ==> r->Ok_0.get_provenance@ == gets_of(self.actions@).map_values(|g: RuleGetAction| provenance_of(g)),
    {
        let mut ctx = ActiveRuleContext::init(self, pair);
        let ghost orig = sends@;
        let ghost sup = sends_view(sends@);
        let mut pending = sends;
        let ghost mut st = initial_run(*pair);
        assert(watches_view(ctx.watch_results@) =~= st.watches);
        assert(sends_view(ctx.send_results@) =~= st.sends);
        assert(gets_view(ctx.get_result@) =~= st.gets);
        assert(pending@ =~= orig.subrange(0, orig.len() as int));
        let n = self.actions.len();
        let ghost acts = self.actions@;
        let mut i: usize = 0;
        assert(acts.subrange(0, 0) =~= Seq::<RuleAction>::empty());
        assert(gets_view(ctx.get_result@) =~= Seq::<Option<Seq<u8>>>::empty());
        while i < n
            invariant
                n == acts.len(),
                acts == self.actions@,
                forall|j: int| 0 <= j < acts.len() ==> action_ready(#[trigger] acts[j]),
                i <= n,
                ctx.rule_id@ == self.id@,
                ctx.pair == pair,
                ctx.wf(),
                gets_view(ctx.get_result@).len() == gets_of(acts.subrange(0, i as int)).len(),
                run_of(acts.subrange(0, i as int), *pair, sup) == Some(st),
                sup == sends_view(orig),
                orig == sends@,
                ctx.get_provenance@ == gets_of(self.actions@).map_values(|g: RuleGetAction| provenance_of(g)),
                watches_view(ctx.watch_results@) == st.watches,
                ctx.change_results@ == st.changes,
                sends_view(ctx.send_results@) == st.sends,
                ctx.find_results@ == st.finds,
                gets_view(ctx.get_result@) == st.gets,
                st.used <= orig.len(),
                pending@ == orig.subrange(st.used as int, orig.len() as int),
                forall|k: int| 0 <= k < gets_of(acts.subrange(0, i as int)).len() && !gate_open(#[trigger] gets_of(acts.subrange(0, i as int))[k], ctx.find_results@)
                    ==> gets_view(ctx.get_result@)[k] is None,
            decreases n - i,
        {
            let ghost p = acts.subrange(0, i as int);
            let ghost pn = acts.subrange(0, i as int + 1);
            assert(pn.drop_last() =~= p);
            assert(pn.last() == acts[i as int]);
            let ghost finds_before = ctx.find_results@;
            let ghost gets_before = gets_view(ctx.get_result@);
            let ghost watches_before = ctx.watch_results@;
            assert(run_of(pn, *pair, sup) == run_step(acts[i as int], st, *pair, sup));
            assert(action_ready(acts[i as int]));
            match &self.actions[i] {
                RuleAction::Find(f) => {
                    match f.exec(&mut ctx) {
                        Ok(()) => {},
                        Err(e) => {
                            proof {
                                assert(acts[i as int] == RuleAction::Find(*f));
                                assert(find_outcome(f@, st.sends) is None);
                                assert(run_step(acts[i as int], st, *pair, sup) is None);
                                lemma_run_prefix_fails(acts, *pair, sup, i as int + 1);
                            }
                            return Err(e);
                        },
                    }
                    proof { st = RunState { finds: st.finds.push(ctx.find_results@.last()), ..st }; }
                    assert(gets_of(pn) == gets_of(p));
                    assert forall|k: int| 0 <= k < gets_of(pn).len() && !gate_open(#[trigger] gets_of(pn)[k], ctx.find_results@)
                        implies gets_view(ctx.get_result@)[k] is None by {
                        let g = gets_of(p)[k];
                        if g.if_succeed_cache->0 < finds_before.len() {
                            assert(ctx.find_results@[g.if_succeed_cache->0 as int] == finds_before[g.if_succeed_cache->0 as int]);
                        }
                    }
                },
                RuleAction::Get(g) => {
                    match g.exec(&mut ctx) {
                        Ok(()) => {},
                        Err(e) => {
                            proof {
                                assert(acts[i as int] == RuleAction::Get(*g));
                                assert(get_outcome(*g, st.finds, st.sends) is None);
                                lemma_run_prefix_fails(acts, *pair, sup, i as int + 1);
                            }
                            return Err(e);
                        },
                    }
                    proof { st = RunState { gets: st.gets.push(gets_view(ctx.get_result@).last()), ..st }; }
                    assert(gets_view(ctx.get_result@) =~= st.gets);
                    assert(gets_of(pn) == gets_of(p).push(*g));
                    assert forall|k: int| 0 <= k < gets_of(pn).len() && !gate_open(#[trigger] gets_of(pn)[k], ctx.find_results@)
                        implies gets_view(ctx.get_result@)[k] is None by {
                        if k < gets_of(p).len() {
                            assert(gets_of(pn)[k] == gets_of(p)[k]);
                            assert(gets_view(ctx.get_result@)[k] == gets_before[k]);
                        }
                    }
                },
                RuleAction::Watch(w) => {
                    match w.exec(&mut ctx) {
                        Ok(()) => {},
                        Err(e) => {
                            proof { lemma_run_prefix_fails(acts, *pair, sup, i as int + 1); }
                            return Err(e);
                        },
                    }
                    proof {
                        st = RunState { watches: st.watches.push(ctx.watch_results@.last()@), ..st };
                        assert(ctx.watch_results@ =~= watches_before.push(ctx.watch_results@.last()));
                        assert(watches_view(ctx.watch_results@) =~= st.watches);
                    }
                    assert(gets_of(pn) == gets_of(p));
                },
                RuleAction::Change(c) => {
                    match c.exec(&mut ctx) {
                        Ok(_) => {},
                        Err(e) => {
                            proof {
                                if c.watch_id_cache->0.id < watches_before.len() {
                                    assert(watches_view(watches_before)[c.watch_id_cache->0.id as int] == watches_before[c.watch_id_cache->0.id as int]@);
                                }
                                lemma_run_prefix_fails(acts, *pair, sup, i as int + 1);
                            }
                            return Err(e);
                        },
                    }
                    proof {
                        let w = c.watch_id_cache->0;
                        assert(watches_view(watches_before)[w.id as int] == watches_before[w.id as int]@);
                        let sel = selected_hits(st.watches[w.id as int], group_of(*c));
                        st = RunState { changes: st.changes + sel.map_values(|h: WatchHit| h.position), ..st };
                    }
                    assert(gets_of(pn) == gets_of(p));
                },
                RuleAction::Send(_) => {
                    if pending.len() == 0 {
                        proof { lemma_run_prefix_fails(acts, *pair, sup, i as int + 1); }
                        return Err(AuditError::with_detail("no result was supplied for a send action of rule ", self.id.as_str()));
                    }
                    let entries = pending.remove(0);
                    assert(entries == orig[st.used as int]);
                    assert(pending@ =~= orig.subrange(st.used + 1 as int, orig.len() as int));
                    proof {
                        assert(sup[st.used as int] == entries_view(entries@));
                        st = RunState { sends: st.sends.push(sup[st.used as int]), used: st.used + 1, ..st };
                    }
                    ctx.add_send_result(entries);
                    assert(gets_of(pn) == gets_of(p));
                },
            }
            i = i + 1;
        }
        assert(acts.subrange(0, n as int) =~= acts);
        Ok(ctx.make_result())
    }

    /// The provenance of the results of each get action, in order.
    pub fn get_provenance(&self) -> (r: Vec<GetProvenance>)
        ensures
            r@ == gets_of(self.actions@).map_values(|g: RuleGetAction| provenance_of(g)),
    {
        let ghost acts = self.actions@;
        let mut r: Vec<GetProvenance> = Vec::new();
        let mut i: usize = 0;
        assert(acts.subrange(0, 0) =~= Seq::<RuleAction>::empty());
        assert(r@ =~= gets_of(acts.subrange(0, 0)).map_values(|g: RuleGetAction| provenance_of(g)));
        while i < self.actions.len()
            invariant
                i <= acts.len(),
                acts == self.actions@,
                r@ == gets_of(acts.subrange(0, i as int)).map_values(|g: RuleGetAction| provenance_of(g)),
            decreases acts.len() - i,
        {
            let ghost pn = acts.subrange(0, i as int + 1);
            assert(pn.drop_last() =~= acts.subrange(0, i as int));
            assert(pn.last() == acts[i as int]);
            match &self.actions[i] {
                RuleAction::Get(g) => {
                    let ghost before = r@;
                    r.push(g.provenance());
                    assert(gets_of(pn) == gets_of(acts.subrange(0, i as int)).push(*g));
                    assert(r@ =~= gets_of(pn).map_values(|g: RuleGetAction| provenance_of(g)));
                },
                _ => {
                    assert(gets_of(pn) == gets_of(acts.subrange(0, i as int)));
                },
            }
            i = i + 1;
        }
        assert(acts.subrange(0, acts.len() as int) =~= acts);
        r
    }
}

} // verus!
