//! The watch, change and send actions, with their check-up.

use vstd::prelude::*;
use crate::error::AuditError;
use crate::reference::{ids_view, resolve_id, resolve_index};
use crate::text::{lower_of, lowercase, split_chars, split_on, str_equal, views_of};

verus! {

/// The part of the captured request that a watch action scans.
#[derive(Clone, Copy, Debug, PartialEq, Eq, Structural)]
pub enum WatchPart {
    Method,
    Path,
    Version,
    Headers,
    Body,
}

/// The part that a lower-cased name stands for.
pub open spec fn watch_part_of(s: Seq<char>) -> Option<WatchPart> {
    if s == "method"@ {
        Some(WatchPart::Method)
    } else if s == "path"@ {
        Some(WatchPart::Path)
    } else if s == "version"@ {
        Some(WatchPart::Version)
    } else if s == "headers"@ {
        Some(WatchPart::Headers)
    } else if s == "body"@ {
        Some(WatchPart::Body)
    } else {
        None
    }
}

/// A watch action: which part to scan, and the pattern whose groups mark
/// the places to change.
#[derive(Clone, Debug, PartialEq, Eq)]
pub struct RuleWatchAction {
    pub id: Option<String>,
    pub part: String,
    pub part_cache: Option<WatchPart>,
    pub pattern: String,
}

impl RuleWatchAction {
    /// Resolves the part name, case ignored. On an error nothing changes.
    pub fn check_up(&mut self) -> (r: Result<(), AuditError>)
        ensures
            match r {
                Ok(()) => watch_part_of(lower_of(old(self).part@)) is Some
                    && *final(self) == (RuleWatchAction { part_cache: watch_part_of(lower_of(old(self).part@)), ..*old(self) }),
                Err(_) => watch_part_of(lower_of(old(self).part@)) is None && *final(self) == *old(self),
            },
    {
        let folded = lowercase(self.part.as_str());
        let s = folded.as_str();
        let p = if str_equal(s, "method") {
            WatchPart::Method
        } else if str_equal(s, "path") {
            WatchPart::Path
        } else if str_equal(s, "version") {
            WatchPart::Version
        } else if str_equal(s, "headers") {
            WatchPart::Headers
        } else if str_equal(s, "body") {
            WatchPart::Body
        } else {
            return Err(AuditError::with_detail("unknown part of a request to watch: ", self.part.as_str()));
        };
        self.part_cache = Some(p);
        Ok(())
    }
}

/// A parsed reference to a watch action, optionally to one of its groups.
#[derive(Clone, Debug, PartialEq, Eq)]
pub struct WatchId {
    pub id: usize,
    pub group_name: Option<String>,
}

impl WatchId {
    /// The watch action at `id`, restricted to `group_name` if given.
    pub fn new(id: usize, group_name: Option<String>) -> (r: WatchId)
        ensures
            r.id == id,
            r.group_name == group_name,
    {
        WatchId { id, group_name }
    }
}

/// The watch action and group that `<id>[:group]` names, among the
/// `watch_count` watch actions declared before.
pub open spec fn watch_id_of(
    raw: Seq<char>,
    ids: Option<Seq<(String, usize)>>,
    watch_count: usize,
) -> Option<(usize, Option<Seq<char>>)> {
    let parts = split_on(raw, ':');
    if parts.len() > 2 {
        None
    } else {
        match resolve_id(parts[0], ids) {
            None => None,
            Some(i) => if i >= watch_count {
                None
            } else if parts.len() == 2 {
                Some((i, Some(parts[1])))
            } else {
                Some((i, None))
            },
        }
    }
}

/// Where a payload goes relative to the watched value.
#[derive(Clone, Copy, Debug, PartialEq, Eq, Structural)]
pub enum ChangeValuePlacement {
    Before,
    After,
    Replace,
}

/// The placement that a lower-cased name stands for.
pub open spec fn placement_of(s: Seq<char>) -> Option<ChangeValuePlacement> {
    if s == "before"@ {
        Some(ChangeValuePlacement::Before)
    } else if s == "after"@ {
        Some(ChangeValuePlacement::After)
    } else if s == "replace"@ {
        Some(ChangeValuePlacement::Replace)
    } else {
        None
    }
}

/// A change action: which watch hits to mutate, where the payloads go, and
/// the payloads.
#[derive(Clone, Debug, PartialEq, Eq)]
pub struct RuleChangeAction {
    pub id: Option<String>,
    pub watch_id: String,
    pub watch_id_cache: Option<WatchId>,
    pub placement: String,
    pub placement_cache: Option<ChangeValuePlacement>,
    pub values: Vec<String>,
}

impl RuleChangeAction {
    /// Resolves the watch reference among the `watch_count` watch actions
    /// before it, and the placement, case ignored. On an error nothing changes.
    pub fn check_up(&mut self, watch_ids: Option<&Vec<(String, usize)>>, watch_count: usize) -> (r: Result<(), AuditError>)
        ensures
            match r {
                Ok(()) => match (watch_id_of(old(self).watch_id@, ids_view(watch_ids), watch_count), placement_of(lower_of(old(self).placement@))) {
                    (Some((i, g)), Some(p)) => {
                        &&& final(self).watch_id_cache is Some
                        &&& final(self).watch_id_cache->0.id == i
                        &&& match final(self).watch_id_cache->0.group_name {
                            Some(n) => g == Some(n@),
                            None => g is None,
                        }
                        &&& final(self).placement_cache == Some(p)
                        &&& final(self).id == old(self).id
                        &&& final(self).watch_id == old(self).watch_id
                        &&& final(self).placement == old(self).placement
                        &&& final(self).values == old(self).values
                    },
                    _ => false,
                },
                Err(_) => (watch_id_of(old(self).watch_id@, ids_view(watch_ids), watch_count) is None
                    || placement_of(lower_of(old(self).placement@)) is None) && *final(self) == *old(self),
            },
    {
        let parts = split_chars(self.watch_id.as_str(), ':');
        let ghost pv = split_on(self.watch_id@, ':');
        assert(views_of(parts@) == pv);
        assert(forall|k: int| 0 <= k < parts@.len() ==> #[trigger] pv[k] == parts@[k]@);
        proof { crate::text::lemma_split_nonempty(self.watch_id@, ':'); }
        if parts.len() > 2 || parts.len() == 0 {
            return Err(AuditError::with_detail("watch id must be <index>[:group]: ", self.watch_id.as_str()));
        }
        let i = match resolve_index(parts[0].as_str(), watch_ids) {
            Some(i) => i,
            None => {
                return Err(AuditError::with_detail("could not resolve watch id: ", self.watch_id.as_str()));
            },
        };
        if i >= watch_count {
            return Err(AuditError::with_detail("change refers to a watch declared after it: ", self.watch_id.as_str()));
        }
        let group = if parts.len() == 2 {
            Some(parts[1].clone())
        } else {
            None
        };
        let folded = lowercase(self.placement.as_str());
        let s = folded.as_str();
        let p = if str_equal(s, "before") {
            ChangeValuePlacement::Before
        } else if str_equal(s, "after") {
            ChangeValuePlacement::After
        } else if str_equal(s, "replace") {
            ChangeValuePlacement::Replace
        } else {
            return Err(AuditError::with_detail("unknown placement: ", self.placement.as_str()));
        };
        self.watch_id_cache = Some(WatchId::new(i, group));
        self.placement_cache = Some(p);
        Ok(())
    }
}

/// A send action: which change action's requests to send, how many times,
/// and the timeout of each.
#[derive(Clone, Debug, PartialEq, Eq)]
pub struct RuleSendAction {
    pub id: Option<String>,
    pub apply: String,
    pub apply_cache: Option<usize>,
    pub repeat: Option<usize>,
    pub timeout_after: Option<usize>,
}

impl RuleSendAction {
    /// Resolves the change action among the `change_count` change actions
    /// before it. On an error nothing changes.
    pub fn check_up(&mut self, change_ids: Option<&Vec<(String, usize)>>, change_count: usize) -> (r: Result<(), AuditError>)
        ensures
            match r {
                Ok(()) => match resolve_id(old(self).apply@, ids_view(change_ids)) {
                    Some(i) => i < change_count && *final(self) == (RuleSendAction { apply_cache: Some(i), ..*old(self) }),
                    None => false,
                },
                Err(_) => !(match resolve_id(old(self).apply@, ids_view(change_ids)) {
                    Some(i) => i < change_count,
                    None => false,
                }) && *final(self) == *old(self),
            },
    {
        let i = match resolve_index(self.apply.as_str(), change_ids) {
            Some(i) => i,
            None => {
                return Err(AuditError::with_detail("could not resolve change id: ", self.apply.as_str()));
            },
        };
        if i >= change_count {
            return Err(AuditError::with_detail("send applies a change declared after it: ", self.apply.as_str()));
        }
        self.apply_cache = Some(i);
        Ok(())
    }

    /// How many times each request is sent.
    pub fn repeat_count(&self) -> (r: usize)
        ensures
            r == match self.repeat {
                Some(n) => n,
                None => 1,
            },
    {
        match self.repeat {
            Some(n) => n,
            None => 1,
        }
    }
}

} // verus!
