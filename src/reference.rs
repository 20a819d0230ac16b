//! Parsing references of the form `id.side.part[.header]`, where `id` is a
//! send index or the symbolic id of a send action.

use vstd::prelude::*;
use crate::error::{AuditError, ends_with};
use crate::text::{parse_usize, split_chars, split_on, usize_of, views_of, str_equal};
use crate::value::{MessagePart, MessagePartModel, PairPart, Reference, ReferenceModel};

verus! {

/// The index that a table of symbolic ids gives `key`: as in a map filled
/// in order, the last entry with that key wins.
pub open spec fn lookup_id(m: Seq<(String, usize)>, key: Seq<char>) -> Option<usize>
    decreases m.len(),
{
    if m.len() == 0 {
        None
    } else if m.last().0@ == key {
        Some(m.last().1)
    } else {
        lookup_id(m.drop_last(), key)
    }
}

/// The model of an optional table of symbolic send ids.
pub open spec fn ids_view(ids: Option<&Vec<(String, usize)>>) -> Option<Seq<(String, usize)>> {
    match ids {
        Some(m) => Some(m@),
        None => None,
    }
}

/// The send index that `raw` names: a number stands for itself, any other
/// id is looked up in the table, if there is one.
pub open spec fn resolve_id(raw: Seq<char>, ids: Option<Seq<(String, usize)>>) -> Option<usize> {
    match usize_of(raw) {
        Some(i) => Some(i),
        None => match ids {
            Some(m) => lookup_id(m, raw),
            None => None,
        },
    }
}

/// The side of a pair that `s` names.
pub open spec fn side_of(s: Seq<char>) -> Option<PairPart> {
    if s == "request"@ {
        Some(PairPart::Request)
    } else if s == "response"@ {
        Some(PairPart::Response)
    } else {
        None
    }
}

/// The part of a message that `s` names on side `side`, in the three-piece
/// form: a method and a path belong to requests, a status to responses, and
/// headers need a fourth piece.
pub open spec fn part_of(side: PairPart, s: Seq<char>) -> Option<MessagePartModel> {
    if s == "method"@ && side == PairPart::Request {
        Some(MessagePartModel::Method)
    } else if s == "path"@ && side == PairPart::Request {
        Some(MessagePartModel::Path)
    } else if s == "version"@ {
        Some(MessagePartModel::Version)
    } else if s == "body"@ {
        Some(MessagePartModel::Body)
    } else if s == "status"@ && side == PairPart::Response {
        Some(MessagePartModel::Status)
    } else {
        None
    }
}

/// The reference that `raw` writes, where `results_count` send results can
/// be read (the captured pair at index 0 included).
pub open spec fn reference_of(
    raw: Seq<char>,
    ids: Option<Seq<(String, usize)>>,
    results_count: usize,
) -> Option<ReferenceModel> {
    let parts = split_on(raw, '.');
    if parts.len() < 3 || parts.len() > 4 {
        None
    } else {
        match resolve_id(parts[0], ids) {
            None => None,
            Some(id) => if id >= results_count {
                None
            } else {
                match side_of(parts[1]) {
                    None => None,
                    Some(side) => if parts.len() == 3 {
                        match part_of(side, parts[2]) {
                            Some(p) => Some(ReferenceModel { id, pair_part: side, message_part: p }),
                            None => None,
                        }
                    } else if parts[2] == "headers"@ {
                        Some(
                            ReferenceModel {
                                id,
                                pair_part: side,
                                message_part: MessagePartModel::Header(parts[3]),
                            },
                        )
                    } else {
                        None
                    },
                }
            },
        }
    }
}

/// What the message of a rejected reference ends with: the id where it
/// does not resolve, else the whole reference.
pub open spec fn reference_error_detail(raw: Seq<char>, ids: Option<Seq<(String, usize)>>) -> Seq<char> {
    let parts = split_on(raw, '.');
    if 3 <= parts.len() <= 4 && resolve_id(parts[0], ids) is None {
        parts[0]
    } else {
        raw
    }
}

/// Looks `key` up in a table of symbolic ids; the last entry with that key wins.
pub fn lookup_send_id(m: &Vec<(String, usize)>, key: &str) -> (r: Option<usize>)
    ensures
        r == lookup_id(m@, key@),
{
    let mut i: usize = m.len();
    assert(m@.subrange(0, m@.len() as int) =~= m@);
    while i > 0
        invariant
            i <= m@.len(),
            lookup_id(m@, key@) == lookup_id(m@.subrange(0, i as int), key@),
        decreases i,
    {
        let ghost pre = m@.subrange(0, i as int);
        assert(pre.last() == m@[i - 1]);
        assert(pre.drop_last() =~= m@.subrange(0, i - 1));
        if str_equal(m[i - 1].0.as_str(), key) {
            return Some(m[i - 1].1);
        }
        i = i - 1;
    }
    None
}

/// Resolves a send or find id: a number stands for itself, any other id is
/// looked up in the table, if there is one.
pub fn resolve_index(raw: &str, ids: Option<&Vec<(String, usize)>>) -> (r: Option<usize>)
    ensures
        r == resolve_id(raw@, ids_view(ids)),
{
    match parse_usize(raw) {
        Some(i) => Some(i),
        None => match ids {
            Some(m) => lookup_send_id(m, raw),
            None => None,
        },
    }
}

/// Parses `id.side.part[.header]`. `results_count` is the number of send
/// results the reference may read, the captured pair at index 0 included;
/// symbolic ids are looked up in `ids`.
pub fn parse_reference(raw: &str, ids: Option<&Vec<(String, usize)>>, results_count: usize) -> (r: Result<Reference, AuditError>)
    ensures
        match r {
            Ok(x) => reference_of(raw@, ids_view(ids), results_count) == Some(x@),
            Err(e) => reference_of(raw@, ids_view(ids), results_count) is None
                && ends_with(e.0@, reference_error_detail(raw@, ids_view(ids))),
        },
{
    let parts = split_chars(raw, '.');
    let ghost pv = split_on(raw@, '.');
    assert(views_of(parts@) == pv);
    assert(forall|k: int| 0 <= k < parts@.len() ==> #[trigger] pv[k] == parts@[k]@);
    if parts.len() < 3 || parts.len() > 4 {
        return Err(AuditError::with_detail("reference must have three or four dot-separated parts: ", raw));
    }
    let id_str = parts[0].as_str();
    let id = match parse_usize(id_str) {
        Some(i) => i,
        None => match ids {
            Some(m) => match lookup_send_id(m, id_str) {
                Some(i) => i,
                None => {
                    return Err(AuditError::with_detail("could not resolve send id: ", id_str));
                },
            },
            None => {
                return Err(AuditError::with_detail("could not resolve send id, no mappings for resolving: ", id_str));
            },
        },
    };
    if id >= results_count {
        return Err(AuditError::with_detail("reference points past the send actions declared before it: ", raw));
    }
    let side = if str_equal(parts[1].as_str(), "request") {
        PairPart::Request
    } else if str_equal(parts[1].as_str(), "response") {
        PairPart::Response
    } else {
        return Err(AuditError::with_detail("unknown pair part in reference: ", raw));
    };
    let pn = parts[2].as_str();
    let part = if parts.len() == 3 {
        if str_equal(pn, "method") && side == PairPart::Request {
            MessagePart::Method
        } else if str_equal(pn, "path") && side == PairPart::Request {
            MessagePart::Path
        } else if str_equal(pn, "version") {
            MessagePart::Version
        } else if str_equal(pn, "body") {
            MessagePart::Body
        } else if str_equal(pn, "status") && side == PairPart::Response {
            MessagePart::Status
        } else {
            return Err(AuditError::with_detail("unknown or misplaced message part in reference: ", raw));
        }
    } else if str_equal(pn, "headers") {
        MessagePart::Header(parts[3].clone())
    } else {
        return Err(AuditError::with_detail("only headers take a fourth part in a reference: ", raw));
    };
    Ok(Reference { id, pair_part: side, message_part: part })
}

} // verus!
