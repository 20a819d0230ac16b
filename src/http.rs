//! Captured requests and responses, send results, and dereferencing a
//! reference against them.

use vstd::prelude::*;
use crate::text::{lower_of, lowercase, lossy_of, lossy_utf8};
use crate::value::{MessagePart, MessagePartModel, PairPart, Reference, ReferenceModel, Scalar, ScalarModel, Value, ValueModel, scalar_views};

verus! {

/// The models of a list of header lines.
pub open spec fn headers_view(h: Seq<(String, String)>) -> Seq<(Seq<char>, Seq<char>)> {
    h.map_values(|p: (String, String)| (p.0@, p.1@))
}

/// A captured or mutated HTTP request.
#[derive(Clone, Debug, PartialEq, Eq)]
pub struct Request {
    pub method: String,
    pub path: String,
    pub version: String,
    pub headers: Vec<(String, String)>,
    pub body: Vec<u8>,
}

/// Model of a [`Request`].
pub struct RequestModel {
    pub method: Seq<char>,
    pub path: Seq<char>,
    pub version: Seq<char>,
    pub headers: Seq<(Seq<char>, Seq<char>)>,
    pub body: Seq<u8>,
}

impl View for Request {
    type V = RequestModel;

    open spec fn view(&self) -> RequestModel {
        RequestModel {
            method: self.method@,
            path: self.path@,
            version: self.version@,
            headers: headers_view(self.headers@),
            body: self.body@,
        }
    }
}

/// A captured or received HTTP response.
#[derive(Clone, Debug, PartialEq, Eq)]
pub struct Response {
    pub version: String,
    pub status: u16,
    pub headers: Vec<(String, String)>,
    pub body: Vec<u8>,
}

/// Model of a [`Response`].
pub struct ResponseModel {
    pub version: Seq<char>,
    pub status: u16,
    pub headers: Seq<(Seq<char>, Seq<char>)>,
    pub body: Seq<u8>,
}

impl View for Response {
    type V = ResponseModel;

    open spec fn view(&self) -> ResponseModel {
        ResponseModel {
            version: self.version@,
            status: self.status,
            headers: headers_view(self.headers@),
            body: self.body@,
        }
    }
}

/// Copies a list of header lines.
pub fn copy_headers(h: &Vec<(String, String)>) -> (r: Vec<(String, String)>)
    ensures
        headers_view(r@) == headers_view(h@),
{
    let mut r: Vec<(String, String)> = Vec::new();
    let mut i: usize = 0;
    while i < h.len()
        invariant
            i <= h@.len(),
            headers_view(r@) == headers_view(h@.subrange(0, i as int)),
        decreases h@.len() - i,
    {
        let ghost before = headers_view(r@);
        r.push((h[i].0.clone(), h[i].1.clone()));
        assert(headers_view(r@) =~= before.push((h@[i as int].0@, h@[i as int].1@)));
        assert(headers_view(h@.subrange(0, i as int + 1)) =~= headers_view(h@.subrange(0, i as int)).push(
            (h@[i as int].0@, h@[i as int].1@),
        ));
        i = i + 1;
    }
    assert(h@.subrange(0, h@.len() as int) =~= h@);
    r
}

impl Request {
    /// A copy of this request.
    pub fn copy(&self) -> (r: Request)
        ensures
            r@ == self@,
    {
        Request {
            method: self.method.clone(),
            path: self.path.clone(),
            version: self.version.clone(),
            headers: copy_headers(&self.headers),
            body: self.body.clone(),
        }
    }
}

impl Response {
    /// A copy of this response.
    pub fn copy(&self) -> (r: Response)
        ensures
            r@ == self@,
    {
        Response {
            version: self.version.clone(),
            status: self.status,
            headers: copy_headers(&self.headers),
            body: self.body.clone(),
        }
    }
}

/// A request and its response, as the proxy captured them.
#[derive(Clone, Debug, PartialEq, Eq)]
pub struct RequestResponsePair {
    pub index: usize,
    pub request: Request,
    pub response: Response,
}

/// Position of a substring in the textual form of a message: line 0 is the
/// start line, lines 1 to H the header lines, then the body lines. A range
/// from 0 to 0 stands for the whole line.
#[derive(Clone, Copy, Debug, PartialEq, Eq, Structural)]
pub struct Coordinates {
    pub line: usize,
    pub start: usize,
    pub end: usize,
}

/// What one send of one mutated request gave.
#[derive(Clone, Debug, PartialEq, Eq)]
pub struct SingleSendActionResult {
    /// The payload or pattern key this request was made for.
    pub key: String,
    pub request_sent: Request,
    pub positions_changed: Coordinates,
    pub responses_received: Vec<Response>,
}

/// Model of a [`SingleSendActionResult`].
pub struct SingleSendModel {
    pub key: Seq<char>,
    pub request_sent: RequestModel,
    pub positions_changed: Coordinates,
    pub responses_received: Seq<ResponseModel>,
}

impl View for SingleSendActionResult {
    type V = SingleSendModel;

    open spec fn view(&self) -> SingleSendModel {
        SingleSendModel {
            key: self.key@,
            request_sent: self.request_sent@,
            positions_changed: self.positions_changed,
            responses_received: self.responses_received@.map_values(|r: Response| r@),
        }
    }
}

/// The models of the entries of one send action.
pub open spec fn entries_view(v: Seq<SingleSendActionResult>) -> Seq<SingleSendModel> {
    v.map_values(|e: SingleSendActionResult| e@)
}

/// The models of all send results, one sequence of entries per send action.
pub open spec fn sends_view(v: Seq<Vec<SingleSendActionResult>>) -> Seq<Seq<SingleSendModel>> {
    v.map_values(|e: Vec<SingleSendActionResult>| entries_view(e@))
}

/// All sequences of `s`, one after another.
pub open spec fn concat_all<A>(s: Seq<Seq<A>>) -> Seq<A>
    decreases s.len(),
{
    if s.len() == 0 {
        Seq::<A>::empty()
    } else {
        concat_all(s.drop_last()) + s.last()
    }
}

/// The values of the headers named `name`, compared case-insensitively, in order.
pub open spec fn header_values(h: Seq<(Seq<char>, Seq<char>)>, name: Seq<char>) -> Seq<ScalarModel>
    decreases h.len(),
{
    if h.len() == 0 {
        Seq::<ScalarModel>::empty()
    } else if lower_of(h.last().0) == lower_of(name) {
        header_values(h.drop_last(), name).push(ScalarModel::String(h.last().1))
    } else {
        header_values(h.drop_last(), name)
    }
}

/// What a part of a request holds; a status is no part of a request.
pub open spec fn request_values(r: RequestModel, p: MessagePartModel) -> Seq<ScalarModel> {
    match p {
        MessagePartModel::Method => seq![ScalarModel::String(r.method)],
        MessagePartModel::Path => seq![ScalarModel::String(r.path)],
        MessagePartModel::Version => seq![ScalarModel::String(r.version)],
        MessagePartModel::Status => Seq::<ScalarModel>::empty(),
        MessagePartModel::Body => seq![ScalarModel::String(lossy_of(r.body))],
        MessagePartModel::Header(n) => header_values(r.headers, n),
    }
}

/// What a part of a response holds; a method or a path is no part of a response.
pub open spec fn response_values(r: ResponseModel, p: MessagePartModel) -> Seq<ScalarModel> {
    match p {
        MessagePartModel::Method => Seq::<ScalarModel>::empty(),
        MessagePartModel::Path => Seq::<ScalarModel>::empty(),
        MessagePartModel::Version => seq![ScalarModel::String(r.version)],
        MessagePartModel::Status => seq![ScalarModel::Integer(r.status as i64)],
        MessagePartModel::Body => seq![ScalarModel::String(lossy_of(r.body))],
        MessagePartModel::Header(n) => header_values(r.headers, n),
    }
}

/// What a part of each response holds, one response after another.
pub open spec fn responses_values(rs: Seq<ResponseModel>, p: MessagePartModel) -> Seq<ScalarModel> {
    concat_all(rs.map_values(|y: ResponseModel| response_values(y, p)))
}

/// What a reference reads from the entries of one send action: the parts
/// of each request sent, or of each response received, in order.
pub open spec fn entry_values(e: Seq<SingleSendModel>, r: ReferenceModel) -> Seq<ScalarModel> {
    match r.pair_part {
        PairPart::Request => concat_all(
            e.map_values(|x: SingleSendModel| request_values(x.request_sent, r.message_part)),
        ),
        PairPart::Response => concat_all(
            e.map_values(|x: SingleSendModel| responses_values(x.responses_received, r.message_part)),
        ),
    }
}

/// What a reference reads from the send results: `None` where it points
/// past them.
pub open spec fn deref_of(r: ReferenceModel, sends: Seq<Seq<SingleSendModel>>) -> Option<ValueModel> {
    if r.id < sends.len() {
        Some(ValueModel::Several(entry_values(sends[r.id as int], r)))
    } else {
        None
    }
}

proof fn lemma_concat_push<A>(s: Seq<Seq<A>>, x: Seq<A>)
    ensures
        concat_all(s.push(x)) == concat_all(s) + x,
{
    assert(s.push(x).drop_last() =~= s);
}

/// Appends the values of the headers named `name` to `out`.
fn push_header_values(h: &Vec<(String, String)>, name: &str, out: &mut Vec<Scalar>)
    ensures
        scalar_views(final(out)@) == scalar_views(old(out)@) + header_values(headers_view(h@), name@),
{
    let wanted = lowercase(name);
    let ghost start = scalar_views(out@);
    let mut i: usize = 0;
    while i < h.len()
        invariant
            i <= h@.len(),
            wanted@ == lower_of(name@),
            scalar_views(out@) == start + header_values(headers_view(h@.subrange(0, i as int)), name@),
        decreases h@.len() - i,
    {
        let ghost hv = headers_view(h@.subrange(0, i as int + 1));
        assert(hv.drop_last() =~= headers_view(h@.subrange(0, i as int)));
        assert(hv.last() == (h@[i as int].0@, h@[i as int].1@));
        let key = lowercase(h[i].0.as_str());
        if key == wanted {
            let ghost before = scalar_views(out@);
            out.push(Scalar::String(h[i].1.clone()));
            assert(scalar_views(out@) =~= before.push(ScalarModel::String(h@[i as int].1@)));
        }
        i = i + 1;
    }
    assert(h@.subrange(0, h@.len() as int) =~= h@);
}

/// Appends what `part` of a request holds to `out`.
fn push_request_values(q: &Request, part: &MessagePart, out: &mut Vec<Scalar>)
    ensures
        scalar_views(final(out)@) == scalar_views(old(out)@) + request_values(q@, part@),
{
    let ghost before = scalar_views(out@);
    match part {
        MessagePart::Method => out.push(Scalar::String(q.method.clone())),
        MessagePart::Path => out.push(Scalar::String(q.path.clone())),
        MessagePart::Version => out.push(Scalar::String(q.version.clone())),
        MessagePart::Status => {},
        MessagePart::Body => out.push(Scalar::String(lossy_utf8(&q.body))),
        MessagePart::Header(n) => {
            push_header_values(&q.headers, n.as_str(), out);
        },
    }
    assert(scalar_views(out@) =~= before + request_values(q@, part@));
}

/// Appends what `part` of a response holds to `out`.
fn push_response_values(s: &Response, part: &MessagePart, out: &mut Vec<Scalar>)
    ensures
        scalar_views(final(out)@) == scalar_views(old(out)@) + response_values(s@, part@),
{
    let ghost before = scalar_views(out@);
    match part {
        MessagePart::Method => {},
        MessagePart::Path => {},
        MessagePart::Version => out.push(Scalar::String(s.version.clone())),
        MessagePart::Status => out.push(Scalar::Integer(s.status as i64)),
        MessagePart::Body => out.push(Scalar::String(lossy_utf8(&s.body))),
        MessagePart::Header(n) => {
            push_header_values(&s.headers, n.as_str(), out);
        },
    }
    assert(scalar_views(out@) =~= before + response_values(s@, part@));
}

/// Appends what `part` of each response holds to `out`.
fn push_responses_values(resp: &Vec<Response>, part: &MessagePart, out: &mut Vec<Scalar>)
    ensures
        scalar_views(final(out)@) == scalar_views(old(out)@) + responses_values(
            resp@.map_values(|r: Response| r@),
            part@,
        ),
{
    let ghost before = scalar_views(out@);
    let ghost rv = resp@.map_values(|r: Response| r@);
    let ghost p = part@;
    let mut j: usize = 0;
    while j < resp.len()
        invariant
            j <= resp@.len(),
            rv == resp@.map_values(|r: Response| r@),
            p == part@,
            scalar_views(out@) == before + responses_values(rv.subrange(0, j as int), p),
        decreases resp@.len() - j,
    {
        let ghost mid = scalar_views(out@);
        push_response_values(&resp[j], part, out);
        assert(rv[j as int] == resp@[j as int]@);
        let ghost done = rv.subrange(0, j as int).map_values(|y: ResponseModel| response_values(y, p));
        assert(rv.subrange(0, j as int + 1).map_values(|y: ResponseModel| response_values(y, p))
            =~= done.push(response_values(rv[j as int], p)));
        proof { lemma_concat_push(done, response_values(rv[j as int], p)); }
        assert((before + concat_all(done)) + response_values(rv[j as int], p) =~= before + (concat_all(done) + response_values(rv[j as int], p)));
        j = j + 1;
    }
    assert(rv.subrange(0, rv.len() as int) =~= rv);
}

impl Reference {
    /// Reads this reference from the send results; index 0 holds the
    /// captured pair. Headers that do not occur give an empty `Several`.
    pub fn deref(&self, sends: &Vec<Vec<SingleSendActionResult>>) -> (r: Option<Value>)
        ensures
            match r {
                Some(v) => deref_of(self@, sends_view(sends@)) == Some(v@),
                None => deref_of(self@, sends_view(sends@)) is None,
            },
    {
        if self.id >= sends.len() {
            return None;
        }
        let entries = &sends[self.id];
        let ghost ev = entries_view(entries@);
        assert(sends_view(sends@)[self.id as int] == ev);
        let mut out: Vec<Scalar> = Vec::new();
        let mut i: usize = 0;
        match self.pair_part {
            PairPart::Request => {
                while i < entries.len()
                    invariant
                        i <= entries@.len(),
                        ev == entries_view(entries@),
                        scalar_views(out@) == concat_all(
                            ev.subrange(0, i as int).map_values(
                                |x: SingleSendModel| request_values(x.request_sent, self@.message_part),
                            ),
                        ),
                    decreases entries@.len() - i,
                {
                    push_request_values(&entries[i].request_sent, &self.message_part, &mut out);
                    let ghost f = |x: SingleSendModel| request_values(x.request_sent, self@.message_part);
                    assert(ev.subrange(0, i as int + 1).map_values(f) =~= ev.subrange(0, i as int).map_values(f).push(f(ev[i as int])));
                    proof { lemma_concat_push(ev.subrange(0, i as int).map_values(f), f(ev[i as int])); }
                    i = i + 1;
                }
                assert(ev.subrange(0, ev.len() as int) =~= ev);
            },
            PairPart::Response => {
                while i < entries.len()
                    invariant
                        i <= entries@.len(),
                        ev == entries_view(entries@),
                        scalar_views(out@) == concat_all(
                            ev.subrange(0, i as int).map_values(
                                |x: SingleSendModel| responses_values(x.responses_received, self@.message_part),
                            ),
                        ),
                    decreases entries@.len() - i,
                {
                    let ghost f = |x: SingleSendModel| responses_values(x.responses_received, self@.message_part);
                    push_responses_values(&entries[i].responses_received, &self.message_part, &mut out);
                    assert(ev.subrange(0, i as int + 1).map_values(f) =~= ev.subrange(0, i as int).map_values(f).push(f(ev[i as int])));
                    proof { lemma_concat_push(ev.subrange(0, i as int).map_values(f), f(ev[i as int])); }
                    i = i + 1;
                }
                assert(ev.subrange(0, ev.len() as int) =~= ev);
            },
        }
        Some(Value::Several(out))
    }
}

} // verus!
