//! Writing a reference back in its `id.side.part[.header]` form.

use vstd::prelude::*;
use crate::reference::{reference_of, resolve_id};
use crate::text::{all_digits, decimal_value, digit_value, is_digit, split_on, unsigned_digits, usize_of};
use crate::value::{MessagePart, MessagePartModel, PairPart, Reference, ReferenceModel};

verus! {

/// The character of a decimal digit.
pub open spec fn digit_char(d: nat) -> char {
    if d == 0 { '0' } else if d == 1 { '1' } else if d == 2 { '2' } else if d == 3 { '3' } else if d == 4 {
        '4'
    } else if d == 5 { '5' } else if d == 6 { '6' } else if d == 7 { '7' } else if d == 8 { '8' } else {
        '9'
    }
}

/// `n` in decimal, without leading zeros.
pub open spec fn decimal_of(n: nat) -> Seq<char>
    decreases n,
{
    if n < 10 {
        seq![digit_char(n)]
    } else {
        decimal_of(n / 10).push(digit_char(n % 10))
    }
}

/// The pieces joined with dots.
pub open spec fn join_dots(ps: Seq<Seq<char>>) -> Seq<char>
    decreases ps.len(),
{
    if ps.len() <= 1 {
        if ps.len() == 1 { ps[0] } else { Seq::<char>::empty() }
    } else {
        join_dots(ps.drop_last()).push('.') + ps.last()
    }
}

/// The name of a side.
pub open spec fn side_name(p: PairPart) -> Seq<char> {
    match p {
        PairPart::Request => "request"@,
        PairPart::Response => "response"@,
    }
}

/// The name of a message part.
pub open spec fn part_name(p: MessagePartModel) -> Seq<char> {
    match p {
        MessagePartModel::Method => "method"@,
        MessagePartModel::Path => "path"@,
        MessagePartModel::Version => "version"@,
        MessagePartModel::Status => "status"@,
        MessagePartModel::Body => "body"@,
        MessagePartModel::Header(_) => "headers"@,
    }
}

/// The pieces of the written form of a reference.
pub open spec fn reference_pieces(r: ReferenceModel) -> Seq<Seq<char>> {
    let base = seq![decimal_of(r.id as nat), side_name(r.pair_part), part_name(r.message_part)];
    match r.message_part {
        MessagePartModel::Header(h) => base.push(h),
        _ => base,
    }
}

/// The written form of a reference, with its send index in decimal.
pub open spec fn render_of(r: ReferenceModel) -> Seq<char> {
    join_dots(reference_pieces(r))
}

/// Whether `s` holds no `c`.
pub open spec fn free_of(s: Seq<char>, c: char) -> bool {
    forall|i: int| 0 <= i < s.len() ==> #[trigger] s[i] != c
}

proof fn lemma_split_no_sep(s: Seq<char>, t: Seq<char>, sep: char)
    requires
        free_of(t, sep),
    ensures
        split_on(s + t, sep) == split_on(s, sep).update(
            split_on(s, sep).len() - 1,
            split_on(s, sep).last() + t,
        ),
    decreases t.len(),
{
    crate::text::lemma_split_nonempty(s, sep);
    if t.len() == 0 {
        assert(s + t =~= s);
        assert(split_on(s, sep).last() + t =~= split_on(s, sep).last());
        assert(split_on(s, sep).update(split_on(s, sep).len() - 1, split_on(s, sep).last()) =~= split_on(s, sep));
    } else {
        let t0 = t.drop_last();
        assert(free_of(t0, sep));
        lemma_split_no_sep(s, t0, sep);
        assert((s + t).drop_last() =~= s + t0);
        assert((s + t).last() == t.last());
        crate::text::lemma_split_nonempty(s + t0, sep);
        assert(t.last() != sep);
        let ps = split_on(s, sep);
        assert((ps.last() + t0).push(t.last()) =~= ps.last() + t);
        assert(split_on(s + t, sep) =~= ps.update(ps.len() - 1, ps.last() + t));
    }
}

proof fn lemma_split_join(ps: Seq<Seq<char>>)
    requires
        ps.len() >= 1,
        forall|i: int| 0 <= i < ps.len() ==> free_of(#[trigger] ps[i], '.'),
    ensures
        split_on(join_dots(ps), '.') == ps,
    decreases ps.len(),
{
    if ps.len() == 1 {
        lemma_split_no_sep(Seq::<char>::empty(), ps[0], '.');
        assert(Seq::<char>::empty() + ps[0] =~= ps[0]);
        assert(split_on(Seq::<char>::empty(), '.') == seq![Seq::<char>::empty()]);
        assert(Seq::<char>::empty() + ps[0] =~= ps[0]);
        assert(seq![Seq::<char>::empty()].update(0, Seq::<char>::empty() + ps[0]) =~= ps);
    } else {
        let q = ps.drop_last();
        assert forall|i: int| 0 <= i < q.len() implies free_of(#[trigger] q[i], '.') by {
            assert(q[i] == ps[i]);
        }
        lemma_split_join(q);
        let j = join_dots(q).push('.');
        assert(j.drop_last() =~= join_dots(q));
        assert(split_on(j, '.') == q.push(Seq::<char>::empty()));
        assert(free_of(ps.last(), '.'));
        lemma_split_no_sep(j, ps.last(), '.');
        assert(Seq::<char>::empty() + ps.last() =~= ps.last());
        assert(q.push(Seq::<char>::empty()).update(q.len() as int, ps.last()) =~= ps);
    }
}

proof fn lemma_split_pieces_free(s: Seq<char>, sep: char)
    ensures
        forall|i: int| 0 <= i < split_on(s, sep).len() ==> free_of(#[trigger] split_on(s, sep)[i], sep),
    decreases s.len(),
{
    if s.len() > 0 {
        lemma_split_pieces_free(s.drop_last(), sep);
        crate::text::lemma_split_nonempty(s.drop_last(), sep);
        let ps = split_on(s.drop_last(), sep);
        if s.last() != sep {
            let l = ps.last().push(s.last());
            assert(free_of(ps.last(), sep));
            assert(free_of(l, sep)) by {
                assert forall|i: int| 0 <= i < l.len() implies #[trigger] l[i] != sep by {
                    if i < ps.last().len() {
                        assert(l[i] == ps.last()[i]);
                    }
                }
            }
        }
    }
}

proof fn lemma_digit_char(k: nat)
    requires
        k < 10,
    ensures
        digit_value(digit_char(k)) == k,
        is_digit(digit_char(k)),
{
}

proof fn lemma_decimal(n: nat)
    ensures
        all_digits(decimal_of(n)),
        decimal_value(decimal_of(n)) == n,
        decimal_of(n)[0] != '+',
        free_of(decimal_of(n), '.'),
    decreases n,
{
    if n < 10 {
        assert(decimal_of(n) =~= seq![digit_char(n)]);
        assert(decimal_of(n).drop_last() =~= Seq::<char>::empty());
        lemma_digit_char(n);
        assert(decimal_value(decimal_of(n)) == decimal_value(Seq::<char>::empty()) * 10 + digit_value(digit_char(n)));
    } else {
        lemma_digit_char(n % 10);
        lemma_decimal(n / 10);
        let d = decimal_of(n);
        assert(d.drop_last() =~= decimal_of(n / 10));
        assert(d[0] == decimal_of(n / 10)[0]);
        assert forall|i: int| 0 <= i < d.len() implies is_digit(#[trigger] d[i]) by {
            if i < d.len() - 1 {
                assert(d[i] == decimal_of(n / 10)[i]);
            }
        }
        assert(n == (n / 10) * 10 + n % 10);
        assert(d.last() == digit_char(n % 10));
        assert(decimal_value(d) == decimal_value(decimal_of(n / 10)) * 10 + digit_value(digit_char(n % 10)));
    }
    let d = decimal_of(n);
    assert forall|i: int| 0 <= i < d.len() implies #[trigger] d[i] != '.' by {
        assert(is_digit(d[i]));
    }
}

/// Writing a parsed reference back and parsing that again gives the same
/// reference, and the written form holds the side, part and header pieces
/// of the original text, with the send index in decimal in front.
pub proof fn lemma_reference_round_trip(raw: Seq<char>, ids: Option<Seq<(String, usize)>>, results_count: usize)
    requires
        reference_of(raw, ids, results_count) is Some,
    ensures
        ({
            let r = reference_of(raw, ids, results_count)->0;
            &&& reference_of(render_of(r), ids, results_count) == Some(r)
            &&& split_on(render_of(r), '.')[0] == decimal_of(r.id as nat)
            &&& split_on(render_of(r), '.').subrange(1, split_on(render_of(r), '.').len() as int)
                == split_on(raw, '.').subrange(1, split_on(raw, '.').len() as int)
        }),
{
    reveal_strlit("request");
    reveal_strlit("response");
    reveal_strlit("method");
    reveal_strlit("path");
    reveal_strlit("version");
    reveal_strlit("status");
    reveal_strlit("body");
    reveal_strlit("headers");
    let r = reference_of(raw, ids, results_count)->0;
    let parts = split_on(raw, '.');
    lemma_split_pieces_free(raw, '.');
    lemma_decimal(r.id as nat);
    let ps = reference_pieces(r);
    assert(ps[1] == parts[1]);
    assert(ps[2] == parts[2]);
    if parts.len() == 4 {
        assert(ps[3] == parts[3]);
        assert(free_of(parts[3], '.'));
    }
    assert forall|i: int| 0 <= i < ps.len() implies free_of(#[trigger] ps[i], '.') by {
        if i >= 1 {
            assert(free_of(parts[i], '.'));
        }
    }
    lemma_split_join(ps);
    assert(usize_of(decimal_of(r.id as nat)) == Some(r.id)) by {
        assert(unsigned_digits(decimal_of(r.id as nat)) == decimal_of(r.id as nat));
    }
    assert(resolve_id(ps[0], ids) == Some(r.id));
    assert(ps.subrange(1, ps.len() as int) =~= parts.subrange(1, parts.len() as int));
}

/// The character of the decimal digit `d`, as text.
fn digit_str(d: usize) -> (r: &'static str)
    requires
        d < 10,
    ensures
        r@ == seq![digit_char(d as nat)],
{
    let r = if d == 0 { "0" } else if d == 1 { "1" } else if d == 2 { "2" } else if d == 3 { "3" } else if d == 4 {
        "4"
    } else if d == 5 { "5" } else if d == 6 { "6" } else if d == 7 { "7" } else if d == 8 { "8" } else {
        "9"
    };
    proof {
        reveal_strlit("0"); reveal_strlit("1"); reveal_strlit("2"); reveal_strlit("3"); reveal_strlit("4");
        reveal_strlit("5"); reveal_strlit("6"); reveal_strlit("7"); reveal_strlit("8"); reveal_strlit("9");
    }
    assert(r@ =~= seq![digit_char(d as nat)]);
    r
}

/// `n` in decimal.
pub fn decimal_string(n: usize) -> (r: String)
    ensures
        r@ == decimal_of(n as nat),
    decreases n,
{
    if n < 10 {
        digit_str(n).to_owned()
    } else {
        let head = decimal_string(n / 10);
        let r = head.concat(digit_str(n % 10));
        assert(r@ =~= decimal_of(n as nat));
        r
    }
}

impl Reference {
    /// This reference in its `id.side.part[.header]` form, with the send
    /// index in decimal.
    pub fn render(&self) -> (r: String)
        ensures
            r@ == render_of(self@),
    {
        proof {
            reveal_strlit(".");
            reveal_strlit("request");
            reveal_strlit("response");
        }
        let side = match self.pair_part {
            PairPart::Request => "request",
            PairPart::Response => "response",
        };
        let part = match &self.message_part {
            MessagePart::Method => "method",
            MessagePart::Path => "path",
            MessagePart::Version => "version",
            MessagePart::Status => "status",
            MessagePart::Body => "body",
            MessagePart::Header(_) => "headers",
        };
        let ghost ps = reference_pieces(self@);
        let d = decimal_string(self.id);
        let s1 = d.concat(".");
        let s2 = s1.concat(side);
        let s3 = s2.concat(".");
        let s = s3.concat(part);
        let ghost j2 = seq![ps[0], ps[1], ps[2]];
        assert(side@ == ps[1]);
        assert(part@ == ps[2]);
        assert(join_dots(seq![ps[0]]) == ps[0]);
        assert(seq![ps[0], ps[1]].drop_last() =~= seq![ps[0]]);
        assert(join_dots(seq![ps[0], ps[1]]) == ps[0].push('.') + ps[1]);
        assert(s2@ =~= ps[0].push('.') + ps[1]);
        assert(j2.drop_last() =~= seq![ps[0], ps[1]]);
        assert(join_dots(j2) == (ps[0].push('.') + ps[1]).push('.') + ps[2]);
        assert(s@ =~= join_dots(j2));
        match &self.message_part {
            MessagePart::Header(h) => {
                let t = s.concat(".").concat(h.as_str());
                assert(ps.drop_last() =~= j2);
                assert(t@ =~= join_dots(ps));
                t
            },
            _ => {
                assert(ps =~= j2);
                s
            },
        }
    }
}

} // verus!
