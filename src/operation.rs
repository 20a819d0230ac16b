//! The fixed table of operations: lookup by name, argument checks at
//! validation, and evaluation over dereferenced values.

use vstd::prelude::*;
use crate::text::{lower_of, lowercase, strip_underscores, without_underscores, chars_equal};
use crate::value::{Scalar, ScalarModel, Value, ValueModel, ValueType, scalar_of, scalar_views, value_views};

verus! {

/// What `regex::Regex::new(pattern)` and then `is_match(text)` give: `None`
/// when the pattern does not compile.
pub uninterp spec fn regex_match_of(pattern: Seq<char>, text: Seq<char>) -> Option<bool>;

/// Relies on `regex::Regex::new` and `regex::Regex::is_match`: whether the
/// pattern compiles, and whether it matches somewhere in the text, depend on
/// the two strings alone.
#[verifier::external_body]
pub(crate) fn regex_is_match(pattern: &str, text: &str) -> (r: Option<bool>)
    ensures
        r == regex_match_of(pattern@, text@),
{
    match regex::Regex::new(pattern) {
        Ok(re) => Some(re.is_match(text)),
        Err(_) => None,
    }
}

/// The operations of the expression language.
#[derive(Clone, Copy, Debug, PartialEq, Eq, Structural)]
pub enum Operation {
    Len,
    Equal,
    Greater,
    GreaterOrEqual,
    Less,
    LessOrEqual,
    ReMatch,
}

/// The operation a folded name (lower case, no underscores) stands for.
/// `<=>` stands for `GreaterOrEqual`, as rules written so far expect.
pub open spec fn operation_of(name: Seq<char>) -> Option<Operation> {
    if name == "len"@ {
        Some(Operation::Len)
    } else if name == "equal"@ || name == "="@ {
        Some(Operation::Equal)
    } else if name == "greater"@ || name == ">"@ {
        Some(Operation::Greater)
    } else if name == "greaterorequal"@ || name == ">="@ || name == "<=>"@ {
        Some(Operation::GreaterOrEqual)
    } else if name == "less"@ || name == "<"@ {
        Some(Operation::Less)
    } else if name == "lessorequal"@ || name == "<="@ {
        Some(Operation::LessOrEqual)
    } else if name == "rematch"@ || name == "~"@ {
        Some(Operation::ReMatch)
    } else {
        None
    }
}

/// The operation named by an already lower-cased name, underscores ignored.
pub fn operation_from_folded(name: &str) -> (r: Option<Operation>)
    ensures
        r == operation_of(strip_underscores(name@)),
{
    let v = without_underscores(name);
    if chars_equal(&v, "len") {
        Some(Operation::Len)
    } else if chars_equal(&v, "equal") || chars_equal(&v, "=") {
        Some(Operation::Equal)
    } else if chars_equal(&v, "greater") || chars_equal(&v, ">") {
        Some(Operation::Greater)
    } else if chars_equal(&v, "greaterorequal") || chars_equal(&v, ">=") || chars_equal(&v, "<=>") {
        Some(Operation::GreaterOrEqual)
    } else if chars_equal(&v, "less") || chars_equal(&v, "<") {
        Some(Operation::Less)
    } else if chars_equal(&v, "lessorequal") || chars_equal(&v, "<=") {
        Some(Operation::LessOrEqual)
    } else if chars_equal(&v, "rematch") || chars_equal(&v, "~") {
        Some(Operation::ReMatch)
    } else {
        None
    }
}

/// The operation named by `name`, case and underscores ignored.
pub fn parse_operation(name: &str) -> (r: Option<Operation>)
    ensures
        r == operation_of(strip_underscores(lower_of(name@))),
{
    let folded = lowercase(name);
    operation_from_folded(folded.as_str())
}

/// The type of what an operation returns.
pub open spec fn result_type_of(op: Operation) -> ValueType {
    match op {
        Operation::Len => ValueType::Integer,
        _ => ValueType::Boolean,
    }
}

/// Whether an operation accepts arguments of these types.
pub open spec fn args_fit(op: Operation, t: Seq<ValueType>) -> bool {
    match op {
        Operation::Len => t.len() == 1 && t[0] == ValueType::String,
        Operation::Equal => t.len() >= 2 && forall|i: int| 0 <= i < t.len() ==> #[trigger] t[i] == t[0],
        Operation::ReMatch => t.len() == 2 && t[0] == ValueType::String && t[1]
            == ValueType::String,
        _ => t.len() == 2 && t[0] == ValueType::Integer && t[1] == ValueType::Integer,
    }
}

/// What an operation gives on plain arguments; `None` where it cannot run.
pub open spec fn eval_scalar(op: Operation, a: Seq<ScalarModel>) -> Option<ScalarModel> {
    match op {
        Operation::Len => if a.len() == 1 && a[0] is String && a[0]->String_0.len() <= i64::MAX {
            Some(ScalarModel::Integer(a[0]->String_0.len() as i64))
        } else {
            None
        },
        Operation::Equal => if a.len() >= 2 {
            Some(ScalarModel::Boolean(forall|i: int| 0 <= i < a.len() ==> #[trigger] a[i] == a[0]))
        } else {
            None
        },
        Operation::ReMatch => if a.len() == 2 && a[0] is String && a[1] is String {
            match regex_match_of(a[1]->String_0, a[0]->String_0) {
                Some(b) => Some(ScalarModel::Boolean(b)),
                None => None,
            }
        } else {
            None
        },
        _ => if a.len() == 2 && a[0] is Integer && a[1] is Integer {
            let x = a[0]->Integer_0;
            let y = a[1]->Integer_0;
            Some(
                ScalarModel::Boolean(
                    match op {
                        Operation::Greater => x > y,
                        Operation::GreaterOrEqual => x >= y,
                        Operation::Less => x < y,
                        _ => x <= y,
                    },
                ),
            )
        } else {
            None
        },
    }
}

/// The position of the first `Several` among the arguments, or their number
/// where there is none.
pub open spec fn first_several(a: Seq<ValueModel>) -> int
    decreases a.len(),
{
    if a.len() == 0 {
        0
    } else {
        let k = first_several(a.drop_last());
        if k < a.len() - 1 {
            k
        } else if a.last() is Several {
            a.len() - 1
        } else {
            a.len() as int
        }
    }
}

/// The arguments as plain values, with `x` standing at position `k`.
pub open spec fn scalars_with(a: Seq<ValueModel>, k: int, x: ScalarModel) -> Seq<ScalarModel> {
    Seq::new(a.len(), |i: int| if i == k { x } else { scalar_of(a[i])->0 })
}

/// What an operation gives on dereferenced arguments. Without a `Several`
/// it runs on the plain values; with one `Several` it runs once per element,
/// in order, and the results form a `Several`. Two `Several` arguments, an
/// argument that is no plain value, or a failing run give `None`.
pub open spec fn eval_values(op: Operation, a: Seq<ValueModel>) -> Option<ValueModel> {
    let k = first_several(a);
    if exists|i: int| 0 <= i < a.len() && i != k && !(scalar_of(#[trigger] a[i]) is Some) {
        None
    } else if k == a.len() {
        match eval_scalar(op, Seq::new(a.len(), |i: int| scalar_of(a[i])->0)) {
            Some(s) => Some(crate::value::value_of_scalar(s)),
            None => None,
        }
    } else {
        let xs = a[k]->Several_0;
        if forall|j: int| 0 <= j < xs.len() ==> (#[trigger] eval_scalar(op, scalars_with(a, k, xs[j]))) is Some {
            Some(ValueModel::Several(Seq::new(xs.len(), |j: int| eval_scalar(op, scalars_with(a, k, xs[j]))->0)))
        } else {
            None
        }
    }
}

impl Operation {
    /// The type of what this operation returns.
    pub fn result_type(&self) -> (r: ValueType)
        ensures
            r == result_type_of(*self),
    {
        match self {
            Operation::Len => ValueType::Integer,
            _ => ValueType::Boolean,
        }
    }

    /// Whether this operation accepts arguments of these types.
    pub fn check_args(&self, t: &Vec<ValueType>) -> (r: bool)
        ensures
            r == args_fit(*self, t@),
    {
        match self {
            Operation::Len => t.len() == 1 && t[0] == ValueType::String,
            Operation::Equal => {
                if t.len() < 2 {
                    return false;
                }
                let mut i: usize = 1;
                while i < t.len()
                    invariant
                        1 <= i <= t@.len(),
                        forall|j: int| 0 <= j < i ==> #[trigger] t@[j] == t@[0],
                    decreases t@.len() - i,
                {
                    if t[i] != t[0] {
                        return false;
                    }
                    i = i + 1;
                }
                true
            },
            Operation::ReMatch => t.len() == 2 && t[0] == ValueType::String && t[1]
                == ValueType::String,
            _ => t.len() == 2 && t[0] == ValueType::Integer && t[1] == ValueType::Integer,
        }
    }

    /// Runs this operation on plain arguments.
    pub fn eval_scalars(&self, a: &Vec<Scalar>) -> (r: Option<Scalar>)
        ensures
            match r {
                Some(s) => eval_scalar(*self, scalar_views(a@)) == Some(s@),
                None => eval_scalar(*self, scalar_views(a@)) is None,
            },
    {
        let ghost av = scalar_views(a@);
        assert(av.len() == a@.len());
        match self {
            Operation::Len => {
                if a.len() != 1 {
                    return None;
                }
                assert(av[0] == a@[0]@);
                match &a[0] {
                    Scalar::String(s) => {
                        let n = s.as_str().unicode_len();
                        if n as u64 > 0x7fff_ffff_ffff_ffffu64 {
                            None
                        } else {
                            Some(Scalar::Integer(n as i64))
                        }
                    },
                    _ => None,
                }
            },
            Operation::Equal => {
                if a.len() < 2 {
                    return None;
                }
                let mut i: usize = 1;
                let mut all = true;
                while i < a.len()
                    invariant
                        1 <= i <= a@.len(),
                        av == scalar_views(a@),
                        all == (forall|j: int| 0 <= j < i ==> #[trigger] av[j] == av[0]),
                    decreases a@.len() - i,
                {
                    let e = scalars_equal(&a[i], &a[0]);
                    assert(av[i as int] == a@[i as int]@ && av[0] == a@[0]@);
                    proof {
                        if !e {
                            assert(av[i as int] != av[0]);
                        }
                        if all && e {
                            assert forall|j: int| 0 <= j < i + 1 implies #[trigger] av[j] == av[0] by {
                                if j < i {
                                    assert(av[j] == av[0]);
                                }
                            }
                        }
                    }
                    all = all && e;
                    i = i + 1;
                }
                Some(Scalar::Boolean(all))
            },
            Operation::ReMatch => {
                if a.len() != 2 {
                    return None;
                }
                assert(av[0] == a@[0]@ && av[1] == a@[1]@);
                match (&a[0], &a[1]) {
                    (Scalar::String(text), Scalar::String(pattern)) => {
                        match regex_is_match(pattern.as_str(), text.as_str()) {
                            Some(b) => Some(Scalar::Boolean(b)),
                            None => None,
                        }
                    },
                    _ => None,
                }
            },
            _ => {
                if a.len() != 2 {
                    return None;
                }
                assert(av[0] == a@[0]@ && av[1] == a@[1]@);
                match (&a[0], &a[1]) {
                    (Scalar::Integer(x), Scalar::Integer(y)) => {
                        let b = match self {
                            Operation::Greater => *x > *y,
                            Operation::GreaterOrEqual => *x >= *y,
                            Operation::Less => *x < *y,
                            _ => *x <= *y,
                        };
                        Some(Scalar::Boolean(b))
                    },
                    _ => None,
                }
            },
        }
    }
}

/// Whether two plain values are equal.
pub fn scalars_equal(x: &Scalar, y: &Scalar) -> (r: bool)
    ensures
        r == (x@ == y@),
{
    match (x, y) {
        (Scalar::String(a), Scalar::String(b)) => *a == *b,
        (Scalar::Integer(a), Scalar::Integer(b)) => *a == *b,
        (Scalar::Boolean(a), Scalar::Boolean(b)) => *a == *b,
        _ => false,
    }
}

proof fn lemma_first_several(a: Seq<ValueModel>)
    ensures
        0 <= first_several(a) <= a.len(),
        first_several(a) < a.len() ==> a[first_several(a)] is Several,
        forall|i: int| 0 <= i < first_several(a) ==> !(#[trigger] a[i] is Several),
    decreases a.len(),
{
    if a.len() > 0 {
        lemma_first_several(a.drop_last());
        let k = first_several(a.drop_last());
        assert forall|i: int| 0 <= i < first_several(a) implies !(#[trigger] a[i] is Several) by {
            if i < a.len() - 1 {
                assert(a[i] == a.drop_last()[i]);
            }
        }
        if k < a.len() - 1 {
            assert(a[k] == a.drop_last()[k]);
        }
    }
}

/// Runs an operation on dereferenced arguments, lifting it over one `Several`.
pub fn evaluate(op: Operation, args: &Vec<Value>) -> (r: Option<Value>)
    ensures
        match r {
            Some(v) => eval_values(op, value_views(args@)) == Some(v@),
            None => eval_values(op, value_views(args@)) is None,
        },
{
    let ghost a = value_views(args@);
    let n = args.len();
    assert(a.len() == n);
    proof { lemma_first_several(a); }
    let mut k: usize = 0;
    while k < n
        invariant
            n == args@.len(),
            a == value_views(args@),
            k <= n,
            forall|i: int| 0 <= i < k ==> !(#[trigger] a[i] is Several),
        ensures
            k <= n,
            k < n ==> a[k as int] is Several,
            forall|i: int| 0 <= i < k ==> !(#[trigger] a[i] is Several),
        decreases n - k,
    {
        assert(a[k as int] == args@[k as int]@);
        if let Value::Several(_) = &args[k] {
            break;
        }
        k = k + 1;
    }
    proof {
        let f = first_several(a);
        if k < n {
            assert(a[k as int] == args@[k as int]@);
        }
        if f < k {
            assert(!(a[f] is Several));
        }
        if k < f {
            assert(!(a[k as int] is Several));
        }
        assert(k == f);
    }
    let mut base: Vec<Scalar> = Vec::new();
    let mut i: usize = 0;
    while i < n
        invariant
            n == args@.len(),
            a == value_views(args@),
            k == first_several(a),
            i <= n,
            base@.len() == i,
            forall|j: int| 0 <= j < i ==> j != k ==> scalar_of(a[j]) == Some(#[trigger] base@[j]@),
            forall|j: int| 0 <= j < i ==> j != k ==> scalar_of(#[trigger] a[j]) is Some,
        decreases n - i,
    {
        assert(a[i as int] == args@[i as int]@);
        if i == k {
            base.push(Scalar::Boolean(false));
        } else {
            match args[i].as_scalar() {
                Some(x) => base.push(x),
                None => {
                    assert(!(scalar_of(a[i as int]) is Some));
                    return None;
                },
            }
        }
        i = i + 1;
    }
    if k == n {
        assert(scalar_views(base@) =~= Seq::new(a.len(), |i: int| scalar_of(a[i])->0));
        match op.eval_scalars(&base) {
            Some(s) => Some(s.into_value()),
            None => None,
        }
    } else {
        let xs: &Vec<Scalar> = match &args[k] {
            Value::Several(v) => v,
            _ => {
                return None;
            },
        };
        assert(a[k as int] == args@[k as int]@);
        let ghost sx = scalar_views(xs@);
        assert(a[k as int]->Several_0 == sx);
        let mut out: Vec<Scalar> = Vec::new();
        let mut j: usize = 0;
        while j < xs.len()
            invariant
                n == args@.len(),
                a == value_views(args@),
                k == first_several(a),
                k < n,
                base@.len() == n,
                sx == scalar_views(xs@),
                sx == a[k as int]->Several_0,
                forall|t: int| 0 <= t < n ==> t != k ==> scalar_of(a[t]) == Some(#[trigger] base@[t]@),
                j <= xs@.len(),
                out@.len() == j,
                forall|t: int| 0 <= t < j ==> #[trigger] eval_scalar(op, scalars_with(a, k as int, sx[t])) == Some(out@[t]@),
            decreases xs@.len() - j,
        {
            base.set(k, xs[j].copy());
            assert(scalar_views(base@) =~= scalars_with(a, k as int, sx[j as int]));
            match op.eval_scalars(&base) {
                Some(s) => {
                    out.push(s);
                },
                None => {
                    return None;
                },
            }
            j = j + 1;
        }
        assert(scalar_views(out@) =~= Seq::new(sx.len(), |t: int| eval_scalar(op, scalars_with(a, k as int, sx[t]))->0));
        Some(Value::Several(out))
    }
}

} // verus!
